use crate::error::SettlementError;
use vstd::prelude::*;

verus! {

/// An event that the Lightning node publishes on the bus.
#[derive(Debug, Clone, PartialEq, Eq)]
pub enum LightningNodeEvent {
    /// A sent payment was successful.
    PaymentSuccessful { payment_hash: String },
    /// A sent payment has failed.
    PaymentFailed { payment_hash: String },
    /// A payment has been received; the amount is in millisatoshi.
    PaymentReceived { payment_hash: String, amount_msat: u64 },
    /// A channel has been created and is pending confirmation on-chain.
    ChannelPending {
        channel_id: String,
        user_channel_id: String,
        former_temporary_channel_id: String,
        counterparty_node_id: String,
        funding_txo: String,
    },
    /// A channel is ready to be used.
    ChannelReady { channel_id: String, user_channel_id: String, counterparty_node_id: Option<String> },
    /// A channel has been closed.
    ChannelClosed { channel_id: String, user_channel_id: String, counterparty_node_id: Option<String> },
}

/// The routing key under which an event is published: the payment hash for a
/// payment event, the channel id for a channel event.
pub open spec fn routing_key_of(e: LightningNodeEvent) -> String {
    match e {
        LightningNodeEvent::PaymentSuccessful { payment_hash } => payment_hash,
        LightningNodeEvent::PaymentFailed { payment_hash } => payment_hash,
        LightningNodeEvent::PaymentReceived { payment_hash, .. } => payment_hash,
        LightningNodeEvent::ChannelPending { channel_id, .. } => channel_id,
        LightningNodeEvent::ChannelReady { channel_id, .. } => channel_id,
        LightningNodeEvent::ChannelClosed { channel_id, .. } => channel_id,
    }
}

impl LightningNodeEvent {
    /// The routing key under which the event is published.
    pub fn routing_key(&self) -> (r: String)
        ensures
            r == routing_key_of(*self),
    {
        match self {
            LightningNodeEvent::PaymentSuccessful { payment_hash } => payment_hash.clone(),
            LightningNodeEvent::PaymentFailed { payment_hash } => payment_hash.clone(),
            LightningNodeEvent::PaymentReceived { payment_hash, .. } => payment_hash.clone(),
            LightningNodeEvent::ChannelPending { channel_id, .. } => channel_id.clone(),
            LightningNodeEvent::ChannelReady { channel_id, .. } => channel_id.clone(),
            LightningNodeEvent::ChannelClosed { channel_id, .. } => channel_id.clone(),
        }
    }
}

/// What the consumer tells the broker about a delivered message.
#[derive(Debug, Clone, Copy, PartialEq, Eq, Structural)]
pub enum Acknowledgement {
    /// The message is done with and is removed from the queue.
    Ack,
    /// The message stays unacknowledged, and the broker delivers it again.
    Leave,
}

/// A handler of received payments, which a service registers on the bus.
pub trait PaymentReceivedProcessor {
    fn payment_received_callback(&self, payment_hash: String, amount_msat: u64) -> Result<(), SettlementError>;
}

/// The acknowledgement for a received payment, given how its handler ended: a
/// handler that failed leaves the message for redelivery.
pub open spec fn acknowledgement_of(outcome: Result<(), SettlementError>) -> Acknowledgement {
    match outcome {
        Ok(_) => Acknowledgement::Ack,
        Err(_) => Acknowledgement::Leave,
    }
}

/// The acknowledgement for a received payment, given how its handler ended.
pub fn acknowledge_outcome(outcome: &Result<(), SettlementError>) -> (r: Acknowledgement)
    ensures
        r == acknowledgement_of(*outcome),
{
    match outcome {
        Ok(_) => Acknowledgement::Ack,
        Err(_) => Acknowledgement::Leave,
    }
}

/// Whether a decoded message asks for a handler: only a received payment does.
pub open spec fn needs_handler(event: Option<LightningNodeEvent>) -> bool {
    event matches Some(LightningNodeEvent::PaymentReceived { .. })
}

/// Hands each received payment of a subscription to its handler.
pub struct WalletkaNodePaymentsConsumer<F: PaymentReceivedProcessor> {
    pub callback: F,
}

impl<F: PaymentReceivedProcessor> WalletkaNodePaymentsConsumer<F> {
    pub fn new(callback: F) -> (r: Self)
        ensures
            r.callback == callback,
    {
        WalletkaNodePaymentsConsumer { callback }
    }

    /// Consumes one delivered message, already decoded (`None` where the payload
    /// is no known event). A received payment goes to the handler, whose result
    /// is returned beside the acknowledgement that `acknowledge_outcome` gives
    /// for it; every other message, and one that could not be decoded, is
    /// acknowledged without calling the handler.
    pub fn consume(&mut self, event: Option<LightningNodeEvent>) -> (r: (Acknowledgement, Option<Result<(), SettlementError>>))
        ensures
            r.1 is Some == needs_handler(event),
            r.0 == match r.1 {
                Some(outcome) => acknowledgement_of(outcome),
                None => Acknowledgement::Ack,
            },
            final(self).callback == old(self).callback,
    {
        match event {
            Some(LightningNodeEvent::PaymentReceived { payment_hash, amount_msat }) => {
                let outcome = self.callback.payment_received_callback(payment_hash, amount_msat);
                let ack = acknowledge_outcome(&outcome);
                (ack, Some(outcome))
            },
            _ => (Acknowledgement::Ack, None),
        }
    }
}

} // verus!
