use crate::error::SettlementError;
use crate::lsp::entity::{LspCustomer, LspCustomerConfig};
use vstd::prelude::*;

verus! {

/// The next thing to do with a received payment for a customer.
#[derive(Debug, Clone, PartialEq, Eq)]
pub enum DeliveryStep {
    /// Nothing is to be delivered; the event is done with.
    Done,
    /// Pay the amount straight to the customer's node.
    SendKeysend { node_id: String, amount_msat: u64 },
    /// Open a channel to the customer's node, pushing the amount to it.
    OpenChannel { node_id: String, channel_amount_sats: u64, push_to_counterparty_msat: u64, public: bool },
    /// Have the mint issue an e-cash token for the amount.
    MintToken { mint_id: String, amount_msat: u64 },
    /// Send the token to the customer's public identity.
    SendToken { npub: String, token: String },
    /// The payment reached the customer.
    Delivered,
    /// The payment could not be delivered.
    Failed(SettlementError),
}

/// How the outside work that a step asked for ended.
#[derive(Debug, Clone, PartialEq, Eq)]
pub enum StepOutcome {
    Succeeded,
    Failed,
    /// The mint issued this token.
    TokenMinted(String),
}

/// The size of the channel opened for an amount: the amount in satoshi plus
/// a fifth.
pub open spec fn channel_size_sats(amount_msat: u64) -> int {
    (amount_msat as int / 1000) * 12 / 10
}

/// Whether a failed keysend of the amount is followed by a channel opening.
pub open spec fn opens_channel(config: LspCustomerConfig, amount_msat: u64) -> bool {
    amount_msat as int > config.min_channel_size_sat as int * 1000
}

/// The first step for a payment to a known customer: a keysend to the
/// customer's node, or nothing where no node is on file.
pub open spec fn first_step(customer: LspCustomer, amount_msat: u64) -> DeliveryStep {
    match customer.node_id {
        Some(node_id) => DeliveryStep::SendKeysend { node_id, amount_msat },
        None => DeliveryStep::Done,
    }
}

/// The step after `step` ended with `outcome`. A keysend that failed is
/// followed by a channel opening where the amount is above the customer's
/// threshold, else by a token; a failed channel opening by a token; a minted
/// token is sent to the customer's public identity, and without one the
/// payment is undeliverable.
pub open spec fn next_step(customer: LspCustomer, mint_id: String, amount_msat: u64, step: DeliveryStep, outcome: StepOutcome) -> DeliveryStep {
    match step {
        DeliveryStep::SendKeysend { node_id, .. } => {
            if outcome == StepOutcome::Succeeded {
                DeliveryStep::Delivered
            } else if opens_channel(customer.config, amount_msat) {
                DeliveryStep::OpenChannel {
                    node_id,
                    channel_amount_sats: channel_size_sats(amount_msat) as u64,
                    push_to_counterparty_msat: amount_msat,
                    public: customer.config.public_channels,
                }
            } else {
                DeliveryStep::MintToken { mint_id, amount_msat }
            }
        },
        DeliveryStep::OpenChannel { .. } => {
            if outcome == StepOutcome::Succeeded {
                DeliveryStep::Delivered
            } else {
                DeliveryStep::MintToken { mint_id, amount_msat }
            }
        },
        DeliveryStep::MintToken { .. } => match outcome {
            StepOutcome::TokenMinted(token) => match customer.npub {
                Some(npub) => DeliveryStep::SendToken { npub, token },
                None => DeliveryStep::Failed(SettlementError::UndeliverablePayment),
            },
            _ => DeliveryStep::Failed(SettlementError::SigningError),
        },
        DeliveryStep::SendToken { .. } => {
            if outcome == StepOutcome::Succeeded {
                DeliveryStep::Delivered
            } else {
                DeliveryStep::Failed(SettlementError::MessageNotSent)
            }
        },
        _ => step,
    }
}

/// How the handling of the payment event ends at a step: `None` while work
/// remains.
pub open spec fn step_result(step: DeliveryStep) -> Option<Result<(), SettlementError>> {
    match step {
        DeliveryStep::Done | DeliveryStep::Delivered => Some(Ok(())),
        DeliveryStep::Failed(e) => Some(Err(e)),
        _ => None,
    }
}

fn is_success(outcome: &StepOutcome) -> (r: bool)
    ensures
        r == (*outcome == StepOutcome::Succeeded),
{
    match outcome {
        StepOutcome::Succeeded => true,
        _ => false,
    }
}

/// The size of the channel opened for an amount.
pub fn channel_amount_sats(amount_msat: u64) -> (r: u64)
    ensures
        r == channel_size_sats(amount_msat),
{
    (amount_msat / 1000) * 12 / 10
}

/// Whether a failed keysend of the amount is followed by a channel opening.
pub fn should_open_channel(config: &LspCustomerConfig, amount_msat: u64) -> (r: bool)
    ensures
        r == opens_channel(*config, amount_msat),
{
    (amount_msat as u128) > (config.min_channel_size_sat as u128) * 1000
}

/// The first step for a payment to a known customer.
pub fn start_delivery(customer: &LspCustomer, amount_msat: u64) -> (r: DeliveryStep)
    ensures
        r == first_step(*customer, amount_msat),
{
    match &customer.node_id {
        Some(node_id) => DeliveryStep::SendKeysend { node_id: node_id.clone(), amount_msat },
        None => DeliveryStep::Done,
    }
}

/// The step after `step` ended with `outcome`.
pub fn next_delivery_step(
    customer: &LspCustomer,
    mint_id: &String,
    amount_msat: u64,
    step: &DeliveryStep,
    outcome: &StepOutcome,
) -> (r: DeliveryStep)
    ensures
        r == next_step(*customer, *mint_id, amount_msat, *step, *outcome),
{
    let succeeded = is_success(outcome);
    match step {
        DeliveryStep::SendKeysend { node_id, .. } => {
            if succeeded {
                DeliveryStep::Delivered
            } else if should_open_channel(&customer.config, amount_msat) {
                DeliveryStep::OpenChannel {
                    node_id: node_id.clone(),
                    channel_amount_sats: channel_amount_sats(amount_msat),
                    push_to_counterparty_msat: amount_msat,
                    public: customer.config.public_channels,
                }
            } else {
                DeliveryStep::MintToken { mint_id: mint_id.clone(), amount_msat }
            }
        },
        DeliveryStep::OpenChannel { .. } => {
            if succeeded {
                DeliveryStep::Delivered
            } else {
                DeliveryStep::MintToken { mint_id: mint_id.clone(), amount_msat }
            }
        },
        DeliveryStep::MintToken { .. } => match outcome {
            StepOutcome::TokenMinted(token) => match &customer.npub {
                Some(npub) => DeliveryStep::SendToken { npub: npub.clone(), token: token.clone() },
                None => DeliveryStep::Failed(SettlementError::UndeliverablePayment),
            },
            _ => DeliveryStep::Failed(SettlementError::SigningError),
        },
        DeliveryStep::SendToken { .. } => {
            if succeeded {
                DeliveryStep::Delivered
            } else {
                DeliveryStep::Failed(SettlementError::MessageNotSent)
            }
        },
        DeliveryStep::Done => DeliveryStep::Done,
        DeliveryStep::Delivered => DeliveryStep::Delivered,
        DeliveryStep::Failed(e) => DeliveryStep::Failed(*e),
    }
}

impl DeliveryStep {
    /// How the handling of the payment event ends at this step: `None` while
    /// work remains.
    pub fn handler_result(&self) -> (r: Option<Result<(), SettlementError>>)
        ensures
            r == step_result(*self),
    {
        match self {
            DeliveryStep::Done | DeliveryStep::Delivered => Some(Ok(())),
            DeliveryStep::Failed(e) => Some(Err(*e)),
            _ => None,
        }
    }
}

} // verus!
