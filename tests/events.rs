use std::cell::Cell;
use walletka::{Acknowledgement, LightningNodeEvent, PaymentReceivedProcessor, SettlementError, WalletkaNodePaymentsConsumer};

struct Handler {
    fail: bool,
    calls: Cell<u32>,
}

impl PaymentReceivedProcessor for Handler {
    fn payment_received_callback(&self, _payment_hash: String, _amount_msat: u64) -> Result<(), SettlementError> {
        self.calls.set(self.calls.get() + 1);
        if self.fail {
            Err(SettlementError::UndeliverablePayment)
        } else {
            Ok(())
        }
    }
}

fn received() -> Option<LightningNodeEvent> {
    Some(LightningNodeEvent::PaymentReceived { payment_hash: "ab".to_string(), amount_msat: 350000 })
}

#[test]
fn handled_payment_is_acknowledged() {
    let mut c = WalletkaNodePaymentsConsumer::new(Handler { fail: false, calls: Cell::new(0) });
    assert_eq!(c.consume(received()), (Acknowledgement::Ack, Some(Ok(()))));
    assert_eq!(c.callback.calls.get(), 1);
}

#[test]
fn failed_handler_leaves_message_for_redelivery() {
    let mut c = WalletkaNodePaymentsConsumer::new(Handler { fail: true, calls: Cell::new(0) });
    let failed = Some(Err(SettlementError::UndeliverablePayment));
    assert_eq!(c.consume(received()), (Acknowledgement::Leave, failed));
    // the broker delivers it again, and it is handed to the handler again
    assert_eq!(c.consume(received()), (Acknowledgement::Leave, failed));
    assert_eq!(c.callback.calls.get(), 2);
}

#[test]
fn unknown_message_is_acknowledged_without_action() {
    let mut c = WalletkaNodePaymentsConsumer::new(Handler { fail: true, calls: Cell::new(0) });
    assert_eq!(c.consume(None), (Acknowledgement::Ack, None));
    let other = LightningNodeEvent::ChannelReady {
        channel_id: "c1".to_string(),
        user_channel_id: "u1".to_string(),
        counterparty_node_id: None,
    };
    assert_eq!(c.consume(Some(other)), (Acknowledgement::Ack, None));
    assert_eq!(c.callback.calls.get(), 0);
}

#[test]
fn routing_key_is_payment_hash_or_channel() {
    assert_eq!(received().unwrap().routing_key(), "ab");
    let closed = LightningNodeEvent::ChannelClosed {
        channel_id: "c7".to_string(),
        user_channel_id: "u".to_string(),
        counterparty_node_id: Some("n".to_string()),
    };
    assert_eq!(closed.routing_key(), "c7");
}
