use crate::cashu::types::copy_string_option;
use vstd::prelude::*;

verus! {

/// How a customer wants received payments delivered.
#[derive(Debug, Clone, Copy, PartialEq, Eq, Structural)]
pub struct LspCustomerConfig {
    /// Above this amount a failed keysend is followed by a channel opening.
    pub min_channel_size_sat: u64,
    pub include_onchain_fee: bool,
    pub enable_ecash: bool,
    pub max_ecash_receive_sat: u64,
    pub public_channels: bool,
}

/// The configuration a new customer starts with.
pub open spec fn default_config() -> LspCustomerConfig {
    LspCustomerConfig {
        min_channel_size_sat: 20_000,
        include_onchain_fee: false,
        enable_ecash: true,
        max_ecash_receive_sat: 210_000_000_000,
        public_channels: true,
    }
}

impl Default for LspCustomerConfig {
    fn default() -> (r: Self)
        ensures
            r == default_config(),
    {
        LspCustomerConfig {
            min_channel_size_sat: 20_000,
            include_onchain_fee: false,
            enable_ecash: true,
            max_ecash_receive_sat: 210_000_000_000,
            public_channels: true,
        }
    }
}

/// A customer of the delivery service.
#[derive(Debug, Clone)]
pub struct LspCustomer {
    /// The record id, set when the customer is stored.
    pub id: Option<String>,
    /// The customer's Lightning node, if known.
    pub node_id: Option<String>,
    /// The customer's public identity on the out-of-band channel.
    pub npub: Option<String>,
    pub alias: String,
    pub config: LspCustomerConfig,
}

impl LspCustomer {
    /// An equal copy.
    pub fn duplicate(&self) -> (r: Self)
        ensures
            r == *self,
    {
        LspCustomer {
            id: copy_string_option(&self.id),
            node_id: copy_string_option(&self.node_id),
            npub: copy_string_option(&self.npub),
            alias: self.alias.clone(),
            config: self.config,
        }
    }
}

/// An invoice that the service issued on a customer's behalf.
#[derive(Debug, Clone)]
pub struct LspInvoice {
    /// The record id, set when the invoice is stored.
    pub id: Option<String>,
    pub payment_hash: String,
    pub bolt11: String,
    pub amount_msat: Option<u64>,
    /// Unix time at which the invoice expires.
    pub expiration: u64,
}

impl LspInvoice {
    /// An equal copy.
    pub fn duplicate(&self) -> (r: Self)
        ensures
            r == *self,
    {
        LspInvoice {
            id: copy_string_option(&self.id),
            payment_hash: self.payment_hash.clone(),
            bolt11: self.bolt11.clone(),
            amount_msat: self.amount_msat,
            expiration: self.expiration,
        }
    }
}

} // verus!
