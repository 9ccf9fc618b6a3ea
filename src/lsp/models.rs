use vstd::prelude::*;

verus! {

/// A sign-up for the delivery service.
#[derive(Debug, Clone)]
pub struct LspSignUpRequest {
    pub node_id: Option<String>,
    pub nostr_pubkey: String,
}

/// The query of an invoice request; the amount is in millisatoshi.
#[derive(Debug, Clone)]
pub struct GetInvoiceParams {
    pub amount: Option<u64>,
}

impl GetInvoiceParams {
    /// The amount asked for; none means a zero-amount invoice.
    pub fn amount_msat(&self) -> (r: u64)
        ensures
            r == match self.amount {
                Some(a) => a,
                None => 0,
            },
    {
        match self.amount {
            Some(a) => a,
            None => 0,
        }
    }
}

/// The reply to an invoice request.
#[derive(Debug, Clone)]
pub struct GetInvoiceResponse {
    pub pr: String,
    pub success_action: Option<String>,
    pub routes: Vec<String>,
}

/// The query of an identity lookup.
#[derive(Debug, Clone)]
pub struct Nip05Params {
    pub name: Option<String>,
}

} // verus!
