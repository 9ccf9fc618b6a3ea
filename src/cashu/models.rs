use vstd::prelude::*;

verus! {

/// Millisatoshi for an amount in satoshi, where it fits in a `u64`.
pub fn sat_to_msat(amount_sat: u64) -> (r: Option<u64>)
    ensures
        match r {
            Some(m) => m as int == amount_sat as int * 1000,
            None => amount_sat as int * 1000 > u64::MAX,
        },
{
    if amount_sat > u64::MAX / 1000 {
        None
    } else {
        Some(amount_sat * 1000)
    }
}

/// The query of a mint request; the amount is in satoshi.
#[derive(Debug, Clone)]
pub struct RequestMintParams {
    pub amount: u64,
}

impl RequestMintParams {
    /// The amount of the invoice to create, in millisatoshi.
    pub fn amount_msat(&self) -> (r: Option<u64>)
        ensures
            match r {
                Some(m) => m as int == self.amount as int * 1000,
                None => self.amount as int * 1000 > u64::MAX,
            },
    {
        sat_to_msat(self.amount)
    }
}

/// The query of a faucet request; the amount is in satoshi.
#[derive(Debug, Clone)]
pub struct FaucetQueryParams {
    pub amount: u64,
}

impl FaucetQueryParams {
    /// The amount of the token to issue, in millisatoshi.
    pub fn amount_msat(&self) -> (r: Option<u64>)
        ensures
            match r {
                Some(m) => m as int == self.amount as int * 1000,
                None => self.amount as int * 1000 > u64::MAX,
            },
    {
        sat_to_msat(self.amount)
    }
}

/// The reply to a faucet request: a serialized token.
#[derive(Debug, Clone)]
pub struct FaucetResponse {
    pub token: String,
}

} // verus!
