use vstd::prelude::*;

verus! {

/// Failures of the settlement core.
#[derive(Debug, Clone, Copy, PartialEq, Eq, Structural)]
pub enum SettlementError {
    /// No record with the given key.
    NotFound,
    /// An invoice with the same payment hash is already recorded.
    DuplicatePaymentHash,
    /// A mint with the same name is already registered.
    DuplicateMint,
    /// A customer with the same alias is already registered.
    DuplicateAlias,
    /// The invoice's status does not allow the requested transition.
    InvalidTransition,
    /// The invoice has not been paid.
    InvoiceNotPayable,
    /// Tokens were already issued for the invoice.
    PreventDoubleIssuance,
    /// The requested outputs do not add up to the invoice amount.
    AmountMismatch,
    /// A proof secret was already spent, or appears twice in one batch.
    DoubleSpend,
    /// A debit would make the circulation negative.
    LedgerUnderflow,
    /// A credit would exceed the representable circulation.
    LedgerOverflow,
    /// The mint engine refused to sign.
    SigningError,
    /// The mint engine refused the proofs.
    VerifyError,
    /// The proofs do not cover the amount to be paid.
    InsufficientProofs,
    /// The outgoing payment failed; no proofs were consumed.
    PaymentFailed,
    /// Funds were received but there is no path to deliver them.
    UndeliverablePayment,
    /// The out-of-band message carrying a token could not be sent.
    MessageNotSent,
    /// A call to an external service timed out.
    Timeout,
}

impl SettlementError {
    /// Whether a caller may try the same operation again.
    pub fn is_retriable(&self) -> (r: bool)
        ensures
            r == (*self == SettlementError::SigningError || *self == SettlementError::VerifyError
                || *self == SettlementError::Timeout || *self == SettlementError::PaymentFailed
                || *self == SettlementError::MessageNotSent),
    {
        match self {
            SettlementError::SigningError | SettlementError::VerifyError | SettlementError::Timeout
            | SettlementError::PaymentFailed | SettlementError::MessageNotSent => true,
            _ => false,
        }
    }

    /// The HTTP status code under which the transport surface reports the error.
    pub fn status_code(&self) -> (r: u16)
        ensures
            r == status_code_of(*self),
    {
        match self {
            SettlementError::NotFound => 404,
            SettlementError::DuplicatePaymentHash | SettlementError::DuplicateMint | SettlementError::DuplicateAlias => 409,
            SettlementError::AmountMismatch | SettlementError::InvoiceNotPayable
            | SettlementError::InvalidTransition | SettlementError::PreventDoubleIssuance
            | SettlementError::DoubleSpend | SettlementError::InsufficientProofs
            | SettlementError::VerifyError => 400,
            SettlementError::Timeout => 504,
            _ => 500,
        }
    }
}

/// HTTP status of each settlement failure.
pub open spec fn status_code_of(e: SettlementError) -> u16 {
    match e {
        SettlementError::NotFound => 404,
        SettlementError::DuplicatePaymentHash | SettlementError::DuplicateMint | SettlementError::DuplicateAlias => 409,
        SettlementError::AmountMismatch | SettlementError::InvoiceNotPayable
        | SettlementError::InvalidTransition | SettlementError::PreventDoubleIssuance
        | SettlementError::DoubleSpend | SettlementError::InsufficientProofs
        | SettlementError::VerifyError => 400,
        SettlementError::Timeout => 504,
        _ => 500,
    }
}

/// The body of an error reply: a status code and a message.
#[derive(Debug, Clone)]
pub struct ErrorResponse {
    pub code: u16,
    pub error: String,
}

impl ErrorResponse {
    pub fn new(code: u16, error: &str) -> (r: Self)
        ensures
            r.code == code,
            r.error@ == error@,
    {
        ErrorResponse { code, error: error.to_owned() }
    }

    /// The reply for a settlement failure.
    pub fn from_settlement_error(e: SettlementError, message: &str) -> (r: Self)
        ensures
            r.code == status_code_of(e),
            r.error@ == message@,
    {
        ErrorResponse::new(e.status_code(), message)
    }
}

} // verus!
