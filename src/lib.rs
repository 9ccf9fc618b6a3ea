//! Settlement of Lightning payments against a per-mint e-cash ledger, and the
//! delivery of received payments to service customers.

pub mod cashu;
pub mod error;
pub mod events;
pub mod hex;
pub mod lsp;
mod text;

pub use cashu::models::{FaucetQueryParams, FaucetResponse, RequestMintParams};
pub use cashu::repository::CashuMintReporitory;
pub use cashu::service::CashuService;
pub use cashu::types::{
    BlindedMessage, InvoiceInfo, InvoiceStatus, InvoiceTokenStatus, Promise, Proof, StoredMint, UsedProof,
};
pub use error::{ErrorResponse, SettlementError};
pub use events::{Acknowledgement, LightningNodeEvent, PaymentReceivedProcessor, WalletkaNodePaymentsConsumer};
pub use hex::to_string;
pub use lsp::delivery::{DeliveryStep, StepOutcome};
pub use lsp::entity::{LspCustomer, LspCustomerConfig, LspInvoice};
pub use lsp::models::{GetInvoiceParams, GetInvoiceResponse, LspSignUpRequest, Nip05Params};
pub use lsp::names::generate_random_name;
pub use lsp::repository::{LspCustomerRepository, LspInvoiceRepository};
pub use lsp::service::LspCustomerService;
