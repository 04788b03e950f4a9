//! Invoice and payment splitting: a creator defines an invoice with several
//! recipients and the amount owed to each; payers contribute funds; once the
//! invoice is fully funded the funds are routed to the recipients, and if the
//! deadline passes first the payers are refunded.
//!
//! The library holds the rules of that process. Each operation takes the
//! invoice as it is stored, together with the ledger the call runs in, and
//! returns the invoice as it must be stored afterwards and the token movements
//! and audit entries that the host has to carry out.
pub mod address;
pub mod amounts;
pub mod completion;
pub mod contract;
pub mod laws;
pub mod rules;
pub mod types;

pub use address::Address;
pub use contract::{SplitContract, SubscriptionPlan};
pub use types::{
    AuditAction, AuditEntry, CompletionProof, CreateInvoiceParams, HolderQuery, Invoice,
    InvoiceDraft, InvoiceStatus, Ledger, Outcome, Payment, SplitError, SubscriptionParams, TokenOp,
};
