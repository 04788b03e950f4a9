//! The records an invoice is made of, and what an operation hands back.
use vstd::prelude::*;

use crate::address::Address;

verus! {

/// Status of an invoice lifecycle.
#[derive(Clone, Copy, Debug, PartialEq, Eq, Structural)]
pub enum InvoiceStatus {
    /// Invoice created, awaiting full payment.
    Pending,
    /// All shares paid; funds released to recipients.
    Released,
    /// Deadline passed before full funding; payers refunded.
    Refunded,
    /// Invoice cancelled by creator before payments.
    Cancelled,
}

impl InvoiceStatus {
    /// Whether the invoice has reached a final state (released or refunded).
    pub open spec fn is_completed(self) -> bool {
        self == InvoiceStatus::Released || self == InvoiceStatus::Refunded
    }

    /// The byte that stands for the status in a completion proof.
    pub open spec fn spec_code(self) -> u8 {
        match self {
            InvoiceStatus::Pending => 0u8,
            InvoiceStatus::Released => 1u8,
            InvoiceStatus::Refunded => 2u8,
            InvoiceStatus::Cancelled => 3u8,
        }
    }

    /// The byte that stands for the status in a completion proof.
    pub fn code(&self) -> (byte: u8)
        ensures
            byte == self.spec_code(),
    {
        match self {
            InvoiceStatus::Pending => 0u8,
            InvoiceStatus::Released => 1u8,
            InvoiceStatus::Refunded => 2u8,
            InvoiceStatus::Cancelled => 3u8,
        }
    }
}

/// A single payment made toward an invoice.
#[derive(Clone, Debug, PartialEq, Eq)]
pub struct Payment {
    /// Address of the payer.
    pub payer: Address,
    /// Amount paid in stroops (7 decimal places).
    pub amount: i128,
}

/// The kind of state change an audit entry records.
#[derive(Clone, Copy, Debug, PartialEq, Eq, Structural)]
pub enum AuditAction {
    Pay,
    Release,
    Refund,
    Cancel,
    Extend,
}

impl AuditAction {
    /// The short symbol under which the action is logged.
    pub open spec fn spec_symbol(self) -> &'static str {
        match self {
            AuditAction::Pay => "pay",
            AuditAction::Release => "release",
            AuditAction::Refund => "refund",
            AuditAction::Cancel => "cancel",
            AuditAction::Extend => "extend",
        }
    }

    /// The short symbol under which the action is logged.
    pub fn symbol(&self) -> (s: &'static str)
        ensures
            s == self.spec_symbol(),
    {
        match self {
            AuditAction::Pay => "pay",
            AuditAction::Release => "release",
            AuditAction::Refund => "refund",
            AuditAction::Cancel => "cancel",
            AuditAction::Extend => "extend",
        }
    }
}

/// An audit log entry recording a state change.
#[derive(Clone, Debug, PartialEq, Eq)]
pub struct AuditEntry {
    /// Action type (e.g., "pay", "release", "refund").
    pub action: AuditAction,
    /// Address that triggered the action.
    pub actor: Address,
    /// Ledger timestamp when the action occurred.
    pub timestamp: u64,
}

/// Parameters for creating a subscription invoice chain.
#[derive(Clone, Debug, PartialEq, Eq)]
pub struct SubscriptionParams {
    /// Address that created the subscription.
    pub creator: Address,
    /// Ordered list of recipient addresses.
    pub recipients: Vec<Address>,
    /// Amounts owed to each recipient (parallel to `recipients`).
    pub amounts: Vec<i128>,
    /// USDC token contract address.
    pub token: Address,
    /// How many invoices of the chain are still to be created after the one
    /// these parameters are kept for.
    pub remaining: u32,
}

/// Parameters for a single invoice in a batch creation call.
#[derive(Clone, Debug, PartialEq, Eq)]
pub struct CreateInvoiceParams {
    /// Ordered list of recipient addresses.
    pub recipients: Vec<Address>,
    /// Amounts owed to each recipient (parallel to `recipients`).
    pub amounts: Vec<i128>,
    /// USDC token contract address.
    pub token: Address,
    /// Unix timestamp after which unfunded invoices can be refunded.
    pub deadline: u64,
}

/// A completion proof for a finalized invoice.
#[derive(Clone, Debug, PartialEq, Eq)]
pub struct CompletionProof {
    /// The invoice ID.
    pub id: u64,
    /// Final status (Released or Refunded).
    pub status: InvoiceStatus,
    /// Total funded amount in stroops.
    pub funded: i128,
    /// Timestamp when the invoice was finalized.
    pub timestamp: u64,
    /// SHA-256 hash of the invoice data, 32 bytes.
    pub hash: Vec<u8>,
}

/// An on-chain invoice splitting payment among multiple recipients.
#[derive(Clone, Debug, PartialEq, Eq)]
pub struct Invoice {
    /// Address that created the invoice.
    pub creator: Address,
    /// Ordered list of recipient addresses.
    pub recipients: Vec<Address>,
    /// Amounts owed to each recipient (parallel to `recipients`).
    pub amounts: Vec<i128>,
    /// USDC token contract address.
    pub token: Address,
    /// Unix timestamp after which unfunded invoices can be refunded.
    pub deadline: u64,
    /// Total amount collected so far.
    pub funded: i128,
    /// Current lifecycle status.
    pub status: InvoiceStatus,
    /// All payments made toward this invoice.
    pub payments: Vec<Payment>,
    /// Optional deadline by which recipients must claim their share.
    /// If None, funds are pushed immediately on release.
    pub claim_deadline: Option<u64>,
    /// Tracks which recipient indices have already claimed.
    pub claimed: Vec<bool>,
    /// Ledger timestamp when the invoice was completed (Released/Refunded).
    pub completion_time: Option<u64>,
    /// Proceeds token per recipient: `proceeds_tokens[i]` represents
    /// `recipients[i]`'s share.
    pub proceeds_tokens: Vec<Address>,
}

/// The ledger a call runs in: its timestamp and the address of the contract
/// that holds the invoice funds.
#[derive(Clone, Debug, PartialEq, Eq)]
pub struct Ledger {
    /// Ledger timestamp of the call.
    pub timestamp: u64,
    /// Address of the contract itself.
    pub contract: Address,
}

/// A token movement that an operation asks the host to carry out.
#[derive(Clone, Debug, PartialEq, Eq)]
pub enum TokenOp {
    /// Move `amount` of `token` from `from` to `to`.
    Transfer { token: Address, from: Address, to: Address, amount: i128 },
    /// Burn `amount` of the proceeds token `token` held by `from`.
    Clawback { token: Address, from: Address, amount: i128 },
}

/// The balance the host must look up before a claim can be settled: how much
/// of `proceeds_token` the share's original `recipient` holds, against the
/// share's `amount`.
#[derive(Clone, Debug, PartialEq, Eq)]
pub struct HolderQuery {
    pub proceeds_token: Address,
    pub recipient: Address,
    pub amount: i128,
}

/// A validated request to create an invoice. The host registers one proceeds
/// token per recipient, mints `amounts[i]` of it to `recipients[i]`, and turns
/// the draft into the stored invoice with [`InvoiceDraft::into_invoice`].
#[derive(Clone, Debug, PartialEq, Eq)]
pub struct InvoiceDraft {
    /// Identifier the invoice will be stored under (the new counter value).
    pub id: u64,
    /// Sum of `amounts`.
    pub total: i128,
    pub creator: Address,
    pub recipients: Vec<Address>,
    pub amounts: Vec<i128>,
    pub token: Address,
    pub deadline: u64,
    pub claim_deadline: Option<u64>,
}

/// What an operation on a stored invoice asks the host to do besides storing
/// the updated invoice.
#[derive(Clone, Debug, PartialEq, Eq)]
pub struct Outcome {
    /// Token movements, in order.
    pub token_ops: Vec<TokenOp>,
    /// Entries to append to the invoice's audit log, in order.
    pub audit: Vec<AuditEntry>,
    /// Whether the invoice was released by this call.
    pub released: bool,
    /// The next invoice of a subscription chain, to be created now; the
    /// subscription parameters of the released invoice are then removed.
    pub follow_up: Option<InvoiceDraft>,
    /// The subscription parameters to keep under the next invoice's
    /// identifier, when the chain goes on after it.
    pub follow_up_params: Option<SubscriptionParams>,
}

/// Why an operation was refused. Each variant corresponds to one rejection
/// of the contract; [`SplitError::message`] gives its text.
#[derive(Clone, Copy, Debug, PartialEq, Eq, Structural)]
pub enum SplitError {
    BatchLimitExceeded,
    LengthMismatch,
    NoRecipients,
    InvalidMonths,
    NonPositiveAmount,
    DeadlineNotInFuture,
    NotPending,
    DeadlinePassed,
    NonPositivePayment,
    ExceedsRemaining,
    NotFullyFunded,
    DeadlineNotPassed,
    NotReleased,
    NoClaimDeadline,
    ClaimExpired,
    AlreadyClaimed,
    InvalidIndex,
    ProceedsTokenNotFound,
    MissingProceedsToken,
    MissingRecipient,
    TokenTransferred,
    NotTokenHolder,
    IndexOutOfBounds,
    ClaimDeadlineNotPassed,
    NotCompleted,
    NoCompletionTime,
    RetentionNotElapsed,
    OnlyCreatorCanCancel,
    CancelWithPayments,
    OnlyCreatorCanExtend,
    NewDeadlineNotInFuture,
    DeadlineNotExtended,
    NotFinalized,
    Overflow,
}

impl SplitError {
    /// The text the contract fails with.
    pub open spec fn spec_message(self) -> &'static str {
        match self {
            SplitError::BatchLimitExceeded => "batch limit exceeded",
            SplitError::LengthMismatch => "recipients and amounts length mismatch",
            SplitError::NoRecipients => "must have at least one recipient",
            SplitError::InvalidMonths => "months must be between 1 and 12",
            SplitError::NonPositiveAmount => "amounts must be positive",
            SplitError::DeadlineNotInFuture => "deadline must be in the future",
            SplitError::NotPending => "invoice is not pending",
            SplitError::DeadlinePassed => "invoice deadline has passed",
            SplitError::NonPositivePayment => "payment amount must be positive",
            SplitError::ExceedsRemaining => "payment exceeds remaining balance",
            SplitError::NotFullyFunded => "invoice not fully funded",
            SplitError::DeadlineNotPassed => "deadline has not passed",
            SplitError::NotReleased => "invoice not released",
            SplitError::NoClaimDeadline => "no claim deadline set",
            SplitError::ClaimExpired => "claim expired",
            SplitError::AlreadyClaimed => "already claimed",
            SplitError::InvalidIndex => "invalid index",
            SplitError::ProceedsTokenNotFound => "proceeds token not found",
            SplitError::MissingProceedsToken => "proceeds token",
            SplitError::MissingRecipient => "recipient",
            SplitError::TokenTransferred => "proceeds token transferred; use claim_share_for",
            SplitError::NotTokenHolder => "claimant does not hold the proceeds token",
            SplitError::IndexOutOfBounds => "index out of bounds",
            SplitError::ClaimDeadlineNotPassed => "claim deadline not passed",
            SplitError::NotCompleted => "invoice not completed",
            SplitError::NoCompletionTime => "completion time not recorded",
            SplitError::RetentionNotElapsed => "retention period not elapsed",
            SplitError::OnlyCreatorCanCancel => "only creator can cancel",
            SplitError::CancelWithPayments => "cannot cancel invoice with payments",
            SplitError::OnlyCreatorCanExtend => "only creator can extend deadline",
            SplitError::NewDeadlineNotInFuture => "new deadline must be in the future",
            SplitError::DeadlineNotExtended => "new deadline must not be earlier than the current one",
            SplitError::NotFinalized => "invoice not finalized",
            SplitError::Overflow => "arithmetic overflow",
        }
    }

    /// The text the contract fails with.
    pub fn message(&self) -> (text: &'static str)
        ensures
            text == self.spec_message(),
    {
        match self {
            SplitError::BatchLimitExceeded => "batch limit exceeded",
            SplitError::LengthMismatch => "recipients and amounts length mismatch",
            SplitError::NoRecipients => "must have at least one recipient",
            SplitError::InvalidMonths => "months must be between 1 and 12",
            SplitError::NonPositiveAmount => "amounts must be positive",
            SplitError::DeadlineNotInFuture => "deadline must be in the future",
            SplitError::NotPending => "invoice is not pending",
            SplitError::DeadlinePassed => "invoice deadline has passed",
            SplitError::NonPositivePayment => "payment amount must be positive",
            SplitError::ExceedsRemaining => "payment exceeds remaining balance",
            SplitError::NotFullyFunded => "invoice not fully funded",
            SplitError::DeadlineNotPassed => "deadline has not passed",
            SplitError::NotReleased => "invoice not released",
            SplitError::NoClaimDeadline => "no claim deadline set",
            SplitError::ClaimExpired => "claim expired",
            SplitError::AlreadyClaimed => "already claimed",
            SplitError::InvalidIndex => "invalid index",
            SplitError::ProceedsTokenNotFound => "proceeds token not found",
            SplitError::MissingProceedsToken => "proceeds token",
            SplitError::MissingRecipient => "recipient",
            SplitError::TokenTransferred => "proceeds token transferred; use claim_share_for",
            SplitError::NotTokenHolder => "claimant does not hold the proceeds token",
            SplitError::IndexOutOfBounds => "index out of bounds",
            SplitError::ClaimDeadlineNotPassed => "claim deadline not passed",
            SplitError::NotCompleted => "invoice not completed",
            SplitError::NoCompletionTime => "completion time not recorded",
            SplitError::RetentionNotElapsed => "retention period not elapsed",
            SplitError::OnlyCreatorCanCancel => "only creator can cancel",
            SplitError::CancelWithPayments => "cannot cancel invoice with payments",
            SplitError::OnlyCreatorCanExtend => "only creator can extend deadline",
            SplitError::NewDeadlineNotInFuture => "new deadline must be in the future",
            SplitError::DeadlineNotExtended => "new deadline must not be earlier than the current one",
            SplitError::NotFinalized => "invoice not finalized",
            SplitError::Overflow => "arithmetic overflow",
        }
    }
}

} // verus!
