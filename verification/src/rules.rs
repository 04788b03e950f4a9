//! The contract's rules, stated over the stored records: when each operation
//! is refused, and what it hands back when it is not.
use vstd::prelude::*;

use crate::address::Address;
use crate::amounts::{all_positive, fits_i128, paid_total, payment_amounts, running_total, sum_of};
use crate::types::{
    AuditAction, AuditEntry, CreateInvoiceParams, Invoice, InvoiceDraft, InvoiceStatus, Ledger,
    Outcome, Payment, SplitError, SubscriptionParams, TokenOp,
};

verus! {

/// Most invoices one batch call may create.
pub const MAX_BATCH: usize = 5;

/// Smallest and largest number of months of a subscription.
pub const MIN_MONTHS: u32 = 1;
pub const MAX_MONTHS: u32 = 12;

/// Time between the invoices of a subscription, in seconds (30 days).
pub const SUBSCRIPTION_PERIOD: u64 = 30 * 24 * 60 * 60;

/// How long a completed invoice must be kept before it may be deleted, in
/// seconds (30 days).
pub const RETENTION_PERIOD: u64 = 30 * 86_400;

// ---------------------------------------------------------------------------
// Creation
// ---------------------------------------------------------------------------

/// The counter value before a creation (an absent counter counts as 0).
pub open spec fn counter_base(counter: Option<u64>) -> int {
    match counter {
        Some(c) => c as int,
        None => 0,
    }
}

/// The identifier the next created invoice receives.
pub open spec fn next_id(counter: Option<u64>) -> int {
    counter_base(counter) + 1
}

/// The first rule that refuses an invoice with these terms, created as
/// invoice number `id` at time `now`; `None` if it may be created.
pub open spec fn creation_error(
    now: u64,
    id: int,
    recipient_count: int,
    amounts: Seq<i128>,
    deadline: u64,
) -> Option<SplitError> {
    if recipient_count != amounts.len() {
        Some(SplitError::LengthMismatch)
    } else if recipient_count == 0 {
        Some(SplitError::NoRecipients)
    } else if deadline <= now {
        Some(SplitError::DeadlineNotInFuture)
    } else if !all_positive(amounts) {
        Some(SplitError::NonPositiveAmount)
    } else if id > u64::MAX {
        Some(SplitError::Overflow)
    } else if sum_of(amounts) > i128::MAX {
        Some(SplitError::Overflow)
    } else {
        None
    }
}

/// `draft` asks for invoice number `id` with exactly these terms.
pub open spec fn draft_matches(
    draft: InvoiceDraft,
    id: int,
    creator: Address,
    recipients: Seq<Address>,
    amounts: Seq<i128>,
    token: Address,
    deadline: u64,
    claim_deadline: Option<u64>,
) -> bool {
    &&& draft.id == id
    &&& draft.total == sum_of(amounts)
    &&& draft.creator == creator
    &&& draft.recipients@ =~= recipients
    &&& draft.amounts@ =~= amounts
    &&& draft.token == token
    &&& draft.deadline == deadline
    &&& draft.claim_deadline == claim_deadline
}

/// The first rule that refuses batch item number `k` onward: the items of a
/// batch are created in order, the counter standing at `base` before the
/// first one.
pub open spec fn batch_items_error(now: u64, base: int, items: Seq<CreateInvoiceParams>) -> Option<
    SplitError,
>
    decreases items.len(),
{
    if items.len() == 0 {
        None
    } else {
        match batch_items_error(now, base, items.drop_last()) {
            Some(e) => Some(e),
            None => creation_error(
                now,
                base + items.len(),
                items.last().recipients@.len() as int,
                items.last().amounts@,
                items.last().deadline,
            ),
        }
    }
}

/// The first rule that refuses a batch creation; `None` if every invoice of
/// the batch is created.
pub open spec fn batch_error(now: u64, counter: Option<u64>, items: Seq<CreateInvoiceParams>) -> Option<
    SplitError,
> {
    if items.len() > MAX_BATCH {
        Some(SplitError::BatchLimitExceeded)
    } else {
        batch_items_error(now, counter_base(counter), items)
    }
}

/// The first rule that refuses a subscription; `None` if its first invoice is
/// created.
pub open spec fn subscription_error(
    now: u64,
    counter: Option<u64>,
    recipient_count: int,
    amounts: Seq<i128>,
    months: u32,
) -> Option<SplitError> {
    if recipient_count != amounts.len() {
        Some(SplitError::LengthMismatch)
    } else if recipient_count == 0 {
        Some(SplitError::NoRecipients)
    } else if !(MIN_MONTHS <= months <= MAX_MONTHS) {
        Some(SplitError::InvalidMonths)
    } else if !all_positive(amounts) {
        Some(SplitError::NonPositiveAmount)
    } else if now + SUBSCRIPTION_PERIOD > u64::MAX {
        Some(SplitError::Overflow)
    } else {
        creation_error(
            now,
            next_id(counter),
            recipient_count,
            amounts,
            (now + SUBSCRIPTION_PERIOD) as u64,
        )
    }
}

// ---------------------------------------------------------------------------
// The stored invoice
// ---------------------------------------------------------------------------

/// The amount an invoice asks for: the sum of its shares.
pub open spec fn invoice_total(inv: Invoice) -> int {
    sum_of(inv.amounts@)
}

/// No share of the invoice is marked as claimed.
pub open spec fn no_share_claimed(inv: Invoice) -> bool {
    forall|i: int| 0 <= i < inv.claimed@.len() ==> !inv.claimed@[i]
}

/// The invariant of a stored invoice: one recipient, proceeds token and
/// claim flag per share; positive shares whose sum fits; positive payments
/// whose sum is the funded amount and never exceeds the total; and a status
/// that agrees with the funding, the completion time and the claims.
pub open spec fn well_formed(inv: Invoice) -> bool {
    let n = inv.amounts@.len();
    let total = invoice_total(inv);
    &&& n >= 1
    &&& inv.recipients@.len() == n
    &&& inv.proceeds_tokens@.len() == n
    &&& inv.claimed@.len() == n
    &&& all_positive(inv.amounts@)
    &&& total <= i128::MAX
    &&& all_positive(payment_amounts(inv.payments@))
    &&& inv.funded == paid_total(inv.payments@)
    &&& inv.funded <= total
    &&& match inv.status {
        InvoiceStatus::Pending => inv.funded < total && inv.completion_time is None
            && no_share_claimed(inv),
        InvoiceStatus::Released => inv.funded == total && inv.completion_time is Some,
        InvoiceStatus::Refunded => inv.completion_time is Some && no_share_claimed(inv),
        InvoiceStatus::Cancelled => inv.payments@.len() == 0 && inv.completion_time is None
            && no_share_claimed(inv),
    }
}

/// The terms of an invoice that no operation after creation changes.
pub open spec fn same_terms(a: Invoice, b: Invoice) -> bool {
    &&& a.creator == b.creator
    &&& a.recipients == b.recipients
    &&& a.amounts == b.amounts
    &&& a.token == b.token
    &&& a.claim_deadline == b.claim_deadline
    &&& a.proceeds_tokens == b.proceeds_tokens
}

/// `new` is `old` with only its status and completion time changed.
pub open spec fn only_status_changed(
    old: Invoice,
    new: Invoice,
    status: InvoiceStatus,
    completion_time: Option<u64>,
) -> bool {
    &&& same_terms(old, new)
    &&& new.deadline == old.deadline
    &&& new.funded == old.funded
    &&& new.payments == old.payments
    &&& new.claimed == old.claimed
    &&& new.status == status
    &&& new.completion_time == completion_time
}

/// An audit entry.
pub open spec fn entry(action: AuditAction, actor: Address, timestamp: u64) -> AuditEntry {
    AuditEntry { action, actor, timestamp }
}

// ---------------------------------------------------------------------------
// Release
// ---------------------------------------------------------------------------

/// The token movements that pay out the first `i` shares of a release: each
/// recipient receives its amount from the contract, and the same amount of
/// its proceeds token is burnt.
pub open spec fn release_ops_upto(inv: Invoice, contract: Address, i: int) -> Seq<TokenOp>
    decreases i,
{
    if i <= 0 {
        Seq::empty()
    } else {
        release_ops_upto(inv, contract, i - 1) + seq![
            TokenOp::Transfer {
                token: inv.token,
                from: contract,
                to: inv.recipients@[i - 1],
                amount: inv.amounts@[i - 1],
            },
            TokenOp::Clawback {
                token: inv.proceeds_tokens@[i - 1],
                from: inv.recipients@[i - 1],
                amount: inv.amounts@[i - 1],
            },
        ]
    }
}

/// The token movements of a release: none when recipients claim their shares
/// later, else every share paid out.
pub open spec fn release_ops(inv: Invoice, contract: Address) -> Seq<TokenOp> {
    if inv.claim_deadline is Some {
        Seq::empty()
    } else {
        release_ops_upto(inv, contract, inv.amounts@.len() as int)
    }
}

/// The payout of a release refers to a share with no proceeds token or no
/// recipient.
pub open spec fn release_index_error(inv: Invoice) -> Option<SplitError> {
    let n = inv.amounts@.len();
    if inv.claim_deadline is Some {
        None
    } else if inv.proceeds_tokens@.len() < n && inv.proceeds_tokens@.len()
        <= inv.recipients@.len() {
        Some(SplitError::MissingProceedsToken)
    } else if inv.recipients@.len() < n {
        Some(SplitError::MissingRecipient)
    } else {
        None
    }
}

/// The next invoice of a subscription cannot be created.
pub open spec fn follow_up_error(
    now: u64,
    counter: Option<u64>,
    subscription: Option<SubscriptionParams>,
) -> Option<SplitError> {
    match subscription {
        None => None,
        Some(p) => if now + SUBSCRIPTION_PERIOD > u64::MAX {
            Some(SplitError::Overflow)
        } else {
            creation_error(
                now,
                next_id(counter),
                p.recipients@.len() as int,
                p.amounts@,
                (now + SUBSCRIPTION_PERIOD) as u64,
            )
        },
    }
}

/// Why releasing `inv` fails, if it does.
pub open spec fn release_error(
    inv: Invoice,
    now: u64,
    counter: Option<u64>,
    subscription: Option<SubscriptionParams>,
) -> Option<SplitError> {
    match release_index_error(inv) {
        Some(e) => Some(e),
        None => follow_up_error(now, counter, subscription),
    }
}

/// `kept` carries the subscription `p` on to its next invoice: the same
/// terms, with one invoice fewer to come.
pub open spec fn params_carried(kept: SubscriptionParams, p: SubscriptionParams) -> bool {
    &&& kept.creator == p.creator
    &&& kept.recipients@ =~= p.recipients@
    &&& kept.amounts@ =~= p.amounts@
    &&& kept.token == p.token
    &&& kept.remaining == p.remaining - 1
}

/// How many invoices of a subscription chain are still to be created after
/// the invoice the parameters are kept for.
pub open spec fn invoices_to_come(params: Option<SubscriptionParams>) -> int {
    match params {
        Some(p) => p.remaining as int,
        None => 0,
    }
}

/// `follow_up` is the next invoice of the subscription, if there is one, and
/// `follow_up_params` the parameters to keep for it, when the chain goes on.
pub open spec fn follow_up_matches(
    follow_up: Option<InvoiceDraft>,
    follow_up_params: Option<SubscriptionParams>,
    now: u64,
    counter: Option<u64>,
    subscription: Option<SubscriptionParams>,
) -> bool {
    match subscription {
        None => follow_up is None && follow_up_params is None,
        Some(p) => {
            &&& match follow_up {
                Some(d) => draft_matches(
                    d,
                    next_id(counter),
                    p.creator,
                    p.recipients@,
                    p.amounts@,
                    p.token,
                    (now + SUBSCRIPTION_PERIOD) as u64,
                    None,
                ),
                None => false,
            }
            &&& match follow_up_params {
                Some(q) => p.remaining > 1 && params_carried(q, p),
                None => p.remaining <= 1,
            }
        },
    }
}

// ---------------------------------------------------------------------------
// Payments
// ---------------------------------------------------------------------------

/// The first rule that refuses a payment of `amount` at time `now`; `None` if
/// the payment is recorded.
pub open spec fn pay_error(inv: Invoice, now: u64, amount: i128) -> Option<SplitError> {
    if inv.status != InvoiceStatus::Pending {
        Some(SplitError::NotPending)
    } else if now > inv.deadline {
        Some(SplitError::DeadlinePassed)
    } else if amount <= 0 {
        Some(SplitError::NonPositivePayment)
    } else if running_total(inv.amounts@) is None {
        Some(SplitError::Overflow)
    } else if !fits_i128(invoice_total(inv) - inv.funded) {
        Some(SplitError::Overflow)
    } else if amount > invoice_total(inv) - inv.funded {
        Some(SplitError::ExceedsRemaining)
    } else {
        None
    }
}

/// Why a payment of `amount` fails, if it does: it is refused, or it funds
/// the invoice fully and the release that follows fails.
pub open spec fn pay_outcome_error(
    inv: Invoice,
    now: u64,
    amount: i128,
    counter: Option<u64>,
    subscription: Option<SubscriptionParams>,
) -> Option<SplitError> {
    match pay_error(inv, now, amount) {
        Some(e) => Some(e),
        None => if inv.funded + amount >= invoice_total(inv) {
            release_error(inv, now, counter, subscription)
        } else {
            None
        },
    }
}

/// `new` is `old` with the payment recorded and nothing else changed.
pub open spec fn payment_recorded(old: Invoice, new: Invoice, payer: Address, amount: i128) -> bool {
    &&& same_terms(old, new)
    &&& new.deadline == old.deadline
    &&& new.payments@ =~= old.payments@.push(Payment { payer, amount })
    &&& new.funded == old.funded + amount
    &&& new.claimed == old.claimed
}

/// The first rule that refuses an explicit release; `None` if it succeeds.
pub open spec fn explicit_release_error(
    inv: Invoice,
    now: u64,
    counter: Option<u64>,
    subscription: Option<SubscriptionParams>,
) -> Option<SplitError> {
    if inv.status != InvoiceStatus::Pending {
        Some(SplitError::NotPending)
    } else if running_total(inv.amounts@) is None {
        Some(SplitError::Overflow)
    } else if inv.funded < invoice_total(inv) {
        Some(SplitError::NotFullyFunded)
    } else {
        release_error(inv, now, counter, subscription)
    }
}

// ---------------------------------------------------------------------------
// Refunds
// ---------------------------------------------------------------------------

/// Transfers of `token` from `contract` back to the payer of each payment,
/// in payment order.
pub open spec fn refund_transfers(payments: Seq<Payment>, token: Address, contract: Address) -> Seq<
    TokenOp,
> {
    payments.map_values(
        |p: Payment| TokenOp::Transfer { token, from: contract, to: p.payer, amount: p.amount },
    )
}

/// The transfers that give every payer back what they paid, in payment order.
pub open spec fn refund_ops(inv: Invoice, contract: Address) -> Seq<TokenOp> {
    refund_transfers(inv.payments@, inv.token, contract)
}

/// The first rule that refuses a refund at time `now`.
pub open spec fn refund_error(inv: Invoice, now: u64) -> Option<SplitError> {
    if inv.status != InvoiceStatus::Pending {
        Some(SplitError::NotPending)
    } else if now <= inv.deadline {
        Some(SplitError::DeadlineNotPassed)
    } else {
        None
    }
}

// ---------------------------------------------------------------------------
// Claims
// ---------------------------------------------------------------------------

/// Whether share `i` is recorded as claimed (an unrecorded share is not).
pub open spec fn is_claimed(inv: Invoice, i: int) -> bool {
    0 <= i < inv.claimed@.len() && inv.claimed@[i]
}

/// The first rule that refuses a claim of share `index` at time `now`,
/// before the holder of the proceeds token is known.
pub open spec fn claim_error(inv: Invoice, now: u64, index: u32) -> Option<SplitError> {
    if inv.status != InvoiceStatus::Released {
        Some(SplitError::NotReleased)
    } else if inv.claim_deadline is None {
        Some(SplitError::NoClaimDeadline)
    } else if now > inv.claim_deadline->0 {
        Some(SplitError::ClaimExpired)
    } else if is_claimed(inv, index as int) {
        Some(SplitError::AlreadyClaimed)
    } else if index >= inv.amounts@.len() {
        Some(SplitError::InvalidIndex)
    } else if index >= inv.proceeds_tokens@.len() {
        Some(SplitError::ProceedsTokenNotFound)
    } else if index >= inv.recipients@.len() {
        Some(SplitError::InvalidIndex)
    } else {
        None
    }
}

/// The first rule that refuses paying share `index` to `holder`, who holds
/// `balance` of the share's proceeds token. The holder of the whole share
/// is paid; when it is short, the refusal says whether the original
/// recipient parted with the token or another claimant does not hold it.
pub open spec fn settle_error(
    inv: Invoice,
    now: u64,
    index: u32,
    holder: Address,
    balance: i128,
) -> Option<SplitError> {
    match claim_error(inv, now, index) {
        Some(e) => Some(e),
        None => if balance < inv.amounts@[index as int] {
            if holder@ == inv.recipients@[index as int]@ {
                Some(SplitError::TokenTransferred)
            } else {
                Some(SplitError::NotTokenHolder)
            }
        } else if index >= inv.claimed@.len() {
            Some(SplitError::IndexOutOfBounds)
        } else {
            None
        },
    }
}

/// The token movements of a claim of share `i` by `holder`: the holder
/// receives the share and the same amount of its proceeds token is burnt
/// from the holder.
pub open spec fn claim_ops(inv: Invoice, contract: Address, i: int, holder: Address) -> Seq<TokenOp> {
    seq![
        TokenOp::Transfer { token: inv.token, from: contract, to: holder, amount: inv.amounts@[i] },
        TokenOp::Clawback { token: inv.proceeds_tokens@[i], from: holder, amount: inv.amounts@[i] },
    ]
}

/// The first rule that refuses reclaiming unclaimed shares at time `now`.
pub open spec fn reclaim_error(inv: Invoice, now: u64) -> Option<SplitError> {
    if inv.status != InvoiceStatus::Released {
        Some(SplitError::NotReleased)
    } else if inv.claim_deadline is None {
        Some(SplitError::NoClaimDeadline)
    } else if now <= inv.claim_deadline->0 {
        Some(SplitError::ClaimDeadlineNotPassed)
    } else if inv.claimed@.len() < inv.amounts@.len() {
        Some(SplitError::IndexOutOfBounds)
    } else {
        None
    }
}

/// The transfers that return the unclaimed shares among the first `i` to the
/// creator, in share order.
pub open spec fn reclaim_ops_upto(inv: Invoice, contract: Address, i: int) -> Seq<TokenOp>
    decreases i,
{
    if i <= 0 {
        Seq::empty()
    } else if is_claimed(inv, i - 1) {
        reclaim_ops_upto(inv, contract, i - 1)
    } else {
        reclaim_ops_upto(inv, contract, i - 1).push(
            TokenOp::Transfer {
                token: inv.token,
                from: contract,
                to: inv.creator,
                amount: inv.amounts@[i - 1],
            },
        )
    }
}

// ---------------------------------------------------------------------------
// Administration
// ---------------------------------------------------------------------------

/// The first rule that refuses deleting a completed invoice at time `now`.
pub open spec fn expire_error(inv: Invoice, now: u64) -> Option<SplitError> {
    if !inv.status.is_completed() {
        Some(SplitError::NotCompleted)
    } else if inv.completion_time is None {
        Some(SplitError::NoCompletionTime)
    } else if inv.completion_time->0 + RETENTION_PERIOD > u64::MAX {
        Some(SplitError::Overflow)
    } else if now < inv.completion_time->0 + RETENTION_PERIOD {
        Some(SplitError::RetentionNotElapsed)
    } else {
        None
    }
}

/// The first rule that refuses a cancellation by `caller`.
pub open spec fn cancel_error(inv: Invoice, caller: Address) -> Option<SplitError> {
    if inv.status != InvoiceStatus::Pending {
        Some(SplitError::NotPending)
    } else if inv.creator@ != caller@ {
        Some(SplitError::OnlyCreatorCanCancel)
    } else if inv.funded != 0 {
        Some(SplitError::CancelWithPayments)
    } else {
        None
    }
}

/// The first rule that refuses moving the deadline to `new_deadline`.
pub open spec fn extend_error(inv: Invoice, now: u64, caller: Address, new_deadline: u64) -> Option<
    SplitError,
> {
    if inv.status != InvoiceStatus::Pending {
        Some(SplitError::NotPending)
    } else if inv.creator@ != caller@ {
        Some(SplitError::OnlyCreatorCanExtend)
    } else if new_deadline <= now {
        Some(SplitError::NewDeadlineNotInFuture)
    } else if new_deadline < inv.deadline {
        Some(SplitError::DeadlineNotExtended)
    } else {
        None
    }
}

// ---------------------------------------------------------------------------
// What each accepted operation does to the stored invoice
// ---------------------------------------------------------------------------

/// `inv` is the invoice stored for `draft` once the proceeds tokens
/// `proceeds_tokens` are registered: nothing funded or paid, pending, no
/// share claimed.
pub open spec fn invoice_from_draft(draft: InvoiceDraft, proceeds_tokens: Seq<Address>, inv: Invoice) -> bool {
    &&& inv.creator == draft.creator
    &&& inv.recipients@ =~= draft.recipients@
    &&& inv.amounts@ =~= draft.amounts@
    &&& inv.token == draft.token
    &&& inv.deadline == draft.deadline
    &&& inv.funded == 0
    &&& inv.status == InvoiceStatus::Pending
    &&& inv.payments@.len() == 0
    &&& inv.claim_deadline == draft.claim_deadline
    &&& inv.claimed@ =~= Seq::new(draft.amounts@.len(), |i: int| false)
    &&& inv.completion_time is None
    &&& inv.proceeds_tokens@ =~= proceeds_tokens
}

/// An accepted payment of `amount` by `payer` took `old` to `new`: the
/// payment is recorded and the funds move to the contract; a payment that
/// completes the funding releases the invoice on behalf of its creator.
pub open spec fn paid(
    old: Invoice,
    new: Invoice,
    out: Outcome,
    ledger: Ledger,
    payer: Address,
    amount: i128,
    counter: Option<u64>,
    subscription: Option<SubscriptionParams>,
) -> bool {
    let now = ledger.timestamp;
    let incoming = TokenOp::Transfer { token: old.token, from: payer, to: ledger.contract, amount };
    &&& payment_recorded(old, new, payer, amount)
    &&& if old.funded + amount >= invoice_total(old) {
        &&& new.status == InvoiceStatus::Released
        &&& new.completion_time == Some(now)
        &&& out.released
        &&& out.token_ops@ =~= seq![incoming] + release_ops(old, ledger.contract)
        &&& out.audit@ =~= seq![
            entry(AuditAction::Pay, payer, now),
            entry(AuditAction::Release, old.creator, now),
        ]
        &&& follow_up_matches(out.follow_up, out.follow_up_params, now, counter, subscription)
    } else {
        &&& new.status == old.status
        &&& new.completion_time == old.completion_time
        &&& !out.released
        &&& out.token_ops@ =~= seq![incoming]
        &&& out.audit@ =~= seq![entry(AuditAction::Pay, payer, now)]
        &&& out.follow_up is None
        &&& out.follow_up_params is None
    &&& out.follow_up_params is None
    }
}

/// An accepted explicit release took `old` to `new`, on behalf of the
/// contract.
pub open spec fn released(
    old: Invoice,
    new: Invoice,
    out: Outcome,
    ledger: Ledger,
    counter: Option<u64>,
    subscription: Option<SubscriptionParams>,
) -> bool {
    let now = ledger.timestamp;
    &&& only_status_changed(old, new, InvoiceStatus::Released, Some(now))
    &&& out.released
    &&& out.token_ops@ =~= release_ops(old, ledger.contract)
    &&& out.audit@ =~= seq![entry(AuditAction::Release, ledger.contract, now)]
    &&& follow_up_matches(out.follow_up, out.follow_up_params, now, counter, subscription)
}

/// An accepted refund took `old` to `new`: every payment goes back to its
/// payer and the invoice is refunded, on behalf of the contract.
pub open spec fn refunded(old: Invoice, new: Invoice, out: Outcome, ledger: Ledger) -> bool {
    let now = ledger.timestamp;
    &&& only_status_changed(old, new, InvoiceStatus::Refunded, Some(now))
    &&& out.token_ops@ =~= refund_ops(old, ledger.contract)
    &&& out.audit@ =~= seq![entry(AuditAction::Refund, ledger.contract, now)]
    &&& !out.released
    &&& out.follow_up is None
    &&& out.follow_up_params is None
}

/// `new` is `old` with only the claimed flags changed.
pub open spec fn only_claims_changed(old: Invoice, new: Invoice) -> bool {
    &&& same_terms(old, new)
    &&& new.deadline == old.deadline
    &&& new.funded == old.funded
    &&& new.payments == old.payments
    &&& new.status == old.status
    &&& new.completion_time == old.completion_time
}

/// An accepted claim of share `index` by `holder` took `old` to `new`: the
/// share is paid to the holder of its proceeds token, the token burnt from
/// the holder, and the share marked claimed.
pub open spec fn share_claimed(
    old: Invoice,
    new: Invoice,
    out: Outcome,
    ledger: Ledger,
    index: u32,
    holder: Address,
) -> bool {
    &&& only_claims_changed(old, new)
    &&& new.claimed@ =~= old.claimed@.update(index as int, true)
    &&& out.token_ops@ =~= claim_ops(old, ledger.contract, index as int, holder)
    &&& out.audit@.len() == 0
    &&& !out.released
    &&& out.follow_up is None
    &&& out.follow_up_params is None
}

/// An accepted reclaim took `old` to `new`: every unclaimed share goes to
/// the creator and every share is marked claimed.
pub open spec fn shares_reclaimed(old: Invoice, new: Invoice, out: Outcome, ledger: Ledger) -> bool {
    let n = old.amounts@.len();
    &&& only_claims_changed(old, new)
    &&& new.claimed@.len() == old.claimed@.len()
    &&& forall|j: int|
        0 <= j < old.claimed@.len() ==> #[trigger] new.claimed@[j] == (j < n || old.claimed@[j])
    &&& out.token_ops@ =~= reclaim_ops_upto(old, ledger.contract, n as int)
    &&& out.audit@.len() == 0
    &&& !out.released
    &&& out.follow_up is None
    &&& out.follow_up_params is None
}

/// An accepted cancellation by `caller` took `old` to `new`.
pub open spec fn cancelled(old: Invoice, new: Invoice, out: Outcome, ledger: Ledger, caller: Address) -> bool {
    &&& only_status_changed(old, new, InvoiceStatus::Cancelled, old.completion_time)
    &&& out.token_ops@.len() == 0
    &&& out.audit@ =~= seq![entry(AuditAction::Cancel, caller, ledger.timestamp)]
    &&& !out.released
    &&& out.follow_up is None
    &&& out.follow_up_params is None
}

/// An accepted deadline extension by `caller` took `old` to `new`.
pub open spec fn deadline_extended(
    old: Invoice,
    new: Invoice,
    out: Outcome,
    ledger: Ledger,
    caller: Address,
    new_deadline: u64,
) -> bool {
    &&& same_terms(old, new)
    &&& new.deadline == new_deadline
    &&& new.funded == old.funded
    &&& new.payments == old.payments
    &&& new.status == old.status
    &&& new.completion_time == old.completion_time
    &&& new.claimed == old.claimed
    &&& out.token_ops@.len() == 0
    &&& out.audit@ =~= seq![entry(AuditAction::Extend, caller, ledger.timestamp)]
    &&& !out.released
    &&& out.follow_up is None
    &&& out.follow_up_params is None
}

} // verus!
