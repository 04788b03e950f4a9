//! The operations of the splitting contract.
//!
//! Every operation takes the stored records it works on together with the
//! [`Ledger`] the call runs in. An operation that is refused returns the
//! reason and leaves the invoice as it was; one that succeeds updates the
//! invoice and returns what the host still has to do: token movements, audit
//! entries, and the next invoice of a subscription.
use vstd::prelude::*;

use crate::address::Address;
use crate::amounts::{
    sum_of, all_positive, checked_total, lemma_positive_running_total, lemma_running_total_is_sum,
};
use crate::rules::{
    batch_error, batch_items_error, cancel_error, cancelled, claim_error, counter_base,
    creation_error, deadline_extended, draft_matches, entry, expire_error, explicit_release_error,
    extend_error, follow_up_matches, invoice_from_draft, invoices_to_come, next_id, paid, pay_outcome_error,
    reclaim_error, reclaim_ops_upto, refund_error, refund_transfers, refunded, release_error,
    release_index_error, release_ops, release_ops_upto, released, same_terms, settle_error,
    share_claimed, shares_reclaimed, subscription_error, MAX_BATCH, MAX_MONTHS, MIN_MONTHS,
    RETENTION_PERIOD, SUBSCRIPTION_PERIOD,
};
use crate::types::{
    AuditAction, AuditEntry, CreateInvoiceParams, HolderQuery, Invoice, InvoiceDraft,
    InvoiceStatus, Ledger, Outcome, Payment, SplitError, SubscriptionParams, TokenOp,
};

verus! {

/// Copies a list of addresses.
fn copy_addresses(v: &Vec<Address>) -> (copy: Vec<Address>)
    ensures
        copy@ == v@,
{
    let mut copy: Vec<Address> = Vec::new();
    let mut i: usize = 0;
    while i < v.len()
        invariant
            i <= v.len(),
            copy@ == v@.take(i as int),
        decreases v.len() - i,
    {
        copy.push(v[i].clone());
        i = i + 1;
    }
    assert(v@.take(i as int) =~= v@);
    copy
}

/// Copies a list of amounts.
fn copy_amounts(v: &Vec<i128>) -> (copy: Vec<i128>)
    ensures
        copy@ == v@,
{
    let mut copy: Vec<i128> = Vec::new();
    let mut i: usize = 0;
    while i < v.len()
        invariant
            i <= v.len(),
            copy@ == v@.take(i as int),
        decreases v.len() - i,
    {
        copy.push(v[i]);
        i = i + 1;
    }
    assert(v@.take(i as int) =~= v@);
    copy
}

/// Whether every amount is positive.
fn amounts_positive(amounts: &Vec<i128>) -> (positive: bool)
    ensures
        positive == all_positive(amounts@),
{
    let mut i: usize = 0;
    while i < amounts.len()
        invariant
            i <= amounts.len(),
            forall|j: int| 0 <= j < i ==> amounts@[j] > 0,
        decreases amounts.len() - i,
    {
        if amounts[i] <= 0 {
            return false;
        }
        i = i + 1;
    }
    true
}

/// A refused batch item refuses the whole batch, whatever follows it.
proof fn lemma_batch_error_extends(now: u64, base: int, items: Seq<CreateInvoiceParams>, k: int)
    requires
        0 <= k <= items.len(),
        batch_items_error(now, base, items.take(k)) is Some,
    ensures
        batch_items_error(now, base, items) == batch_items_error(now, base, items.take(k)),
    decreases items.len() - k,
{
    if k < items.len() {
        assert(items.take(k + 1).drop_last() =~= items.take(k));
        lemma_batch_error_extends(now, base, items, k + 1);
    } else {
        assert(items.take(k) =~= items);
    }
}

/// The first invoice of a subscription and, when it runs for more than one
/// month, the parameters to keep for the next one.
#[derive(Clone, Debug, PartialEq, Eq)]
pub struct SubscriptionPlan {
    /// The first invoice.
    pub draft: InvoiceDraft,
    /// Stored under the first invoice's identifier when `months > 1`.
    pub params: Option<SubscriptionParams>,
}

/// The entry points of the contract.
pub struct SplitContract;

impl SplitContract {
    /// Core invoice creation logic shared by `create_invoice`, `create_batch`
    /// and `create_subscription`: checks the terms and assigns the next
    /// identifier after `counter`.
    fn create_invoice_inner(
        ledger: &Ledger,
        counter: Option<u64>,
        creator: Address,
        recipients: Vec<Address>,
        amounts: Vec<i128>,
        token: Address,
        deadline: u64,
        claim_deadline: Option<u64>,
    ) -> (draft: Result<InvoiceDraft, SplitError>)
        ensures
            match draft {
                Ok(d) => creation_error(
                    ledger.timestamp,
                    next_id(counter),
                    recipients@.len() as int,
                    amounts@,
                    deadline,
                ) is None && draft_matches(
                    d,
                    next_id(counter),
                    creator,
                    recipients@,
                    amounts@,
                    token,
                    deadline,
                    claim_deadline,
                ),
                Err(e) => creation_error(
                    ledger.timestamp,
                    next_id(counter),
                    recipients@.len() as int,
                    amounts@,
                    deadline,
                ) == Some(e),
            },
    {
        if recipients.len() != amounts.len() {
            return Err(SplitError::LengthMismatch);
        }
        if recipients.len() == 0 {
            return Err(SplitError::NoRecipients);
        }
        if deadline <= ledger.timestamp {
            return Err(SplitError::DeadlineNotInFuture);
        }
        if !amounts_positive(&amounts) {
            return Err(SplitError::NonPositiveAmount);
        }
        proof {
            lemma_positive_running_total(amounts@);
            lemma_running_total_is_sum(amounts@);
        }
        let id: u64 = match counter {
            Some(c) => {
                if c == u64::MAX {
                    return Err(SplitError::Overflow);
                }
                c + 1
            },
            None => 1,
        };
        let total: i128 = match checked_total(&amounts) {
            Some(t) => t,
            None => {
                return Err(SplitError::Overflow);
            },
        };
        proof {
            lemma_running_total_is_sum(amounts@);
        }
        Ok(InvoiceDraft { id, total, creator, recipients, amounts, token, deadline, claim_deadline })
    }

    /// Create a new invoice: checks its terms and assigns it the identifier
    /// after `counter`.
    pub fn create_invoice(
        ledger: &Ledger,
        counter: Option<u64>,
        creator: Address,
        recipients: Vec<Address>,
        amounts: Vec<i128>,
        token: Address,
        deadline: u64,
    ) -> (draft: Result<InvoiceDraft, SplitError>)
        ensures
            (draft matches Ok(d) ==> {
                &&& recipients@.len() == amounts@.len()
                &&& amounts@.len() > 0
                &&& deadline > ledger.timestamp
                &&& (forall|i: int| 0 <= i < amounts@.len() ==> amounts@[i] > 0)
                &&& d.id == (match counter {
                    Some(c) => c + 1,
                    None => 1,
                })
                &&& d.creator == creator
                &&& d.recipients@ == recipients@
                &&& d.amounts@ == amounts@
                &&& d.token == token
                &&& d.deadline == deadline
                &&& d.claim_deadline is None
            }),
            match draft {
                Ok(d) => creation_error(
                    ledger.timestamp,
                    next_id(counter),
                    recipients@.len() as int,
                    amounts@,
                    deadline,
                ) is None && draft_matches(
                    d,
                    next_id(counter),
                    creator,
                    recipients@,
                    amounts@,
                    token,
                    deadline,
                    None,
                ),
                Err(e) => creation_error(
                    ledger.timestamp,
                    next_id(counter),
                    recipients@.len() as int,
                    amounts@,
                    deadline,
                ) == Some(e),
            },
    {
        Self::create_invoice_inner(ledger, counter, creator, recipients, amounts, token, deadline, None)
    }

    /// Create up to five invoices in a single call. The invoices are created
    /// in order, each taking the identifier after the previous one; the first
    /// refused invoice refuses the whole batch.
    pub fn create_batch(
        ledger: &Ledger,
        counter: Option<u64>,
        creator: Address,
        invoices: Vec<CreateInvoiceParams>,
    ) -> (drafts: Result<Vec<InvoiceDraft>, SplitError>)
        ensures
            (drafts matches Ok(ds) ==> {
                &&& invoices@.len() <= 5
                &&& ds@.len() == invoices@.len()
                &&& forall|k: int|
                    0 <= k < ds@.len() ==> {
                        &&& (#[trigger] ds@[k]).recipients@ == invoices@[k].recipients@
                        &&& ds@[k].id == (match counter {
                            Some(c) => c + 1 + k,
                            None => 1 + k,
                        })
                        &&& ds@[k].amounts@ == invoices@[k].amounts@
                        &&& ds@[k].token == invoices@[k].token
                        &&& ds@[k].deadline == invoices@[k].deadline
                        &&& ds@[k].deadline > ledger.timestamp
                        &&& ds@[k].creator == creator
                        &&& ds@[k].claim_deadline is None
                    }
            }),
            match drafts {
                Ok(ds) => {
                    &&& batch_error(ledger.timestamp, counter, invoices@) is None
                    &&& ds@.len() == invoices@.len()
                    &&& forall|k: int|
                        0 <= k < ds@.len() ==> draft_matches(
                            #[trigger] ds@[k],
                            counter_base(counter) + 1 + k,
                            creator,
                            invoices@[k].recipients@,
                            invoices@[k].amounts@,
                            invoices@[k].token,
                            invoices@[k].deadline,
                            None,
                        )
                },
                Err(e) => batch_error(ledger.timestamp, counter, invoices@) == Some(e),
            },
    {
        if invoices.len() > MAX_BATCH {
            return Err(SplitError::BatchLimitExceeded);
        }
        let ghost base = counter_base(counter);
        let mut drafts: Vec<InvoiceDraft> = Vec::new();
        let mut cur: Option<u64> = counter;
        let mut i: usize = 0;
        while i < invoices.len()
            invariant
                i <= invoices.len(),
                invoices.len() <= MAX_BATCH,
                base == counter_base(counter),
                counter_base(cur) == base + i,
                batch_items_error(ledger.timestamp, base, invoices@.take(i as int)) is None,
                drafts@.len() == i,
                forall|k: int| 0 <= k < i ==> (#[trigger] drafts@[k]).deadline > ledger.timestamp,
                forall|k: int|
                    0 <= k < i ==> draft_matches(
                        #[trigger] drafts@[k],
                        base + 1 + k,
                        creator,
                        invoices@[k].recipients@,
                        invoices@[k].amounts@,
                        invoices@[k].token,
                        invoices@[k].deadline,
                        None,
                    ),
            decreases invoices.len() - i,
        {
            let item = &invoices[i];
            assert(invoices@.take(i + 1).drop_last() =~= invoices@.take(i as int));
            assert(invoices@.take(i + 1).last() == invoices@[i as int]);
            let made = Self::create_invoice_inner(
                ledger,
                cur,
                creator.clone(),
                copy_addresses(&item.recipients),
                copy_amounts(&item.amounts),
                item.token.clone(),
                item.deadline,
                None,
            );
            match made {
                Ok(d) => {
                    cur = Some(d.id);
                    drafts.push(d);
                },
                Err(e) => {
                    assert(batch_items_error(ledger.timestamp, base, invoices@.take(i + 1)) == Some(e));
                    proof {
                        lemma_batch_error_extends(ledger.timestamp, base, invoices@, i + 1);
                    }
                    return Err(e);
                },
            }
            i = i + 1;
        }
        assert(invoices@.take(i as int) =~= invoices@);
        Ok(drafts)
    }

    /// Create a subscription: the first invoice is due in one period; when
    /// the subscription runs for more than one month its parameters are kept
    /// so that releasing the first invoice creates the next one.
    pub fn create_subscription(
        ledger: &Ledger,
        counter: Option<u64>,
        creator: Address,
        recipients: Vec<Address>,
        amounts: Vec<i128>,
        token: Address,
        months: u32,
    ) -> (plan: Result<SubscriptionPlan, SplitError>)
        ensures
            (plan matches Ok(p) ==> {
                &&& 1 <= months <= 12
                &&& p.draft.creator == creator
                &&& p.draft.recipients@ == recipients@
                &&& p.draft.amounts@ == amounts@
                &&& p.draft.token == token
                &&& p.draft.deadline == ledger.timestamp + SUBSCRIPTION_PERIOD
                &&& (p.params is Some <==> months > 1)
                &&& (p.params is Some ==> p.params->0.remaining == months - 1
                    && p.params->0.recipients@ == recipients@ && p.params->0.amounts@ == amounts@)
            }),
            match plan {
                Ok(p) => {
                    &&& subscription_error(
                        ledger.timestamp,
                        counter,
                        recipients@.len() as int,
                        amounts@,
                        months,
                    ) is None
                    &&& draft_matches(
                        p.draft,
                        next_id(counter),
                        creator,
                        recipients@,
                        amounts@,
                        token,
                        (ledger.timestamp + SUBSCRIPTION_PERIOD) as u64,
                        None,
                    )
                    &&& invoices_to_come(p.params) == months - 1
                    &&& match p.params {
                        Some(s) => months > 1 && s.creator == creator && s.recipients@
                            == recipients@ && s.amounts@ == amounts@ && s.token == token
                            && s.remaining == months - 1,
                        None => months <= 1,
                    }
                },
                Err(e) => subscription_error(
                    ledger.timestamp,
                    counter,
                    recipients@.len() as int,
                    amounts@,
                    months,
                ) == Some(e),
            },
    {
        if recipients.len() != amounts.len() {
            return Err(SplitError::LengthMismatch);
        }
        if recipients.len() == 0 {
            return Err(SplitError::NoRecipients);
        }
        if !(MIN_MONTHS <= months && months <= MAX_MONTHS) {
            return Err(SplitError::InvalidMonths);
        }
        if !amounts_positive(&amounts) {
            return Err(SplitError::NonPositiveAmount);
        }
        if ledger.timestamp > u64::MAX - SUBSCRIPTION_PERIOD {
            return Err(SplitError::Overflow);
        }
        let deadline = ledger.timestamp + SUBSCRIPTION_PERIOD;
        let params = if months > 1 {
            Some(
                SubscriptionParams {
                    creator: creator.clone(),
                    recipients: copy_addresses(&recipients),
                    amounts: copy_amounts(&amounts),
                    token: token.clone(),
                    remaining: months - 1,
                },
            )
        } else {
            None
        };
        let draft = Self::create_invoice_inner(
            ledger,
            counter,
            creator,
            recipients,
            amounts,
            token,
            deadline,
            None,
        )?;
        Ok(SubscriptionPlan { draft, params })
    }

    /// Route funds to all recipients and mark the invoice as released, as
    /// planned for `invoice`: the token movements, the audit entry by
    /// `actor`, and the next invoice of the subscription, if any. Nothing is
    /// changed yet.
    fn release_plan(
        ledger: &Ledger,
        invoice: &Invoice,
        actor: Address,
        counter: Option<u64>,
        subscription: Option<SubscriptionParams>,
    ) -> (plan: Result<Outcome, SplitError>)
        ensures
            match plan {
                Ok(out) => {
                    &&& release_error(*invoice, ledger.timestamp, counter, subscription) is None
                    &&& out.token_ops@ == release_ops(*invoice, ledger.contract)
                    &&& out.audit@ == seq![entry(AuditAction::Release, actor, ledger.timestamp)]
                    &&& out.released
                    &&& follow_up_matches(
                        out.follow_up,
                        out.follow_up_params,
                        ledger.timestamp,
                        counter,
                        subscription,
                    )
                    &&& subscription matches Some(p) ==> {
                        &&& out.follow_up is Some
                        &&& out.follow_up->0.recipients@ == p.recipients@
                        &&& out.follow_up->0.amounts@ == p.amounts@
                        &&& out.follow_up->0.creator == p.creator
                        &&& out.follow_up->0.token == p.token
                    }
                },
                Err(e) => release_error(*invoice, ledger.timestamp, counter, subscription)
                    == Some(e),
            },
    {
        let mut ops: Vec<TokenOp> = Vec::new();
        if invoice.claim_deadline.is_none() {
            let n = invoice.amounts.len();
            let mut i: usize = 0;
            while i < n
                invariant
                    n == invoice.amounts@.len(),
                    invoice.claim_deadline is None,
                    i <= n,
                    i <= invoice.proceeds_tokens@.len(),
                    i <= invoice.recipients@.len(),
                    ops@ == release_ops_upto(*invoice, ledger.contract, i as int),
                decreases n - i,
            {
                if i >= invoice.proceeds_tokens.len() {
                    return Err(SplitError::MissingProceedsToken);
                }
                if i >= invoice.recipients.len() {
                    return Err(SplitError::MissingRecipient);
                }
                let amount = invoice.amounts[i];
                ops.push(
                    TokenOp::Transfer {
                        token: invoice.token.clone(),
                        from: ledger.contract.clone(),
                        to: invoice.recipients[i].clone(),
                        amount,
                    },
                );
                ops.push(
                    TokenOp::Clawback {
                        token: invoice.proceeds_tokens[i].clone(),
                        from: invoice.recipients[i].clone(),
                        amount,
                    },
                );
                i = i + 1;
            }
            assert(release_index_error(*invoice) is None);
        }
        let (follow_up, follow_up_params) = match subscription {
            None => (None, None),
            Some(p) => {
                if ledger.timestamp > u64::MAX - SUBSCRIPTION_PERIOD {
                    return Err(SplitError::Overflow);
                }
                let kept = if p.remaining > 1 {
                    Some(
                        SubscriptionParams {
                            creator: p.creator.clone(),
                            recipients: copy_addresses(&p.recipients),
                            amounts: copy_amounts(&p.amounts),
                            token: p.token.clone(),
                            remaining: p.remaining - 1,
                        },
                    )
                } else {
                    None
                };
                let d = Self::create_invoice_inner(
                    ledger,
                    counter,
                    p.creator,
                    p.recipients,
                    p.amounts,
                    p.token,
                    ledger.timestamp + SUBSCRIPTION_PERIOD,
                    None,
                )?;
                (Some(d), kept)
            },
        };
        let mut audit: Vec<AuditEntry> = Vec::new();
        audit.push(AuditEntry { action: AuditAction::Release, actor, timestamp: ledger.timestamp });
        Ok(Outcome { token_ops: ops, audit, released: true, follow_up, follow_up_params })
    }

    /// Pay `amount` toward the invoice on behalf of `payer`. The payment is
    /// recorded; when it completes the funding the invoice is released in the
    /// same call, on behalf of its creator. `counter` and `subscription` are
    /// the invoice counter and the subscription parameters kept for this
    /// invoice, which a release needs to create the next invoice.
    pub fn pay(
        ledger: &Ledger,
        invoice: &mut Invoice,
        payer: Address,
        amount: i128,
        counter: Option<u64>,
        subscription: Option<SubscriptionParams>,
    ) -> (outcome: Result<Outcome, SplitError>)
        ensures
            (outcome matches Ok(out) ==> {
                &&& old(invoice).status == InvoiceStatus::Pending
                &&& ledger.timestamp <= old(invoice).deadline
                &&& amount > 0
                &&& old(invoice).funded + amount <= sum_of(old(invoice).amounts@)
                &&& final(invoice).funded == old(invoice).funded + amount
                &&& final(invoice).payments@ == old(invoice).payments@.push(Payment { payer, amount })
                &&& (final(invoice).status == InvoiceStatus::Released) == (old(invoice).funded
                    + amount >= sum_of(old(invoice).amounts@))
                &&& out.released == (final(invoice).status == InvoiceStatus::Released)
                &&& out.audit@.len() == if out.released { 2int } else { 1int }
                &&& out.audit@[0] == (AuditEntry {
                    action: AuditAction::Pay,
                    actor: payer,
                    timestamp: ledger.timestamp,
                })
                &&& out.released ==> out.audit@[1] == (AuditEntry {
                    action: AuditAction::Release,
                    actor: old(invoice).creator,
                    timestamp: ledger.timestamp,
                })
                &&& out.token_ops@[0] == (TokenOp::Transfer {
                    token: old(invoice).token,
                    from: payer,
                    to: ledger.contract,
                    amount,
                })
                &&& !out.released ==> out.token_ops@.len() == 1
                &&& (out.released && old(invoice).claim_deadline is None) ==> {
                    &&& out.token_ops@.len() == 1 + 2 * old(invoice).amounts@.len()
                    &&& forall|i: int|
                        0 <= i < old(invoice).amounts@.len() ==> out.token_ops@[1 + 2 * i] == (
                        TokenOp::Transfer {
                            token: old(invoice).token,
                            from: ledger.contract,
                            to: old(invoice).recipients@[i],
                            amount: old(invoice).amounts@[i],
                        }) && out.token_ops@[2 + 2 * i] == (TokenOp::Clawback {
                            token: old(invoice).proceeds_tokens@[i],
                            from: old(invoice).recipients@[i],
                            amount: old(invoice).amounts@[i],
                        })
                }
                &&& (out.released && old(invoice).claim_deadline is Some) ==> out.token_ops@.len()
                    == 1
            }),
            (match outcome {
                Ok(out) => subscription is Some && out.released ==> {
                let p = subscription->0;
                &&& out.follow_up is Some
                &&& out.follow_up->0.id == (match counter {
                    Some(c) => c + 1,
                    None => 1,
                })
                &&& out.follow_up->0.creator == p.creator
                &&& out.follow_up->0.recipients@ == p.recipients@
                &&& out.follow_up->0.amounts@ == p.amounts@
                &&& out.follow_up->0.token == p.token
                &&& out.follow_up->0.deadline == ledger.timestamp + SUBSCRIPTION_PERIOD
                &&& out.follow_up->0.claim_deadline is None
                &&& (out.follow_up_params is Some <==> p.remaining > 1)
                &&& (out.follow_up_params is Some ==> out.follow_up_params->0.remaining == p.remaining
                    - 1 && out.follow_up_params->0.recipients@ == p.recipients@
                    && out.follow_up_params->0.amounts@ == p.amounts@)
                },
                Err(_) => true,
            }),
            (match outcome {
                Ok(out) => subscription is None || !out.released ==> out.follow_up is None,
                Err(_) => true,
            }),
            match outcome {
                Ok(out) => {
                    &&& pay_outcome_error(*old(invoice), ledger.timestamp, amount, counter, subscription)
                        is None
                    &&& paid(
                        *old(invoice),
                        *final(invoice),
                        out,
                        *ledger,
                        payer,
                        amount,
                        counter,
                        subscription,
                    )
                },
                Err(e) => {
                    &&& *final(invoice) == *old(invoice)
                    &&& pay_outcome_error(
                        *old(invoice),
                        ledger.timestamp,
                        amount,
                        counter,
                        subscription,
                    ) == Some(e)
                },
            },
    {
        if invoice.status != InvoiceStatus::Pending {
            return Err(SplitError::NotPending);
        }
        if ledger.timestamp > invoice.deadline {
            return Err(SplitError::DeadlinePassed);
        }
        if amount <= 0 {
            return Err(SplitError::NonPositivePayment);
        }
        let total: i128 = match checked_total(&invoice.amounts) {
            Some(t) => t,
            None => {
                return Err(SplitError::Overflow);
            },
        };
        proof {
            lemma_running_total_is_sum(invoice.amounts@);
        }
        let remaining: i128 = match total.checked_sub(invoice.funded) {
            Some(r) => r,
            None => {
                return Err(SplitError::Overflow);
            },
        };
        if amount > remaining {
            return Err(SplitError::ExceedsRemaining);
        }
        let funded = invoice.funded + amount;
        let ghost inv = *invoice;
        let incoming = TokenOp::Transfer {
            token: invoice.token.clone(),
            from: payer.clone(),
            to: ledger.contract.clone(),
            amount,
        };
        let pay_entry = AuditEntry {
            action: AuditAction::Pay,
            actor: payer.clone(),
            timestamp: ledger.timestamp,
        };
        let mut token_ops: Vec<TokenOp> = Vec::new();
        token_ops.push(incoming);
        let mut audit: Vec<AuditEntry> = Vec::new();
        audit.push(pay_entry);
        let mut released = false;
        let mut follow_up: Option<InvoiceDraft> = None;
        let mut follow_up_params: Option<SubscriptionParams> = None;
        if funded >= total {
            let creator = invoice.creator.clone();
            let mut plan = Self::release_plan(ledger, invoice, creator, counter, subscription)?;
            token_ops.append(&mut plan.token_ops);
            audit.append(&mut plan.audit);
            released = true;
            follow_up = plan.follow_up;
            follow_up_params = plan.follow_up_params;
            invoice.status = InvoiceStatus::Released;
            invoice.completion_time = Some(ledger.timestamp);
        }
        invoice.payments.push(Payment { payer, amount });
        invoice.funded = funded;
        proof {
            crate::laws::lemma_release_pays_each_recipient_its_share(inv, ledger.contract);
        }
        Ok(Outcome { token_ops, audit, released, follow_up, follow_up_params })
    }

    /// Release funds to all recipients once the invoice is fully funded, on
    /// behalf of the contract itself.
    pub fn release(
        ledger: &Ledger,
        invoice: &mut Invoice,
        counter: Option<u64>,
        subscription: Option<SubscriptionParams>,
    ) -> (outcome: Result<Outcome, SplitError>)
        ensures
            (outcome matches Ok(out) ==> {
                &&& old(invoice).status == InvoiceStatus::Pending
                &&& old(invoice).funded >= sum_of(old(invoice).amounts@)
                &&& final(invoice).status == InvoiceStatus::Released
                &&& final(invoice).completion_time == Some(ledger.timestamp)
                &&& out.released
                &&& out.audit@ == seq![
                    AuditEntry {
                        action: AuditAction::Release,
                        actor: ledger.contract,
                        timestamp: ledger.timestamp,
                    },
                ]
                &&& old(invoice).claim_deadline is None ==> {
                    &&& out.token_ops@.len() == 2 * old(invoice).amounts@.len()
                    &&& forall|i: int|
                        0 <= i < old(invoice).amounts@.len() ==> out.token_ops@[2 * i] == (
                        TokenOp::Transfer {
                            token: old(invoice).token,
                            from: ledger.contract,
                            to: old(invoice).recipients@[i],
                            amount: old(invoice).amounts@[i],
                        }) && out.token_ops@[2 * i + 1] == (TokenOp::Clawback {
                            token: old(invoice).proceeds_tokens@[i],
                            from: old(invoice).recipients@[i],
                            amount: old(invoice).amounts@[i],
                        })
                }
                &&& old(invoice).claim_deadline is Some ==> out.token_ops@.len() == 0
            }),
            (match outcome {
                Ok(out) => subscription is Some && out.released ==> {
                let p = subscription->0;
                &&& out.follow_up is Some
                &&& out.follow_up->0.id == (match counter {
                    Some(c) => c + 1,
                    None => 1,
                })
                &&& out.follow_up->0.creator == p.creator
                &&& out.follow_up->0.recipients@ == p.recipients@
                &&& out.follow_up->0.amounts@ == p.amounts@
                &&& out.follow_up->0.token == p.token
                &&& out.follow_up->0.deadline == ledger.timestamp + SUBSCRIPTION_PERIOD
                &&& out.follow_up->0.claim_deadline is None
                &&& (out.follow_up_params is Some <==> p.remaining > 1)
                &&& (out.follow_up_params is Some ==> out.follow_up_params->0.remaining == p.remaining
                    - 1 && out.follow_up_params->0.recipients@ == p.recipients@
                    && out.follow_up_params->0.amounts@ == p.amounts@)
                },
                Err(_) => true,
            }),
            (match outcome {
                Ok(out) => subscription is None || !out.released ==> out.follow_up is None,
                Err(_) => true,
            }),
            match outcome {
                Ok(out) => {
                    &&& explicit_release_error(*old(invoice), ledger.timestamp, counter, subscription)
                        is None
                    &&& released(*old(invoice), *final(invoice), out, *ledger, counter, subscription)
                },
                Err(e) => {
                    &&& *final(invoice) == *old(invoice)
                    &&& explicit_release_error(
                        *old(invoice),
                        ledger.timestamp,
                        counter,
                        subscription,
                    ) == Some(e)
                },
            },
    {
        if invoice.status != InvoiceStatus::Pending {
            return Err(SplitError::NotPending);
        }
        let total: i128 = match checked_total(&invoice.amounts) {
            Some(t) => t,
            None => {
                return Err(SplitError::Overflow);
            },
        };
        proof {
            lemma_running_total_is_sum(invoice.amounts@);
        }
        if invoice.funded < total {
            return Err(SplitError::NotFullyFunded);
        }
        let plan = Self::release_plan(ledger, invoice, ledger.contract.clone(), counter, subscription)?;
        proof {
            crate::laws::lemma_release_pays_each_recipient_its_share(*invoice, ledger.contract);
        }
        invoice.status = InvoiceStatus::Released;
        invoice.completion_time = Some(ledger.timestamp);
        Ok(plan)
    }

    /// Refund all payers if the deadline has passed and the invoice is not
    /// fully funded; the refund is recorded on behalf of the contract.
    pub fn refund(ledger: &Ledger, invoice: &mut Invoice) -> (outcome: Result<Outcome, SplitError>)
        ensures
            (outcome matches Ok(out) ==> {
                &&& old(invoice).status == InvoiceStatus::Pending
                &&& ledger.timestamp > old(invoice).deadline
                &&& final(invoice).status == InvoiceStatus::Refunded
                &&& final(invoice).completion_time == Some(ledger.timestamp)
                &&& final(invoice).funded == old(invoice).funded
                &&& out.token_ops@.len() == old(invoice).payments@.len()
                &&& out.audit@ == seq![
                    AuditEntry {
                        action: AuditAction::Refund,
                        actor: ledger.contract,
                        timestamp: ledger.timestamp,
                    },
                ]
                &&& forall|j: int|
                    0 <= j < out.token_ops@.len() ==> #[trigger] out.token_ops@[j] == (TokenOp::Transfer {
                        token: old(invoice).token,
                        from: ledger.contract,
                        to: old(invoice).payments@[j].payer,
                        amount: old(invoice).payments@[j].amount,
                    })
            }),
            match outcome {
                Ok(out) => {
                    &&& refund_error(*old(invoice), ledger.timestamp) is None
                    &&& refunded(*old(invoice), *final(invoice), out, *ledger)
                },
                Err(e) => {
                    &&& *final(invoice) == *old(invoice)
                    &&& refund_error(*old(invoice), ledger.timestamp) == Some(e)
                },
            },
    {
        if invoice.status != InvoiceStatus::Pending {
            return Err(SplitError::NotPending);
        }
        if ledger.timestamp <= invoice.deadline {
            return Err(SplitError::DeadlineNotPassed);
        }
        let mut token_ops: Vec<TokenOp> = Vec::new();
        let mut i: usize = 0;
        while i < invoice.payments.len()
            invariant
                i <= invoice.payments@.len(),
                token_ops@ == refund_transfers(
                    invoice.payments@.take(i as int),
                    invoice.token,
                    ledger.contract,
                ),
            decreases invoice.payments.len() - i,
        {
            let payment = &invoice.payments[i];
            token_ops.push(
                TokenOp::Transfer {
                    token: invoice.token.clone(),
                    from: ledger.contract.clone(),
                    to: payment.payer.clone(),
                    amount: payment.amount,
                },
            );
            assert(refund_transfers(invoice.payments@.take(i + 1), invoice.token, ledger.contract)
                =~= token_ops@);
            i = i + 1;
        }
        assert(invoice.payments@.take(i as int) =~= invoice.payments@);
        invoice.status = InvoiceStatus::Refunded;
        invoice.completion_time = Some(ledger.timestamp);
        let mut audit: Vec<AuditEntry> = Vec::new();
        audit.push(
            AuditEntry {
                action: AuditAction::Refund,
                actor: ledger.contract.clone(),
                timestamp: ledger.timestamp,
            },
        );
        Ok(Outcome { token_ops, audit, released: false, follow_up: None, follow_up_params: None })
    }

    /// Checks a claim of share `recipient_index` up to the point where the
    /// holder of the share's proceeds token must be known, and names the
    /// balance the host has to look up for [`SplitContract::claim_share`].
    pub fn claim_query(ledger: &Ledger, invoice: &Invoice, recipient_index: u32) -> (query: Result<
        HolderQuery,
        SplitError,
    >)
        ensures
            (query matches Ok(q) ==> {
                &&& invoice.status == InvoiceStatus::Released
                &&& invoice.claim_deadline is Some
                &&& ledger.timestamp <= invoice.claim_deadline->0
                &&& recipient_index < invoice.amounts@.len()
                &&& (recipient_index < invoice.claimed@.len() ==> !invoice.claimed@[recipient_index as int])
            }),
            match query {
                Ok(q) => {
                    let i = recipient_index as int;
                    &&& claim_error(*invoice, ledger.timestamp, recipient_index) is None
                    &&& q.proceeds_token == invoice.proceeds_tokens@[i]
                    &&& q.recipient == invoice.recipients@[i]
                    &&& q.amount == invoice.amounts@[i]
                },
                Err(e) => claim_error(*invoice, ledger.timestamp, recipient_index) == Some(e),
            },
    {
        if invoice.status != InvoiceStatus::Released {
            return Err(SplitError::NotReleased);
        }
        let claim_deadline = match invoice.claim_deadline {
            Some(d) => d,
            None => {
                return Err(SplitError::NoClaimDeadline);
            },
        };
        if ledger.timestamp > claim_deadline {
            return Err(SplitError::ClaimExpired);
        }
        let i = recipient_index as usize;
        if i < invoice.claimed.len() && invoice.claimed[i] {
            return Err(SplitError::AlreadyClaimed);
        }
        if i >= invoice.amounts.len() {
            return Err(SplitError::InvalidIndex);
        }
        if i >= invoice.proceeds_tokens.len() {
            return Err(SplitError::ProceedsTokenNotFound);
        }
        if i >= invoice.recipients.len() {
            return Err(SplitError::InvalidIndex);
        }
        Ok(
            HolderQuery {
                proceeds_token: invoice.proceeds_tokens[i].clone(),
                recipient: invoice.recipients[i].clone(),
                amount: invoice.amounts[i],
            },
        )
    }

    /// Whether `holder` may be paid share `recipient_index`: it must hold
    /// the whole share in the share's proceeds token (`balance`). Holders
    /// cannot be enumerated on chain, so the claimant is named by the host;
    /// when it is short the refusal says whether it is the original recipient,
    /// who has transferred the token away, or another claimant.
    pub fn find_token_holder(
        invoice: &Invoice,
        recipient_index: u32,
        holder: Address,
        balance: i128,
    ) -> (found: Result<Address, SplitError>)
        ensures
            ({
                let i = recipient_index as int;
                match found {
                    Ok(h) => i < invoice.recipients@.len() && i < invoice.amounts@.len() && balance
                        >= invoice.amounts@[i] && h == holder,
                    Err(e) => if i >= invoice.recipients@.len() || i >= invoice.amounts@.len() {
                        e == SplitError::InvalidIndex
                    } else {
                        &&& balance < invoice.amounts@[i]
                        &&& e == if holder@ == invoice.recipients@[i]@ {
                            SplitError::TokenTransferred
                        } else {
                            SplitError::NotTokenHolder
                        }
                    },
                }
            }),
    {
        let i = recipient_index as usize;
        if i >= invoice.recipients.len() || i >= invoice.amounts.len() {
            return Err(SplitError::InvalidIndex);
        }
        if balance >= invoice.amounts[i] {
            Ok(holder)
        } else if holder.same_as(&invoice.recipients[i]) {
            Err(SplitError::TokenTransferred)
        } else {
            Err(SplitError::NotTokenHolder)
        }
    }

    /// Claim a share after release when a claim deadline is set. The current
    /// holder of the share's proceeds token receives the funds: `holder` is
    /// the claimant the host names (the original recipient, see
    /// [`SplitContract::claim_query`], or whoever the token was transferred
    /// to) and `holder_balance` its balance of the proceeds token. The token
    /// is burnt from the holder and the share is marked claimed.
    pub fn claim_share(
        ledger: &Ledger,
        invoice: &mut Invoice,
        recipient_index: u32,
        holder: Address,
        holder_balance: i128,
    ) -> (outcome: Result<Outcome, SplitError>)
        ensures
            (outcome matches Ok(out) ==> {
                let i = recipient_index as int;
                &&& old(invoice).status == InvoiceStatus::Released
                &&& old(invoice).claim_deadline is Some
                &&& ledger.timestamp <= old(invoice).claim_deadline->0
                &&& 0 <= i < old(invoice).amounts@.len()
                &&& i < old(invoice).claimed@.len()
                &&& !old(invoice).claimed@[i]
                &&& final(invoice).claimed@[i]
                &&& holder_balance >= old(invoice).amounts@[i]
                &&& out.token_ops@.len() == 2
                &&& out.token_ops@[0] == (TokenOp::Transfer {
                    token: old(invoice).token,
                    from: ledger.contract,
                    to: holder,
                    amount: old(invoice).amounts@[i],
                })
                &&& out.token_ops@[1] == (TokenOp::Clawback {
                    token: old(invoice).proceeds_tokens@[i],
                    from: holder,
                    amount: old(invoice).amounts@[i],
                })
            }),
            match outcome {
                Ok(out) => {
                    &&& settle_error(
                        *old(invoice),
                        ledger.timestamp,
                        recipient_index,
                        holder,
                        holder_balance,
                    ) is None
                    &&& share_claimed(
                        *old(invoice),
                        *final(invoice),
                        out,
                        *ledger,
                        recipient_index,
                        holder,
                    )
                },
                Err(e) => {
                    &&& *final(invoice) == *old(invoice)
                    &&& settle_error(
                        *old(invoice),
                        ledger.timestamp,
                        recipient_index,
                        holder,
                        holder_balance,
                    ) == Some(e)
                },
            },
    {
        let query = Self::claim_query(ledger, invoice, recipient_index)?;
        let holder = Self::find_token_holder(invoice, recipient_index, holder, holder_balance)?;
        let i = recipient_index as usize;
        if i >= invoice.claimed.len() {
            return Err(SplitError::IndexOutOfBounds);
        }
        let mut token_ops: Vec<TokenOp> = Vec::new();
        token_ops.push(
            TokenOp::Transfer {
                token: invoice.token.clone(),
                from: ledger.contract.clone(),
                to: holder.clone(),
                amount: query.amount,
            },
        );
        token_ops.push(
            TokenOp::Clawback { token: query.proceeds_token, from: holder, amount: query.amount },
        );
        invoice.claimed.set(i, true);
        Ok(
            Outcome {
                token_ops,
                audit: Vec::new(),
                released: false,
                follow_up: None,
                follow_up_params: None,
            },
        )
    }

    /// Creator reclaims the shares that were not claimed before the claim
    /// deadline: each unclaimed share is transferred to the creator and
    /// marked as claimed.
    pub fn reclaim_unclaimed(ledger: &Ledger, invoice: &mut Invoice) -> (outcome: Result<
        Outcome,
        SplitError,
    >)
        ensures
            (outcome matches Ok(out) ==> {
                &&& old(invoice).status == InvoiceStatus::Released
                &&& old(invoice).claim_deadline is Some
                &&& ledger.timestamp > old(invoice).claim_deadline->0
                &&& final(invoice).claimed@.len() == old(invoice).claimed@.len()
                &&& (forall|j: int|
                    0 <= j < old(invoice).amounts@.len() ==> #[trigger] final(invoice).claimed@[j])
                &&& (forall|j: int|
                    0 <= j < out.token_ops@.len() ==> {
                        &&& (#[trigger] out.token_ops@[j]) is Transfer
                        &&& out.token_ops@[j]->Transfer_token == old(invoice).token
                        &&& out.token_ops@[j]->Transfer_from == ledger.contract
                        &&& out.token_ops@[j]->Transfer_to == old(invoice).creator
                    })
            }),
            match outcome {
                Ok(out) => {
                    &&& reclaim_error(*old(invoice), ledger.timestamp) is None
                    &&& shares_reclaimed(*old(invoice), *final(invoice), out, *ledger)
                },
                Err(e) => {
                    &&& *final(invoice) == *old(invoice)
                    &&& reclaim_error(*old(invoice), ledger.timestamp) == Some(e)
                },
            },
    {
        if invoice.status != InvoiceStatus::Released {
            return Err(SplitError::NotReleased);
        }
        let claim_deadline = match invoice.claim_deadline {
            Some(d) => d,
            None => {
                return Err(SplitError::NoClaimDeadline);
            },
        };
        if ledger.timestamp <= claim_deadline {
            return Err(SplitError::ClaimDeadlineNotPassed);
        }
        let n = invoice.amounts.len();
        if invoice.claimed.len() < n {
            return Err(SplitError::IndexOutOfBounds);
        }
        let ghost inv = *invoice;
        let mut token_ops: Vec<TokenOp> = Vec::new();
        let mut i: usize = 0;
        while i < n
            invariant
                n == inv.amounts@.len(),
                n <= inv.claimed@.len(),
                i <= n,
                same_terms(inv, *invoice),
                invoice.deadline == inv.deadline,
                invoice.funded == inv.funded,
                invoice.payments == inv.payments,
                invoice.status == inv.status,
                invoice.completion_time == inv.completion_time,
                invoice.claimed@.len() == inv.claimed@.len(),
                forall|j: int|
                    0 <= j < inv.claimed@.len() ==> #[trigger] invoice.claimed@[j] == (j < i
                        || inv.claimed@[j]),
                token_ops@ == reclaim_ops_upto(inv, ledger.contract, i as int),
            decreases n - i,
        {
            if !invoice.claimed[i] {
                token_ops.push(
                    TokenOp::Transfer {
                        token: invoice.token.clone(),
                        from: ledger.contract.clone(),
                        to: invoice.creator.clone(),
                        amount: invoice.amounts[i],
                    },
                );
                invoice.claimed.set(i, true);
            }
            i = i + 1;
        }
        proof {
            crate::laws::lemma_reclaim_pays_creator(inv, ledger.contract);
        }
        Ok(Outcome { token_ops, audit: Vec::new(), released: false, follow_up: None, follow_up_params: None })
    }

    /// Whether a completed invoice may be deleted from storage: it must have
    /// been released or refunded at least the retention period ago.
    pub fn expire_invoice(ledger: &Ledger, invoice: &Invoice) -> (allowed: Result<(), SplitError>)
        ensures
            (allowed is Ok ==> {
                &&& (invoice.status == InvoiceStatus::Released || invoice.status
                    == InvoiceStatus::Refunded)
                &&& invoice.completion_time is Some
                &&& ledger.timestamp >= invoice.completion_time->0 + RETENTION_PERIOD
            }),
            match allowed {
                Ok(()) => expire_error(*invoice, ledger.timestamp) is None,
                Err(e) => expire_error(*invoice, ledger.timestamp) == Some(e),
            },
    {
        if !(invoice.status == InvoiceStatus::Released || invoice.status
            == InvoiceStatus::Refunded) {
            return Err(SplitError::NotCompleted);
        }
        let completion_time = match invoice.completion_time {
            Some(t) => t,
            None => {
                return Err(SplitError::NoCompletionTime);
            },
        };
        if completion_time > u64::MAX - RETENTION_PERIOD {
            return Err(SplitError::Overflow);
        }
        if ledger.timestamp < completion_time + RETENTION_PERIOD {
            return Err(SplitError::RetentionNotElapsed);
        }
        Ok(())
    }

    /// Cancel an invoice before any payments are made; only its creator may.
    pub fn cancel_invoice(ledger: &Ledger, invoice: &mut Invoice, caller: Address) -> (outcome:
        Result<Outcome, SplitError>)
        ensures
            (outcome matches Ok(out) ==> {
                &&& old(invoice).status == InvoiceStatus::Pending
                &&& old(invoice).creator@ == caller@
                &&& old(invoice).funded == 0
                &&& final(invoice).status == InvoiceStatus::Cancelled
                &&& out.token_ops@.len() == 0
                &&& out.audit@ == seq![
                    AuditEntry {
                        action: AuditAction::Cancel,
                        actor: caller,
                        timestamp: ledger.timestamp,
                    },
                ]
            }),
            match outcome {
                Ok(out) => {
                    &&& cancel_error(*old(invoice), caller) is None
                    &&& cancelled(*old(invoice), *final(invoice), out, *ledger, caller)
                },
                Err(e) => {
                    &&& *final(invoice) == *old(invoice)
                    &&& cancel_error(*old(invoice), caller) == Some(e)
                },
            },
    {
        if invoice.status != InvoiceStatus::Pending {
            return Err(SplitError::NotPending);
        }
        if !invoice.creator.same_as(&caller) {
            return Err(SplitError::OnlyCreatorCanCancel);
        }
        if invoice.funded != 0 {
            return Err(SplitError::CancelWithPayments);
        }
        invoice.status = InvoiceStatus::Cancelled;
        let mut audit: Vec<AuditEntry> = Vec::new();
        audit.push(
            AuditEntry { action: AuditAction::Cancel, actor: caller, timestamp: ledger.timestamp },
        );
        Ok(Outcome { token_ops: Vec::new(), audit, released: false, follow_up: None, follow_up_params: None })
    }

    /// Extend the deadline of a pending invoice; only its creator may, and
    /// the new deadline must lie in the future.
    pub fn extend_deadline(
        ledger: &Ledger,
        invoice: &mut Invoice,
        caller: Address,
        new_deadline: u64,
    ) -> (outcome: Result<Outcome, SplitError>)
        ensures
            (outcome matches Ok(out) ==> {
                &&& old(invoice).status == InvoiceStatus::Pending
                &&& old(invoice).creator@ == caller@
                &&& new_deadline > ledger.timestamp
                &&& new_deadline >= old(invoice).deadline
                &&& final(invoice).deadline == new_deadline
                &&& final(invoice).status == InvoiceStatus::Pending
                &&& out.audit@ == seq![
                    AuditEntry {
                        action: AuditAction::Extend,
                        actor: caller,
                        timestamp: ledger.timestamp,
                    },
                ]
            }),
            match outcome {
                Ok(out) => {
                    &&& extend_error(*old(invoice), ledger.timestamp, caller, new_deadline) is None
                    &&& deadline_extended(
                        *old(invoice),
                        *final(invoice),
                        out,
                        *ledger,
                        caller,
                        new_deadline,
                    )
                },
                Err(e) => {
                    &&& *final(invoice) == *old(invoice)
                    &&& extend_error(*old(invoice), ledger.timestamp, caller, new_deadline)
                        == Some(e)
                },
            },
    {
        if invoice.status != InvoiceStatus::Pending {
            return Err(SplitError::NotPending);
        }
        if !invoice.creator.same_as(&caller) {
            return Err(SplitError::OnlyCreatorCanExtend);
        }
        if new_deadline <= ledger.timestamp {
            return Err(SplitError::NewDeadlineNotInFuture);
        }
        if new_deadline < invoice.deadline {
            return Err(SplitError::DeadlineNotExtended);
        }
        invoice.deadline = new_deadline;
        let mut audit: Vec<AuditEntry> = Vec::new();
        audit.push(
            AuditEntry { action: AuditAction::Extend, actor: caller, timestamp: ledger.timestamp },
        );
        Ok(Outcome { token_ops: Vec::new(), audit, released: false, follow_up: None, follow_up_params: None })
    }
}

impl InvoiceDraft {
    /// The invoice stored for this draft once the host has registered one
    /// proceeds token per recipient: nothing funded or paid yet, pending, no
    /// share claimed.
    pub fn into_invoice(self, proceeds_tokens: Vec<Address>) -> (invoice: Invoice)
        ensures
            invoice_from_draft(self, proceeds_tokens@, invoice),
            invoice.status == InvoiceStatus::Pending,
            invoice.funded == 0,
            invoice.payments@.len() == 0,
            invoice.completion_time is None,
            invoice.claimed@.len() == self.amounts@.len(),
            forall|i: int| 0 <= i < invoice.claimed@.len() ==> !#[trigger] invoice.claimed@[i],
            invoice.recipients@ == self.recipients@,
            invoice.amounts@ == self.amounts@,
            invoice.proceeds_tokens@ == proceeds_tokens@,
            invoice.creator == self.creator,
            invoice.token == self.token,
            invoice.deadline == self.deadline,
            invoice.claim_deadline == self.claim_deadline,
    {
        let mut claimed: Vec<bool> = Vec::new();
        let mut i: usize = 0;
        while i < self.amounts.len()
            invariant
                i <= self.amounts@.len(),
                claimed@ == Seq::new(i as nat, |j: int| false),
            decreases self.amounts.len() - i,
        {
            claimed.push(false);
            i = i + 1;
        }
        Invoice {
            creator: self.creator,
            recipients: self.recipients,
            amounts: self.amounts,
            token: self.token,
            deadline: self.deadline,
            funded: 0,
            status: InvoiceStatus::Pending,
            payments: Vec::new(),
            claim_deadline: self.claim_deadline,
            claimed,
            completion_time: None,
            proceeds_tokens,
        }
    }
}

} // verus!
