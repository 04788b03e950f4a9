//! Properties of the contract as a whole: the invariant every operation
//! keeps, where the money goes, and what can no longer happen once an
//! invoice is settled.
use vstd::prelude::*;

use crate::address::Address;
use crate::amounts::{
    all_positive, lemma_positive_running_total, lemma_running_total_is_sum, lemma_sum_push,
    paid_total, payment_amounts, sum_of,
};
use crate::completion::{
    amounts_le, i128_le, le_bytes, spec_completion_preimage, twos_complement, u64_le,
};
use vstd::arithmetic::div_mod::lemma_mod_breakdown;
use vstd::arithmetic::power::{lemma_pow_positive, pow};
use crate::rules::{
    batch_error, subscription_error, expire_error, RETENTION_PERIOD, SUBSCRIPTION_PERIOD,
    claim_error, claim_ops, follow_up_matches, invoices_to_come, no_share_claimed, released,
    same_terms,
    cancel_error, cancelled, creation_error, deadline_extended, explicit_release_error,
    extend_error, invoice_from_draft, invoice_total, is_claimed, paid, pay_error,
    pay_outcome_error, reclaim_error, reclaim_ops_upto, refund_error, refund_transfers, refunded,
    release_ops, release_ops_upto, settle_error, share_claimed, shares_reclaimed, well_formed,
};
use crate::types::{
    Invoice, InvoiceDraft, InvoiceStatus, Ledger, Outcome, Payment, SplitError,
    SubscriptionParams, TokenOp,
};

verus! {

/// The amounts moved by the plain transfers among `ops`.
pub open spec fn transferred(ops: Seq<TokenOp>) -> int
    decreases ops.len(),
{
    if ops.len() == 0 {
        0
    } else {
        transferred(ops.drop_last()) + match ops.last() {
            TokenOp::Transfer { amount, .. } => amount as int,
            TokenOp::Clawback { .. } => 0,
        }
    }
}

proof fn lemma_transferred_concat(a: Seq<TokenOp>, b: Seq<TokenOp>)
    ensures
        transferred(a + b) == transferred(a) + transferred(b),
    decreases b.len(),
{
    if b.len() == 0 {
        assert(a + b =~= a);
    } else {
        assert((a + b).drop_last() =~= a + b.drop_last());
        lemma_transferred_concat(a, b.drop_last());
    }
}

proof fn lemma_positive_sum(s: Seq<i128>)
    requires
        all_positive(s),
    ensures
        sum_of(s) >= 0,
        s.len() > 0 ==> sum_of(s) > 0,
    decreases s.len(),
{
    if s.len() > 0 {
        assert(all_positive(s.drop_last()));
        lemma_positive_sum(s.drop_last());
    }
}

proof fn lemma_payments_push(p: Seq<Payment>, x: Payment)
    ensures
        payment_amounts(p.push(x)) =~= payment_amounts(p).push(x.amount),
        paid_total(p.push(x)) == paid_total(p) + x.amount,
{
    assert(payment_amounts(p.push(x)) =~= payment_amounts(p).push(x.amount));
    lemma_sum_push(payment_amounts(p), x.amount);
}

/// An invoice stored for an accepted creation, with one proceeds token per
/// share, is well formed.
pub proof fn lemma_created_invoice_well_formed(
    now: u64,
    id: int,
    draft: InvoiceDraft,
    proceeds_tokens: Seq<Address>,
    inv: Invoice,
)
    requires
        creation_error(
            now,
            id,
            draft.recipients@.len() as int,
            draft.amounts@,
            draft.deadline,
        ) is None,
        proceeds_tokens.len() == draft.amounts@.len(),
        invoice_from_draft(draft, proceeds_tokens, inv),
    ensures
        well_formed(inv),
{
    lemma_running_total_is_sum(inv.amounts@);
    lemma_positive_sum(inv.amounts@);
    assert(payment_amounts(inv.payments@) =~= Seq::<i128>::empty());
    assert(sum_of(Seq::<i128>::empty()) == 0);
}

/// A payment keeps a well-formed invoice well formed: the funded amount
/// stays the sum of the payments and never exceeds the total, and a payment
/// that completes the funding leaves the invoice released.
pub proof fn lemma_pay_keeps_well_formed(
    old: Invoice,
    new: Invoice,
    out: Outcome,
    ledger: Ledger,
    payer: Address,
    amount: i128,
    counter: Option<u64>,
    subscription: Option<SubscriptionParams>,
)
    requires
        well_formed(old),
        pay_outcome_error(old, ledger.timestamp, amount, counter, subscription) is None,
        paid(old, new, out, ledger, payer, amount, counter, subscription),
    ensures
        well_formed(new),
        new.funded <= invoice_total(new),
        new.funded == invoice_total(new) <==> new.status == InvoiceStatus::Released,
{
    lemma_payments_push(old.payments@, Payment { payer, amount });
    assert(pay_error(old, ledger.timestamp, amount) is None);
    assert(forall|i: int|
        0 <= i < new.claimed@.len() ==> new.claimed@[i] == old.claimed@[i]);
}

/// On a well-formed invoice an explicit release is always refused: the
/// payment that completes the funding has already released it.
pub proof fn lemma_explicit_release_refused(
    inv: Invoice,
    now: u64,
    counter: Option<u64>,
    subscription: Option<SubscriptionParams>,
)
    requires
        well_formed(inv),
    ensures
        explicit_release_error(inv, now, counter, subscription) is Some,
{
    lemma_positive_running_total(inv.amounts@);
    lemma_running_total_is_sum(inv.amounts@);
}

/// A refund keeps a well-formed invoice well formed.
pub proof fn lemma_refund_keeps_well_formed(old: Invoice, new: Invoice, out: Outcome, ledger: Ledger)
    requires
        well_formed(old),
        refund_error(old, ledger.timestamp) is None,
        refunded(old, new, out, ledger),
    ensures
        well_formed(new),
{
}

/// A claim keeps a well-formed invoice well formed.
pub proof fn lemma_claim_keeps_well_formed(
    old: Invoice,
    new: Invoice,
    out: Outcome,
    ledger: Ledger,
    index: u32,
    holder: Address,
    balance: i128,
)
    requires
        well_formed(old),
        settle_error(old, ledger.timestamp, index, holder, balance) is None,
        share_claimed(old, new, out, ledger, index, holder),
    ensures
        well_formed(new),
{
}

/// Reclaiming unclaimed shares keeps a well-formed invoice well formed.
pub proof fn lemma_reclaim_keeps_well_formed(old: Invoice, new: Invoice, out: Outcome, ledger: Ledger)
    requires
        well_formed(old),
        reclaim_error(old, ledger.timestamp) is None,
        shares_reclaimed(old, new, out, ledger),
    ensures
        well_formed(new),
{
}

/// A cancellation keeps a well-formed invoice well formed: only an invoice
/// with no payment at all can be cancelled.
pub proof fn lemma_cancel_keeps_well_formed(
    old: Invoice,
    new: Invoice,
    out: Outcome,
    ledger: Ledger,
    caller: Address,
)
    requires
        well_formed(old),
        cancel_error(old, caller) is None,
        cancelled(old, new, out, ledger, caller),
    ensures
        well_formed(new),
        new.payments@.len() == 0,
{
    lemma_positive_sum(payment_amounts(old.payments@));
}

/// Extending the deadline keeps a well-formed invoice well formed.
pub proof fn lemma_extend_keeps_well_formed(
    old: Invoice,
    new: Invoice,
    out: Outcome,
    ledger: Ledger,
    caller: Address,
    new_deadline: u64,
)
    requires
        well_formed(old),
        extend_error(old, ledger.timestamp, caller, new_deadline) is None,
        deadline_extended(old, new, out, ledger, caller, new_deadline),
    ensures
        well_formed(new),
{
}

proof fn lemma_release_ops_upto_transferred(inv: Invoice, contract: Address, i: int)
    requires
        0 <= i <= inv.amounts@.len(),
    ensures
        transferred(release_ops_upto(inv, contract, i)) == sum_of(inv.amounts@.take(i)),
    decreases i,
{
    if i > 0 {
        lemma_release_ops_upto_transferred(inv, contract, i - 1);
        let prev = release_ops_upto(inv, contract, i - 1);
        let pair = seq![
            TokenOp::Transfer {
                token: inv.token,
                from: contract,
                to: inv.recipients@[i - 1],
                amount: inv.amounts@[i - 1],
            },
            TokenOp::Clawback {
                token: inv.proceeds_tokens@[i - 1],
                from: inv.recipients@[i - 1],
                amount: inv.amounts@[i - 1],
            },
        ];
        lemma_transferred_concat(prev, pair);
        let first = seq![pair[0]];
        assert(transferred(first) == inv.amounts@[i - 1]) by {
            assert(first.drop_last() =~= Seq::<TokenOp>::empty());
            assert(transferred(Seq::<TokenOp>::empty()) == 0);
            assert(first.last() == pair[0]);
        }
        assert(transferred(pair) == transferred(first)) by {
            assert(pair.drop_last() =~= first);
        }
        assert(inv.amounts@.take(i).drop_last() =~= inv.amounts@.take(i - 1));
    }
}

/// A release that pays the shares out moves exactly the invoice total from
/// the contract to the recipients, one share each.
pub proof fn lemma_release_pays_out_total(inv: Invoice, contract: Address)
    requires
        inv.claim_deadline is None,
    ensures
        transferred(release_ops(inv, contract)) == invoice_total(inv),
{
    lemma_release_ops_upto_transferred(inv, contract, inv.amounts@.len() as int);
    assert(inv.amounts@.take(inv.amounts@.len() as int) =~= inv.amounts@);
}

/// When the payment that completes the funding of a well-formed invoice
/// releases it, everything paid in goes out: the recipients receive the
/// invoice total, which is the sum of all payments.
pub proof fn lemma_completed_payment_pays_recipients(
    old: Invoice,
    new: Invoice,
    out: Outcome,
    ledger: Ledger,
    payer: Address,
    amount: i128,
    counter: Option<u64>,
    subscription: Option<SubscriptionParams>,
)
    requires
        well_formed(old),
        old.claim_deadline is None,
        pay_outcome_error(old, ledger.timestamp, amount, counter, subscription) is None,
        paid(old, new, out, ledger, payer, amount, counter, subscription),
        new.status == InvoiceStatus::Released,
    ensures
        transferred(out.token_ops@) == amount + invoice_total(old),
        invoice_total(old) == paid_total(new.payments@),
{
    lemma_pay_keeps_well_formed(old, new, out, ledger, payer, amount, counter, subscription);
    assert(pay_error(old, ledger.timestamp, amount) is None);
    let incoming = TokenOp::Transfer { token: old.token, from: payer, to: ledger.contract, amount };
    lemma_transferred_concat(seq![incoming], release_ops(old, ledger.contract));
    assert(transferred(seq![incoming]) == amount) by {
        assert(seq![incoming].drop_last() =~= Seq::<TokenOp>::empty());
        assert(transferred(Seq::<TokenOp>::empty()) == 0);
        assert(seq![incoming].last() == incoming);
    }
    lemma_release_pays_out_total(old, ledger.contract);
}

proof fn lemma_refund_transfers_total(p: Seq<Payment>, token: Address, contract: Address)
    ensures
        transferred(refund_transfers(p, token, contract)) == paid_total(p),
    decreases p.len(),
{
    if p.len() > 0 {
        lemma_refund_transfers_total(p.drop_last(), token, contract);
        assert(refund_transfers(p, token, contract).drop_last() =~= refund_transfers(
            p.drop_last(),
            token,
            contract,
        ));
        assert(payment_amounts(p).drop_last() =~= payment_amounts(p.drop_last()));
    }
}

/// A refund gives every payer back exactly what they paid: one transfer per
/// payment, and together the funded amount of a well-formed invoice.
pub proof fn lemma_refund_returns_funds(old: Invoice, new: Invoice, out: Outcome, ledger: Ledger)
    requires
        well_formed(old),
        refund_error(old, ledger.timestamp) is None,
        refunded(old, new, out, ledger),
    ensures
        out.token_ops@.len() == old.payments@.len(),
        forall|j: int|
            0 <= j < old.payments@.len() ==> #[trigger] out.token_ops@[j] == (TokenOp::Transfer {
                token: old.token,
                from: ledger.contract,
                to: old.payments@[j].payer,
                amount: old.payments@[j].amount,
            }),
        transferred(out.token_ops@) == old.funded,
{
    lemma_refund_transfers_total(old.payments@, old.token, ledger.contract);
}

/// A share paid out by a claim is never paid again: a later claim of the
/// same share is refused, whatever the time and the holder's balance.
pub proof fn lemma_claimed_share_is_not_paid_again(
    old: Invoice,
    new: Invoice,
    out: Outcome,
    ledger: Ledger,
    index: u32,
    holder: Address,
    balance: i128,
    later: u64,
    later_holder: Address,
    later_balance: i128,
)
    requires
        settle_error(old, ledger.timestamp, index, holder, balance) is None,
        share_claimed(old, new, out, ledger, index, holder),
    ensures
        is_claimed(new, index as int),
        settle_error(new, later, index, later_holder, later_balance) is Some,
{
}

/// After the creator reclaims the unclaimed shares nothing is left to pay:
/// every claim is refused and a second reclaim moves no funds.
pub proof fn lemma_reclaim_leaves_nothing(
    old: Invoice,
    new: Invoice,
    out: Outcome,
    ledger: Ledger,
    index: u32,
    later: u64,
    later_holder: Address,
    later_balance: i128,
)
    requires
        reclaim_error(old, ledger.timestamp) is None,
        shares_reclaimed(old, new, out, ledger),
    ensures
        settle_error(new, later, index, later_holder, later_balance) is Some,
        reclaim_ops_upto(new, ledger.contract, new.amounts@.len() as int).len() == 0,
{
    let n = new.amounts@.len() as int;
    if (index as int) < n {
        assert(new.claimed@[index as int]);
    }
    lemma_reclaim_nothing_upto(new, ledger.contract, n);
}

proof fn lemma_reclaim_nothing_upto(inv: Invoice, contract: Address, i: int)
    requires
        0 <= i <= inv.claimed@.len(),
        forall|j: int| 0 <= j < i ==> #[trigger] inv.claimed@[j],
    ensures
        reclaim_ops_upto(inv, contract, i).len() == 0,
    decreases i,
{
    if i > 0 {
        assert(inv.claimed@[i - 1]);
        lemma_reclaim_nothing_upto(inv, contract, i - 1);
    }
}

/// Once an invoice is released, refunded or cancelled, every operation that
/// expects a pending invoice is refused: it is never paid, released,
/// refunded, cancelled or extended again.
pub proof fn lemma_settled_invoice_is_final(
    inv: Invoice,
    now: u64,
    amount: i128,
    caller: Address,
    new_deadline: u64,
    counter: Option<u64>,
    subscription: Option<SubscriptionParams>,
)
    requires
        inv.status != InvoiceStatus::Pending,
    ensures
        pay_outcome_error(inv, now, amount, counter, subscription) == Some(SplitError::NotPending),
        explicit_release_error(inv, now, counter, subscription) == Some(SplitError::NotPending),
        refund_error(inv, now) == Some(SplitError::NotPending),
        cancel_error(inv, caller) == Some(SplitError::NotPending),
        extend_error(inv, now, caller, new_deadline) == Some(SplitError::NotPending),
{
}

proof fn lemma_le_bytes_len(v: nat, n: nat)
    ensures
        le_bytes(v, n).len() == n,
    decreases n,
{
    if n > 0 {
        lemma_le_bytes_len(v / 256, (n - 1) as nat);
    }
}

proof fn lemma_amounts_le_len(s: Seq<i128>)
    ensures
        amounts_le(s).len() == 16 * s.len(),
    decreases s.len(),
{
    if s.len() > 0 {
        lemma_amounts_le_len(s.drop_last());
        lemma_le_bytes_len(twos_complement(s.last()), 16);
    }
}

/// The data a completion proof hashes is 33 bytes plus 16 per share, and
/// ends with the status byte.
pub proof fn lemma_preimage_layout(invoice_id: u64, inv: Invoice)
    ensures
        spec_completion_preimage(invoice_id, inv).len() == 33 + 16 * inv.amounts@.len(),
        spec_completion_preimage(invoice_id, inv).last() == inv.status.spec_code(),
{
    lemma_le_bytes_len(invoice_id as nat, 8);
    lemma_le_bytes_len(twos_complement(inv.funded), 16);
    lemma_le_bytes_len(inv.deadline as nat, 8);
    lemma_amounts_le_len(inv.amounts@);
}

/// The hashed data of a completion proof depends only on the identifier,
/// the funded amount, the deadline, the shares and the status.
pub proof fn lemma_preimage_determined(invoice_id: u64, a: Invoice, b: Invoice)
    requires
        a.funded == b.funded,
        a.deadline == b.deadline,
        a.amounts@ == b.amounts@,
        a.status == b.status,
    ensures
        spec_completion_preimage(invoice_id, a) == spec_completion_preimage(invoice_id, b),
{
}

// ---------------------------------------------------------------------------
// Every invoice the contract stores
// ---------------------------------------------------------------------------

/// `inv` is stored by an accepted creation: every creation of the contract
/// (single, batch, subscription and the next invoice of a subscription)
/// checks the terms and sets no claim deadline.
pub open spec fn created(inv: Invoice) -> bool {
    exists|draft: InvoiceDraft, now: u64, id: int, proceeds_tokens: Seq<Address>|
        #![trigger invoice_from_draft(draft, proceeds_tokens, inv), creation_error(now, id, draft.recipients@.len() as int, draft.amounts@, draft.deadline)]
        {
            &&& creation_error(
                now,
                id,
                draft.recipients@.len() as int,
                draft.amounts@,
                draft.deadline,
            ) is None
            &&& draft.claim_deadline is None
            &&& proceeds_tokens.len() == draft.amounts@.len()
            &&& invoice_from_draft(draft, proceeds_tokens, inv)
        }
}

/// Some accepted operation of the contract took the stored invoice `old` to
/// `new`.
pub open spec fn accepted_step(old: Invoice, new: Invoice) -> bool {
    ||| exists|out: Outcome, ledger: Ledger, payer: Address, amount: i128, counter: Option<u64>,
        subscription: Option<SubscriptionParams>|
        #![trigger paid(old, new, out, ledger, payer, amount, counter, subscription)]
        pay_outcome_error(old, ledger.timestamp, amount, counter, subscription) is None && paid(
            old,
            new,
            out,
            ledger,
            payer,
            amount,
            counter,
            subscription,
        )
    ||| exists|out: Outcome, ledger: Ledger, counter: Option<u64>, subscription: Option<
        SubscriptionParams,
    >|
        #![trigger released(old, new, out, ledger, counter, subscription)]
        explicit_release_error(old, ledger.timestamp, counter, subscription) is None && released(
            old,
            new,
            out,
            ledger,
            counter,
            subscription,
        )
    ||| exists|out: Outcome, ledger: Ledger|
        #![trigger refunded(old, new, out, ledger)]
        refund_error(old, ledger.timestamp) is None && refunded(old, new, out, ledger)
    ||| exists|out: Outcome, ledger: Ledger, index: u32, holder: Address, balance: i128|
        #![trigger share_claimed(old, new, out, ledger, index, holder), settle_error(old, ledger.timestamp, index, holder, balance)]
        settle_error(old, ledger.timestamp, index, holder, balance) is None && share_claimed(
            old,
            new,
            out,
            ledger,
            index,
            holder,
        )
    ||| exists|out: Outcome, ledger: Ledger|
        #![trigger shares_reclaimed(old, new, out, ledger)]
        reclaim_error(old, ledger.timestamp) is None && shares_reclaimed(old, new, out, ledger)
    ||| exists|out: Outcome, ledger: Ledger, caller: Address|
        #![trigger cancelled(old, new, out, ledger, caller)]
        cancel_error(old, caller) is None && cancelled(old, new, out, ledger, caller)
    ||| exists|out: Outcome, ledger: Ledger, caller: Address, new_deadline: u64|
        #![trigger deadline_extended(old, new, out, ledger, caller, new_deadline)]
        extend_error(old, ledger.timestamp, caller, new_deadline) is None && deadline_extended(
            old,
            new,
            out,
            ledger,
            caller,
            new_deadline,
        )
}

/// Every accepted operation keeps a well-formed invoice well formed and
/// leaves its terms (creator, shares, token, claim deadline, proceeds
/// tokens) as they were.
pub proof fn lemma_step_keeps_well_formed(old: Invoice, new: Invoice)
    requires
        well_formed(old),
        accepted_step(old, new),
    ensures
        well_formed(new),
        same_terms(old, new),
{
    if exists|out: Outcome, ledger: Ledger, payer: Address, amount: i128, counter: Option<u64>,
        subscription: Option<SubscriptionParams>|
        #![trigger paid(old, new, out, ledger, payer, amount, counter, subscription)]
        pay_outcome_error(old, ledger.timestamp, amount, counter, subscription) is None && paid(
            old,
            new,
            out,
            ledger,
            payer,
            amount,
            counter,
            subscription,
        ) {
        let (out, ledger, payer, amount, counter, subscription) = choose|
            out: Outcome,
            ledger: Ledger,
            payer: Address,
            amount: i128,
            counter: Option<u64>,
            subscription: Option<SubscriptionParams>,
        |
            #![trigger paid(old, new, out, ledger, payer, amount, counter, subscription)]
            pay_outcome_error(old, ledger.timestamp, amount, counter, subscription) is None && paid(
                old,
                new,
                out,
                ledger,
                payer,
                amount,
                counter,
                subscription,
            );
        lemma_pay_keeps_well_formed(old, new, out, ledger, payer, amount, counter, subscription);
    } else if exists|out: Outcome, ledger: Ledger, counter: Option<u64>, subscription: Option<
        SubscriptionParams,
    >|
        #![trigger released(old, new, out, ledger, counter, subscription)]
        explicit_release_error(old, ledger.timestamp, counter, subscription) is None && released(
            old,
            new,
            out,
            ledger,
            counter,
            subscription,
        ) {
        let (out, ledger, counter, subscription) = choose|
            out: Outcome,
            ledger: Ledger,
            counter: Option<u64>,
            subscription: Option<SubscriptionParams>,
        |
            #![trigger released(old, new, out, ledger, counter, subscription)]
            explicit_release_error(old, ledger.timestamp, counter, subscription) is None
                && released(old, new, out, ledger, counter, subscription);
        lemma_explicit_release_refused(old, ledger.timestamp, counter, subscription);
    } else if exists|out: Outcome, ledger: Ledger|
        #![trigger refunded(old, new, out, ledger)]
        refund_error(old, ledger.timestamp) is None && refunded(old, new, out, ledger) {
        let (out, ledger) = choose|out: Outcome, ledger: Ledger|
            #![trigger refunded(old, new, out, ledger)]
            refund_error(old, ledger.timestamp) is None && refunded(old, new, out, ledger);
        lemma_refund_keeps_well_formed(old, new, out, ledger);
    } else if exists|out: Outcome, ledger: Ledger, index: u32, holder: Address, balance: i128|
        #![trigger share_claimed(old, new, out, ledger, index, holder), settle_error(old, ledger.timestamp, index, holder, balance)]
        settle_error(old, ledger.timestamp, index, holder, balance) is None && share_claimed(
            old,
            new,
            out,
            ledger,
            index,
            holder,
        ) {
        let (out, ledger, index, holder, balance) = choose|
            out: Outcome,
            ledger: Ledger,
            index: u32,
            holder: Address,
            balance: i128,
        |
            #![trigger share_claimed(old, new, out, ledger, index, holder), settle_error(old, ledger.timestamp, index, holder, balance)]
            settle_error(old, ledger.timestamp, index, holder, balance) is None && share_claimed(
                old,
                new,
                out,
                ledger,
                index,
                holder,
            );
        lemma_claim_keeps_well_formed(old, new, out, ledger, index, holder, balance);
    } else if exists|out: Outcome, ledger: Ledger|
        #![trigger shares_reclaimed(old, new, out, ledger)]
        reclaim_error(old, ledger.timestamp) is None && shares_reclaimed(old, new, out, ledger) {
        let (out, ledger) = choose|out: Outcome, ledger: Ledger|
            #![trigger shares_reclaimed(old, new, out, ledger)]
            reclaim_error(old, ledger.timestamp) is None && shares_reclaimed(old, new, out, ledger);
        lemma_reclaim_keeps_well_formed(old, new, out, ledger);
    } else if exists|out: Outcome, ledger: Ledger, caller: Address|
        #![trigger cancelled(old, new, out, ledger, caller)]
        cancel_error(old, caller) is None && cancelled(old, new, out, ledger, caller) {
        let (out, ledger, caller) = choose|out: Outcome, ledger: Ledger, caller: Address|
            #![trigger cancelled(old, new, out, ledger, caller)]
            cancel_error(old, caller) is None && cancelled(old, new, out, ledger, caller);
        lemma_cancel_keeps_well_formed(old, new, out, ledger, caller);
    } else {
        let (out, ledger, caller, new_deadline) = choose|
            out: Outcome,
            ledger: Ledger,
            caller: Address,
            new_deadline: u64,
        |
            #![trigger deadline_extended(old, new, out, ledger, caller, new_deadline)]
            extend_error(old, ledger.timestamp, caller, new_deadline) is None && deadline_extended(
                old,
                new,
                out,
                ledger,
                caller,
                new_deadline,
            );
        lemma_extend_keeps_well_formed(old, new, out, ledger, caller, new_deadline);
    }
}

/// `invs` is the history of one stored invoice: created by the contract,
/// then changed by accepted operations only.
pub open spec fn stored_history(invs: Seq<Invoice>) -> bool {
    &&& invs.len() > 0
    &&& created(invs[0])
    &&& forall|k: int| 0 <= k < invs.len() - 1 ==> #[trigger] accepted_step(invs[k], invs[k + 1])
}

/// Every invoice the contract ever stores is well formed and has no claim
/// deadline. Hence an explicit release, a claim and a reclaim are always
/// refused on it: the payment that completes the funding releases the
/// invoice itself and pays every recipient.
pub proof fn lemma_stored_invoices(invs: Seq<Invoice>, k: int, now: u64, index: u32, counter: Option<
    u64,
>, subscription: Option<SubscriptionParams>)
    requires
        stored_history(invs),
        0 <= k < invs.len(),
    ensures
        well_formed(invs[k]),
        invs[k].claim_deadline is None,
        explicit_release_error(invs[k], now, counter, subscription) is Some,
        claim_error(invs[k], now, index) is Some,
        reclaim_error(invs[k], now) is Some,
    decreases k,
{
    if k == 0 {
        let (draft, t, id, proceeds_tokens) = choose|
            draft: InvoiceDraft,
            now: u64,
            id: int,
            proceeds_tokens: Seq<Address>,
        |
            #![trigger invoice_from_draft(draft, proceeds_tokens, invs[0]), creation_error(now, id, draft.recipients@.len() as int, draft.amounts@, draft.deadline)]
            {
                &&& creation_error(
                    now,
                    id,
                    draft.recipients@.len() as int,
                    draft.amounts@,
                    draft.deadline,
                ) is None
                &&& draft.claim_deadline is None
                &&& proceeds_tokens.len() == draft.amounts@.len()
                &&& invoice_from_draft(draft, proceeds_tokens, invs[0])
            };
        lemma_created_invoice_well_formed(t, id, draft, proceeds_tokens, invs[0]);
    } else {
        lemma_stored_invoices(invs, k - 1, now, index, counter, subscription);
        let j = k - 1;
        assert(accepted_step(invs[j], invs[j + 1]));
        assert(invs[j + 1] == invs[k]);
        lemma_step_keeps_well_formed(invs[k - 1], invs[k]);
    }
    lemma_explicit_release_refused(invs[k], now, counter, subscription);
}

// ---------------------------------------------------------------------------
// Claims and reclaims
// ---------------------------------------------------------------------------

/// The shares among the first `k` that are marked claimed, added up.
pub open spec fn claimed_total_upto(inv: Invoice, k: int) -> int
    decreases k,
{
    if k <= 0 {
        0
    } else {
        claimed_total_upto(inv, k - 1) + if is_claimed(inv, k - 1) {
            inv.amounts@[k - 1] as int
        } else {
            0
        }
    }
}

/// The shares of the invoice that are marked claimed (paid out by a claim
/// or reclaimed), added up.
pub open spec fn claimed_total(inv: Invoice) -> int {
    claimed_total_upto(inv, inv.amounts@.len() as int)
}

proof fn lemma_transferred_push(ops: Seq<TokenOp>, op: TokenOp)
    ensures
        transferred(ops.push(op)) == transferred(ops) + match op {
            TokenOp::Transfer { amount, .. } => amount as int,
            TokenOp::Clawback { .. } => 0,
        },
{
    assert(ops.push(op).drop_last() =~= ops);
}

proof fn lemma_reclaim_upto_accounting(inv: Invoice, contract: Address, k: int)
    requires
        0 <= k <= inv.amounts@.len(),
    ensures
        transferred(reclaim_ops_upto(inv, contract, k)) + claimed_total_upto(inv, k) == sum_of(
            inv.amounts@.take(k),
        ),
    decreases k,
{
    if k > 0 {
        lemma_reclaim_upto_accounting(inv, contract, k - 1);
        assert(inv.amounts@.take(k).drop_last() =~= inv.amounts@.take(k - 1));
        if !is_claimed(inv, k - 1) {
            lemma_transferred_push(
                reclaim_ops_upto(inv, contract, k - 1),
                TokenOp::Transfer {
                    token: inv.token,
                    from: contract,
                    to: inv.creator,
                    amount: inv.amounts@[k - 1],
                },
            );
        }
    }
}

proof fn lemma_claimed_upto_bounds(inv: Invoice, k: int)
    requires
        all_positive(inv.amounts@),
        0 <= k <= inv.amounts@.len(),
    ensures
        0 <= claimed_total_upto(inv, k) <= sum_of(inv.amounts@.take(k)),
    decreases k,
{
    if k > 0 {
        lemma_claimed_upto_bounds(inv, k - 1);
        assert(inv.amounts@.take(k).drop_last() =~= inv.amounts@.take(k - 1));
    }
}

proof fn lemma_claimed_upto_update(old: Invoice, new: Invoice, i: int, k: int)
    requires
        new.amounts@ == old.amounts@,
        0 <= i < old.claimed@.len(),
        new.claimed@ == old.claimed@.update(i, true),
        !is_claimed(old, i),
        0 <= k,
    ensures
        claimed_total_upto(new, k) == claimed_total_upto(old, k) + if i < k {
            old.amounts@[i] as int
        } else {
            0
        },
    decreases k,
{
    if k > 0 {
        lemma_claimed_upto_update(old, new, i, k - 1);
    }
}

proof fn lemma_no_claims_upto(inv: Invoice, k: int)
    requires
        no_share_claimed(inv),
    ensures
        claimed_total_upto(inv, k) == 0,
    decreases k,
{
    if k > 0 {
        lemma_no_claims_upto(inv, k - 1);
    }
}

/// A claim pays out exactly the claimed share, and that share is added to
/// the claimed total.
pub proof fn lemma_claim_accounting(
    old: Invoice,
    new: Invoice,
    out: Outcome,
    ledger: Ledger,
    index: u32,
    holder: Address,
    balance: i128,
)
    requires
        settle_error(old, ledger.timestamp, index, holder, balance) is None,
        share_claimed(old, new, out, ledger, index, holder),
    ensures
        transferred(out.token_ops@) == old.amounts@[index as int],
        claimed_total(new) == claimed_total(old) + old.amounts@[index as int],
{
    let ops = claim_ops(old, ledger.contract, index as int, holder);
    assert(out.token_ops@ == ops);
    let first = seq![ops[0]];
    assert(ops.drop_last() =~= first);
    assert(first.drop_last() =~= Seq::<TokenOp>::empty());
    assert(transferred(Seq::<TokenOp>::empty()) == 0);
    assert(first.last() == ops[0]);
    assert(transferred(first) == old.amounts@[index as int]);
    assert(transferred(ops) == transferred(first));
    lemma_claimed_upto_update(old, new, index as int, old.amounts@.len() as int);
}

/// A reclaim pays the creator exactly the shares not yet claimed, and
/// afterwards every share counts as claimed.
pub proof fn lemma_reclaim_accounting(old: Invoice, new: Invoice, out: Outcome, ledger: Ledger)
    requires
        reclaim_error(old, ledger.timestamp) is None,
        shares_reclaimed(old, new, out, ledger),
    ensures
        transferred(out.token_ops@) == invoice_total(old) - claimed_total(old),
        claimed_total(new) == invoice_total(new),
{
    let n = old.amounts@.len() as int;
    lemma_reclaim_upto_accounting(old, ledger.contract, n);
    assert(old.amounts@.take(n) =~= old.amounts@);
    lemma_reclaim_nothing_upto(new, ledger.contract, n);
    lemma_reclaim_upto_accounting(new, ledger.contract, n);
    assert(new.amounts@.take(n) =~= new.amounts@);
}

/// A share paid out by a claim is not paid again by a later reclaim: after
/// the claim, reclaiming pays the creator exactly that share less than it
/// would have before.
pub proof fn lemma_reclaim_skips_claimed_share(
    old: Invoice,
    new: Invoice,
    out: Outcome,
    ledger: Ledger,
    index: u32,
    holder: Address,
    balance: i128,
    contract: Address,
)
    requires
        settle_error(old, ledger.timestamp, index, holder, balance) is None,
        share_claimed(old, new, out, ledger, index, holder),
    ensures
        transferred(reclaim_ops_upto(new, contract, new.amounts@.len() as int)) == transferred(
            reclaim_ops_upto(old, contract, old.amounts@.len() as int),
        ) - old.amounts@[index as int],
{
    let n = old.amounts@.len() as int;
    lemma_reclaim_upto_accounting(old, contract, n);
    lemma_reclaim_upto_accounting(new, contract, n);
    lemma_claimed_upto_update(old, new, index as int, n);
}

/// A claim of some share was accepted and took `old` to `new` with outcome
/// `out`.
pub open spec fn claim_step(old: Invoice, new: Invoice, out: Outcome) -> bool {
    exists|ledger: Ledger, index: u32, holder: Address, balance: i128|
        #![trigger share_claimed(old, new, out, ledger, index, holder), settle_error(old, ledger.timestamp, index, holder, balance)]
        settle_error(old, ledger.timestamp, index, holder, balance) is None && share_claimed(
            old,
            new,
            out,
            ledger,
            index,
            holder,
        )
}

/// A reclaim was accepted and took `old` to `new` with outcome `out`.
pub open spec fn reclaim_step(old: Invoice, new: Invoice, out: Outcome) -> bool {
    exists|ledger: Ledger|
        #![trigger shares_reclaimed(old, new, out, ledger)]
        reclaim_error(old, ledger.timestamp) is None && shares_reclaimed(old, new, out, ledger)
}

/// What the first `k` outcomes transferred, added up.
pub open spec fn paid_out(outs: Seq<Outcome>, k: int) -> int
    decreases k,
{
    if k <= 0 {
        0
    } else {
        paid_out(outs, k - 1) + transferred(outs[k - 1].token_ops@)
    }
}

/// Over any run of claims and reclaims on a released invoice whose shares
/// are all still unclaimed, the contract pays out at most the invoice
/// total, and exactly the total from the first reclaim on; no share is paid
/// twice, since what has been paid is always the sum of the shares marked
/// claimed.
pub proof fn lemma_claim_payouts_bounded(invs: Seq<Invoice>, outs: Seq<Outcome>, k: int)
    requires
        invs.len() == outs.len() + 1,
        all_positive(invs[0].amounts@),
        no_share_claimed(invs[0]),
        forall|j: int|
            0 <= j < outs.len() ==> claim_step(invs[j], invs[j + 1], #[trigger] outs[j])
                || reclaim_step(invs[j], invs[j + 1], outs[j]),
        0 <= k <= outs.len(),
    ensures
        invs[k].amounts@ == invs[0].amounts@,
        paid_out(outs, k) == claimed_total(invs[k]),
        paid_out(outs, k) <= invoice_total(invs[0]),
        (exists|j: int| 0 <= j < k && reclaim_step(invs[j], invs[j + 1], #[trigger] outs[j]))
            ==> paid_out(outs, k) == invoice_total(invs[0]),
    decreases k,
{
    if k == 0 {
        lemma_no_claims_upto(invs[0], invs[0].amounts@.len() as int);
        lemma_positive_sum(invs[0].amounts@);
    } else {
        let j = k - 1;
        lemma_claim_payouts_bounded(invs, outs, j);
        let (old, new, out) = (invs[j], invs[j + 1], outs[j]);
        assert(new == invs[k]);
        if reclaim_step(old, new, out) {
            let ledger = choose|ledger: Ledger|
                #![trigger shares_reclaimed(old, new, out, ledger)]
                reclaim_error(old, ledger.timestamp) is None && shares_reclaimed(
                    old,
                    new,
                    out,
                    ledger,
                );
            lemma_reclaim_accounting(old, new, out, ledger);
        } else {
            let (ledger, index, holder, balance) = choose|
                ledger: Ledger,
                index: u32,
                holder: Address,
                balance: i128,
            |
                #![trigger share_claimed(old, new, out, ledger, index, holder), settle_error(old, ledger.timestamp, index, holder, balance)]
                settle_error(old, ledger.timestamp, index, holder, balance) is None
                    && share_claimed(old, new, out, ledger, index, holder);
            lemma_claim_accounting(old, new, out, ledger, index, holder, balance);
            assert(old.amounts@[index as int] > 0);
        }
        assert(new.amounts@ == old.amounts@);
        assert(invoice_total(new) == invoice_total(invs[0]));
        let n = new.amounts@.len() as int;
        lemma_claimed_upto_bounds(new, n);
        assert(new.amounts@.take(n) =~= new.amounts@);
        assert(paid_out(outs, k) == paid_out(outs, j) + transferred(out.token_ops@));
        assert(paid_out(outs, k) == claimed_total(new));
        assert(paid_out(outs, k) <= invoice_total(invs[0]));
        if exists|i: int| 0 <= i < k && reclaim_step(invs[i], invs[i + 1], #[trigger] outs[i]) {
            let i = choose|i: int| 0 <= i < k && reclaim_step(invs[i], invs[i + 1], #[trigger] outs[i]);
            if i < j {
                assert(paid_out(outs, j) == invoice_total(invs[0]));
                assert(reclaim_step(old, new, out) || claim_step(old, new, out));
            }
        }
    }
}

// ---------------------------------------------------------------------------
// Subscriptions
// ---------------------------------------------------------------------------

/// Releasing an invoice that keeps the subscription parameters `p` created
/// the next invoice and left `q` to be kept for it.
pub open spec fn chain_step(p: Option<SubscriptionParams>, q: Option<SubscriptionParams>) -> bool {
    &&& p is Some
    &&& exists|d: Option<InvoiceDraft>, now: u64, counter: Option<u64>|
        #[trigger] follow_up_matches(d, q, now, counter, p)
}

proof fn lemma_chain_at(chain: Seq<Option<SubscriptionParams>>, months: u32, k: int)
    requires
        1 <= months,
        chain.len() > 0,
        invoices_to_come(chain[0]) == months - 1,
        chain[0] is Some ==> chain[0]->0.remaining >= 1,
        forall|j: int| 0 <= j < chain.len() - 1 ==> #[trigger] chain_step(chain[j], chain[j + 1]),
        0 <= k < chain.len(),
    ensures
        invoices_to_come(chain[k]) == months - 1 - k,
        chain[k] is Some <==> k < months - 1,
        chain[k] is Some ==> chain[k]->0.remaining >= 1,
    decreases k,
{
    if k > 0 {
        lemma_chain_at(chain, months, k - 1);
        let j = k - 1;
        assert(chain_step(chain[j], chain[j + 1]));
        assert(chain[j + 1] == chain[k]);
    }
}

/// A subscription of `months` months creates exactly `months` invoices:
/// the first when it is set up, then one more each time an invoice of the
/// chain is released, for as long as parameters are kept. `chain[k]` are the
/// parameters kept for the invoice number `k` of the chain; `months - 1 - k`
/// invoices are still to come after it, and the chain ends at the invoice
/// number `months - 1`.
pub proof fn lemma_subscription_chain_length(chain: Seq<Option<SubscriptionParams>>, months: u32, k: int)
    requires
        1 <= months,
        chain.len() > 0,
        invoices_to_come(chain[0]) == months - 1,
        chain[0] is Some ==> chain[0]->0.remaining >= 1,
        forall|j: int| 0 <= j < chain.len() - 1 ==> #[trigger] chain_step(chain[j], chain[j + 1]),
        0 <= k < chain.len(),
    ensures
        invoices_to_come(chain[k]) == months - 1 - k,
        chain[k] is Some <==> k < months - 1,
        chain.len() <= months,
{
    lemma_chain_at(chain, months, k);
    if chain.len() > months {
        let j = months - 1;
        lemma_chain_at(chain, months, j);
        assert(chain_step(chain[j], chain[j + 1]));
    }
}

// ---------------------------------------------------------------------------
// When each operation is accepted, in terms of its inputs
// ---------------------------------------------------------------------------

/// A payment made after the deadline of a pending invoice is refused,
/// whatever its amount: only a refund can settle such an invoice.
pub proof fn lemma_late_payment_refused(
    inv: Invoice,
    now: u64,
    amount: i128,
    counter: Option<u64>,
    subscription: Option<SubscriptionParams>,
)
    requires
        inv.status == InvoiceStatus::Pending,
        now > inv.deadline,
    ensures
        pay_outcome_error(inv, now, amount, counter, subscription) == Some(
            SplitError::DeadlinePassed,
        ),
{
}

/// An accepted payment is made to a pending invoice no later than its
/// deadline, is positive, and does not exceed what is left to pay.
pub proof fn lemma_accepted_payment(
    inv: Invoice,
    now: u64,
    amount: i128,
    counter: Option<u64>,
    subscription: Option<SubscriptionParams>,
)
    requires
        pay_outcome_error(inv, now, amount, counter, subscription) is None,
    ensures
        inv.status == InvoiceStatus::Pending,
        now <= inv.deadline,
        amount > 0,
        inv.funded + amount <= sum_of(inv.amounts@),
{
}

/// A refund before or at the deadline is refused, whether or not anything
/// was paid; an accepted refund comes after the deadline of a pending
/// invoice.
pub proof fn lemma_refund_after_deadline(inv: Invoice, now: u64)
    ensures
        inv.status == InvoiceStatus::Pending && now <= inv.deadline ==> refund_error(inv, now)
            == Some(SplitError::DeadlineNotPassed),
        refund_error(inv, now) is None <==> inv.status == InvoiceStatus::Pending && now
            > inv.deadline,
{
}

/// Reclaiming while recipients may still claim (at or before the claim
/// deadline) is refused, whatever has been claimed; an accepted reclaim
/// comes after the claim deadline of a released invoice.
pub proof fn lemma_reclaim_after_claim_deadline(inv: Invoice, now: u64)
    ensures
        inv.status == InvoiceStatus::Released && inv.claim_deadline is Some && now
            <= inv.claim_deadline->0 ==> reclaim_error(inv, now) == Some(
            SplitError::ClaimDeadlineNotPassed,
        ),
        reclaim_error(inv, now) is None ==> inv.status == InvoiceStatus::Released
            && inv.claim_deadline is Some && now > inv.claim_deadline->0 && inv.claimed@.len()
            >= inv.amounts@.len(),
{
}

/// A completed invoice, released or refunded alike, may be deleted exactly
/// when the retention period has passed since it was completed.
pub proof fn lemma_expiry_after_retention(inv: Invoice, now: u64)
    requires
        inv.status == InvoiceStatus::Released || inv.status == InvoiceStatus::Refunded,
        inv.completion_time is Some,
        inv.completion_time->0 + RETENTION_PERIOD <= u64::MAX,
    ensures
        expire_error(inv, now) is None <==> now >= inv.completion_time->0 + RETENTION_PERIOD,
        now < inv.completion_time->0 + RETENTION_PERIOD ==> expire_error(inv, now) == Some(
            SplitError::RetentionNotElapsed,
        ),
{
}

/// An accepted deletion concerns a completed invoice whose retention period
/// has passed.
pub proof fn lemma_accepted_expiry(inv: Invoice, now: u64)
    requires
        expire_error(inv, now) is None,
    ensures
        inv.status == InvoiceStatus::Released || inv.status == InvoiceStatus::Refunded,
        inv.completion_time is Some,
        now >= inv.completion_time->0 + RETENTION_PERIOD,
{
}

/// The next invoice of a subscription has exactly the subscription's terms,
/// share by share: the same creator, recipients in the same order, the same
/// amounts and token, the next identifier, no claim deadline, and a deadline
/// one period after the release; parameters are kept for it exactly when
/// more invoices are to come.
pub proof fn lemma_follow_up_keeps_terms(
    follow_up: Option<InvoiceDraft>,
    follow_up_params: Option<SubscriptionParams>,
    now: u64,
    counter: Option<u64>,
    p: SubscriptionParams,
)
    requires
        follow_up_matches(follow_up, follow_up_params, now, counter, Some(p)),
    ensures
        follow_up is Some,
        follow_up->0.id == (match counter {
            Some(c) => c + 1,
            None => 1,
        }),
        follow_up->0.creator == p.creator,
        follow_up->0.recipients@ == p.recipients@,
        follow_up->0.amounts@ == p.amounts@,
        forall|i: int|
            0 <= i < p.recipients@.len() ==> #[trigger] follow_up->0.recipients@[i]
                == p.recipients@[i] && follow_up->0.amounts@[i] == p.amounts@[i],
        follow_up->0.token == p.token,
        follow_up->0.deadline == (now + SUBSCRIPTION_PERIOD) as u64,
        follow_up->0.claim_deadline is None,
        follow_up_params is Some <==> p.remaining > 1,
        follow_up_params is Some ==> follow_up_params->0.recipients@ == p.recipients@
            && follow_up_params->0.amounts@ == p.amounts@ && follow_up_params->0.remaining
            == p.remaining - 1,
{
}

/// An accepted creation has one positive amount per recipient, at least one
/// recipient, a deadline in the future, an identifier that fits and a total
/// that fits.
pub proof fn lemma_accepted_creation(
    now: u64,
    id: int,
    recipient_count: int,
    amounts: Seq<i128>,
    deadline: u64,
)
    requires
        creation_error(now, id, recipient_count, amounts, deadline) is None,
    ensures
        recipient_count == amounts.len(),
        amounts.len() > 0,
        deadline > now,
        forall|i: int| 0 <= i < amounts.len() ==> amounts[i] > 0,
        id <= u64::MAX,
        sum_of(amounts) <= i128::MAX,
{
}

/// A batch of more than five invoices is refused, and an accepted
/// subscription runs for one to twelve months.
pub proof fn lemma_batch_and_subscription_limits(
    now: u64,
    counter: Option<u64>,
    items: Seq<crate::types::CreateInvoiceParams>,
    recipient_count: int,
    amounts: Seq<i128>,
    months: u32,
)
    ensures
        items.len() > 5 ==> batch_error(now, counter, items) == Some(
            SplitError::BatchLimitExceeded,
        ),
        subscription_error(now, counter, recipient_count, amounts, months) is None ==> 1 <= months
            <= 12,
{
}

/// An accepted explicit release concerns a pending invoice that is fully
/// funded.
pub proof fn lemma_accepted_release(
    inv: Invoice,
    now: u64,
    counter: Option<u64>,
    subscription: Option<SubscriptionParams>,
)
    requires
        explicit_release_error(inv, now, counter, subscription) is None,
    ensures
        inv.status == InvoiceStatus::Pending,
        inv.funded >= sum_of(inv.amounts@),
{
    lemma_running_total_is_sum(inv.amounts@);
}

/// An accepted claim of share `index` concerns a released invoice, before
/// its claim deadline, a share not yet claimed, and a claimant holding the
/// whole share.
pub proof fn lemma_accepted_claim(
    inv: Invoice,
    now: u64,
    index: u32,
    holder: Address,
    balance: i128,
)
    requires
        settle_error(inv, now, index, holder, balance) is None,
    ensures
        inv.status == InvoiceStatus::Released,
        inv.claim_deadline is Some,
        now <= inv.claim_deadline->0,
        index < inv.amounts@.len(),
        index < inv.claimed@.len(),
        !inv.claimed@[index as int],
        balance >= inv.amounts@[index as int],
{
}

/// Only the creator cancels, only a pending invoice, and only before any
/// payment; only the creator extends a pending invoice's deadline, and only
/// to a later time in the future.
pub proof fn lemma_accepted_cancel_and_extend(
    inv: Invoice,
    now: u64,
    caller: Address,
    new_deadline: u64,
)
    ensures
        cancel_error(inv, caller) is None ==> inv.status == InvoiceStatus::Pending
            && inv.creator@ == caller@ && inv.funded == 0,
        extend_error(inv, now, caller, new_deadline) is None ==> inv.status
            == InvoiceStatus::Pending && inv.creator@ == caller@ && new_deadline > now
            && new_deadline >= inv.deadline,
{
}

// ---------------------------------------------------------------------------
// Who receives what
// ---------------------------------------------------------------------------

proof fn lemma_release_ops_upto_shape(inv: Invoice, contract: Address, k: int)
    requires
        0 <= k,
    ensures
        release_ops_upto(inv, contract, k).len() == 2 * k,
        forall|j: int|
            0 <= j < 2 * k ==> #[trigger] release_ops_upto(inv, contract, k)[j] == if j % 2 == 0 {
                TokenOp::Transfer {
                    token: inv.token,
                    from: contract,
                    to: inv.recipients@[j / 2],
                    amount: inv.amounts@[j / 2],
                }
            } else {
                TokenOp::Clawback {
                    token: inv.proceeds_tokens@[j / 2],
                    from: inv.recipients@[j / 2],
                    amount: inv.amounts@[j / 2],
                }
            },
    decreases k,
{
    if k > 0 {
        lemma_release_ops_upto_shape(inv, contract, k - 1);
        let ops = release_ops_upto(inv, contract, k);
        let prev = release_ops_upto(inv, contract, k - 1);
        assert forall|j: int| 0 <= j < 2 * k implies #[trigger] ops[j] == if j % 2 == 0 {
            TokenOp::Transfer {
                token: inv.token,
                from: contract,
                to: inv.recipients@[j / 2],
                amount: inv.amounts@[j / 2],
            }
        } else {
            TokenOp::Clawback {
                token: inv.proceeds_tokens@[j / 2],
                from: inv.recipients@[j / 2],
                amount: inv.amounts@[j / 2],
            }
        } by {
            if j < 2 * (k - 1) {
                assert(ops[j] == prev[j]);
            }
        }
    }
}

/// A release that pays the shares out pays share `i` to recipient `i`, in
/// share order: the transfer of its amount from the contract, then the burn
/// of the same amount of its proceeds token; with a claim deadline a release
/// moves nothing.
pub proof fn lemma_release_pays_each_recipient_its_share(inv: Invoice, contract: Address)
    ensures
        inv.claim_deadline is Some ==> release_ops(inv, contract).len() == 0,
        inv.claim_deadline is None ==> release_ops(inv, contract).len() == 2 * inv.amounts@.len(),
        inv.claim_deadline is None ==> forall|i: int|
            0 <= i < inv.amounts@.len() ==> release_ops(inv, contract)[2 * i] == (TokenOp::Transfer {
                token: inv.token,
                from: contract,
                to: inv.recipients@[i],
                amount: inv.amounts@[i],
            }) && release_ops(inv, contract)[2 * i + 1] == (TokenOp::Clawback {
                token: inv.proceeds_tokens@[i],
                from: inv.recipients@[i],
                amount: inv.amounts@[i],
            }),
{
    if inv.claim_deadline is None {
        let n = inv.amounts@.len() as int;
        lemma_release_ops_upto_shape(inv, contract, n);
        let ops = release_ops(inv, contract);
        assert forall|i: int| 0 <= i < n implies ops[2 * i] == (TokenOp::Transfer {
            token: inv.token,
            from: contract,
            to: inv.recipients@[i],
            amount: inv.amounts@[i],
        }) && ops[2 * i + 1] == (TokenOp::Clawback {
            token: inv.proceeds_tokens@[i],
            from: inv.recipients@[i],
            amount: inv.amounts@[i],
        }) by {
            let a = 2 * i;
            let b = 2 * i + 1;
            assert(a % 2 == 0 && a / 2 == i);
            assert(b % 2 == 1 && b / 2 == i);
            assert(ops[a] == release_ops_upto(inv, contract, n)[a]);
            assert(ops[b] == release_ops_upto(inv, contract, n)[b]);
        }
    }
}

proof fn lemma_reclaim_ops_upto_shape(inv: Invoice, contract: Address, k: int)
    requires
        0 <= k,
    ensures
        forall|j: int|
            0 <= j < reclaim_ops_upto(inv, contract, k).len() ==> {
                &&& (#[trigger] reclaim_ops_upto(inv, contract, k)[j]) is Transfer
                &&& reclaim_ops_upto(inv, contract, k)[j]->Transfer_token == inv.token
                &&& reclaim_ops_upto(inv, contract, k)[j]->Transfer_from == contract
                &&& reclaim_ops_upto(inv, contract, k)[j]->Transfer_to == inv.creator
            },
        reclaim_ops_upto(inv, contract, k).len() <= k,
    decreases k,
{
    if k > 0 {
        lemma_reclaim_ops_upto_shape(inv, contract, k - 1);
    }
}

/// Everything a reclaim moves goes from the contract to the invoice's
/// creator, in the invoice's token, one transfer per unclaimed share at
/// most; together it is the invoice total less the shares already claimed.
pub proof fn lemma_reclaim_pays_creator(inv: Invoice, contract: Address)
    requires
        inv.amounts@.len() <= inv.claimed@.len(),
    ensures
        forall|j: int|
            0 <= j < reclaim_ops_upto(inv, contract, inv.amounts@.len() as int).len() ==> {
                let op = #[trigger] reclaim_ops_upto(inv, contract, inv.amounts@.len() as int)[j];
                &&& op is Transfer
                &&& op->Transfer_token == inv.token
                &&& op->Transfer_from == contract
                &&& op->Transfer_to == inv.creator
            },
        transferred(reclaim_ops_upto(inv, contract, inv.amounts@.len() as int))
            == invoice_total(inv) - claimed_total(inv),
{
    let n = inv.amounts@.len() as int;
    lemma_reclaim_ops_upto_shape(inv, contract, n);
    lemma_reclaim_upto_accounting(inv, contract, n);
    assert(inv.amounts@.take(n) =~= inv.amounts@);
}

// ---------------------------------------------------------------------------
// What a completion proof hashes
// ---------------------------------------------------------------------------

/// The number a little-endian byte string stands for.
pub open spec fn le_value(b: Seq<u8>) -> nat
    decreases b.len(),
{
    if b.len() == 0 {
        0
    } else {
        b[0] as nat + 256 * le_value(b.drop_first())
    }
}

proof fn lemma_le_bytes_value(v: nat, n: nat)
    ensures
        le_value(le_bytes(v, n)) == v % (pow(256, n) as nat),
        pow(256, n) > 0,
    decreases n,
{
    lemma_pow_positive(256, n);
    reveal(pow);
    if n == 0 {
        assert(v % 1 == 0);
    } else {
        lemma_le_bytes_value(v / 256, (n - 1) as nat);
        let b = le_bytes(v, n);
        assert(b.drop_first() =~= le_bytes(v / 256, (n - 1) as nat));
        lemma_pow_positive(256, (n - 1) as nat);
        lemma_mod_breakdown(v as int, 256, pow(256, (n - 1) as nat));
        assert(pow(256, n) == 256 * pow(256, (n - 1) as nat));
    }
}

proof fn lemma_amounts_le_parts(s: Seq<i128>)
    ensures
        amounts_le(s).len() == 16 * s.len(),
        forall|i: int|
            0 <= i < s.len() ==> #[trigger] amounts_le(s).subrange(16 * i, 16 * i + 16) == i128_le(s[i]),
    decreases s.len(),
{
    lemma_amounts_le_len(s);
    if s.len() > 0 {
        let t = s.drop_last();
        lemma_amounts_le_parts(t);
        lemma_amounts_le_len(t);
        lemma_le_bytes_len(twos_complement(s.last()), 16);
        let a = amounts_le(t);
        let b = i128_le(s.last());
        assert forall|i: int| 0 <= i < s.len() implies #[trigger] amounts_le(s).subrange(
            16 * i,
            16 * i + 16,
        ) == i128_le(s[i]) by {
            if i < t.len() {
                assert((a + b).subrange(16 * i, 16 * i + 16) =~= a.subrange(16 * i, 16 * i + 16));
                assert(s[i] == t[i]);
            } else {
                assert((a + b).subrange(16 * i, 16 * i + 16) =~= b);
            }
        }
    }
}

/// The data a completion proof hashes reads back as the invoice identifier
/// (bytes 0 to 8), the funded amount in two's complement (8 to 24), the
/// deadline (24 to 32), each share in two's complement (16 bytes each from
/// 32 on, in share order), and the status byte last, all little-endian.
pub proof fn lemma_preimage_fields(invoice_id: u64, inv: Invoice)
    ensures
        ({
            let b = spec_completion_preimage(invoice_id, inv);
            let n = inv.amounts@.len();
            &&& b.len() == 33 + 16 * n
            &&& le_value(b.subrange(0, 8)) == invoice_id
            &&& le_value(b.subrange(8, 24)) == twos_complement(inv.funded)
            &&& le_value(b.subrange(24, 32)) == inv.deadline
            &&& forall|i: int|
                0 <= i < n ==> le_value(#[trigger] b.subrange(32 + 16 * i, 48 + 16 * i))
                    == twos_complement(inv.amounts@[i])
            &&& b[b.len() - 1] == inv.status.spec_code()
        }),
{
    let b = spec_completion_preimage(invoice_id, inv);
    let n = inv.amounts@.len();
    let p1 = u64_le(invoice_id);
    let p2 = i128_le(inv.funded);
    let p3 = u64_le(inv.deadline);
    let p4 = amounts_le(inv.amounts@);
    lemma_le_bytes_len(invoice_id as nat, 8);
    lemma_le_bytes_len(twos_complement(inv.funded), 16);
    lemma_le_bytes_len(inv.deadline as nat, 8);
    lemma_amounts_le_parts(inv.amounts@);
    lemma_le_bytes_value(invoice_id as nat, 8);
    lemma_le_bytes_value(twos_complement(inv.funded), 16);
    lemma_le_bytes_value(inv.deadline as nat, 8);
    reveal_with_fuel(pow, 17);
    assert(pow(256, 8) == 0x1_0000_0000_0000_0000);
    assert(pow(256, 16) == 0x1_0000_0000_0000_0000_0000_0000_0000_0000);
    assert(b.subrange(0, 8) =~= p1);
    assert(b.subrange(8, 24) =~= p2);
    assert(b.subrange(24, 32) =~= p3);
    assert forall|i: int| 0 <= i < n implies le_value(#[trigger] b.subrange(32 + 16 * i, 48 + 16 * i))
        == twos_complement(inv.amounts@[i]) by {
        assert(b.subrange(32 + 16 * i, 48 + 16 * i) =~= p4.subrange(16 * i, 16 * i + 16));
        lemma_le_bytes_value(twos_complement(inv.amounts@[i]), 16);
        lemma_le_bytes_len(twos_complement(inv.amounts@[i]), 16);
    }
    assert(b.len() == 33 + 16 * n);
    assert(le_value(p1) == (invoice_id as nat) % (pow(256, 8) as nat));
    let big: nat = 0x1_0000_0000_0000_0000nat;
    assert((invoice_id as nat) % big == invoice_id) by (nonlinear_arith)
        requires
            invoice_id < big,
    ;
    assert(le_value(b.subrange(0, 8)) == invoice_id);
    let huge: nat = 0x1_0000_0000_0000_0000_0000_0000_0000_0000nat;
    let f = twos_complement(inv.funded);
    assert(f < huge);
    assert(le_value(p2) == f % (pow(256, 16) as nat));
    assert(f % huge == f) by (nonlinear_arith)
        requires
            f < huge,
    ;
    assert(le_value(b.subrange(8, 24)) == twos_complement(inv.funded));
    assert(le_value(p3) == (inv.deadline as nat) % (pow(256, 8) as nat));
    assert((inv.deadline as nat) % big == inv.deadline) by (nonlinear_arith)
        requires
            inv.deadline < big,
    ;
    assert(le_value(b.subrange(24, 32)) == inv.deadline);
    assert(b[b.len() - 1] == inv.status.spec_code());
}

} // verus!
