use split::{
    Address, AuditAction, Invoice, InvoiceStatus, Ledger, SplitContract, SplitError,
    SubscriptionParams, TokenOp,
};

fn addr(s: &str) -> Address {
    Address::new(s.to_string())
}

fn ledger(timestamp: u64) -> Ledger {
    Ledger { timestamp, contract: addr("CCONTRACT") }
}

/// An invoice of 100 for GA and 200 for GB, due at 1000.
fn invoice() -> Invoice {
    SplitContract::create_invoice(
        &ledger(10),
        None,
        addr("GCREATOR"),
        vec![addr("GA"), addr("GB")],
        vec![100, 200],
        addr("CUSDC"),
        1_000,
    )
    .unwrap()
    .into_invoice(vec![addr("CPA"), addr("CPB")])
}

fn transfer(token: &str, from: &str, to: &str, amount: i128) -> TokenOp {
    TokenOp::Transfer { token: addr(token), from: addr(from), to: addr(to), amount }
}

fn clawback(token: &str, from: &str, amount: i128) -> TokenOp {
    TokenOp::Clawback { token: addr(token), from: addr(from), amount }
}

#[test]
fn partial_payment_is_recorded() {
    let mut inv = invoice();
    let out = SplitContract::pay(&ledger(20), &mut inv, addr("GPAYER"), 120, Some(1), None).unwrap();
    assert_eq!(inv.funded, 120);
    assert_eq!(inv.payments.len(), 1);
    assert_eq!(inv.payments[0].amount, 120);
    assert_eq!(inv.status, InvoiceStatus::Pending);
    assert_eq!(out.token_ops, vec![transfer("CUSDC", "GPAYER", "CCONTRACT", 120)]);
    assert_eq!(out.audit.len(), 1);
    assert_eq!(out.audit[0].action, AuditAction::Pay);
    assert_eq!(out.audit[0].actor.as_str(), "GPAYER");
    assert_eq!(out.audit[0].timestamp, 20);
    assert!(!out.released);
}

#[test]
fn completing_payment_releases_to_recipients() {
    let mut inv = invoice();
    SplitContract::pay(&ledger(20), &mut inv, addr("GP1"), 120, Some(1), None).unwrap();
    let out = SplitContract::pay(&ledger(30), &mut inv, addr("GP2"), 180, Some(1), None).unwrap();
    assert_eq!(inv.funded, 300);
    assert_eq!(inv.status, InvoiceStatus::Released);
    assert_eq!(inv.completion_time, Some(30));
    assert!(out.released);
    assert_eq!(
        out.token_ops,
        vec![
            transfer("CUSDC", "GP2", "CCONTRACT", 180),
            transfer("CUSDC", "CCONTRACT", "GA", 100),
            clawback("CPA", "GA", 100),
            transfer("CUSDC", "CCONTRACT", "GB", 200),
            clawback("CPB", "GB", 200),
        ]
    );
    assert_eq!(out.audit.len(), 2);
    assert_eq!(out.audit[1].action, AuditAction::Release);
    assert_eq!(out.audit[1].actor.as_str(), "GCREATOR");
    assert!(out.follow_up.is_none());
}

#[test]
fn release_with_claim_deadline_holds_funds() {
    let mut inv = invoice();
    inv.claim_deadline = Some(5_000);
    let out = SplitContract::pay(&ledger(20), &mut inv, addr("GP"), 300, None, None).unwrap();
    assert_eq!(inv.status, InvoiceStatus::Released);
    assert_eq!(out.token_ops, vec![transfer("CUSDC", "GP", "CCONTRACT", 300)]);
}

#[test]
fn completing_a_subscription_invoice_creates_the_next() {
    let mut inv = invoice();
    let sub = SubscriptionParams {
        creator: addr("GCREATOR"),
        recipients: vec![addr("GA"), addr("GB")],
        amounts: vec![100, 200],
        token: addr("CUSDC"),
        remaining: 2,
    };
    let out = SplitContract::pay(&ledger(500), &mut inv, addr("GP"), 300, Some(7), Some(sub)).unwrap();
    let kept = out.follow_up_params.clone().unwrap();
    assert_eq!(kept.remaining, 1);
    assert_eq!(kept.amounts, vec![100, 200]);
    let next = out.follow_up.unwrap();
    assert_eq!(next.id, 8);
    assert_eq!(next.deadline, 500 + 2_592_000);
    assert_eq!(next.total, 300);
    assert_eq!(next.amounts, vec![100, 200]);
    assert_eq!(next.claim_deadline, None);
}

#[test]
fn payment_refusals_leave_invoice_unchanged() {
    let inv0 = invoice();
    let mut inv = inv0.clone();
    let l = ledger(20);
    let p = || addr("GP");
    assert_eq!(SplitContract::pay(&l, &mut inv, p(), 0, None, None), Err(SplitError::NonPositivePayment));
    assert_eq!(SplitContract::pay(&l, &mut inv, p(), 301, None, None), Err(SplitError::ExceedsRemaining));
    assert_eq!(
        SplitContract::pay(&ledger(1_001), &mut inv, p(), 10, None, None),
        Err(SplitError::DeadlinePassed)
    );
    assert_eq!(inv, inv0);
    // A payment exactly at the deadline is still accepted.
    assert!(SplitContract::pay(&ledger(1_000), &mut inv, p(), 10, None, None).is_ok());
    inv.status = InvoiceStatus::Cancelled;
    assert_eq!(SplitContract::pay(&l, &mut inv, p(), 10, None, None), Err(SplitError::NotPending));
}

#[test]
fn failing_follow_up_refuses_the_completing_payment() {
    let mut inv = invoice();
    let inv0 = inv.clone();
    let sub = SubscriptionParams {
        creator: addr("GCREATOR"),
        recipients: vec![addr("GA")],
        amounts: vec![100],
        token: addr("CUSDC"),
        remaining: 1,
    };
    let r = SplitContract::pay(&ledger(20), &mut inv, addr("GP"), 300, Some(u64::MAX), Some(sub));
    assert_eq!(r, Err(SplitError::Overflow));
    assert_eq!(inv, inv0);
}

#[test]
fn explicit_release_needs_full_funding() {
    let mut inv = invoice();
    SplitContract::pay(&ledger(20), &mut inv, addr("GP"), 100, None, None).unwrap();
    assert_eq!(SplitContract::release(&ledger(30), &mut inv, None, None), Err(SplitError::NotFullyFunded));
    // An invoice stored fully funded but still pending is released by the contract.
    inv.funded = 300;
    let out = SplitContract::release(&ledger(30), &mut inv, None, None).unwrap();
    assert_eq!(inv.status, InvoiceStatus::Released);
    assert_eq!(out.audit[0].actor.as_str(), "CCONTRACT");
    assert_eq!(out.token_ops.len(), 4);
    assert_eq!(SplitContract::release(&ledger(30), &mut inv, None, None), Err(SplitError::NotPending));
}

#[test]
fn release_reports_missing_proceeds_token() {
    let mut inv = invoice();
    inv.funded = 300;
    inv.proceeds_tokens.pop();
    assert_eq!(
        SplitContract::release(&ledger(30), &mut inv, None, None),
        Err(SplitError::MissingProceedsToken)
    );
    inv.proceeds_tokens.push(addr("CPB"));
    inv.recipients.pop();
    assert_eq!(SplitContract::release(&ledger(30), &mut inv, None, None), Err(SplitError::MissingRecipient));
}

#[test]
fn refund_after_deadline_returns_every_payment() {
    let mut inv = invoice();
    SplitContract::pay(&ledger(20), &mut inv, addr("GP1"), 40, None, None).unwrap();
    SplitContract::pay(&ledger(21), &mut inv, addr("GP2"), 60, None, None).unwrap();
    assert_eq!(SplitContract::refund(&ledger(1_000), &mut inv), Err(SplitError::DeadlineNotPassed));
    let out = SplitContract::refund(&ledger(1_001), &mut inv).unwrap();
    assert_eq!(inv.status, InvoiceStatus::Refunded);
    assert_eq!(inv.completion_time, Some(1_001));
    assert_eq!(
        out.token_ops,
        vec![transfer("CUSDC", "CCONTRACT", "GP1", 40), transfer("CUSDC", "CCONTRACT", "GP2", 60)]
    );
    assert_eq!(out.audit[0].action, AuditAction::Refund);
    assert_eq!(out.audit[0].actor.as_str(), "CCONTRACT");
    assert_eq!(SplitContract::refund(&ledger(1_002), &mut inv), Err(SplitError::NotPending));
}

#[test]
fn cancel_rules() {
    let mut inv = invoice();
    assert_eq!(
        SplitContract::cancel_invoice(&ledger(20), &mut inv, addr("GOTHER")),
        Err(SplitError::OnlyCreatorCanCancel)
    );
    let mut paid = inv.clone();
    SplitContract::pay(&ledger(20), &mut paid, addr("GP"), 1, None, None).unwrap();
    assert_eq!(
        SplitContract::cancel_invoice(&ledger(20), &mut paid, addr("GCREATOR")),
        Err(SplitError::CancelWithPayments)
    );
    let out = SplitContract::cancel_invoice(&ledger(20), &mut inv, addr("GCREATOR")).unwrap();
    assert_eq!(inv.status, InvoiceStatus::Cancelled);
    assert!(out.token_ops.is_empty());
    assert_eq!(out.audit[0].action, AuditAction::Cancel);
    assert_eq!(
        SplitContract::cancel_invoice(&ledger(20), &mut inv, addr("GCREATOR")),
        Err(SplitError::NotPending)
    );
}

#[test]
fn extend_rules() {
    let mut inv = invoice();
    assert_eq!(
        SplitContract::extend_deadline(&ledger(20), &mut inv, addr("GOTHER"), 2_000),
        Err(SplitError::OnlyCreatorCanExtend)
    );
    assert_eq!(
        SplitContract::extend_deadline(&ledger(20), &mut inv, addr("GCREATOR"), 20),
        Err(SplitError::NewDeadlineNotInFuture)
    );
    assert_eq!(
        SplitContract::extend_deadline(&ledger(20), &mut inv, addr("GCREATOR"), 999),
        Err(SplitError::DeadlineNotExtended)
    );
    let out = SplitContract::extend_deadline(&ledger(20), &mut inv, addr("GCREATOR"), 1_500).unwrap();
    assert_eq!(inv.deadline, 1_500);
    assert_eq!(out.audit[0].action, AuditAction::Extend);
    assert_eq!(out.audit[0].actor.as_str(), "GCREATOR");
}

#[test]
fn expiry_waits_for_retention_period() {
    let mut inv = invoice();
    assert_eq!(SplitContract::expire_invoice(&ledger(20), &inv), Err(SplitError::NotCompleted));
    SplitContract::pay(&ledger(100), &mut inv, addr("GP"), 300, None, None).unwrap();
    assert_eq!(
        SplitContract::expire_invoice(&ledger(100 + 2_592_000 - 1), &inv),
        Err(SplitError::RetentionNotElapsed)
    );
    assert_eq!(SplitContract::expire_invoice(&ledger(100 + 2_592_000), &inv), Ok(()));
    inv.completion_time = None;
    assert_eq!(SplitContract::expire_invoice(&ledger(u64::MAX), &inv), Err(SplitError::NoCompletionTime));
    inv.completion_time = Some(u64::MAX - 5);
    assert_eq!(SplitContract::expire_invoice(&ledger(u64::MAX), &inv), Err(SplitError::Overflow));
}

#[test]
fn settled_invoice_refuses_further_changes() {
    let mut inv = invoice();
    SplitContract::pay(&ledger(100), &mut inv, addr("GP"), 300, None, None).unwrap();
    let l = ledger(2_000);
    assert_eq!(SplitContract::pay(&l, &mut inv, addr("GP"), 1, None, None), Err(SplitError::NotPending));
    assert_eq!(SplitContract::refund(&l, &mut inv), Err(SplitError::NotPending));
    assert_eq!(SplitContract::cancel_invoice(&l, &mut inv, addr("GCREATOR")), Err(SplitError::NotPending));
    assert_eq!(
        SplitContract::extend_deadline(&l, &mut inv, addr("GCREATOR"), 9_000),
        Err(SplitError::NotPending)
    );
}

#[test]
fn funded_is_the_sum_of_payments_and_never_exceeds_total() {
    let mut inv = invoice();
    for (i, amount) in [50, 70, 30, 100].iter().enumerate() {
        SplitContract::pay(&ledger(20 + i as u64), &mut inv, addr("GP"), *amount, None, None).unwrap();
        let paid: i128 = inv.payments.iter().map(|p| p.amount).sum();
        assert_eq!(inv.funded, paid);
        assert!(inv.funded < 300);
        assert_eq!(inv.status, InvoiceStatus::Pending);
    }
    assert_eq!(SplitContract::pay(&ledger(30), &mut inv, addr("GP"), 51, None, None), Err(SplitError::ExceedsRemaining));
    let out = SplitContract::pay(&ledger(30), &mut inv, addr("GP"), 50, None, None).unwrap();
    assert_eq!(inv.funded, 300);
    let moved_out: i128 = out.token_ops[1..]
        .iter()
        .map(|op| match op {
            TokenOp::Transfer { amount, .. } => *amount,
            TokenOp::Clawback { .. } => 0,
        })
        .sum();
    assert_eq!(moved_out, 300);
}

#[test]
fn last_invoice_of_a_subscription_keeps_no_parameters() {
    let mut inv = invoice();
    let sub = SubscriptionParams {
        creator: addr("GCREATOR"),
        recipients: vec![addr("GA"), addr("GB")],
        amounts: vec![100, 200],
        token: addr("CUSDC"),
        remaining: 1,
    };
    let out = SplitContract::pay(&ledger(500), &mut inv, addr("GP"), 300, Some(7), Some(sub)).unwrap();
    assert_eq!(out.follow_up.unwrap().id, 8);
    assert!(out.follow_up_params.is_none());
}
