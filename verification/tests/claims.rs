use split::{Address, Invoice, InvoiceStatus, Ledger, SplitContract, SplitError, TokenOp};

fn addr(s: &str) -> Address {
    Address::new(s.to_string())
}

fn ledger(timestamp: u64) -> Ledger {
    Ledger { timestamp, contract: addr("CCONTRACT") }
}

/// A released invoice whose recipients claim their shares until 5000.
fn released() -> Invoice {
    let mut inv = SplitContract::create_invoice(
        &ledger(10),
        None,
        addr("GCREATOR"),
        vec![addr("GA"), addr("GB"), addr("GC")],
        vec![10, 20, 30],
        addr("CUSDC"),
        1_000,
    )
    .unwrap()
    .into_invoice(vec![addr("CPA"), addr("CPB"), addr("CPC")]);
    inv.claim_deadline = Some(5_000);
    SplitContract::pay(&ledger(100), &mut inv, addr("GP"), 60, None, None).unwrap();
    assert_eq!(inv.status, InvoiceStatus::Released);
    inv
}

#[test]
fn claim_pays_holder_once() {
    let mut inv = released();
    let q = SplitContract::claim_query(&ledger(200), &inv, 1).unwrap();
    assert_eq!(q.proceeds_token.as_str(), "CPB");
    assert_eq!(q.recipient.as_str(), "GB");
    assert_eq!(q.amount, 20);
    let out = SplitContract::claim_share(&ledger(200), &mut inv, 1, addr("GB"), 20).unwrap();
    assert_eq!(
        out.token_ops,
        vec![
            TokenOp::Transfer { token: addr("CUSDC"), from: addr("CCONTRACT"), to: addr("GB"), amount: 20 },
            TokenOp::Clawback { token: addr("CPB"), from: addr("GB"), amount: 20 },
        ]
    );
    assert_eq!(inv.claimed, vec![false, true, false]);
    assert_eq!(SplitContract::claim_share(&ledger(201), &mut inv, 1, addr("GB"), 20), Err(SplitError::AlreadyClaimed));
    assert_eq!(SplitContract::claim_query(&ledger(201), &inv, 1), Err(SplitError::AlreadyClaimed));
}

#[test]
fn claim_refusals() {
    let mut inv = released();
    let inv0 = inv.clone();
    assert_eq!(SplitContract::claim_share(&ledger(5_001), &mut inv, 0, addr("GA"), 10), Err(SplitError::ClaimExpired));
    assert_eq!(SplitContract::claim_share(&ledger(200), &mut inv, 3, addr("GX"), 10), Err(SplitError::InvalidIndex));
    assert_eq!(SplitContract::claim_share(&ledger(200), &mut inv, 0, addr("GA"), 9), Err(SplitError::TokenTransferred));
    assert_eq!(inv, inv0);
    inv.proceeds_tokens.pop();
    assert_eq!(SplitContract::claim_share(&ledger(200), &mut inv, 2, addr("GC"), 30), Err(SplitError::ProceedsTokenNotFound));
    let mut inv = released();
    inv.claimed.pop();
    assert_eq!(SplitContract::claim_share(&ledger(200), &mut inv, 2, addr("GC"), 30), Err(SplitError::IndexOutOfBounds));
    let mut inv = released();
    inv.claim_deadline = None;
    assert_eq!(SplitContract::claim_share(&ledger(200), &mut inv, 0, addr("GA"), 10), Err(SplitError::NoClaimDeadline));
    inv.status = InvoiceStatus::Refunded;
    assert_eq!(SplitContract::claim_share(&ledger(200), &mut inv, 0, addr("GA"), 10), Err(SplitError::NotReleased));
}

#[test]
fn token_holder_is_original_recipient_with_full_balance() {
    let inv = released();
    assert_eq!(SplitContract::find_token_holder(&inv, 2, addr("GC"), 30).unwrap().as_str(), "GC");
    assert_eq!(SplitContract::find_token_holder(&inv, 2, addr("GC"), 29), Err(SplitError::TokenTransferred));
    assert_eq!(SplitContract::find_token_holder(&inv, 2, addr("GNEW"), 29), Err(SplitError::NotTokenHolder));
    assert_eq!(SplitContract::find_token_holder(&inv, 2, addr("GNEW"), 30).unwrap().as_str(), "GNEW");
    assert_eq!(SplitContract::find_token_holder(&inv, 7, addr("GC"), 30), Err(SplitError::InvalidIndex));
}

#[test]
fn reclaim_returns_unclaimed_shares_to_creator() {
    let mut inv = released();
    SplitContract::claim_share(&ledger(200), &mut inv, 0, addr("GA"), 10).unwrap();
    assert_eq!(
        SplitContract::reclaim_unclaimed(&ledger(5_000), &mut inv),
        Err(SplitError::ClaimDeadlineNotPassed)
    );
    let out = SplitContract::reclaim_unclaimed(&ledger(5_001), &mut inv).unwrap();
    assert_eq!(
        out.token_ops,
        vec![
            TokenOp::Transfer { token: addr("CUSDC"), from: addr("CCONTRACT"), to: addr("GCREATOR"), amount: 20 },
            TokenOp::Transfer { token: addr("CUSDC"), from: addr("CCONTRACT"), to: addr("GCREATOR"), amount: 30 },
        ]
    );
    assert_eq!(inv.claimed, vec![true, true, true]);
    let again = SplitContract::reclaim_unclaimed(&ledger(6_000), &mut inv).unwrap();
    assert!(again.token_ops.is_empty());
}

#[test]
fn reclaim_refusals() {
    let mut inv = released();
    inv.claimed.pop();
    assert_eq!(SplitContract::reclaim_unclaimed(&ledger(5_001), &mut inv), Err(SplitError::IndexOutOfBounds));
    let mut inv = released();
    inv.claim_deadline = None;
    assert_eq!(SplitContract::reclaim_unclaimed(&ledger(5_001), &mut inv), Err(SplitError::NoClaimDeadline));
    inv.status = InvoiceStatus::Pending;
    assert_eq!(SplitContract::reclaim_unclaimed(&ledger(5_001), &mut inv), Err(SplitError::NotReleased));
}

#[test]
fn transferred_token_pays_its_current_holder() {
    let mut inv = released();
    let out = SplitContract::claim_share(&ledger(200), &mut inv, 2, addr("GNEW"), 30).unwrap();
    assert_eq!(
        out.token_ops,
        vec![
            TokenOp::Transfer { token: addr("CUSDC"), from: addr("CCONTRACT"), to: addr("GNEW"), amount: 30 },
            TokenOp::Clawback { token: addr("CPC"), from: addr("GNEW"), amount: 30 },
        ]
    );
    assert_eq!(inv.claimed, vec![false, false, true]);
    assert_eq!(
        SplitContract::claim_share(&ledger(200), &mut inv, 2, addr("GNEW"), 30),
        Err(SplitError::AlreadyClaimed)
    );
}

#[test]
fn claimant_without_the_share_is_refused() {
    let mut inv = released();
    let inv0 = inv.clone();
    assert_eq!(
        SplitContract::claim_share(&ledger(200), &mut inv, 2, addr("GNEW"), 29),
        Err(SplitError::NotTokenHolder)
    );
    assert_eq!(inv, inv0);
}

#[test]
fn claims_and_reclaim_pay_out_the_total_once() {
    let mut inv = released();
    let a = SplitContract::claim_share(&ledger(200), &mut inv, 1, addr("GB"), 20).unwrap();
    let b = SplitContract::reclaim_unclaimed(&ledger(6_000), &mut inv).unwrap();
    let moved = |ops: &[TokenOp]| -> i128 {
        ops.iter()
            .map(|op| match op {
                TokenOp::Transfer { amount, .. } => *amount,
                TokenOp::Clawback { .. } => 0,
            })
            .sum()
    };
    assert_eq!(moved(&a.token_ops) + moved(&b.token_ops), 60);
}
