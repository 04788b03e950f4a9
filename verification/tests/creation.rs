use split::{Address, CreateInvoiceParams, InvoiceStatus, Ledger, SplitContract, SplitError};

fn addr(s: &str) -> Address {
    Address::new(s.to_string())
}

fn ledger(timestamp: u64) -> Ledger {
    Ledger { timestamp, contract: addr("CCONTRACT") }
}

fn params(amounts: Vec<i128>, deadline: u64) -> CreateInvoiceParams {
    let recipients = (0..amounts.len()).map(|i| addr(&format!("GR{}", i))).collect();
    CreateInvoiceParams { recipients, amounts, token: addr("CUSDC"), deadline }
}

#[test]
fn create_invoice_takes_next_id_and_total() {
    let d = SplitContract::create_invoice(
        &ledger(100),
        None,
        addr("GCREATOR"),
        vec![addr("GA"), addr("GB")],
        vec![100, 250],
        addr("CUSDC"),
        200,
    )
    .unwrap();
    assert_eq!(d.id, 1);
    assert_eq!(d.total, 350);
    assert_eq!(d.creator.as_str(), "GCREATOR");
    assert_eq!(d.claim_deadline, None);
    let d = SplitContract::create_invoice(
        &ledger(100),
        Some(41),
        addr("GCREATOR"),
        vec![addr("GA")],
        vec![5],
        addr("CUSDC"),
        101,
    )
    .unwrap();
    assert_eq!(d.id, 42);
}

#[test]
fn create_invoice_refusals_in_order() {
    let l = ledger(100);
    let c = || addr("GCREATOR");
    let t = || addr("CUSDC");
    assert_eq!(
        SplitContract::create_invoice(&l, None, c(), vec![addr("GA")], vec![1, 2], t(), 50),
        Err(SplitError::LengthMismatch)
    );
    assert_eq!(
        SplitContract::create_invoice(&l, None, c(), vec![], vec![], t(), 200),
        Err(SplitError::NoRecipients)
    );
    assert_eq!(
        SplitContract::create_invoice(&l, None, c(), vec![addr("GA")], vec![0], t(), 100),
        Err(SplitError::DeadlineNotInFuture)
    );
    assert_eq!(
        SplitContract::create_invoice(&l, None, c(), vec![addr("GA"), addr("GB")], vec![3, -1], t(), 101),
        Err(SplitError::NonPositiveAmount)
    );
    assert_eq!(
        SplitContract::create_invoice(&l, Some(u64::MAX), c(), vec![addr("GA")], vec![3], t(), 101),
        Err(SplitError::Overflow)
    );
    assert_eq!(
        SplitContract::create_invoice(&l, None, c(), vec![addr("GA"), addr("GB")], vec![i128::MAX, 1], t(), 101),
        Err(SplitError::Overflow)
    );
}

#[test]
fn draft_becomes_pending_invoice() {
    let d = SplitContract::create_invoice(
        &ledger(10),
        None,
        addr("GCREATOR"),
        vec![addr("GA"), addr("GB")],
        vec![7, 8],
        addr("CUSDC"),
        20,
    )
    .unwrap();
    let inv = d.into_invoice(vec![addr("CP0"), addr("CP1")]);
    assert_eq!(inv.status, InvoiceStatus::Pending);
    assert_eq!(inv.funded, 0);
    assert!(inv.payments.is_empty());
    assert_eq!(inv.claimed, vec![false, false]);
    assert_eq!(inv.completion_time, None);
    assert_eq!(inv.deadline, 20);
    assert_eq!(inv.proceeds_tokens[1].as_str(), "CP1");
}

#[test]
fn batch_ids_are_consecutive() {
    let ds = SplitContract::create_batch(
        &ledger(100),
        Some(9),
        addr("GCREATOR"),
        vec![params(vec![1], 150), params(vec![2, 3], 160), params(vec![4], 170)],
    )
    .unwrap();
    assert_eq!(ds.iter().map(|d| d.id).collect::<Vec<_>>(), vec![10, 11, 12]);
    assert_eq!(ds[1].total, 5);
    assert_eq!(ds[2].deadline, 170);
    assert!(ds.iter().all(|d| d.creator.as_str() == "GCREATOR"));
}

#[test]
fn batch_limit_is_five() {
    let items: Vec<_> = (0..6).map(|_| params(vec![1], 150)).collect();
    assert_eq!(
        SplitContract::create_batch(&ledger(100), None, addr("GC"), items),
        Err(SplitError::BatchLimitExceeded)
    );
    let items: Vec<_> = (0..5).map(|_| params(vec![1], 150)).collect();
    assert_eq!(SplitContract::create_batch(&ledger(100), None, addr("GC"), items).unwrap().len(), 5);
    assert_eq!(SplitContract::create_batch(&ledger(100), None, addr("GC"), vec![]).unwrap().len(), 0);
}

#[test]
fn batch_fails_on_first_bad_item() {
    let r = SplitContract::create_batch(
        &ledger(100),
        None,
        addr("GC"),
        vec![params(vec![1], 150), params(vec![1], 90), params(vec![], 150)],
    );
    assert_eq!(r, Err(SplitError::DeadlineNotInFuture));
}

#[test]
fn subscription_keeps_params_for_more_than_one_month() {
    let p = SplitContract::create_subscription(
        &ledger(1_000),
        Some(2),
        addr("GC"),
        vec![addr("GA")],
        vec![50],
        addr("CUSDC"),
        3,
    )
    .unwrap();
    assert_eq!(p.draft.id, 3);
    assert_eq!(p.draft.deadline, 1_000 + 2_592_000);
    let kept = p.params.unwrap();
    assert_eq!(kept.amounts, vec![50]);
    assert_eq!(kept.remaining, 2);
    assert_eq!(kept.creator.as_str(), "GC");
    let p = SplitContract::create_subscription(
        &ledger(1_000),
        None,
        addr("GC"),
        vec![addr("GA")],
        vec![50],
        addr("CUSDC"),
        1,
    )
    .unwrap();
    assert!(p.params.is_none());
}

#[test]
fn subscription_refusals() {
    let l = ledger(1_000);
    let sub = |r: Vec<Address>, a: Vec<i128>, m: u32| {
        SplitContract::create_subscription(&l, None, addr("GC"), r, a, addr("CUSDC"), m)
    };
    assert_eq!(sub(vec![addr("GA")], vec![], 2), Err(SplitError::LengthMismatch));
    assert_eq!(sub(vec![], vec![], 2), Err(SplitError::NoRecipients));
    assert_eq!(sub(vec![addr("GA")], vec![5], 0), Err(SplitError::InvalidMonths));
    assert_eq!(sub(vec![addr("GA")], vec![5], 13), Err(SplitError::InvalidMonths));
    assert_eq!(sub(vec![addr("GA")], vec![0], 12), Err(SplitError::NonPositiveAmount));
    assert!(sub(vec![addr("GA")], vec![5], 12).is_ok());
    let late = ledger(u64::MAX - 10);
    assert_eq!(
        SplitContract::create_subscription(&late, None, addr("GC"), vec![addr("GA")], vec![5], addr("CUSDC"), 2),
        Err(SplitError::Overflow)
    );
}

#[test]
fn error_messages() {
    assert_eq!(SplitError::BatchLimitExceeded.message(), "batch limit exceeded");
    assert_eq!(SplitError::ExceedsRemaining.message(), "payment exceeds remaining balance");
    assert_eq!(SplitError::RetentionNotElapsed.message(), "retention period not elapsed");
    assert_eq!(
        SplitError::DeadlineNotExtended.message(),
        "new deadline must not be earlier than the current one"
    );
    assert_eq!(
        SplitError::TokenTransferred.message(),
        "proceeds token transferred; use claim_share_for"
    );
}

#[test]
fn addresses_compare_by_strkey() {
    assert!(addr("GA").same_as(&addr("GA")));
    assert!(!addr("GA").same_as(&addr("GB")));
    assert_eq!(addr("GXYZ").as_str(), "GXYZ");
}
