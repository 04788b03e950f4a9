use split::completion::completion_preimage;
use split::{Address, Invoice, InvoiceStatus, Ledger, SplitContract, SplitError};

fn addr(s: &str) -> Address {
    Address::new(s.to_string())
}

fn ledger(timestamp: u64) -> Ledger {
    Ledger { timestamp, contract: addr("CCONTRACT") }
}

fn invoice(amounts: Vec<i128>, deadline: u64) -> Invoice {
    let recipients = (0..amounts.len()).map(|i| addr(&format!("GR{}", i))).collect();
    let tokens = (0..amounts.len()).map(|i| addr(&format!("CP{}", i))).collect();
    SplitContract::create_invoice(&ledger(0), None, addr("GC"), recipients, amounts, addr("CUSDC"), deadline)
        .unwrap()
        .into_invoice(tokens)
}

#[test]
fn preimage_is_little_endian_fields_then_status() {
    let mut inv = invoice(vec![1], 5);
    inv.amounts.clear();
    inv.funded = -2;
    inv.status = InvoiceStatus::Refunded;
    assert_eq!(
        completion_preimage(7, &inv),
        vec![7, 0, 0, 0, 0, 0, 0, 0, 254, 255, 255, 255, 255, 255, 255, 255, 255, 255, 255, 255, 255,
            255, 255, 255, 5, 0, 0, 0, 0, 0, 0, 0, 2]
    );
}

#[test]
fn completion_proof_hashes_the_invoice() {
    let env = soroban_sdk::Env::default();
    let mut inv = invoice(vec![100, 200], 1_000);
    SplitContract::pay(&ledger(10), &mut inv, addr("GP"), 300, None, None).unwrap();
    assert_eq!(completion_preimage(1, &inv).len(), 65);
    let proof = SplitContract::get_completion_proof(&env, 1, &inv).unwrap();
    assert_eq!(proof.id, 1);
    assert_eq!(proof.status, InvoiceStatus::Released);
    assert_eq!(proof.funded, 300);
    assert_eq!(proof.timestamp, 10);
    assert_eq!(
        proof.hash,
        vec![80, 190, 1, 223, 135, 115, 148, 47, 104, 209, 81, 65, 95, 55, 85, 11, 225, 105, 207, 151,
            179, 88, 133, 168, 30, 19, 166, 70, 184, 222, 213, 83]
    );
}

#[test]
fn completion_proof_needs_final_status() {
    let env = soroban_sdk::Env::default();
    let inv = invoice(vec![100], 1_000);
    assert_eq!(SplitContract::get_completion_proof(&env, 1, &inv), Err(SplitError::NotFinalized));
    let mut done = inv.clone();
    done.status = InvoiceStatus::Refunded;
    assert_eq!(SplitContract::get_completion_proof(&env, 1, &done), Err(SplitError::NoCompletionTime));
}

#[test]
fn proof_carries_the_given_digest() {
    let mut inv = invoice(vec![5], 1_000);
    inv.status = InvoiceStatus::Refunded;
    inv.funded = 3;
    let p = SplitContract::proof_from_hash(9, 4, &inv, vec![1, 2, 3]);
    assert_eq!(p.id, 4);
    assert_eq!(p.status, InvoiceStatus::Refunded);
    assert_eq!(p.funded, 3);
    assert_eq!(p.timestamp, 9);
    assert_eq!(p.hash, vec![1, 2, 3]);
}
