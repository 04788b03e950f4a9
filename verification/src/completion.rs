//! Completion proofs: a fingerprint of a finalized invoice, the SHA-256 hash
//! of its identifier, funding, deadline, shares and status.
use vstd::prelude::*;

use crate::types::{CompletionProof, Invoice, InvoiceStatus, SplitError};

verus! {

/// The host environment of a contract call, which computes hashes.
#[verifier::external_type_specification]
#[verifier::external_body]
pub struct ExEnv(soroban_sdk::Env);

/// The SHA-256 digest of `data`.
pub uninterp spec fn spec_sha256(data: Seq<u8>) -> Seq<u8>;

/// Calls `soroban_sdk::crypto::Crypto::sha256` on `data` (copied into host
/// bytes) and returns the digest as bytes. Claimed: the digest is the
/// SHA-256 of the data, a function of the data alone, and is 32 bytes long.
/// The host meters the computation against the call's budget; a call whose
/// budget is exhausted aborts, which nothing here states.
#[verifier::external_body]
fn sha256(env: &soroban_sdk::Env, data: &Vec<u8>) -> (digest: Vec<u8>)
    ensures
        digest@ == spec_sha256(data@),
        digest@.len() == 32,
{
    let bytes = soroban_sdk::Bytes::from_slice(env, data.as_slice());
    env.crypto().sha256(&bytes).to_array().to_vec()
}

/// The `n` low bytes of `v`, least significant first.
pub open spec fn le_bytes(v: nat, n: nat) -> Seq<u8>
    decreases n,
{
    if n == 0 {
        Seq::empty()
    } else {
        seq![(v % 256) as u8] + le_bytes(v / 256, (n - 1) as nat)
    }
}

/// The little-endian encoding of a `u64`.
pub open spec fn u64_le(x: u64) -> Seq<u8> {
    le_bytes(x as nat, 8)
}

/// The two's complement representation of an `i128`, as an unsigned value.
pub open spec fn twos_complement(x: i128) -> nat {
    if x >= 0 {
        x as nat
    } else {
        (x + 0x1_0000_0000_0000_0000_0000_0000_0000_0000) as nat
    }
}

/// The little-endian encoding of an `i128`.
pub open spec fn i128_le(x: i128) -> Seq<u8> {
    le_bytes(twos_complement(x), 16)
}

/// The little-endian encodings of a list of amounts, one after the other.
pub open spec fn amounts_le(s: Seq<i128>) -> Seq<u8>
    decreases s.len(),
{
    if s.len() == 0 {
        Seq::empty()
    } else {
        amounts_le(s.drop_last()) + i128_le(s.last())
    }
}

/// The bytes a completion proof hashes: the invoice identifier, the funded
/// amount, the deadline and each share, little-endian, then the status byte.
pub open spec fn spec_completion_preimage(invoice_id: u64, inv: Invoice) -> Seq<u8> {
    u64_le(invoice_id) + i128_le(inv.funded) + u64_le(inv.deadline) + amounts_le(inv.amounts@)
        + seq![inv.status.spec_code()]
}

/// Appends the `n` low bytes of `v`, least significant first.
fn push_le(out: &mut Vec<u8>, v: u128, n: usize)
    ensures
        final(out)@ == old(out)@ + le_bytes(v as nat, n as nat),
{
    let ghost start = out@;
    let mut rest: u128 = v;
    let mut i: usize = 0;
    while i < n
        invariant
            i <= n,
            start + le_bytes(v as nat, n as nat) == out@ + le_bytes(rest as nat, (n - i) as nat),
        decreases n - i,
    {
        let ghost before = out@;
        let byte = (rest % 256) as u8;
        assert(le_bytes(rest as nat, (n - i) as nat) == seq![byte] + le_bytes(
            (rest / 256) as nat,
            (n - i - 1) as nat,
        ));
        out.push(byte);
        assert(before + (seq![byte] + le_bytes((rest / 256) as nat, (n - i - 1) as nat)) =~= out@
            + le_bytes((rest / 256) as nat, (n - i - 1) as nat));
        rest = rest / 256;
        i = i + 1;
    }
    assert(le_bytes(rest as nat, 0) =~= Seq::<u8>::empty());
    assert(out@ + Seq::<u8>::empty() =~= out@);
}

/// The two's complement representation of `x`.
fn twos(x: i128) -> (u: u128)
    ensures
        u as nat == twos_complement(x),
{
    if x >= 0 {
        x as u128
    } else {
        u128::MAX - ((-(x + 1)) as u128)
    }
}

/// The bytes a completion proof of invoice `invoice_id` hashes.
pub fn completion_preimage(invoice_id: u64, invoice: &Invoice) -> (bytes: Vec<u8>)
    ensures
        bytes@ == spec_completion_preimage(invoice_id, *invoice),
{
    let mut bytes: Vec<u8> = Vec::new();
    push_le(&mut bytes, invoice_id as u128, 8);
    push_le(&mut bytes, twos(invoice.funded), 16);
    push_le(&mut bytes, invoice.deadline as u128, 8);
    let ghost head = bytes@;
    let mut i: usize = 0;
    while i < invoice.amounts.len()
        invariant
            i <= invoice.amounts@.len(),
            bytes@ == head + amounts_le(invoice.amounts@.take(i as int)),
        decreases invoice.amounts.len() - i,
    {
        push_le(&mut bytes, twos(invoice.amounts[i]), 16);
        assert(invoice.amounts@.take(i + 1).drop_last() =~= invoice.amounts@.take(i as int));
        assert(bytes@ =~= head + amounts_le(invoice.amounts@.take(i + 1)));
        i = i + 1;
    }
    assert(invoice.amounts@.take(i as int) =~= invoice.amounts@);
    bytes.push(invoice.status.code());
    bytes
}

impl crate::contract::SplitContract {
    /// Generate a completion proof for a finalized (released or refunded)
    /// invoice, stamped with the time it was finalized.
    pub fn get_completion_proof(
        env: &soroban_sdk::Env,
        invoice_id: u64,
        invoice: &Invoice,
    ) -> (made: Result<CompletionProof, SplitError>)
        ensures
            match made {
                Ok(p) => {
                    &&& invoice.status.is_completed()
                    &&& invoice.completion_time is Some
                    &&& p.id == invoice_id
                    &&& p.status == invoice.status
                    &&& p.funded == invoice.funded
                    &&& p.timestamp == invoice.completion_time->0
                    &&& p.hash@ == spec_sha256(spec_completion_preimage(invoice_id, *invoice))
                    &&& p.hash@.len() == 32
                },
                Err(e) => if !invoice.status.is_completed() {
                    e == SplitError::NotFinalized
                } else {
                    invoice.completion_time is None && e == SplitError::NoCompletionTime
                },
            },
    {
        if !(invoice.status == InvoiceStatus::Released || invoice.status
            == InvoiceStatus::Refunded) {
            return Err(SplitError::NotFinalized);
        }
        let finalized = match invoice.completion_time {
            Some(t) => t,
            None => {
                return Err(SplitError::NoCompletionTime);
            },
        };
        let bytes = completion_preimage(invoice_id, invoice);
        let hash = sha256(env, &bytes);
        Ok(Self::proof_from_hash(finalized, invoice_id, invoice, hash))
    }

    /// The completion proof of invoice `invoice_id`, finalized at time
    /// `finalized`, whose hashed data has the digest `hash`.
    pub fn proof_from_hash(finalized: u64, invoice_id: u64, invoice: &Invoice, hash: Vec<u8>) -> (made:
        CompletionProof)
        ensures
            made.id == invoice_id,
            made.status == invoice.status,
            made.funded == invoice.funded,
            made.timestamp == finalized,
            made.hash == hash,
    {
        CompletionProof {
            id: invoice_id,
            status: invoice.status,
            funded: invoice.funded,
            timestamp: finalized,
            hash,
        }
    }
}

} // verus!
