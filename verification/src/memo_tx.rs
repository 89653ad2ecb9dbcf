//! Probe transaction construction.
//!
//! Every probe carries a fee-priority instruction, a compute limit, and a
//! memo payload with a unique random tag, and is signed by the benchmark
//! identity over the current freshness token. The ledger types themselves
//! come from the ledger SDK and stay opaque here; what the library proves
//! is the shape of the tag.

use vstd::prelude::*;
use std::str::FromStr;
use rand::Rng;
use solana_sdk::compute_budget::ComputeBudgetInstruction;
use solana_sdk::instruction::{AccountMeta, Instruction};
use solana_sdk::pubkey::Pubkey;
use solana_sdk::signature::Keypair;
use solana_sdk::signer::Signer;
use solana_sdk::transaction::Transaction;

verus! {

#[verifier::external_type_specification]
#[verifier::external_body]
pub struct ExHash(solana_sdk::hash::Hash);

#[verifier::external_type_specification]
#[verifier::external_body]
pub struct ExKeypair(Keypair);

#[verifier::external_type_specification]
#[verifier::external_body]
pub struct ExTransaction(Transaction);

/// An ASCII letter or digit.
pub open spec fn is_alnum(c: char) -> bool {
    ('a' <= c && c <= 'z') || ('A' <= c && c <= 'Z') || ('0' <= c && c <= '9')
}

/// Relies on rand: the thread-local generator sampled through the
/// alphanumeric distribution yields one ASCII letter or digit per draw.
/// Nothing is promised about which ones come out.
#[verifier::external_body]
fn random_alphanumeric(len: usize) -> (r: String)
    ensures
        r@.len() == len as int,
        forall|i: int| 0 <= i < r@.len() ==> is_alnum(#[trigger] r@[i]),
{
    rand::thread_rng().sample_iter(&rand::distributions::Alphanumeric).take(len).map(
        char::from,
    ).collect()
}

/// A fresh probe tag: `prefix` followed by `length` random alphanumeric
/// characters, so the network never treats two probes as duplicates.
pub fn generate_random_string(prefix: &str, length: usize) -> (r: String)
    ensures
        r@.len() == prefix@.len() + length as int,
        r@.subrange(0, prefix@.len() as int) == prefix@,
        forall|i: int| prefix@.len() <= i < r@.len() ==> is_alnum(#[trigger] r@[i]),
{
    let tag = random_alphanumeric(length);
    let r = prefix.to_owned().concat(tag.as_str());
    proof {
        assert(r@.subrange(0, prefix@.len() as int) =~= prefix@);
    }
    r
}

/// Relies on Transaction::new_signed_with_payer and the ledger SDK's
/// instruction constructors: the probe transaction holding the fee-priority
/// instruction for `cu_price`, the compute limit for `cu_limit`, and the
/// borsh-encoded `memo` with the sender as its sole signing account, signed
/// by the sender as fee payer over the freshness token `recent`.
///
/// Every input is a plain value, so the message compiled inside holds at
/// most four distinct account keys (two program addresses, the memo
/// program, the sender) and its one required signer is the sender itself:
/// neither message compilation nor signing can fail. The borsh string
/// encoding prefixes a 32-bit byte length, so the memo must stay below
/// that bound.
#[verifier::external_body]
fn sign_probe_transaction(
    sender: &Keypair,
    cu_price: u64,
    cu_limit: u32,
    memo: &String,
    recent: solana_sdk::hash::Hash,
) -> (r: Transaction)
    requires
        memo@.len() <= 0x2000_0000,
{
    let payer = Signer::pubkey(sender);
    let program_id = Pubkey::from_str("MemoSq4gqABAXKb96qnH8TysNcWxMyWCqXgDLGmfcHr").unwrap();
    let ixs = vec![
        ComputeBudgetInstruction::set_compute_unit_price(cu_price),
        ComputeBudgetInstruction::set_compute_unit_limit(cu_limit),
        Instruction::new_with_borsh(program_id, memo, vec![AccountMeta::new(payer, true)]),
    ];
    Transaction::new_signed_with_payer(&ixs, Some(&payer), &[sender], recent)
}

/// Build and sign one probe transaction: the fee-priority instruction and
/// a fixed compute limit ahead of a memo payload tagged with `prefix` plus
/// eight random alphanumeric characters, signed over `block_hash`. The
/// transaction value itself stays opaque; its tag shape is proved in
/// `generate_random_string`.
pub fn rand_memo_tx(
    sender: &Keypair,
    cu_price: u64,
    block_hash: solana_sdk::hash::Hash,
    prefix: &str,
) -> (tx: Transaction)
    requires
        prefix@.len() + 8 <= 0x2000_0000,
{
    let memo = generate_random_string(prefix, 8);
    sign_probe_transaction(sender, cu_price, 25_000, &memo, block_hash)
}

} // verus!
