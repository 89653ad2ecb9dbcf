use memo_bench::cache::ReferenceCache;
use memo_bench::config::Config;
use memo_bench::memo_tx::{generate_random_string, rand_memo_tx};
use solana_sdk::hash::Hash as SdkHash;
use solana_sdk::signature::{Keypair, Signer};
use std::str::FromStr;

#[test]
fn probe_tags_keep_the_prefix_and_add_random_alphanumerics() {
    let tag = generate_random_string("TESTING", 8);
    assert_eq!(tag.len(), 15);
    assert!(tag.starts_with("TESTING"));
    assert!(tag[7..].chars().all(|c| c.is_ascii_alphanumeric()));
}

#[test]
fn two_probe_tags_differ() {
    // Eight random alphanumerics make a collision vanishingly unlikely; a
    // tag generator that echoed its prefix back unchanged would fail here.
    let a = generate_random_string("TESTING", 8);
    let b = generate_random_string("TESTING", 8);
    assert_ne!(a, b);
}

#[test]
fn an_empty_prefix_still_yields_a_full_tag() {
    let tag = generate_random_string("", 8);
    assert_eq!(tag.len(), 8);
    assert!(tag.chars().all(|c| c.is_ascii_alphanumeric()));
}

#[test]
fn a_probe_transaction_carries_fee_priority_limit_and_memo() {
    let signer = Keypair::new();
    let tx = rand_memo_tx(&signer, 1000, SdkHash::default(), "TESTING");
    assert_eq!(tx.message.instructions.len(), 3);
    let memo_program =
        solana_sdk::pubkey::Pubkey::from_str("MemoSq4gqABAXKb96qnH8TysNcWxMyWCqXgDLGmfcHr")
            .unwrap();
    let compute_budget = solana_sdk::compute_budget::id();
    let programs: Vec<_> = tx
        .message
        .instructions
        .iter()
        .map(|ix| tx.message.account_keys[ix.program_id_index as usize])
        .collect();
    assert_eq!(programs[0], compute_budget);
    assert_eq!(programs[1], compute_budget);
    assert_eq!(programs[2], memo_program);
    // The memo payload is the borsh-encoded tag: a length prefix and then
    // the prefix bytes.
    let memo_data = &tx.message.instructions[2].data;
    assert_eq!(&memo_data[0..4], &15u32.to_le_bytes());
    assert_eq!(&memo_data[4..11], b"TESTING");
    // Signed by the sender over the given token.
    assert_eq!(tx.message.account_keys[0], signer.pubkey());
    assert_eq!(tx.message.recent_blockhash, SdkHash::default());
}

#[test]
fn the_cache_is_not_ready_until_the_first_refresh() {
    let mut cache = ReferenceCache::new();
    assert!(!cache.ready());
    assert_eq!(cache.current(), None);
    let token = SdkHash::new_unique();
    cache.refresh(token);
    assert!(cache.ready());
    assert_eq!(cache.current(), Some(token));
}

#[test]
fn run_duration_is_the_configured_minutes_in_seconds() {
    let config = Config {
        ws_rpc: "ws://localhost:8900".to_string(),
        http_rpc: "http://localhost:8899".to_string(),
        keypair_path: "/tmp/key.json".to_string(),
        paladin_rpc: "http://localhost:8899".to_string(),
        duration_mins: 7,
        cu_price_micro_lamports: 1000,
    };
    assert_eq!(config.run_duration_secs(), Some(420));
}

#[test]
fn an_unrepresentable_run_duration_is_refused() {
    let config = Config {
        ws_rpc: String::new(),
        http_rpc: String::new(),
        keypair_path: String::new(),
        paladin_rpc: String::new(),
        duration_mins: u64::MAX,
        cu_price_micro_lamports: 0,
    };
    assert_eq!(config.run_duration_secs(), None);
}
