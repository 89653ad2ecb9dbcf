use memo_bench::batch::chunk_signatures;

fn signatures(n: usize) -> Vec<String> {
    (0..n).map(|i| format!("sig{}", i)).collect()
}

#[test]
fn no_chunk_exceeds_the_configured_size() {
    let sigs = signatures(25);
    let chunks = chunk_signatures(&sigs, 10);
    assert_eq!(chunks.len(), 3);
    for chunk in &chunks {
        assert!(chunk.len() <= 10);
        assert!(!chunk.is_empty());
    }
}

#[test]
fn chunks_cover_the_whole_input_in_order() {
    let sigs = signatures(25);
    let chunks = chunk_signatures(&sigs, 10);
    let rejoined: Vec<String> = chunks.into_iter().flatten().collect();
    assert_eq!(rejoined, sigs);
}

#[test]
fn a_short_input_fits_one_chunk() {
    let sigs = signatures(3);
    let chunks = chunk_signatures(&sigs, 10);
    assert_eq!(chunks, vec![sigs]);
}

#[test]
fn an_exact_multiple_splits_evenly() {
    let sigs = signatures(20);
    let chunks = chunk_signatures(&sigs, 10);
    assert_eq!(chunks.len(), 2);
    assert_eq!(chunks[0].len(), 10);
    assert_eq!(chunks[1].len(), 10);
}

#[test]
fn no_signatures_means_no_requests() {
    let chunks = chunk_signatures(&Vec::new(), 10);
    assert!(chunks.is_empty());
}
