use qiner::math::random_64;

fn expected_stream(key: &[u64; 4], nonce: &[u64; 4], len: usize) -> Vec<u64> {
    let mut state = [0u64; 25];
    state[..4].copy_from_slice(key);
    state[4..8].copy_from_slice(nonce);
    let mut out = Vec::new();
    while out.len() < len {
        keccak::p1600(&mut state, 12);
        let take = (len - out.len()).min(25);
        out.extend_from_slice(&state[..take]);
    }
    out
}

#[test]
fn keccak_vector_zero_key_and_nonce() {
    let mut out = vec![0u64; 4];
    random_64(&[0; 4], &[0; 4], &mut out);
    assert_eq!(out, expected_stream(&[0; 4], &[0; 4], 4));
    let mut state = [0u64; 25];
    keccak::p1600(&mut state, 12);
    assert_eq!(out[..], state[..4]);
    assert_ne!(out, vec![0u64; 4]);
}

#[test]
fn keccak_stream_squeezes_successive_states() {
    let key = [1, 2, 3, 4];
    let nonce = [5, 6, 7, 8];
    let mut out = vec![0u64; 60];
    random_64(&key, &nonce, &mut out);
    assert_eq!(out, expected_stream(&key, &nonce, 60));
    let mut state = [0u64; 25];
    state[..4].copy_from_slice(&key);
    state[4..8].copy_from_slice(&nonce);
    keccak::p1600(&mut state, 12);
    keccak::p1600(&mut state, 12);
    assert_eq!(out[25..50], state[..]);
}

#[test]
fn keccak_stream_of_empty_output() {
    let mut out: Vec<u64> = Vec::new();
    random_64(&[9; 4], &[9; 4], &mut out);
    assert!(out.is_empty());
}

#[test]
fn keccak_stream_prefix_is_stable() {
    let mut short = vec![0u64; 7];
    let mut long = vec![0u64; 31];
    random_64(&[3; 4], &[4; 4], &mut short);
    random_64(&[3; 4], &[4; 4], &mut long);
    assert_eq!(short[..], long[..7]);
}
