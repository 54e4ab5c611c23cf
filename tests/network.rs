use k12::digest::{ExtendableOutput, Update};
use qiner::network::{Packet, RequestResponseHeader, PACKET_SIZE};
use qiner::types::BROADCAST_MESSAGE;

fn k12(data: &[u8]) -> [u8; 32] {
    let mut hasher = k12::KangarooTwelve::default();
    hasher.update(data);
    let mut out = [0u8; 32];
    hasher.finalize_xof_into(&mut out);
    out
}

fn gamming_key(gamming_nonce: &[u8; 32]) -> [u8; 32] {
    let mut buffer = [0u8; 64];
    buffer[32..].copy_from_slice(gamming_nonce);
    k12(&buffer)
}

fn words_to_bytes(words: &[u64]) -> Vec<u8> {
    words.iter().flat_map(|w| w.to_le_bytes()).collect()
}

fn candidate(counter: u64) -> [u8; 32] {
    let mut c = [0u8; 32];
    c[..8].copy_from_slice(&counter.to_le_bytes());
    c[8..16].copy_from_slice(&counter.wrapping_mul(0x9E37_79B9_7F4A_7C15).to_le_bytes());
    c
}

const VERSION: [u8; 3] = [1, 141, 0];
const KEY: [u64; 4] = [0x1111_2222_3333_4444, 5, 0xFFFF_0000_FFFF_0000, 77];

fn build(in_nonce: &[u64; 4], start: u64) -> (Packet, [u8; 32]) {
    let mut counter = start;
    loop {
        let c = candidate(counter);
        let signature = [counter; 8];
        if let Some(p) =
            Packet::new(&BROADCAST_MESSAGE, &VERSION, &KEY, in_nonce, &c, 0x00AB_CDEF, &signature)
        {
            return (p, c);
        }
        counter += 1;
    }
}

fn nonce_one_to_32() -> [u64; 4] {
    let mut bytes = [0u8; 32];
    for (i, b) in bytes.iter_mut().enumerate() {
        *b = (i + 1) as u8;
    }
    let mut words = [0u64; 4];
    for (i, w) in words.iter_mut().enumerate() {
        *w = u64::from_le_bytes(bytes[8 * i..8 * i + 8].try_into().unwrap());
    }
    words
}

#[test]
fn gamma_round_trip() {
    let in_nonce = nonce_one_to_32();
    let (packet, _) = build(&in_nonce, 0);
    let gamming_nonce: [u8; 32] =
        words_to_bytes(&packet.get_message().get_gamming_nonce()).try_into().unwrap();
    let gamma = k12(&gamming_key(&gamming_nonce));
    let solution = words_to_bytes(&packet.get_solution_nonce());
    let recovered: Vec<u8> = solution.iter().zip(gamma.iter()).map(|(s, g)| s ^ g).collect();
    let expected: Vec<u8> = (1..=32u8).collect();
    assert_eq!(recovered, expected);
    assert_eq!(packet.recover_solution_nonce(), in_nonce);
    assert_ne!(packet.get_solution_nonce(), in_nonce);
}

#[test]
fn packet_layout() {
    let in_nonce = [1, 2, 3, 4];
    let (packet, c) = build(&in_nonce, 100);
    let bytes = packet.to_bytes();
    assert_eq!(bytes.len(), 200);
    let size = bytes[0] as usize | (bytes[1] as usize) << 8 | (bytes[2] as usize) << 16;
    assert_eq!(size, PACKET_SIZE);
    assert_eq!(bytes[3], 141);
    assert_eq!(bytes[4..7], [0xEF, 0xCD, 0xAB]);
    assert_eq!(bytes[7], BROADCAST_MESSAGE);
    assert!(bytes[8..40].iter().all(|b| *b == 0));
    assert_eq!(bytes[40..72], words_to_bytes(&KEY)[..]);
    assert_eq!(bytes[72..104], c[..]);
    assert_eq!(bytes[136..200], words_to_bytes(&packet.get_signature())[..]);
}

#[test]
fn packet_bytes_match_declared_size() {
    let (packet, _) = build(&[9, 9, 9, 9], 7);
    let bytes = packet.to_bytes();
    assert_eq!(bytes.len(), packet.get_header().get_size());
    assert_eq!(bytes.len(), PACKET_SIZE);
}

#[test]
fn emitted_gamming_keys_never_start_with_zero() {
    let mut counter = 0u64;
    for _ in 0..40 {
        let (packet, c) = build(&[counter, 1, 2, 3], counter);
        let gamming_nonce: [u8; 32] =
            words_to_bytes(&packet.get_message().get_gamming_nonce()).try_into().unwrap();
        assert_eq!(gamming_nonce, c);
        assert_ne!(gamming_key(&gamming_nonce)[0], 0);
        counter = u64::from_le_bytes(c[..8].try_into().unwrap()) + 1;
    }
}

#[test]
fn candidate_with_zero_gamming_key_is_rejected() {
    let mut counter = 0u64;
    while gamming_key(&candidate(counter))[0] != 0 {
        counter += 1;
    }
    let c = candidate(counter);
    let built = Packet::new(&BROADCAST_MESSAGE, &VERSION, &KEY, &[1, 2, 3, 4], &c, 5, &[0; 8]);
    assert!(built.is_none());
}

#[test]
fn zero_dejavu_is_rejected() {
    let (_, c) = build(&[1, 2, 3, 4], 0);
    let built =
        Packet::new(&BROADCAST_MESSAGE, &VERSION, &KEY, &[1, 2, 3, 4], &c, 0xFF00_0000, &[0; 8]);
    assert!(built.is_none());
    let built = Packet::new(&BROADCAST_MESSAGE, &VERSION, &KEY, &[1, 2, 3, 4], &c, 1, &[0; 8]);
    assert!(built.is_some());
}

#[test]
fn header_fields() {
    let mut header = RequestResponseHeader::new(&BROADCAST_MESSAGE, &200, &VERSION);
    assert_eq!(header.get_size(), 200);
    assert_eq!(header.get_protocol(), 141);
    assert_eq!(header.get_type(), 1);
    assert!(header.is_dejavu_zero());
    header.randomize_dejavu(0x1200_0000);
    assert!(header.is_dejavu_zero());
    header.randomize_dejavu(0x0000_0100);
    assert!(!header.is_dejavu_zero());
    header.zeroed_dejavu();
    assert!(header.is_dejavu_zero());
    header.set_size(&0x0123_4567);
    assert_eq!(header.get_size(), 0x23_4567);
    header.set_type(&9);
    assert_eq!(header.get_type(), 9);
    header.set_protocol(&[3, 4, 5]);
    assert_eq!(header.get_protocol(), 4);
}
