use k12::digest::{ExtendableOutput, Update};
use qiner::converters::{
    decode_identity, get_id_from_public_key_64, get_public_key_64_from_id, IdentityError,
};

fn checksum_letters(public_key: &[u64; 4]) -> [u8; 4] {
    let mut bytes = Vec::new();
    for limb in public_key.iter() {
        bytes.extend_from_slice(&limb.to_le_bytes());
    }
    let mut hasher = k12::KangarooTwelve::default();
    hasher.update(&bytes);
    let mut out = [0u8; 3];
    hasher.finalize_xof_into(&mut out);
    let mut checksum = (out[0] as u32 | (out[1] as u32) << 8 | (out[2] as u32) << 16) & 0x3FFFF;
    let mut letters = [0u8; 4];
    for letter in letters.iter_mut() {
        *letter = (checksum % 26) as u8 + b'A';
        checksum /= 26;
    }
    letters
}

fn encode(public_key: &[u64; 4]) -> [u8; 60] {
    let mut id = [0u8; 60];
    get_id_from_public_key_64(public_key, &mut id);
    id
}

#[test]
fn identity_of_zero_key() {
    let id = encode(&[0, 0, 0, 0]);
    assert!(id[..56].iter().all(|c| *c == b'A'));
    assert_eq!(id[56..], checksum_letters(&[0, 0, 0, 0]));
    assert!(id.iter().all(|c| c.is_ascii_uppercase()));
    let mut key = [7u64; 4];
    assert!(get_public_key_64_from_id(&id, &mut key));
    assert_eq!(key, [0, 0, 0, 0]);
}

#[test]
fn identity_digits_are_little_endian() {
    let id = encode(&[1, 26, 0, 27]);
    assert_eq!(id[0], b'B');
    assert!(id[1..14].iter().all(|c| *c == b'A'));
    assert_eq!(id[14], b'A');
    assert_eq!(id[15], b'B');
    assert_eq!(id[42], b'B');
    assert_eq!(id[43], b'B');
    assert_eq!(id[56..], checksum_letters(&[1, 26, 0, 27]));
}

#[test]
fn identity_round_trip() {
    let keys: [[u64; 4]; 4] = [
        [u64::MAX, u64::MAX, u64::MAX, u64::MAX],
        [0x0123_4567_89AB_CDEF, 42, 0, u64::MAX - 1],
        [1, 2, 3, 4],
        [0xDEAD_BEEF, 0xFEED_FACE_CAFE_BEEF, 26u64.pow(13), 26u64.pow(13) - 1],
    ];
    for key in keys.iter() {
        let id = encode(key);
        assert!(id.iter().all(|c| c.is_ascii_uppercase()));
        assert_eq!(decode_identity(&id), Ok(*key));
        let mut back = [0u64; 4];
        assert!(get_public_key_64_from_id(&id, &mut back));
        assert_eq!(back, *key);
        assert_eq!(id[56..], checksum_letters(key));
    }
}

#[test]
fn identity_checksum_differs_between_keys() {
    let a = encode(&[0, 0, 0, 0]);
    let b = encode(&[1, 0, 0, 0]);
    assert_eq!(a[56..], checksum_letters(&[0, 0, 0, 0]));
    assert_eq!(b[56..], checksum_letters(&[1, 0, 0, 0]));
    assert_eq!(encode(&[1, 0, 0, 0])[56..], b[56..]);
}

#[test]
fn identity_with_lowercase_letter_is_rejected() {
    let mut id = encode(&[5, 6, 7, 8]);
    id[20] = b'q';
    assert_eq!(decode_identity(&id), Err(IdentityError::InvalidAlphabet));
    let mut key = [9u64; 4];
    assert!(!get_public_key_64_from_id(&id, &mut key));
    assert_eq!(key, [0, 0, 0, 0]);
}

#[test]
fn identity_with_digit_in_first_limb_is_rejected() {
    let mut id = [b'A'; 60];
    id[0] = b'0';
    assert_eq!(decode_identity(&id), Err(IdentityError::InvalidAlphabet));
}

#[test]
fn identity_checksum_characters_are_not_examined() {
    let mut id = encode(&[11, 12, 13, 14]);
    id[58] = b'z';
    assert_eq!(decode_identity(&id), Ok([11, 12, 13, 14]));
}

#[test]
fn identity_of_wrong_length_is_rejected() {
    let id = [b'A'; 56];
    assert_eq!(decode_identity(&id), Err(IdentityError::InvalidLength));
    assert_eq!(decode_identity(&[]), Err(IdentityError::InvalidLength));
    let long = [b'A'; 61];
    assert_eq!(decode_identity(&long), Err(IdentityError::InvalidLength));
}

#[test]
fn identity_all_z_wraps_modulo_two_to_the_64() {
    let id = [b'Z'; 60];
    let expected = (26u128.pow(14) - 1) % (1u128 << 64);
    let key = decode_identity(&id).unwrap();
    assert_eq!(key, [expected as u64; 4]);
}
