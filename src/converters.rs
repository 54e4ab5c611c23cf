//! The identity codec: 60 uppercase letters, of which the first 56 carry the
//! public key in base 26 and the last 4 an 18-bit checksum of it.

use vstd::prelude::*;
use vstd::arithmetic::div_mod::{
    lemma_add_mod_noop, lemma_basic_div, lemma_div_denominator, lemma_fundamental_div_mod, lemma_mod_twice,
    lemma_mul_mod_noop_left, lemma_small_mod,
};
use crate::math::{k12_hash, kangaroo_twelve};
use crate::types::{bytes_from_words, words_to_bytes, Id, PublicKey64};

verus! {

/// Why an identity does not decode.
#[derive(Debug, Clone, Copy, PartialEq, Eq, Structural)]
pub enum IdentityError {
    /// The identity does not have 60 characters.
    InvalidLength,
    /// A character that carries the key is not an uppercase letter.
    InvalidAlphabet,
}

/// `26` to the power `j`.
pub open spec fn pow26(j: nat) -> nat
    decreases j,
{
    if j == 0 {
        1
    } else {
        26 * pow26((j - 1) as nat)
    }
}

/// Letter of base-26 digit `j` of `v`.
pub open spec fn letter_of(v: nat, j: nat) -> u8 {
    ((v / pow26(j)) % 26 + 65) as u8
}

/// The 18-bit checksum of a public key: three bytes of the KangarooTwelve
/// output of its 32 little-endian bytes, read little-endian.
pub open spec fn checksum_of(public_key: Seq<u64>) -> u32 {
    let h = kangaroo_twelve(words_to_bytes(public_key), 3);
    ((h[0] as u32) | ((h[1] as u32) << 8) | ((h[2] as u32) << 16)) & 0x3FFFF
}

/// The identity of a public key: 14 letters per limb, least significant
/// digit first, then 4 letters of the checksum.
pub open spec fn encode_identity(public_key: Seq<u64>) -> Seq<u8> {
    Seq::new(
        60,
        |k: int|
            if k < 56 {
                letter_of(public_key[k / 14] as nat, (k % 14) as nat)
            } else {
                letter_of(checksum_of(public_key) as nat, (k - 56) as nat)
            },
    )
}

/// An uppercase ASCII letter.
pub open spec fn is_id_letter(b: u8) -> bool {
    65 <= b <= 90
}

/// Every character that carries the key is an uppercase letter.
pub open spec fn key_letters_valid(id: Seq<u8>) -> bool {
    forall|k: int| 0 <= k < 56 ==> is_id_letter(#[trigger] id[k])
}

/// Value of the base-26 digits `j..14` of the limb that starts at `base`.
pub open spec fn horner(id: Seq<u8>, base: int, j: nat) -> nat
    decreases 14 - j,
{
    if j >= 14 {
        0
    } else {
        (id[base + j] - 65) as nat + 26 * horner(id, base, j + 1)
    }
}

/// Limb `i` decoded from the identity, modulo 2^64.
pub open spec fn decode_limb(id: Seq<u8>, i: int) -> u64 {
    (horner(id, 14 * i, 0) % 0x1_0000_0000_0000_0000) as u64
}

/// The public key carried by the first 56 characters of an identity.
pub open spec fn decode_identity_spec(id: Seq<u8>) -> Seq<u64> {
    Seq::new(4, |i: int| decode_limb(id, i))
}

proof fn lemma_pow26_positive(j: nat)
    ensures
        pow26(j) > 0,
    decreases j,
{
    if j > 0 {
        lemma_pow26_positive((j - 1) as nat);
    }
}

proof fn lemma_next_digit(v: nat, j: nat)
    ensures
        v / pow26(j) / 26 == v / pow26(j + 1),
{
    lemma_pow26_positive(j);
    lemma_div_denominator(v as int, pow26(j) as int, 26);
    assert(pow26(j + 1) == pow26(j) * 26);
}

proof fn lemma_horner_step(h: int, d: int)
    requires
        0 <= h,
        0 <= d < 26,
    ensures
        (((h % 0x1_0000_0000_0000_0000) * 26) % 0x1_0000_0000_0000_0000 + d)
            % 0x1_0000_0000_0000_0000 == (d + 26 * h) % 0x1_0000_0000_0000_0000,
{
    let m: int = 0x1_0000_0000_0000_0000;
    lemma_mul_mod_noop_left(h, 26, m);
    lemma_add_mod_noop(h * 26, d, m);
    lemma_add_mod_noop((h * 26) % m, d, m);
    lemma_mod_twice(h * 26, m);
    lemma_small_mod(d as nat, m as nat);
}

/// Writes the 60-letter identity of a public key.
pub fn get_id_from_public_key_64(public_key: &PublicKey64, id: &mut Id)
    ensures
        final(id)@ == encode_identity(public_key@),
{
    let mut i: usize = 0;
    while i < 4
        invariant
            i <= 4,
            forall|k: int| 0 <= k < 14 * i ==> id@[k] == encode_identity(public_key@)[k],
        decreases 4 - i,
    {
        let mut public_key_fragment = public_key[i];
        assert(pow26(0) == 1);
        let mut j: usize = 0;
        while j < 14
            invariant
                i < 4,
                j <= 14,
                public_key_fragment == public_key@[i as int] as nat / pow26(j as nat),
                forall|k: int| 0 <= k < 14 * i + j ==> id@[k] == encode_identity(public_key@)[k],
            decreases 14 - j,
        {
            let id_idx = i * 14 + j;
            id[id_idx] = (public_key_fragment % 26 + 65) as u8;
            proof {
                lemma_next_digit(public_key@[i as int] as nat, j as nat);
                assert(id_idx as int / 14 == i && id_idx as int % 14 == j);
            }
            public_key_fragment = public_key_fragment / 26;
            j = j + 1;
        }
        i = i + 1;
    }
    let bytes = bytes_from_words(public_key);
    let hash = k12_hash(&bytes, 3);
    let mut identity_bytes_checksum: u32 = ((hash[0] as u32) | ((hash[1] as u32) << 8) | ((
    hash[2] as u32) << 16)) & 0x3FFFF;
    assert(identity_bytes_checksum == checksum_of(public_key@));
    assert(pow26(0) == 1);
    let mut i: usize = 0;
    while i < 4
        invariant
            i <= 4,
            identity_bytes_checksum == checksum_of(public_key@) as nat / pow26(i as nat),
            forall|k: int| 0 <= k < 56 + i ==> id@[k] == encode_identity(public_key@)[k],
        decreases 4 - i,
    {
        id[56 + i] = (identity_bytes_checksum % 26 + 65) as u8;
        proof {
            lemma_next_digit(checksum_of(public_key@) as nat, i as nat);
        }
        identity_bytes_checksum = identity_bytes_checksum / 26;
        i = i + 1;
    }
    assert(id@ =~= encode_identity(public_key@));
}

/// Decodes the public key from the first 56 characters of an identity. On a
/// character outside `A..=Z` the key is zeroed and `false` returned; the
/// checksum characters are not examined.
pub fn get_public_key_64_from_id(id: &Id, public_key: &mut PublicKey64) -> (r: bool)
    ensures
        r == key_letters_valid(id@),
        r ==> final(public_key)@ == decode_identity_spec(id@),
        !r ==> final(public_key)@ == seq![0u64, 0u64, 0u64, 0u64],
{
    *public_key = [0u64; 4];
    let mut i: usize = 0;
    while i < 4
        invariant
            i <= 4,
            forall|k: int| 0 <= k < 14 * i ==> is_id_letter(#[trigger] id@[k]),
            forall|l: int| 0 <= l < i ==> public_key@[l] == decode_limb(id@, l),
        decreases 4 - i,
    {
        let mut limb: u64 = 0;
        let mut j: usize = 14;
        while j > 0
            invariant
                i < 4,
                j <= 14,
                limb as int == horner(id@, 14 * i, j as nat) % 0x1_0000_0000_0000_0000,
                forall|k: int| 0 <= k < 14 * i ==> is_id_letter(#[trigger] id@[k]),
                forall|k: int| 14 * i + j <= k < 14 * i + 14 ==> is_id_letter(#[trigger] id@[k]),
                forall|l: int| 0 <= l < i ==> public_key@[l] == decode_limb(id@, l),
            decreases j,
        {
            let id_value = id[i * 14 + j - 1];
            if id_value < 65 || id_value > 90 {
                *public_key = [0u64; 4];
                assert(public_key@ =~= seq![0u64, 0u64, 0u64, 0u64]);
                assert(!is_id_letter(id@[(i * 14 + j - 1) as int]));
                return false;
            }
            let delta_id_value = (id_value - 65) as u64;
            proof {
                lemma_horner_step(horner(id@, 14 * i, j as nat) as int, delta_id_value as int);
            }
            limb = limb.wrapping_mul(26).wrapping_add(delta_id_value);
            j = j - 1;
        }
        public_key[i] = limb;
        i = i + 1;
    }
    assert(public_key@ =~= decode_identity_spec(id@));
    true
}

/// Decodes an identity: it must have 60 characters, and the 56 that carry the
/// key must be uppercase letters.
pub fn decode_identity(id: &[u8]) -> (r: Result<PublicKey64, IdentityError>)
    ensures
        id@.len() != 60 ==> r == Err::<PublicKey64, IdentityError>(IdentityError::InvalidLength),
        id@.len() == 60 && !key_letters_valid(id@) ==> r == Err::<PublicKey64, IdentityError>(
            IdentityError::InvalidAlphabet,
        ),
        id@.len() == 60 && key_letters_valid(id@) ==> (r matches Ok(k) && k@
            == decode_identity_spec(id@)),
{
    if id.len() != 60 {
        return Err(IdentityError::InvalidLength);
    }
    let mut buffer: Id = [0u8; 60];
    let mut k: usize = 0;
    while k < 60
        invariant
            id@.len() == 60,
            k <= 60,
            forall|l: int| 0 <= l < k ==> buffer@[l] == id@[l],
        decreases 60 - k,
    {
        buffer[k] = id[k];
        k = k + 1;
    }
    assert(buffer@ =~= id@);
    let mut public_key: PublicKey64 = [0u64; 4];
    if get_public_key_64_from_id(&buffer, &mut public_key) {
        Ok(public_key)
    } else {
        Err(IdentityError::InvalidAlphabet)
    }
}

proof fn lemma_limb_position(i: int, j: int)
    requires
        0 <= i,
        0 <= j < 14,
    ensures
        (14 * i + j) / 14 == i,
        (14 * i + j) % 14 == j,
{
    assert((14 * i + j) / 14 == i && (14 * i + j) % 14 == j) by (nonlinear_arith)
        requires
            0 <= i,
            0 <= j < 14,
    ;
}

proof fn lemma_horner_of_encoding(public_key: Seq<u64>, i: int, j: nat)
    requires
        public_key.len() == 4,
        0 <= i < 4,
        j <= 14,
    ensures
        horner(encode_identity(public_key), 14 * i, j) == public_key[i] as nat / pow26(j),
    decreases 14 - j,
{
    let v = public_key[i] as nat;
    if j == 14 {
        reveal_with_fuel(pow26, 15);
        assert(pow26(14) == 64509974703297150976);
        lemma_basic_div(v as int, pow26(14) as int);
    } else {
        lemma_horner_of_encoding(public_key, i, j + 1);
        lemma_limb_position(i, j as int);
        lemma_next_digit(v, j);
        lemma_pow26_positive(j);
        lemma_fundamental_div_mod((v / pow26(j)) as int, 26);
    }
}

/// Decoding the identity of any public key gives the key back, and every
/// character of that identity is an uppercase letter.
pub proof fn lemma_identity_round_trip(public_key: Seq<u64>)
    requires
        public_key.len() == 4,
    ensures
        key_letters_valid(encode_identity(public_key)),
        decode_identity_spec(encode_identity(public_key)) == public_key,
        forall|k: int| 0 <= k < 60 ==> is_id_letter(#[trigger] encode_identity(public_key)[k]),
{
    assert forall|i: int| 0 <= i < 4 implies #[trigger] decode_limb(encode_identity(public_key), i)
        == public_key[i] by {
        lemma_horner_of_encoding(public_key, i, 0);
        assert(pow26(0) == 1);
        lemma_small_mod(public_key[i] as nat, 0x1_0000_0000_0000_0000);
    }
    assert(decode_identity_spec(encode_identity(public_key)) =~= public_key);
}

proof fn lemma_horner_prefix(a: Seq<u8>, b: Seq<u8>, base: int, j: nat)
    requires
        j <= 14,
        forall|k: int| base + j <= k < base + 14 ==> a[k] == b[k],
    ensures
        horner(a, base, j) == horner(b, base, j),
    decreases 14 - j,
{
    if j < 14 {
        lemma_horner_prefix(a, b, base, j + 1);
    }
}

/// The last four characters of an identity are determined by the first 56:
/// two public keys whose identities agree on the key characters have the
/// same checksum characters.
pub proof fn lemma_checksum_determined_by_key_letters(key_a: Seq<u64>, key_b: Seq<u64>)
    requires
        key_a.len() == 4,
        key_b.len() == 4,
        encode_identity(key_a).subrange(0, 56) == encode_identity(key_b).subrange(0, 56),
    ensures
        encode_identity(key_a).subrange(56, 60) == encode_identity(key_b).subrange(56, 60),
{
    let ia = encode_identity(key_a);
    let ib = encode_identity(key_b);
    assert forall|k: int| 0 <= k < 56 implies ia[k] == ib[k] by {
        assert(ia[k] == ia.subrange(0, 56)[k]);
        assert(ib[k] == ib.subrange(0, 56)[k]);
    }
    assert forall|i: int| 0 <= i < 4 implies #[trigger] decode_limb(ia, i) == decode_limb(ib, i) by {
        lemma_horner_prefix(ia, ib, 14 * i, 0);
    }
    lemma_identity_round_trip(key_a);
    lemma_identity_round_trip(key_b);
    assert(decode_identity_spec(ia) =~= decode_identity_spec(ib));
    assert(key_a == key_b);
}

} // verus!
