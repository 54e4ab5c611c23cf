//! Fixed-width types and constants shared by the mining core.

use vstd::prelude::*;

verus! {

/// Number of 64-bit lanes of the Keccak-p[1600] state.
pub const STATE_SIZE_64: usize = 25;

/// Total number of neurons of the circuit.
pub const NUMBER_OF_NEURONS: usize = 4_194_304;

/// Number of 64-bit link words per half of the link table: two links per word.
pub const NUMBER_OF_NEURONS_64: usize = NUMBER_OF_NEURONS / 2;

/// Mask that keeps both packed 32-bit links of a word below `NUMBER_OF_NEURONS`.
pub const NEURON_MOD_BITS: u64 = 0x003F_FFFF_003F_FFFF;

/// Number of 64-bit words of the mining tape.
pub const MINING_DATA_LENGTH: usize = 1024;

/// Rounds of the Keccak-p[1600] permutation used by the expander.
pub const KECCAK_ROUND: usize = 12;

/// Stack size of a mining worker.
pub const STACK_SIZE: usize = 40 * 1024 * 1024;

/// Message type of a broadcast message.
pub const BROADCAST_MESSAGE: u8 = 1;

/// Public key as four little-endian limbs.
pub type PublicKey64 = [u64; 4];

/// Nonce as four 64-bit words.
pub type Nonce64 = [u64; 4];

/// Nonce as bytes.
pub type Nonce = [u8; 32];

/// Epoch seed as bytes.
pub type Seed = [u8; 32];

/// Identity string as ASCII bytes.
pub type Id = [u8; 60];

/// Signature slot of a packet.
pub type Signature = [u64; 8];

/// Version as major, minor and patch components.
pub type Version = [u8; 3];

/// Little-endian bytes of a sequence of 64-bit words.
pub open spec fn words_to_bytes(w: Seq<u64>) -> Seq<u8> {
    Seq::new(8 * w.len(), |i: int| byte_of(w[i / 8], (i % 8) as u64))
}

/// Byte `k` (counted from the least significant) of a word.
pub open spec fn byte_of(w: u64, k: u64) -> u8 {
    ((w >> (8 * k)) & 0xff) as u8
}

/// Word assembled from eight little-endian bytes.
pub open spec fn word_of(b: Seq<u8>, base: int) -> u64 {
    (b[base] as u64) | ((b[base + 1] as u64) << 8) | ((b[base + 2] as u64) << 16) | ((
    b[base + 3] as u64) << 24) | ((b[base + 4] as u64) << 32) | ((b[base + 5] as u64) << 40)
        | ((b[base + 6] as u64) << 48) | ((b[base + 7] as u64) << 56)
}

/// 64-bit words read little-endian from a byte sequence whose length is a multiple of 8.
pub open spec fn bytes_to_words(b: Seq<u8>) -> Seq<u64> {
    Seq::new(b.len() / 8, |i: int| word_of(b, 8 * i))
}

/// Reads four little-endian 64-bit words from 32 bytes.
pub fn words_from_bytes(b: &[u8; 32]) -> (r: [u64; 4])
    ensures
        r@ == bytes_to_words(b@),
{
    let mut r: [u64; 4] = [0u64; 4];
    let mut i: usize = 0;
    while i < 4
        invariant
            i <= 4,
            forall|k: int| 0 <= k < i ==> r@[k] == word_of(b@, 8 * k),
        decreases 4 - i,
    {
        let base = 8 * i;
        r[i] = (b[base] as u64) | ((b[base + 1] as u64) << 8) | ((b[base + 2] as u64) << 16) | ((
        b[base + 3] as u64) << 24) | ((b[base + 4] as u64) << 32) | ((b[base + 5] as u64) << 40)
            | ((b[base + 6] as u64) << 48) | ((b[base + 7] as u64) << 56);
        i = i + 1;
    }
    assert(r@ =~= bytes_to_words(b@));
    r
}

/// Writes four 64-bit words as 32 little-endian bytes.
pub fn bytes_from_words(w: &[u64; 4]) -> (r: [u8; 32])
    ensures
        r@ == words_to_bytes(w@),
{
    let mut r: [u8; 32] = [0u8; 32];
    let mut i: usize = 0;
    while i < 32
        invariant
            i <= 32,
            forall|k: int| 0 <= k < i ==> r@[k] == byte_of(w@[k / 8], (k % 8) as u64),
        decreases 32 - i,
    {
        let k = (i % 8) as u64;
        r[i] = ((w[i / 8] >> (8 * k)) & 0xff) as u8;
        i = i + 1;
    }
    assert(r@ =~= words_to_bytes(w@));
    r
}

proof fn lemma_byte_of_assembled_word(
    b0: u8,
    b1: u8,
    b2: u8,
    b3: u8,
    b4: u8,
    b5: u8,
    b6: u8,
    b7: u8,
    k: u64,
)
    by (bit_vector)
    requires
        k < 8,
    ensures
        ((((b0 as u64) | ((b1 as u64) << 8) | ((b2 as u64) << 16) | ((b3 as u64) << 24) | ((
        b4 as u64) << 32) | ((b5 as u64) << 40) | ((b6 as u64) << 48) | ((b7 as u64) << 56)) >> (8
            * k)) & 0xff) as u8 == if k == 0 {
            b0
        } else if k == 1 {
            b1
        } else if k == 2 {
            b2
        } else if k == 3 {
            b3
        } else if k == 4 {
            b4
        } else if k == 5 {
            b5
        } else if k == 6 {
            b6
        } else {
            b7
        },
{
}

proof fn lemma_word_of_bytes(w: u64)
    by (bit_vector)
    ensures
        w == (byte_of(w, 0) as u64) | ((byte_of(w, 1) as u64) << 8) | ((byte_of(w, 2) as u64) << 16)
            | ((byte_of(w, 3) as u64) << 24) | ((byte_of(w, 4) as u64) << 32) | ((byte_of(w, 5)
            as u64) << 40) | ((byte_of(w, 6) as u64) << 48) | ((byte_of(w, 7) as u64) << 56),
{
}

/// Reading bytes as little-endian words and writing them back gives the bytes.
pub proof fn lemma_bytes_words_round_trip(b: Seq<u8>)
    requires
        b.len() % 8 == 0,
    ensures
        words_to_bytes(bytes_to_words(b)) == b,
{
    let r = words_to_bytes(bytes_to_words(b));
    assert forall|i: int| 0 <= i < b.len() implies #[trigger] r[i] == b[i] by {
        let q = i / 8;
        let k = i % 8;
        lemma_byte_of_assembled_word(
            b[8 * q],
            b[8 * q + 1],
            b[8 * q + 2],
            b[8 * q + 3],
            b[8 * q + 4],
            b[8 * q + 5],
            b[8 * q + 6],
            b[8 * q + 7],
            k as u64,
        );
        assert(8 * k == (8 * k) as u64);
    }
    assert(r =~= b);
}

/// Writing words as little-endian bytes and reading them back gives the words.
pub proof fn lemma_words_bytes_round_trip(w: Seq<u64>)
    ensures
        bytes_to_words(words_to_bytes(w)) == w,
{
    let r = bytes_to_words(words_to_bytes(w));
    assert forall|i: int| 0 <= i < w.len() implies #[trigger] r[i] == w[i] by {
        lemma_word_of_bytes(w[i]);
        let b = words_to_bytes(w);
        assert forall|k: int| 0 <= k < 8 implies #[trigger] b[8 * i + k] == byte_of(w[i], k as u64) by {
            assert((8 * i + k) / 8 == i && (8 * i + k) % 8 == k) by (nonlinear_arith)
                requires
                    0 <= k < 8,
            ;
        }
        assert(b[8 * i] == byte_of(w[i], 0));
        assert(b[8 * i + 1] == byte_of(w[i], 1));
        assert(b[8 * i + 2] == byte_of(w[i], 2));
        assert(b[8 * i + 3] == byte_of(w[i], 3));
        assert(b[8 * i + 4] == byte_of(w[i], 4));
        assert(b[8 * i + 5] == byte_of(w[i], 5));
        assert(b[8 * i + 6] == byte_of(w[i], 6));
        assert(b[8 * i + 7] == byte_of(w[i], 7));
    }
    assert(r =~= w);
}

} // verus!
