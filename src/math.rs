//! Hash primitives: deterministic pseudo-random expansion of a (key, nonce)
//! pair with a reduced-round Keccak-p[1600] permutation, and KangarooTwelve.

use vstd::prelude::*;
use crate::types::{KECCAK_ROUND, STATE_SIZE_64};

verus! {

/// The Keccak-p[1600] permutation with `rounds` rounds applied to a 25-lane state.
pub uninterp spec fn keccak_permuted(state: Seq<u64>, rounds: nat) -> Seq<u64>;

/// Relies on keccak::p1600: permutes the 25 lanes in place with the last
/// `rounds` rounds of Keccak-f[1600]; it panics for more than 24 rounds.
#[verifier::external_body]
fn permute(state: &mut [u64; 25], rounds: usize)
    requires
        rounds <= 24,
    ensures
        final(state)@ == keccak_permuted(old(state)@, rounds as nat),
{
    keccak::p1600(state, rounds)
}

/// The first `out_len` bytes of the KangarooTwelve extendable output of `msg`,
/// with an empty customization string.
pub uninterp spec fn kangaroo_twelve(msg: Seq<u8>, out_len: nat) -> Seq<u8>;

/// Relies on k12::KangarooTwelve (default, no customization string): absorbs
/// `data` and reads `out_len` bytes of extendable output, which fill the buffer.
#[verifier::external_body]
pub(crate) fn k12_hash(data: &[u8], out_len: usize) -> (r: Vec<u8>)
    ensures
        r@ == kangaroo_twelve(data@, out_len as nat),
        r@.len() == out_len,
{
    let mut hasher = k12::KangarooTwelve::default();
    k12::digest::Update::update(&mut hasher, data);
    let mut out = vec![0u8; out_len];
    k12::digest::ExtendableOutput::finalize_xof_into(hasher, &mut out);
    out
}

/// State before the first permutation: the key in lanes 0..4, the nonce in
/// lanes 4..8, zero elsewhere.
pub open spec fn initial_state(key: Seq<u64>, nonce: Seq<u64>) -> Seq<u64> {
    Seq::new(
        25,
        |i: int|
            if i < 4 {
                key[i]
            } else if i < 8 {
                nonce[i - 4]
            } else {
                0u64
            },
    )
}

/// State after `k` successive permutations of the initial state.
pub open spec fn squeezed_state(key: Seq<u64>, nonce: Seq<u64>, k: nat) -> Seq<u64>
    decreases k,
{
    if k == 0 {
        initial_state(key, nonce)
    } else {
        keccak_permuted(squeezed_state(key, nonce, (k - 1) as nat), KECCAK_ROUND as nat)
    }
}

/// The first `len` words of the stream: word `i` is lane `i % 25` of the state
/// after `i / 25 + 1` permutations.
pub open spec fn keccak_stream(key: Seq<u64>, nonce: Seq<u64>, len: nat) -> Seq<u64> {
    Seq::new(len, |i: int| squeezed_state(key, nonce, (i / 25 + 1) as nat)[i % 25])
}

proof fn lemma_chunk_index(c: int, j: int)
    requires
        0 <= c,
        0 <= j < 25,
    ensures
        (25 * c + j) / 25 == c,
        (25 * c + j) % 25 == j,
{
    assert((25 * c + j) / 25 == c && (25 * c + j) % 25 == j) by (nonlinear_arith)
        requires
            0 <= c,
            0 <= j < 25,
    ;
}

/// Fills `output` with the stream of `key` and `nonce`, chunk by chunk of 25
/// words, permuting the state once before each chunk.
pub fn random_64(key: &[u64; 4], nonce: &[u64; 4], output: &mut Vec<u64>)
    ensures
        final(output)@ == keccak_stream(key@, nonce@, old(output)@.len()),
{
    let mut state: [u64; 25] = [0u64; 25];
    let mut i: usize = 0;
    while i < 4
        invariant
            0 <= i <= 4,
            forall|k: int| 0 <= k < i ==> state@[k] == key@[k],
            forall|k: int| 4 <= k < 4 + i ==> state@[k] == nonce@[k - 4],
            forall|k: int| 8 <= k < 25 ==> state@[k] == 0,
        decreases 4 - i,
    {
        state[i] = key[i];
        state[4 + i] = nonce[i];
        i = i + 1;
    }
    assert(state@ =~= initial_state(key@, nonce@));
    let len = output.len();
    let mut pos: usize = 0;
    let ghost mut chunks: nat = 0;
    while pos < len
        invariant
            output@.len() == len,
            pos == len || pos == 25 * chunks,
            pos <= len,
            state@ == squeezed_state(key@, nonce@, chunks),
            forall|k: int| 0 <= k < pos ==> output@[k] == keccak_stream(key@, nonce@, len as nat)[k],
        decreases len - pos,
    {
        permute(&mut state, KECCAK_ROUND);
        proof {
            chunks = chunks + 1;
        }
        let take: usize = if len - pos < STATE_SIZE_64 { len - pos } else { STATE_SIZE_64 };
        let mut j: usize = 0;
        while j < take
            invariant
                output@.len() == len,
                pos == 25 * (chunks - 1),
                take <= 25,
                pos + take <= len,
                j <= take,
                state@ == squeezed_state(key@, nonce@, chunks),
                forall|k: int| 0 <= k < pos + j ==> output@[k] == keccak_stream(key@, nonce@, len as nat)[k],
            decreases take - j,
        {
            proof {
                lemma_chunk_index(chunks - 1, j as int);
            }
            output.set(pos + j, state[j]);
            j = j + 1;
        }
        pos = pos + take;
    }
    assert(output@ =~= keccak_stream(key@, nonce@, len as nat));
}

} // verus!
