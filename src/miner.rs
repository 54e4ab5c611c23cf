//! Circuit derivation and the NAND-circuit scoring kernel.

use vstd::prelude::*;
use crate::math::{keccak_stream, random_64};
use crate::types::{
    bytes_to_words, words_from_bytes, MINING_DATA_LENGTH, NEURON_MOD_BITS, NUMBER_OF_NEURONS,
    Nonce64, PublicKey64, Seed,
};

verus! {

/// Low packed link of a link word.
pub open spec fn link_lo(w: u64) -> int {
    (w & 0xFFFF_FFFF) as int
}

/// High packed link of a link word.
pub open spec fn link_hi(w: u64) -> int {
    (w >> 32) as int
}

/// Every packed link of every word is below `n`.
pub open spec fn links_in_range(links: Seq<u64>, n: int) -> bool {
    forall|i: int| 0 <= i < links.len() ==> link_lo(#[trigger] links[i]) < n && link_hi(links[i]) < n
}

/// Every word masked with `NEURON_MOD_BITS`.
pub open spec fn masked_links(links: Seq<u64>) -> Seq<u64> {
    Seq::new(links.len(), |i: int| links[i] & NEURON_MOD_BITS)
}

/// NAND of two neuron values, on all eight bits.
pub open spec fn nand(a: u8, b: u8) -> u8 {
    !(a & b)
}

/// Neuron values after the first `k` pairs of a round have been updated in
/// place; both inputs of a pair are read before either output is written.
pub open spec fn round_prefix(values: Seq<u8>, links: Seq<u64>, k: nat) -> Seq<u8>
    decreases k,
{
    if k == 0 {
        values
    } else {
        let v = round_prefix(values, links, (k - 1) as nat);
        let i = 2 * (k - 1);
        let lw = links[i];
        let rw = links[i + 1];
        let r0 = nand(v[link_lo(lw)], v[link_hi(lw)]);
        let r1 = nand(v[link_lo(rw)], v[link_hi(rw)]);
        v.update(i, r0).update(i + 1, r1)
    }
}

proof fn lemma_round_prefix_len(values: Seq<u8>, links: Seq<u64>, k: nat)
    requires
        2 * k <= values.len(),
    ensures
        round_prefix(values, links, k).len() == values.len(),
    decreases k,
{
    if k > 0 {
        lemma_round_prefix_len(values, links, (k - 1) as nat);
    }
}

/// Neuron values after one full round of the circuit.
pub open spec fn circuit_round(values: Seq<u8>, links: Seq<u64>) -> Seq<u8> {
    round_prefix(values, links, (values.len() / 2) as nat)
}

/// Bit `score` of the tape.
pub open spec fn tape_bit(tape: Seq<u64>, score: int) -> u64 {
    (tape[score / 64] >> ((score % 64) as u64)) & 1
}

/// Score and neuron values at the end of the scoring loop, started from
/// `score` with `remaining` quiet rounds left.
pub open spec fn score_from(
    values: Seq<u8>,
    links: Seq<u64>,
    tape: Seq<u64>,
    score: nat,
    remaining: nat,
) -> (nat, Seq<u8>)
    decreases remaining, tape.len() * 64 - score,
{
    if remaining == 0 || score >= tape.len() * 64 {
        (score, values)
    } else {
        let n = values.len() as int;
        let next = circuit_round(values, links);
        let changed0 = next[n - 1] != values[n - 1];
        let changed1 = next[n - 2] != values[n - 2];
        let bit = tape_bit(tape, score as int);
        if changed0 && !changed1 {
            if bit == 0 {
                (score, next)
            } else {
                score_from(next, links, tape, score + 1, remaining)
            }
        } else if changed1 && !changed0 {
            if bit == 1 {
                (score, next)
            } else {
                score_from(next, links, tape, score + 1, remaining)
            }
        } else {
            score_from(next, links, tape, score, (remaining - 1) as nat)
        }
    }
}

/// Score and final neuron values of a full run of the kernel.
pub open spec fn kernel_run(values: Seq<u8>, links: Seq<u64>, tape: Seq<u64>) -> (nat, Seq<u8>) {
    score_from(values, links, tape, 0, MINING_DATA_LENGTH as nat)
}

/// Neuron values at the start of an attempt.
pub open spec fn fresh_values(n: nat) -> Seq<u8> {
    Seq::new(n, |i: int| 0xFFu8)
}

/// Link table of an attempt: the stream of the public key and the nonce, masked.
pub open spec fn solution_links(public_key: Seq<u64>, nonce: Seq<u64>) -> Seq<u64> {
    masked_links(keccak_stream(public_key, nonce, NUMBER_OF_NEURONS as nat))
}

/// Score of a nonce for a public key against a tape.
pub open spec fn nonce_score(public_key: Seq<u64>, nonce: Seq<u64>, tape: Seq<u64>) -> nat {
    kernel_run(fresh_values(NUMBER_OF_NEURONS as nat), solution_links(public_key, nonce), tape).0
}

proof fn lemma_masked_word(w: u64)
    ensures
        link_lo(w & NEURON_MOD_BITS) < NUMBER_OF_NEURONS,
        link_hi(w & NEURON_MOD_BITS) < NUMBER_OF_NEURONS,
{
    assert((w & 0x003F_FFFF_003F_FFFF) & 0xFFFF_FFFF < 4194304u64) by (bit_vector);
    assert((w & 0x003F_FFFF_003F_FFFF) >> 32 < 4194304u64) by (bit_vector);
}

/// After masking, every packed link of every word is below `NUMBER_OF_NEURONS`.
pub proof fn lemma_masked_links_in_range(links: Seq<u64>)
    ensures
        links_in_range(masked_links(links), NUMBER_OF_NEURONS as int),
{
    assert forall|i: int| 0 <= i < links.len() implies link_lo(
        #[trigger] masked_links(links)[i],
    ) < NUMBER_OF_NEURONS && link_hi(masked_links(links)[i]) < NUMBER_OF_NEURONS by {
        lemma_masked_word(links[i]);
    }
}

/// Masks every word of the link table with `NEURON_MOD_BITS`.
pub fn mask_links(links: &mut Vec<u64>)
    ensures
        final(links)@ == masked_links(old(links)@),
{
    let len = links.len();
    let mut i: usize = 0;
    while i < len
        invariant
            links@.len() == len,
            len == old(links)@.len(),
            i <= len,
            forall|k: int| 0 <= k < i ==> links@[k] == old(links)@[k] & NEURON_MOD_BITS,
            forall|k: int| i <= k < len ==> links@[k] == old(links)@[k],
        decreases len - i,
    {
        let w = links[i];
        links.set(i, w & NEURON_MOD_BITS);
        i = i + 1;
    }
    assert(links@ =~= masked_links(old(links)@));
}

/// Sets every neuron value to `0xFF`.
pub fn reset_values(values: &mut Vec<u8>)
    ensures
        final(values)@ == fresh_values(old(values)@.len()),
{
    let len = values.len();
    let mut i: usize = 0;
    while i < len
        invariant
            values@.len() == len,
            len == old(values)@.len(),
            i <= len,
            forall|k: int| 0 <= k < i ==> values@[k] == 0xFFu8,
        decreases len - i,
    {
        values.set(i, 0xFF);
        i = i + 1;
    }
    assert(values@ =~= fresh_values(len as nat));
}

/// Runs one round of the circuit in place.
fn run_round(links: &Vec<u64>, values: &mut Vec<u8>)
    requires
        old(values)@.len() % 2 == 0,
        links@.len() == old(values)@.len(),
        links_in_range(links@, old(values)@.len() as int),
    ensures
        final(values)@ == circuit_round(old(values)@, links@),
        final(values)@.len() == old(values)@.len(),
{
    let n = values.len();
    let half = n / 2;
    let mut idx: usize = 0;
    while idx < half
        invariant
            values@.len() == n,
            old(values)@.len() == n,
            links@.len() == n,
            n % 2 == 0,
            half == n / 2,
            links_in_range(links@, n as int),
            idx <= half,
            values@ == round_prefix(old(values)@, links@, idx as nat),
        decreases half - idx,
    {
        proof {
            lemma_round_prefix_len(old(values)@, links@, idx as nat);
        }
        let left_idx = 2 * idx;
        let right_idx = 2 * idx + 1;
        let lw = links[left_idx];
        let rw = links[right_idx];
        assert(link_lo(links@[left_idx as int]) < n && link_hi(links@[right_idx as int]) < n);
        let left_neuron0 = (lw & 0xFFFF_FFFF) as usize;
        let right_neuron0 = (lw >> 32) as usize;
        let left_neuron1 = (rw & 0xFFFF_FFFF) as usize;
        let right_neuron1 = (rw >> 32) as usize;
        let and_result0 = values[left_neuron0] & values[right_neuron0];
        let and_result1 = values[left_neuron1] & values[right_neuron1];
        values.set(left_idx, !and_result0);
        values.set(right_idx, !and_result1);
        idx = idx + 1;
    }
}

/// Runs the scoring loop from the given neuron values and returns the score.
///
/// Each round updates the circuit; a round in which only the last neuron
/// changes (an A-event) advances the score if the current tape bit is set,
/// one in which only the second-to-last changes (a B-event) if it is clear;
/// any other round uses up one of `MINING_DATA_LENGTH` quiet rounds. The loop
/// also ends once every bit of the tape has been matched.
pub fn compute_score(links: &Vec<u64>, values: &mut Vec<u8>, tape: &Vec<u64>) -> (score: usize)
    requires
        2 <= old(values)@.len(),
        old(values)@.len() % 2 == 0,
        links@.len() == old(values)@.len(),
        links_in_range(links@, old(values)@.len() as int),
        tape@.len() * 64 <= usize::MAX,
    ensures
        (score as nat, final(values)@) == kernel_run(old(values)@, links@, tape@),
        final(values)@.len() == old(values)@.len(),
{
    let ghost target = kernel_run(values@, links@, tape@);
    let n = values.len();
    let tape_bits = tape.len() * 64;
    let mut remaining: usize = MINING_DATA_LENGTH;
    let mut score: usize = 0;
    loop
        invariant_except_break
            1 <= remaining <= MINING_DATA_LENGTH,
            score <= tape_bits,
            score_from(values@, links@, tape@, score as nat, remaining as nat) == target,
        invariant
            values@.len() == n,
            old(values)@.len() == n,
            2 <= n,
            n % 2 == 0,
            links@.len() == n,
            links_in_range(links@, n as int),
            tape_bits == tape@.len() * 64,
        ensures
            (score as nat, values@) == target,
        decreases remaining, tape_bits - score,
    {
        if score >= tape_bits {
            break;
        }
        let ghost before = values@;
        let prev_value0 = values[n - 1];
        let prev_value1 = values[n - 2];
        run_round(links, values);
        let current_value0 = values[n - 1];
        let current_value1 = values[n - 2];
        let bit_is_set = (tape[score / 64] >> ((score % 64) as u64)) & 1;
        assert(bit_is_set == tape_bit(tape@, score as int));
        if current_value0 != prev_value0 && current_value1 == prev_value1 {
            if bit_is_set == 0 {
                break;
            }
            score = score + 1;
        } else if current_value1 != prev_value1 && current_value0 == prev_value0 {
            if bit_is_set == 1 {
                break;
            }
            score = score + 1;
        } else {
            remaining = remaining - 1;
            if remaining == 0 {
                assert(score_from(values@, links@, tape@, score as nat, 0) == (score as nat, values@));
                break;
            }
        }
    }
    score
}

proof fn lemma_score_from_bounded(
    values: Seq<u8>,
    links: Seq<u64>,
    tape: Seq<u64>,
    score: nat,
    remaining: nat,
)
    requires
        score <= tape.len() * 64,
    ensures
        score_from(values, links, tape, score, remaining).0 <= tape.len() * 64,
    decreases remaining, tape.len() * 64 - score,
{
    if remaining == 0 || score >= tape.len() * 64 {
    } else {
        let next = circuit_round(values, links);
        lemma_score_from_bounded(next, links, tape, score + 1, remaining);
        lemma_score_from_bounded(next, links, tape, score, (remaining - 1) as nat);
    }
}

/// The score of a nonce never exceeds the number of bits of the tape.
pub proof fn lemma_nonce_score_bounded(public_key: Seq<u64>, nonce: Seq<u64>, tape: Seq<u64>)
    ensures
        nonce_score(public_key, nonce, tape) <= tape.len() * 64,
{
    lemma_score_from_bounded(
        fresh_values(NUMBER_OF_NEURONS as nat),
        solution_links(public_key, nonce),
        tape,
        0,
        MINING_DATA_LENGTH as nat,
    );
}

/// Mining tape of an epoch seed: the stream of the seed keyed by itself.
pub open spec fn mining_tape(seed: Seq<u8>) -> Seq<u64> {
    keccak_stream(bytes_to_words(seed), bytes_to_words(seed), MINING_DATA_LENGTH as nat)
}

/// Per-worker buffers: the link table and the neuron values.
pub struct NeuronData {
    neuron_links: Vec<u64>,
    neuron_values: Vec<u8>,
}

impl NeuronData {
    /// Both buffers have one entry per neuron.
    pub closed spec fn wf(&self) -> bool {
        self.neuron_links@.len() == NUMBER_OF_NEURONS && self.neuron_values@.len()
            == NUMBER_OF_NEURONS
    }

    /// The link table.
    pub closed spec fn links(&self) -> Seq<u64> {
        self.neuron_links@
    }

    /// The neuron values.
    pub closed spec fn values(&self) -> Seq<u8> {
        self.neuron_values@
    }

    /// Allocates zeroed links and neuron values set to `0xFF`.
    pub fn new() -> (r: Self)
        ensures
            r.wf(),
            r.links() == Seq::new(NUMBER_OF_NEURONS as nat, |i: int| 0u64),
            r.values() == fresh_values(NUMBER_OF_NEURONS as nat),
    {
        let r = NeuronData {
            neuron_links: vec![0u64; NUMBER_OF_NEURONS],
            neuron_values: vec![0xFFu8; NUMBER_OF_NEURONS],
        };
        assert(r.neuron_links@ =~= Seq::new(NUMBER_OF_NEURONS as nat, |i: int| 0u64));
        assert(r.neuron_values@ =~= fresh_values(NUMBER_OF_NEURONS as nat));
        r
    }
}

/// The mining handle: the public key, the mining tape and the solution threshold.
pub struct Miner {
    solution_threshold: usize,
    num_threads: usize,
    mining_data: Vec<u64>,
    public_key: PublicKey64,
}

impl Miner {
    /// The tape has `MINING_DATA_LENGTH` words.
    pub closed spec fn wf(&self) -> bool {
        self.mining_data@.len() == MINING_DATA_LENGTH
    }

    /// The public key mined for.
    pub closed spec fn public_key_view(&self) -> Seq<u64> {
        self.public_key@
    }

    /// The mining tape.
    pub closed spec fn tape(&self) -> Seq<u64> {
        self.mining_data@
    }

    /// The least score that counts as a solution.
    pub closed spec fn threshold(&self) -> nat {
        self.solution_threshold as nat
    }

    /// The number of workers to run.
    pub closed spec fn thread_count(&self) -> nat {
        self.num_threads as nat
    }

    /// Whether a nonce is a solution.
    pub open spec fn accepts(&self, nonce: Seq<u64>) -> bool {
        nonce_score(self.public_key_view(), nonce, self.tape()) >= self.threshold()
    }

    /// Builds the miner of a public key; the tape is expanded from the epoch seed.
    pub fn new(public_key: PublicKey64, num_threads: usize, seed: &Seed, solution_threshold: usize) -> (r: Self)
        ensures
            r.wf(),
            r.public_key_view() == public_key@,
            r.tape() == mining_tape(seed@),
            r.threshold() == solution_threshold,
            r.thread_count() == num_threads,
    {
        let random_seed = words_from_bytes(seed);
        let mut mining_data: Vec<u64> = vec![0u64; MINING_DATA_LENGTH];
        random_64(&random_seed, &random_seed, &mut mining_data);
        Miner { solution_threshold, num_threads, mining_data, public_key }
    }

    /// The number of workers to run.
    pub fn get_num_threads(&self) -> (r: usize)
        ensures
            r == self.thread_count(),
    {
        self.num_threads
    }

    /// The least score that counts as a solution.
    pub fn get_solution_threshold(&self) -> (r: usize)
        ensures
            r == self.threshold(),
    {
        self.solution_threshold
    }

    /// Derives the circuit of `nonce` into `neuron_data`, runs the kernel from
    /// fresh neuron values and returns the score. The result and the buffers
    /// left behind depend on the public key, the nonce and the tape alone.
    pub fn score(&self, nonce: &Nonce64, neuron_data: &mut NeuronData) -> (r: usize)
        requires
            self.wf(),
            old(neuron_data).wf(),
        ensures
            r == nonce_score(self.public_key_view(), nonce@, self.tape()),
            final(neuron_data).wf(),
            final(neuron_data).links() == solution_links(self.public_key_view(), nonce@),
            final(neuron_data).values() == kernel_run(
                fresh_values(NUMBER_OF_NEURONS as nat),
                solution_links(self.public_key_view(), nonce@),
                self.tape(),
            ).1,
    {
        random_64(&self.public_key, nonce, &mut neuron_data.neuron_links);
        mask_links(&mut neuron_data.neuron_links);
        proof {
            lemma_masked_links_in_range(
                keccak_stream(self.public_key@, nonce@, NUMBER_OF_NEURONS as nat),
            );
        }
        reset_values(&mut neuron_data.neuron_values);
        compute_score(&neuron_data.neuron_links, &mut neuron_data.neuron_values, &self.mining_data)
    }

    /// Scores `nonce` and tells whether the score reaches the solution threshold.
    pub fn find_solution(&self, nonce: &Nonce64, neuron_data: &mut NeuronData) -> (r: bool)
        requires
            self.wf(),
            old(neuron_data).wf(),
        ensures
            r == self.accepts(nonce@),
            final(neuron_data).wf(),
            final(neuron_data).links() == solution_links(self.public_key_view(), nonce@),
            final(neuron_data).values() == kernel_run(
                fresh_values(NUMBER_OF_NEURONS as nat),
                solution_links(self.public_key_view(), nonce@),
                self.tape(),
            ).1,
    {
        let score = self.score(nonce, neuron_data);
        score >= self.solution_threshold
    }
}

/// Scoring is deterministic: two miners with the same public key, tape and
/// threshold give every nonce the same score and the same verdict, whatever
/// their worker buffers held before.
pub proof fn lemma_scoring_deterministic(first: Miner, second: Miner, nonce: Seq<u64>)
    requires
        first.public_key_view() == second.public_key_view(),
        first.tape() == second.tape(),
        first.threshold() == second.threshold(),
    ensures
        nonce_score(first.public_key_view(), nonce, first.tape()) == nonce_score(
            second.public_key_view(),
            nonce,
            second.tape(),
        ),
        first.accepts(nonce) == second.accepts(nonce),
{
}

/// With a solution threshold of zero every nonce is a solution.
pub proof fn lemma_zero_threshold_accepts(miner: Miner, nonce: Seq<u64>)
    requires
        miner.threshold() == 0,
    ensures
        miner.accepts(nonce),
{
}

/// With a solution threshold above the number of tape bits no nonce is a solution.
pub proof fn lemma_threshold_above_tape_rejects(miner: Miner, nonce: Seq<u64>)
    requires
        miner.wf(),
        miner.threshold() > MINING_DATA_LENGTH * 64,
    ensures
        !miner.accepts(nonce),
{
    lemma_nonce_score_bounded(miner.public_key_view(), nonce, miner.tape());
}

} // verus!
