//! Keyed word sealing shared by every evidence root.

use vstd::arithmetic::div_mod::lemma_mul_mod_noop_left;
use vstd::prelude::*;

verus! {

pub const WORD_MULTIPLIER: u64 = 0x9e37_79b9_7f4a_7c15;

pub const FIRST_MULTIPLIER: u64 = 0xbf58_476d_1ce4_e5b9;

pub const SECOND_MULTIPLIER: u64 = 0x94d0_49bb_1331_11eb;

/// The finaliser: three xor-shifts with two odd multiplications between them.
#[verifier::opaque]
pub open spec fn avalanche_of(state: u64) -> u64 {
    let a = (state ^ (state >> 30)).wrapping_mul(FIRST_MULTIPLIER);
    let b = (a ^ (a >> 27)).wrapping_mul(SECOND_MULTIPLIER);
    b ^ (b >> 31)
}

/// The state after one word has been absorbed.
#[verifier::opaque]
pub open spec fn mix_of(state: u64, word: u64) -> u64 {
    avalanche_of(state ^ word.wrapping_mul(WORD_MULTIPLIER))
}

/// The state after a list of words has been absorbed, first word first.
pub open spec fn seal_of(seed: u64, words: Seq<u64>) -> u64
    decreases words.len(),
{
    if words.len() == 0 {
        seed
    } else {
        mix_of(seal_of(seed, words.drop_last()), words.last())
    }
}

/// The word that stands for a flag.
pub open spec fn flag_word(flag: bool) -> u64 {
    if flag {
        1
    } else {
        0
    }
}

pub fn avalanche(state: u64) -> (sealed: u64)
    ensures
        sealed == avalanche_of(state),
{
    proof {
        reveal(avalanche_of);
    }
    let first: u64 = (state ^ (state >> 30)).wrapping_mul(FIRST_MULTIPLIER);
    let second: u64 = (first ^ (first >> 27)).wrapping_mul(SECOND_MULTIPLIER);
    second ^ (second >> 31)
}

pub fn mix(state: u64, word: u64) -> (sealed: u64)
    ensures
        sealed == mix_of(state, word),
{
    proof {
        reveal(mix_of);
    }
    avalanche(state ^ word.wrapping_mul(WORD_MULTIPLIER))
}

pub fn flag(value: bool) -> (word: u64)
    ensures
        word == flag_word(value),
{
    if value {
        1
    } else {
        0
    }
}

/// An accumulator that absorbs words one at a time.
pub struct Sealer {
    state: u64,
    seed: Ghost<u64>,
    words: Ghost<Seq<u64>>,
}

impl Sealer {
    pub closed spec fn seed(self) -> u64 {
        self.seed@
    }

    pub closed spec fn words(self) -> Seq<u64> {
        self.words@
    }

    #[verifier::type_invariant]
    spec fn wf(self) -> bool {
        self.state == seal_of(self.seed@, self.words@)
    }

    pub fn new(seed: u64) -> (sealer: Self)
        ensures
            sealer.seed() == seed,
            sealer.words() == Seq::<u64>::empty(),
    {
        Sealer { state: seed, seed: Ghost(seed), words: Ghost(Seq::empty()) }
    }

    /// Absorbs one word.
    pub fn word(self, word: u64) -> (next: Self)
        ensures
            next.seed() == self.seed(),
            next.words() == self.words().push(word),
    {
        proof {
            use_type_invariant(&self);
            let grown = self.words@.push(word);
            assert(grown.drop_last() =~= self.words@);
            assert(grown.last() == word);
        }
        let state: u64 = mix(self.state, word);
        Sealer { state, seed: self.seed, words: Ghost(self.words@.push(word)) }
    }

    /// The root over the words absorbed so far.
    pub fn root(&self) -> (root: u64)
        ensures
            root == seal_of(self.seed(), self.words()),
            forall|words: Seq<u64>|
                words =~= self.words() ==> root == #[trigger] seal_of(self.seed(), words),
    {
        proof {
            use_type_invariant(self);
        }
        self.state
    }
}

proof fn lemma_odd_multiplication_is_injective(left: u64, right: u64, factor: u64, inverse: u64)
    requires
        (factor as int * inverse as int) % 0x1_0000_0000_0000_0000 == 1,
        left.wrapping_mul(factor) == right.wrapping_mul(factor),
    ensures
        left == right,
{
    let m = 0x1_0000_0000_0000_0000int;
    assert forall|x: u64|
        #![trigger x.wrapping_mul(factor)]
        (x.wrapping_mul(factor) as int * inverse as int) % m == x as int by {
        let product = x as int * factor as int;
        assert(x.wrapping_mul(factor) as int == product % m);
        lemma_mul_mod_noop_left(product, inverse as int, m);
        assert(product * inverse as int == x as int * (factor as int * inverse as int))
            by (nonlinear_arith)
            requires
                product == x as int * factor as int,
        ;
        vstd::arithmetic::div_mod::lemma_mul_mod_noop_right(
            x as int,
            factor as int * inverse as int,
            m,
        );
        assert((x as int * 1) % m == x as int);
    }
    assert((left.wrapping_mul(factor) as int * inverse as int) % m == left as int);
    assert((right.wrapping_mul(factor) as int * inverse as int) % m == right as int);
}

proof fn lemma_avalanche_is_injective(left: u64, right: u64)
    requires
        avalanche_of(left) == avalanche_of(right),
    ensures
        left == right,
{
    reveal(avalanche_of);
    let la = left ^ (left >> 30);
    let ra = right ^ (right >> 30);
    let lb = la.wrapping_mul(FIRST_MULTIPLIER);
    let rb = ra.wrapping_mul(FIRST_MULTIPLIER);
    let lc = lb ^ (lb >> 27);
    let rc = rb ^ (rb >> 27);
    let ld = lc.wrapping_mul(SECOND_MULTIPLIER);
    let rd = rc.wrapping_mul(SECOND_MULTIPLIER);
    assert(ld ^ (ld >> 31) == rd ^ (rd >> 31) ==> ld == rd) by (bit_vector);
    lemma_odd_multiplication_is_injective(lc, rc, SECOND_MULTIPLIER, 0x3196_42b2_d24d_8ec3);
    assert(lb ^ (lb >> 27) == rb ^ (rb >> 27) ==> lb == rb) by (bit_vector);
    lemma_odd_multiplication_is_injective(la, ra, FIRST_MULTIPLIER, 0x96de_1b17_3f11_9089);
    assert(left ^ (left >> 30) == right ^ (right >> 30) ==> left == right) by (bit_vector);
}

/// Absorbing one word loses nothing: different words leave different states,
/// and different states stay different.
pub proof fn law_mix_is_injective(state: u64, other_state: u64, word: u64, other_word: u64)
    ensures
        mix_of(state, word) == mix_of(state, other_word) ==> word == other_word,
        mix_of(state, word) == mix_of(other_state, word) ==> state == other_state,
{
    reveal(mix_of);
    let a = word.wrapping_mul(WORD_MULTIPLIER);
    let b = other_word.wrapping_mul(WORD_MULTIPLIER);
    if mix_of(state, word) == mix_of(state, other_word) {
        lemma_avalanche_is_injective(state ^ a, state ^ b);
        assert(state ^ a == state ^ b ==> a == b) by (bit_vector);
        lemma_odd_multiplication_is_injective(
            word,
            other_word,
            WORD_MULTIPLIER,
            0xf1de_83e1_9937_733d,
        );
    }
    if mix_of(state, word) == mix_of(other_state, word) {
        lemma_avalanche_is_injective(state ^ a, other_state ^ a);
        assert(state ^ a == other_state ^ a ==> state == other_state) by (bit_vector);
    }
}

/// A root binds each of its words: two lists that differ at one place only
/// never share a root under the same seed.
pub proof fn law_root_binds_every_word(seed: u64, words: Seq<u64>, at: int, other: u64)
    requires
        0 <= at < words.len(),
        words[at] != other,
    ensures
        seal_of(seed, words) != seal_of(seed, words.update(at, other)),
    decreases words.len(),
{
    let changed = words.update(at, other);
    let head = words.drop_last();
    if at == words.len() - 1 {
        assert(changed.drop_last() =~= head);
        law_mix_is_injective(seal_of(seed, head), 0, words.last(), other);
    } else {
        assert(changed.drop_last() =~= head.update(at, other));
        law_root_binds_every_word(seed, head, at, other);
        law_mix_is_injective(
            seal_of(seed, head),
            seal_of(seed, head.update(at, other)),
            words.last(),
            0,
        );
    }
}

/// A root binds its seed: the same words under two seeds never share a root.
pub proof fn law_root_binds_the_seed(seed: u64, other: u64, words: Seq<u64>)
    requires
        seed != other,
    ensures
        seal_of(seed, words) != seal_of(other, words),
    decreases words.len(),
{
    if words.len() > 0 {
        law_root_binds_the_seed(seed, other, words.drop_last());
        law_mix_is_injective(
            seal_of(seed, words.drop_last()),
            seal_of(other, words.drop_last()),
            words.last(),
            0,
        );
    }
}

} // verus!
