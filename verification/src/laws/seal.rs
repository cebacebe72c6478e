//! Laws of sealed roots.

use vstd::prelude::*;

verus! {

/// Two lists of words that differ at one place only never share a root.
pub proof fn law_one_changed_word_changes_the_root(
    seed: u64,
    words: Seq<u64>,
    changed: Seq<u64>,
    at: int,
)
    requires
        words.len() == changed.len(),
        0 <= at < words.len(),
        words[at] != changed[at],
        forall|i: int| 0 <= i < words.len() && i != at ==> (#[trigger] words[i]) == changed[i],
    ensures
        crate::seal::seal_of(seed, words) != crate::seal::seal_of(seed, changed),
{
    assert(words.update(at, changed[at]) =~= changed);
    crate::seal::law_root_binds_every_word(seed, words, at, changed[at]);
}

/// A root is built from the seed word by word: no words leave the seed, and one
/// more word mixes into the root of those before it.
pub proof fn law_roots_grow_word_by_word(seed: u64, words: Seq<u64>, word: u64)
    ensures
        crate::seal::seal_of(seed, Seq::empty()) == seed,
        crate::seal::seal_of(seed, words.push(word)) == crate::seal::mix_of(
            crate::seal::seal_of(seed, words),
            word,
        ),
        crate::seal::flag_word(true) == 1,
        crate::seal::flag_word(false) == 0,
{
    assert(words.push(word).drop_last() =~= words);
}

/// The avalanche folds its upper bits down three times, by 30, 27 and 31 bits,
/// with a multiplication modulo 2^64 between.
pub proof fn law_the_avalanche_folds_three_times(
    state: u64,
    fold: u64,
    first: u64,
    again: u64,
    second: u64,
    last: u64,
)
    requires
        fold == state / 0x4000_0000,
        first == ((state ^ fold) * 0xbf58_476d_1ce4_e5b9) % 0x1_0000_0000_0000_0000,
        again == first / 0x800_0000,
        second == ((first ^ again) * 0x94d0_49bb_1331_11eb) % 0x1_0000_0000_0000_0000,
        last == second / 0x8000_0000,
    ensures
        crate::seal::avalanche_of(state) == second ^ last,
{
    reveal(crate::seal::avalanche_of);
    crate::bits::lemma_word64(state);
    crate::bits::lemma_word64(first);
    crate::bits::lemma_word64(second);
}

/// A word is mixed in by an odd multiple of itself.
pub proof fn law_a_word_is_mixed_by_a_multiple(state: u64, word: u64, multiple: u64)
    requires
        multiple == (word * 0x9e37_79b9_7f4a_7c15) % 0x1_0000_0000_0000_0000,
    ensures
        crate::seal::mix_of(state, word) == crate::seal::avalanche_of(state ^ multiple),
{
    reveal(crate::seal::mix_of);
}

} // verus!
