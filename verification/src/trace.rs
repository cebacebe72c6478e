//! Transcripts of what the outside was asked and answered.

use vstd::prelude::*;

verus! {

/// Whether a transcript continues an earlier one.
pub open spec fn continues<T>(log: Seq<T>, earlier: Seq<T>) -> bool {
    &&& earlier.len() <= log.len()
    &&& forall|i: int| 0 <= i < earlier.len() ==> #[trigger] log[i] == earlier[i]
}

/// What continues a transcript continues all that it continues.
pub broadcast proof fn lemma_continues_through<T>(log: Seq<T>, middle: Seq<T>, earlier: Seq<T>)
    requires
        #[trigger] continues(log, middle),
        #[trigger] continues(middle, earlier),
    ensures
        continues(log, earlier),
{
    assert forall|i: int| 0 <= i < earlier.len() implies #[trigger] log[i] == earlier[i] by {
        assert(middle[i] == earlier[i]);
    }
}

/// What a reply was refused for, if it was.
pub open spec fn refusal<T, E>(reply: Result<T, E>) -> Option<E> {
    match reply {
        Ok(_) => None,
        Err(error) => Some(error),
    }
}

/// What a transcript holds of one of its parties.
pub open spec fn part<T>(log: Seq<T>, of: spec_fn(T) -> bool) -> Seq<T>
    decreases log.len(),
{
    if log.len() == 0 {
        Seq::empty()
    } else if of(log.last()) {
        part(log.drop_last(), of).push(log.last())
    } else {
        part(log.drop_last(), of)
    }
}

proof fn lemma_part_of_both<T>(first: Seq<T>, second: Seq<T>, of: spec_fn(T) -> bool)
    ensures
        part(first + second, of) == part(first, of) + part(second, of),
    decreases second.len(),
{
    if second.len() == 0 {
        assert(first + second =~= first);
    } else {
        assert((first + second).drop_last() =~= first + second.drop_last());
        lemma_part_of_both(first, second.drop_last(), of);
    }
}

/// Whether a transcript of several parties grew as the history of one of them did: by
/// what this party was asked, in the same order, and by nothing else of it.
pub open spec fn told<T>(
    log: Seq<T>,
    earlier: Seq<T>,
    history: Seq<T>,
    before: Seq<T>,
    of: spec_fn(T) -> bool,
) -> bool {
    &&& continues(log, earlier)
    &&& history == before + part(log.skip(earlier.len() as int), of)
}

pub proof fn lemma_told_nothing<T>(log: Seq<T>, history: Seq<T>, of: spec_fn(T) -> bool)
    ensures
        told(log, log, history, history, of),
{
    assert(log.skip(log.len() as int) =~= Seq::<T>::empty());
    assert(history + Seq::<T>::empty() =~= history);
}

pub proof fn lemma_told_one<T>(log: Seq<T>, entry: T, history: Seq<T>, of: spec_fn(T) -> bool)
    ensures
        told(
            log.push(entry),
            log,
            if of(entry) {
                history.push(entry)
            } else {
                history
            },
            history,
            of,
        ),
{
    let new = log.push(entry).skip(log.len() as int);
    assert(new =~= seq![entry]);
    assert(new.drop_last() =~= Seq::<T>::empty());
    assert(part(new.drop_last(), of) =~= Seq::<T>::empty());
    if of(entry) {
        assert(history.push(entry) =~= history + part(new, of));
    } else {
        assert(history =~= history + part(new, of));
    }
}

pub proof fn lemma_told_through<T>(
    log: Seq<T>,
    middle: Seq<T>,
    earlier: Seq<T>,
    history: Seq<T>,
    between: Seq<T>,
    before: Seq<T>,
    of: spec_fn(T) -> bool,
)
    requires
        told(log, middle, history, between, of),
        told(middle, earlier, between, before, of),
    ensures
        told(log, earlier, history, before, of),
{
    lemma_continues_through(log, middle, earlier);
    let first = middle.skip(earlier.len() as int);
    let second = log.skip(middle.len() as int);
    assert(log.skip(earlier.len() as int) =~= first + second);
    lemma_part_of_both(first, second, of);
    assert(history =~= before + (part(first, of) + part(second, of)));
}

} // verus!
