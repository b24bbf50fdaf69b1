//! Deciding whether a missing servo can be replaced: which servos did not answer the startup
//! census, and whether that singles one out.

use vstd::prelude::*;

verus! {

/// The IDs whose ping went unanswered, in order.
pub open spec fn unanswered(ids: Seq<u8>, answered: Seq<bool>) -> Seq<u8>
    decreases ids.len(),
{
    if ids.len() == 0 {
        Seq::empty()
    } else {
        let rest = unanswered(ids.drop_last(), answered.drop_last());
        if answered.last() { rest } else { rest.push(ids.last()) }
    }
}

/// The servos that did not answer, given whether each of `ids` answered its ping, in the
/// order of `ids`.
pub fn missing_from_census(ids: &[u8], answered: &[bool]) -> (missing: Vec<u8>)
    requires
        answered@.len() == ids@.len(),
    ensures
        missing@ == unanswered(ids@, answered@),
{
    let mut missing: Vec<u8> = Vec::new();
    let mut i: usize = 0;
    while i < ids.len()
        invariant
            i <= ids@.len(),
            answered@.len() == ids@.len(),
            missing@ == unanswered(ids@.subrange(0, i as int), answered@.subrange(0, i as int)),
        decreases ids@.len() - i,
    {
        assert(ids@.subrange(0, i + 1).drop_last() =~= ids@.subrange(0, i as int));
        assert(answered@.subrange(0, i + 1).drop_last() =~= answered@.subrange(0, i as int));
        if !answered[i] {
            missing.push(ids[i]);
        }
        i = i + 1;
    }
    assert(ids@.subrange(0, ids@.len() as int) =~= ids@);
    assert(answered@.subrange(0, ids@.len() as int) =~= answered@);
    missing
}

/// An ID is among the missing exactly when it is one of `ids` whose ping went unanswered.
pub proof fn missing_means_silent(ids: Seq<u8>, answered: Seq<bool>, id: u8)
    requires
        answered.len() == ids.len(),
    ensures
        unanswered(ids, answered).contains(id) <==> exists|k: int| 0 <= k < ids.len() && ids[k] == id && !answered[k],
    decreases ids.len(),
{
    if ids.len() > 0 {
        let (i2, a2) = (ids.drop_last(), answered.drop_last());
        missing_means_silent(i2, a2, id);
        let rest = unanswered(i2, a2);
        let n = ids.len() - 1;
        if unanswered(ids, answered).contains(id) {
            if rest.contains(id) {
                let k = choose|k: int| 0 <= k < i2.len() && i2[k] == id && !a2[k];
                assert(ids[k] == id && !answered[k]);
            } else {
                assert(!answered[n] && ids[n] == id) by {
                    if answered.last() {
                        assert(unanswered(ids, answered) == rest);
                    } else {
                        let j = choose|j: int| 0 <= j < rest.push(ids.last()).len() && rest.push(ids.last())[j] == id;
                        if j < rest.len() {
                            assert(rest[j] == id);
                        }
                    }
                }
            }
        }
        if exists|k: int| 0 <= k < ids.len() && ids[k] == id && !answered[k] {
            let k = choose|k: int| 0 <= k < ids.len() && ids[k] == id && !answered[k];
            if k < n {
                assert(i2[k] == id && !a2[k]);
                assert(rest.contains(id));
                if !answered.last() {
                    assert(rest.push(ids.last())[rest.index_of(id)] == id);
                }
            } else {
                assert(rest.push(ids.last())[rest.len() as int] == id);
            }
        }
    }
}

/// Which servo a factory-fresh one should become, given the IDs that did not answer a ping.
///
/// Only an unambiguous answer is one: with two servos silent there is no telling which of them
/// the new one replaces, and guessing would flash a leg joint as a neck joint. With none silent
/// there is nothing to adopt.
pub fn replacement_target(missing: &[u8]) -> (target: Option<u8>)
    ensures
        target == (if missing@.len() == 1 { Some(missing@[0]) } else { None::<u8> }),
{
    if missing.len() == 1 {
        Some(missing[0])
    } else {
        None
    }
}

/// A replacement is inferred exactly when one servo of the census was silent, and it is that
/// servo.
pub proof fn the_replacement_is_the_one_silent_servo(ids: Seq<u8>, answered: Seq<bool>)
    requires
        answered.len() == ids.len(),
    ensures
        unanswered(ids, answered).len() == 1 ==> exists|k: int| 0 <= k < ids.len() && !answered[k]
            && ids[k] == unanswered(ids, answered)[0],
{
    if unanswered(ids, answered).len() == 1 {
        let id = unanswered(ids, answered)[0];
        assert(unanswered(ids, answered).contains(id));
        missing_means_silent(ids, answered, id);
    }
}

} // verus!
