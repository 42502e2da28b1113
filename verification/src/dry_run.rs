//! The exit criterion of a dry run: how often the watch loop agreed with the
//! decisions that were made without it.
use vstd::prelude::*;

verus! {

/// What the watch loop said and what was decided at the same moment.
#[derive(Debug, Clone)]
pub struct ClassificationPair {
    pub predicted: String,
    pub actual: String,
}

/// The counts of a dry run.
#[derive(Debug, Clone, Copy, PartialEq, Eq, Structural)]
pub struct DryRunTally {
    pub total: usize,
    pub correct: u32,
    /// The length of the streak with which the run ends.
    pub consecutive_correct: u32,
}

/// Whether each pair agrees.
pub open spec fn agreements(pairs: Seq<ClassificationPair>) -> Seq<bool> {
    pairs.map_values(|p: ClassificationPair| p.predicted@ == p.actual@)
}

/// How many of the pairs agree.
pub open spec fn correct(flags: Seq<bool>) -> nat {
    flags.filter(|flag: bool| flag).len()
}

/// The length of the streak of agreement at the end.
pub open spec fn streak(flags: Seq<bool>) -> nat
    decreases flags.len(),
{
    if flags.len() == 0 || !flags.last() {
        0
    } else {
        streak(flags.drop_last()) + 1
    }
}

/// Counts the agreements of a dry run and the streak at its end.
pub fn tally(pairs: &[ClassificationPair]) -> (r: DryRunTally)
    requires
        pairs@.len() <= u32::MAX,
    ensures
        r.total == pairs@.len(),
        r.correct == correct(agreements(pairs@)),
        r.consecutive_correct == streak(agreements(pairs@)),
        r.correct == pairs@.filter(|p: ClassificationPair| p.predicted@ == p.actual@).len(),
        r.consecutive_correct <= pairs@.len(),
        forall|i: int|
            pairs@.len() - r.consecutive_correct <= i < pairs@.len() ==> (
            #[trigger] pairs@[i]).predicted@ == pairs@[i].actual@,
        r.consecutive_correct < pairs@.len() ==> pairs@[pairs@.len() - r.consecutive_correct
            - 1].predicted@ != pairs@[pairs@.len() - r.consecutive_correct - 1].actual@,
{
    let ghost flags = agreements(pairs@);
    let ghost keep = |flag: bool| flag;
    let mut correct_count: u32 = 0;
    let mut consecutive_correct: u32 = 0;
    let mut i: usize = 0;
    proof {
        assert(flags.take(0).filter(keep).len() == 0) by {
            reveal(Seq::filter);
        }
    }
    while i < pairs.len()
        invariant
            i <= pairs@.len() <= u32::MAX,
            flags == agreements(pairs@),
            keep == (|flag: bool| flag),
            correct_count == correct(flags.take(i as int)),
            consecutive_correct == streak(flags.take(i as int)),
            correct_count <= i,
            consecutive_correct <= i,
        decreases pairs@.len() - i,
    {
        proof {
            assert(flags.take(i + 1) =~= flags.take(i as int).push(flags[i as int]));
            assert(flags.take(i + 1).drop_last() =~= flags.take(i as int));
            flags.take(i as int).lemma_filter_push(flags[i as int], keep);
        }
        if pairs[i].predicted == pairs[i].actual {
            correct_count += 1;
            consecutive_correct += 1;
        } else {
            consecutive_correct = 0;
        }
        i += 1;
    }
    proof {
        assert(flags.take(i as int) =~= flags);
        counts_are_of_equal_texts(pairs@);
    }
    DryRunTally { total: pairs.len(), correct: correct_count, consecutive_correct }
}

/// The watch loop may take over once either the streak is long enough or the
/// rate of agreement over the whole run is high enough. An empty run shows
/// nothing.
pub fn ready_to_graduate(
    tally: &DryRunTally,
    min_consecutive_correct: u32,
    rate_reached: bool,
) -> (r: bool)
    ensures
        r == (tally.total > 0 && (tally.consecutive_correct >= min_consecutive_correct
            || rate_reached)),
{
    tally.total > 0 && (tally.consecutive_correct >= min_consecutive_correct || rate_reached)
}

/// The streak is the run of agreement at the end: as long as it goes every pair
/// agrees, and the one before it does not.
pub proof fn streak_is_the_run_at_the_end(flags: Seq<bool>)
    ensures
        streak(flags) <= flags.len(),
        forall|i: int| flags.len() - streak(flags) <= i < flags.len() ==> flags[i],
        streak(flags) < flags.len() ==> !flags[flags.len() - streak(flags) - 1],
        streak(flags) <= correct(flags) <= flags.len(),
    decreases flags.len(),
{
    reveal(Seq::filter);
    if flags.len() > 0 {
        let front = flags.drop_last();
        streak_is_the_run_at_the_end(front);
        if flags.last() {
            assert forall|i: int|
                flags.len() - streak(flags) <= i < flags.len() implies flags[i] by {
                if i < front.len() {
                    assert(front[i]);
                }
            }
            if streak(flags) < flags.len() {
                assert(!front[front.len() - streak(front) - 1]);
            }
        }
    }
}

/// One disagreement starts the streak anew.
pub proof fn mismatch_resets_the_streak(flags: Seq<bool>)
    ensures
        streak(flags.push(false)) == 0,
        streak(flags.push(true)) == streak(flags) + 1,
        correct(flags.push(false)) == correct(flags),
        correct(flags.push(true)) == correct(flags) + 1,
{
    let keep = |flag: bool| flag;
    assert(flags.push(true).drop_last() =~= flags);
    flags.lemma_filter_push(false, keep);
    flags.lemma_filter_push(true, keep);
}

/// A pair agrees exactly where the two texts are equal, so the agreements are the
/// pairs with equal texts, and the streak is the longest end of the run in which
/// every pair has them.
pub proof fn counts_are_of_equal_texts(pairs: Seq<ClassificationPair>)
    ensures
        agreements(pairs).len() == pairs.len(),
        forall|i: int|
            0 <= i < pairs.len() ==> (#[trigger] agreements(pairs)[i] <==> pairs[i].predicted@
                == pairs[i].actual@),
        correct(agreements(pairs)) == pairs.filter(
            |p: ClassificationPair| p.predicted@ == p.actual@,
        ).len(),
        streak(agreements(pairs)) <= pairs.len(),
        forall|i: int|
            pairs.len() - streak(agreements(pairs)) <= i < pairs.len() ==> (
            #[trigger] pairs[i]).predicted@ == pairs[i].actual@,
        streak(agreements(pairs)) < pairs.len() ==> pairs[pairs.len() - streak(agreements(pairs))
            - 1].predicted@ != pairs[pairs.len() - streak(agreements(pairs)) - 1].actual@,
    decreases pairs.len(),
{
    let flags = agreements(pairs);
    let equal = |p: ClassificationPair| p.predicted@ == p.actual@;
    let keep = |flag: bool| flag;
    streak_is_the_run_at_the_end(flags);
    assert forall|i: int| pairs.len() - streak(flags) <= i < pairs.len() implies (
    #[trigger] pairs[i]).predicted@ == pairs[i].actual@ by {
        assert(flags[i]);
    }
    if pairs.len() == 0 {
        reveal(Seq::filter);
    } else {
        let front = pairs.drop_last();
        counts_are_of_equal_texts(front);
        assert(front.push(pairs.last()) =~= pairs);
        assert(agreements(front).push(flags.last()) =~= flags);
        front.lemma_filter_push(pairs.last(), equal);
        agreements(front).lemma_filter_push(flags.last(), keep);
    }
}

/// The run may graduate on its streak exactly when that many pairs at its end have
/// equal texts: a run that ends in a pair with different texts has no streak.
pub proof fn different_texts_end_the_streak(pairs: Seq<ClassificationPair>)
    requires
        pairs.len() > 0,
        pairs.last().predicted@ != pairs.last().actual@,
    ensures
        streak(agreements(pairs)) == 0,
        correct(agreements(pairs)) < pairs.len(),
{
    let flags = agreements(pairs);
    let front = flags.drop_last();
    streak_is_the_run_at_the_end(front);
    assert(front.push(false) =~= flags);
    mismatch_resets_the_streak(front);
}

} // verus!
