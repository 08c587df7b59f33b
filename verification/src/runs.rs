//! Runs of ticks, and what holds of a stopwatch over a whole run.
use crate::ledger::lemma_tick_charges_one_label;
use crate::ledger::lemma_ticked_wf;
use crate::ledger::Ledger;
use vstd::prelude::*;

verus! {

/// The ledger after the ticks of `ticks`, each a label and its time, in
/// turn.
pub open spec fn run(ledger: Ledger, ticks: Seq<(Seq<char>, nat)>) -> Ledger
    decreases ticks.len(),
{
    if ticks.len() == 0 {
        ledger
    } else {
        run(ledger, ticks.drop_last()).ticked(ticks.last().0, ticks.last().1)
    }
}

/// The mark that tick `i` measures from: the time of the tick before it, or
/// `from` for the first.
pub open spec fn mark_before(from: nat, ticks: Seq<(Seq<char>, nat)>, i: int) -> nat {
    if i <= 0 {
        from
    } else {
        ticks[i - 1].1
    }
}

/// No tick is earlier than the mark it measures from.
pub open spec fn in_order(from: nat, ticks: Seq<(Seq<char>, nat)>) -> bool {
    forall|i: int| 0 <= i < ticks.len() ==> mark_before(from, ticks, i) <= (#[trigger] ticks[i]).1
}

/// The sum of the intervals that end in a tick on `label`, each from the
/// mark before that tick.
pub open spec fn intervals_on(label: Seq<char>, from: nat, ticks: Seq<(Seq<char>, nat)>) -> nat
    decreases ticks.len(),
{
    if ticks.len() == 0 {
        0
    } else {
        let earlier = intervals_on(label, from, ticks.drop_last());
        if ticks.last().0 == label {
            (earlier + ticks.last().1 - mark_before(from, ticks, ticks.len() - 1)) as nat
        } else {
            earlier
        }
    }
}

/// The labels of `ticks` in the order in which each first occurs, after the
/// labels of `seen`.
pub open spec fn first_seen(seen: Seq<Seq<char>>, ticks: Seq<(Seq<char>, nat)>) -> Seq<Seq<char>>
    decreases ticks.len(),
{
    if ticks.len() == 0 {
        seen
    } else {
        let earlier = first_seen(seen, ticks.drop_last());
        if earlier.contains(ticks.last().0) {
            earlier
        } else {
            earlier.push(ticks.last().0)
        }
    }
}

/// Over any run of ticks in order, the durations add up to the time from
/// the start mark to the last tick.
pub proof fn lemma_total_is_elapsed(ledger: Ledger, ticks: Seq<(Seq<char>, nat)>)
    requires
        ledger.wf(),
        ledger.enabled,
        in_order(ledger.last, ticks),
    ensures
        run(ledger, ticks).wf(),
        run(ledger, ticks).enabled,
        run(ledger, ticks).start == ledger.start,
        run(ledger, ticks).last == mark_before(ledger.last, ticks, ticks.len() as int),
        run(ledger, ticks).total() == mark_before(ledger.last, ticks, ticks.len() as int)
            - ledger.start,
    decreases ticks.len(),
{
    if ticks.len() > 0 {
        let earlier = ticks.drop_last();
        assert forall|i: int| 0 <= i < earlier.len() implies mark_before(ledger.last, earlier, i)
            <= (#[trigger] earlier[i]).1 by {
            assert(earlier[i] == ticks[i]);
            assert(mark_before(ledger.last, earlier, i) == mark_before(ledger.last, ticks, i));
        }
        lemma_total_is_elapsed(ledger, earlier);
        let at = ticks.len() - 1;
        assert(mark_before(ledger.last, ticks, at) <= ticks[at].1);
        assert(mark_before(ledger.last, earlier, earlier.len() as int) == mark_before(
            ledger.last,
            ticks,
            at,
        ));
        lemma_ticked_wf(run(ledger, earlier), ticks.last().0, ticks.last().1);
    }
}

/// Over any run of ticks in order, a label gains the sum of the intervals
/// that end in its own ticks, each measured from the tick just before, and
/// nothing of the time since its own earlier ticks.
pub proof fn lemma_label_gets_its_intervals(
    ledger: Ledger,
    ticks: Seq<(Seq<char>, nat)>,
    label: Seq<char>,
)
    requires
        ledger.wf(),
        ledger.enabled,
        in_order(ledger.last, ticks),
    ensures
        run(ledger, ticks).amount(label) == ledger.amount(label) + intervals_on(
            label,
            ledger.last,
            ticks,
        ),
    decreases ticks.len(),
{
    if ticks.len() > 0 {
        let earlier = ticks.drop_last();
        assert forall|i: int| 0 <= i < earlier.len() implies mark_before(ledger.last, earlier, i)
            <= (#[trigger] earlier[i]).1 by {
            assert(earlier[i] == ticks[i]);
            assert(mark_before(ledger.last, earlier, i) == mark_before(ledger.last, ticks, i));
        }
        lemma_label_gets_its_intervals(ledger, earlier, label);
        lemma_total_is_elapsed(ledger, earlier);
        let at = ticks.len() - 1;
        assert(mark_before(ledger.last, ticks, at) <= ticks[at].1);
        assert(mark_before(ledger.last, earlier, earlier.len() as int) == mark_before(
            ledger.last,
            ticks,
            at,
        ));
        lemma_tick_charges_one_label(run(ledger, earlier), ticks.last().0, ticks.last().1, label);
    }
}

/// A tick leaves the labels that were there in their places, and puts a new
/// label at the end: the order is that of first ticks.
pub proof fn lemma_order_is_first_seen(ledger: Ledger, label: Seq<char>, now: nat)
    requires
        ledger.wf(),
        ledger.enabled,
    ensures
        ledger.labels.contains(label) ==> ledger.ticked(label, now).labels == ledger.labels,
        !ledger.labels.contains(label) ==> ledger.ticked(label, now).labels == ledger.labels.push(
            label,
        ),
        ledger.ticked(label, now).labels.no_duplicates(),
{
}

/// Over any run of ticks, the labels stand in the order in which each was
/// first ticked, whatever the times, and none stands twice.
pub proof fn lemma_run_keeps_first_seen_order(ledger: Ledger, ticks: Seq<(Seq<char>, nat)>)
    requires
        ledger.wf(),
        ledger.enabled,
    ensures
        run(ledger, ticks).enabled,
        run(ledger, ticks).labels == first_seen(ledger.labels, ticks),
        run(ledger, ticks).labels.no_duplicates(),
        run(ledger, ticks).labels.len() == run(ledger, ticks).spent.len(),
    decreases ticks.len(),
{
    if ticks.len() > 0 {
        lemma_run_keeps_first_seen_order(ledger, ticks.drop_last());
    }
}

/// A disabled stopwatch is changed by no tick and no reset.
pub proof fn lemma_disabled_is_inert(ledger: Ledger, label: Seq<char>, now: nat)
    requires
        !ledger.enabled,
    ensures
        ledger.ticked(label, now) == ledger,
        ledger.cleared(now) == ledger,
{
}

} // verus!
