//! The mathematical model of a stopwatch: marks on the clock, the labels in
//! the order in which they were first ticked, and the time charged to each.
use vstd::prelude::*;

verus! {

/// The sum of a sequence of durations.
pub open spec fn sum(durations: Seq<nat>) -> nat
    decreases durations.len(),
{
    if durations.len() == 0 {
        0
    } else {
        sum(durations.drop_last()) + durations.last()
    }
}

/// What a stopwatch holds. Times are in nanoseconds on the stopwatch's clock.
pub struct Ledger {
    /// The time of construction or of the last reset.
    pub start: nat,
    /// The time of the last tick, or `start` where there was none since.
    pub last: nat,
    /// The labels, in the order in which each was first ticked.
    pub labels: Seq<Seq<char>>,
    /// The time charged to each label, in the order of `labels`.
    pub spent: Seq<nat>,
    /// Whether each label has a duration at all: it has none from a reset
    /// until its next tick.
    pub held: Seq<bool>,
    /// Whether time is measured at all.
    pub enabled: bool,
    /// Whether each tick's label is echoed.
    pub echo: bool,
}

impl Ledger {
    /// Every label stands once, a label without a duration has no time
    /// charged, and the durations add up to the time between the start mark
    /// and the last mark.
    pub open spec fn wf(self) -> bool {
        &&& self.labels.len() == self.spent.len()
        &&& self.labels.len() == self.held.len()
        &&& forall|i: int| 0 <= i < self.held.len() && !#[trigger] self.held[i] ==> self.spent[i] == 0
        &&& self.labels.no_duplicates()
        &&& self.start <= self.last
        &&& sum(self.spent) == self.last - self.start
    }

    /// The ledger of a new stopwatch, whose clock starts at zero.
    pub open spec fn fresh(enabled: bool, echo: bool) -> Ledger {
        Ledger {
            start: 0,
            last: 0,
            labels: Seq::empty(),
            spent: Seq::empty(),
            held: Seq::empty(),
            enabled,
            echo,
        }
    }

    /// Whether `label` has a duration: it was ticked since the last reset.
    pub open spec fn has_duration(self, label: Seq<char>) -> bool {
        self.labels.contains(label) && self.held[self.labels.index_of(label)]
    }

    /// The durations by label, for the labels that have one.
    pub open spec fn accumulated(self) -> Map<Seq<char>, nat> {
        Map::new(
            |label: Seq<char>| self.has_duration(label),
            |label: Seq<char>| self.amount(label),
        )
    }

    /// The time charged to `label` so far; zero for a label without a
    /// duration.
    pub open spec fn amount(self, label: Seq<char>) -> nat {
        if self.labels.contains(label) {
            self.spent[self.labels.index_of(label)]
        } else {
            0
        }
    }

    /// All the time charged so far.
    pub open spec fn total(self) -> nat {
        sum(self.spent)
    }

    /// The ledger after a tick on `label` at time `now`: the time since the
    /// last mark goes to `label`, which joins the end of the order if it is
    /// not in it yet, and `now` becomes the last mark. A disabled ledger stays
    /// as it is.
    pub open spec fn ticked(self, label: Seq<char>, now: nat) -> Ledger {
        let elapsed = (now - self.last) as nat;
        if !self.enabled {
            self
        } else if self.labels.contains(label) {
            let at = self.labels.index_of(label);
            Ledger {
                last: now,
                spent: self.spent.update(at, self.spent[at] + elapsed),
                held: self.held.update(at, true),
                ..self
            }
        } else {
            Ledger {
                last: now,
                labels: self.labels.push(label),
                spent: self.spent.push(elapsed),
                held: self.held.push(true),
                ..self
            }
        }
    }

    /// The ledger after a reset at time `now`: the labels keep their order,
    /// none of them has a duration, no time is charged, and both marks are at
    /// `now`. A disabled ledger stays as it is.
    pub open spec fn cleared(self, now: nat) -> Ledger {
        if !self.enabled {
            self
        } else {
            Ledger {
                start: now,
                last: now,
                spent: Seq::new(self.labels.len(), |i: int| 0nat),
                held: Seq::new(self.labels.len(), |i: int| false),
                ..self
            }
        }
    }
}

/// Durations of zero add up to zero.
pub proof fn lemma_sum_zeros(count: nat)
    ensures
        sum(Seq::new(count, |i: int| 0nat)) == 0,
    decreases count,
{
    if count > 0 {
        lemma_sum_zeros((count - 1) as nat);
        assert(Seq::new(count, |i: int| 0nat).drop_last() =~= Seq::new(
            (count - 1) as nat,
            |i: int| 0nat,
        ));
    }
}

/// A reset keeps a ledger well-formed and the labels in their order, and
/// leaves no label with a duration: every amount and the total are zero.
pub proof fn lemma_cleared(ledger: Ledger, now: nat)
    requires
        ledger.wf(),
        ledger.enabled,
    ensures
        ledger.cleared(now).wf(),
        ledger.cleared(now).labels == ledger.labels,
        ledger.cleared(now).total() == 0,
        ledger.cleared(now).accumulated() == Map::<Seq<char>, nat>::empty(),
        forall|label: Seq<char>| #[trigger] ledger.cleared(now).amount(label) == 0,
        forall|label: Seq<char>| !#[trigger] ledger.cleared(now).has_duration(label),
{
    lemma_sum_zeros(ledger.labels.len());
    assert(ledger.cleared(now).accumulated() =~= Map::<Seq<char>, nat>::empty());
}

/// Each duration is at most the sum.
pub proof fn lemma_sum_bounds(durations: Seq<nat>, at: int)
    requires
        0 <= at < durations.len(),
    ensures
        durations[at] <= sum(durations),
    decreases durations.len(),
{
    if at < durations.len() - 1 {
        lemma_sum_bounds(durations.drop_last(), at);
    }
}

/// Raising one duration raises the sum by as much.
pub proof fn lemma_sum_update(durations: Seq<nat>, at: int, more: nat)
    requires
        0 <= at < durations.len(),
    ensures
        sum(durations.update(at, durations[at] + more)) == sum(durations) + more,
    decreases durations.len(),
{
    let raised = durations.update(at, durations[at] + more);
    if at < durations.len() - 1 {
        lemma_sum_update(durations.drop_last(), at, more);
        assert(raised.drop_last() =~= durations.drop_last().update(
            at,
            durations.drop_last()[at] + more,
        ));
    } else {
        assert(raised.drop_last() =~= durations.drop_last());
    }
}

/// A further duration raises the sum by itself.
pub proof fn lemma_sum_push(durations: Seq<nat>, more: nat)
    ensures
        sum(durations.push(more)) == sum(durations) + more,
{
    assert(durations.push(more).drop_last() =~= durations);
}

/// In a well-formed ledger a label stands at one place only, so the place
/// where it is found is the place that `amount` reads.
pub proof fn lemma_place(ledger: Ledger, label: Seq<char>, at: int)
    requires
        ledger.wf(),
        0 <= at < ledger.labels.len(),
        ledger.labels[at] == label,
    ensures
        ledger.labels.contains(label),
        ledger.labels.index_of(label) == at,
        ledger.amount(label) == ledger.spent[at],
{
}

/// A tick at or after the last mark keeps a ledger well-formed.
pub proof fn lemma_ticked_wf(ledger: Ledger, label: Seq<char>, now: nat)
    requires
        ledger.wf(),
        ledger.last <= now,
    ensures
        ledger.ticked(label, now).wf(),
{
    let elapsed = (now - ledger.last) as nat;
    if ledger.enabled {
        if ledger.labels.contains(label) {
            let at = ledger.labels.index_of(label);
            lemma_sum_update(ledger.spent, at, elapsed);
        } else {
            lemma_sum_push(ledger.spent, elapsed);
        }
    }
}

/// One tick at or after the last mark adds the time since that mark to the
/// ticked label and leaves every other label's time as it was.
pub proof fn lemma_tick_charges_one_label(
    ledger: Ledger,
    label: Seq<char>,
    now: nat,
    other: Seq<char>,
)
    requires
        ledger.wf(),
        ledger.enabled,
        ledger.last <= now,
    ensures
        ledger.ticked(label, now).amount(label) == ledger.amount(label) + (now - ledger.last),
        ledger.ticked(label, now).has_duration(label),
        other != label ==> ledger.ticked(label, now).amount(other) == ledger.amount(other),
{
    let after = ledger.ticked(label, now);
    lemma_ticked_wf(ledger, label, now);
    if ledger.labels.contains(label) {
        let at = ledger.labels.index_of(label);
        if other != label && ledger.labels.contains(other) {
            assert(ledger.labels.index_of(other) != at);
        }
    } else {
        let end = ledger.labels.len() as int;
        assert(after.labels[end] == label);
        assert(after.labels.contains(label));
        assert(after.labels.index_of(label) == end);
        if other != label {
            if ledger.labels.contains(other) {
                let was = ledger.labels.index_of(other);
                assert(after.labels[was] == other);
                assert(after.labels.contains(other));
                assert(after.labels.index_of(other) == was);
            } else {
                if after.labels.contains(other) {
                    let i = after.labels.index_of(other);
                    assert(ledger.labels[i] == other);
                }
            }
        }
    }
}

} // verus!
