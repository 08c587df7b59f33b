//! The stopwatch: it charges the time between two ticks to the label of the
//! second one.
use crate::clock::nanos_since;
use crate::ledger::lemma_cleared;
use crate::ledger::lemma_place;
use crate::ledger::lemma_sum_bounds;
use crate::ledger::lemma_tick_charges_one_label;
use crate::ledger::lemma_ticked_wf;
use crate::ledger::Ledger;
use crate::report::exceeds_tenth;
use crate::report::footer;
use crate::report::header;
use crate::report::label_line;
use crate::report::lines_text;
use crate::report::report_text;
use crate::report::separator;
use std::time::Instant;
use vstd::prelude::*;
use vstd::string::*;

verus! {

/// A stopwatch for profiling by hand. Times are counted in nanoseconds from
/// its construction. It keeps the labels in the order in which each was first
/// ticked, with the time charged to each, and the two marks between which
/// that time lies. A reset takes the durations away and leaves the labels in
/// their order.
pub struct StopWatch {
    origin: Instant,
    start: u128,
    last: u128,
    keys: Vec<String>,
    spent: Vec<u128>,
    held: Vec<bool>,
    enabled: bool,
    prints: bool,
}

impl View for StopWatch {
    type V = Ledger;

    closed spec fn view(&self) -> Ledger {
        Ledger {
            start: self.start as nat,
            last: self.last as nat,
            labels: Seq::new(self.keys@.len(), |i: int| self.keys@[i]@),
            spent: Seq::new(self.spent@.len(), |i: int| self.spent@[i] as nat),
            held: self.held@,
            enabled: self.enabled,
            echo: self.prints,
        }
    }
}

impl StopWatch {
    /// The stopwatch's ledger is well-formed.
    pub open spec fn wf(&self) -> bool {
        self@.wf()
    }

    /// A stopwatch whose clock starts now, at zero, with nothing charged.
    pub fn new(enabled: bool, prints: bool) -> (watch: StopWatch)
        ensures
            watch.wf(),
            watch@ == Ledger::fresh(enabled, prints),
    {
        let watch = StopWatch {
            origin: Instant::now(),
            start: 0,
            last: 0,
            keys: Vec::new(),
            spent: Vec::new(),
            held: Vec::new(),
            enabled,
            prints,
        };
        proof {
            assert(watch@.labels =~= Seq::empty());
            assert(watch@.spent =~= Seq::empty());
        }
        watch
    }

    /// Whether time is measured.
    pub fn measurement_enabled(&self) -> (on: bool)
        ensures
            on == self@.enabled,
    {
        self.enabled
    }

    /// Whether the label of each tick is to be echoed.
    pub fn echo_enabled(&self) -> (on: bool)
        ensures
            on == self@.echo,
    {
        self.prints
    }

    /// The time of the last tick, or of the construction or reset where none
    /// came after it.
    pub fn last_mark(&self) -> (mark: u128)
        ensures
            mark == self@.last,
    {
        self.last
    }

    /// The time of the construction, or of the last reset.
    pub fn start_mark(&self) -> (mark: u128)
        ensures
            mark == self@.start,
    {
        self.start
    }

    /// All the time charged so far: the time from the start mark to the last
    /// mark.
    pub fn total(&self) -> (nanos: u128)
        requires
            self.wf(),
        ensures
            nanos == self@.total(),
            nanos == self@.last - self@.start,
    {
        self.last - self.start
    }

    /// The place of `key` among the labels.
    fn find(&self, key: &String) -> (place: Option<usize>)
        ensures
            match place {
                Some(at) => at < self@.labels.len() && self@.labels[at as int] == key@,
                None => !self@.labels.contains(key@),
            },
    {
        let mut i: usize = 0;
        while i < self.keys.len()
            invariant
                i <= self.keys.len(),
                forall|j: int| 0 <= j < i ==> self.keys@[j]@ != key@,
            decreases self.keys.len() - i,
        {
            if self.keys[i] == *key {
                return Some(i);
            }
            i = i + 1;
        }
        None
    }

    /// The time charged to `label` so far, zero where it has no duration.
    pub fn accumulated(&self, label: &str) -> (nanos: u128)
        requires
            self.wf(),
        ensures
            nanos == self@.amount(label@),
    {
        let key = String::from_str(label);
        match self.find(&key) {
            Some(at) => {
                proof {
                    lemma_place(self@, label@, at as int);
                }
                self.spent[at]
            },
            None => 0,
        }
    }

    /// Whether `label` has a duration: it was ticked since the last reset.
    pub fn has_duration(&self, label: &str) -> (held: bool)
        requires
            self.wf(),
        ensures
            held == self@.has_duration(label@),
            held == self@.accumulated().contains_key(label@),
    {
        let key = String::from_str(label);
        match self.find(&key) {
            Some(at) => {
                proof {
                    lemma_place(self@, label@, at as int);
                }
                self.held[at]
            },
            None => false,
        }
    }

    /// The labels in the order in which each was first ticked.
    pub fn label_order(&self) -> (labels: Vec<String>)
        ensures
            labels@.len() == self@.labels.len(),
            forall|i: int| 0 <= i < labels@.len() ==> labels@[i]@ == self@.labels[i],
    {
        self.keys.clone()
    }

    /// Takes every label's duration away and sets both marks to `now`. The
    /// labels keep their order. A disabled stopwatch stays as it is.
    pub fn reset_at(&mut self, now: u128)
        requires
            old(self).wf(),
        ensures
            final(self).wf(),
            final(self)@ == old(self)@.cleared(now as nat),
            final(self)@.labels == old(self)@.labels,
            final(self)@.enabled == old(self)@.enabled,
            final(self)@.echo == old(self)@.echo,
            old(self)@.enabled ==> final(self)@.start == now && final(self)@.last == now,
            old(self)@.enabled ==> final(self)@.total() == 0,
            old(self)@.enabled ==> final(self)@.accumulated() == Map::<Seq<char>, nat>::empty(),
            old(self)@.enabled ==> forall|label: Seq<char>| #[trigger]
                final(self)@.amount(label) == 0,
    {
        if !self.enabled {
            return ;
        }
        let count: usize = self.keys.len();
        let mut zeros: Vec<u128> = Vec::new();
        let mut none: Vec<bool> = Vec::new();
        let mut i: usize = 0;
        while i < count
            invariant
                i <= count,
                zeros@.len() == i,
                none@.len() == i,
                forall|j: int| 0 <= j < i ==> zeros@[j] == 0,
                forall|j: int| 0 <= j < i ==> !none@[j],
            decreases count - i,
        {
            zeros.push(0);
            none.push(false);
            i = i + 1;
        }
        self.spent = zeros;
        self.held = none;
        self.start = now;
        self.last = now;
        proof {
            let want = old(self)@.cleared(now as nat);
            lemma_cleared(old(self)@, now as nat);
            assert(self@.labels =~= want.labels);
            assert(self@.spent =~= want.spent);
            assert(self@.held =~= want.held);
        }
    }

    /// Resets at the time that the clock shows: see `reset_at`.
    pub fn reset(&mut self)
        requires
            old(self).wf(),
        ensures
            final(self).wf(),
            exists|now: nat| final(self)@ == old(self)@.cleared(now),
            final(self)@.labels == old(self)@.labels,
            final(self)@.enabled == old(self)@.enabled,
            final(self)@.echo == old(self)@.echo,
            old(self)@.enabled ==> final(self)@.start == final(self)@.last,
            old(self)@.enabled ==> final(self)@.total() == 0,
            old(self)@.enabled ==> final(self)@.accumulated() == Map::<Seq<char>, nat>::empty(),
            old(self)@.enabled ==> forall|label: Seq<char>| #[trigger]
                final(self)@.amount(label) == 0,
    {
        if !self.enabled {
            assert(self@ == self@.cleared(0));
            return ;
        }
        let now = nanos_since(&self.origin);
        self.reset_at(now);
    }

    /// Charges the time from the last mark to `now` to the label `msg`, which
    /// joins the end of the order if it is not in it yet, and makes `now` the
    /// last mark. A label that a reset left without a duration keeps its
    /// place and gets one. A disabled stopwatch stays as it is. Returns
    /// whether the label is to be echoed.
    pub fn tick_at(&mut self, msg: &str, now: u128) -> (echo: bool)
        requires
            old(self).wf(),
            old(self)@.enabled ==> old(self)@.last <= now,
        ensures
            final(self).wf(),
            final(self)@ == old(self)@.ticked(msg@, now as nat),
            old(self)@.enabled ==> final(self)@.amount(msg@) == old(self)@.amount(msg@) + (now
                - old(self)@.last),
            forall|other: Seq<char>|
                other != msg@ ==> final(self)@.amount(other) == #[trigger] old(self)@.amount(
                    other,
                ),
            old(self)@.enabled ==> final(self)@.has_duration(msg@),
            old(self)@.labels.contains(msg@) ==> final(self)@.labels == old(self)@.labels,
            final(self)@.total() == final(self)@.last - final(self)@.start,
            echo == old(self)@.echo,
    {
        if !self.enabled {
            return self.prints;
        }
        proof {
            lemma_ticked_wf(self@, msg@, now as nat);
            lemma_tick_charges_one_label(self@, msg@, now as nat, msg@);
            assert forall|other: Seq<char>| other != msg@ implies self@.ticked(
                msg@,
                now as nat,
            ).amount(other) == #[trigger] self@.amount(other) by {
                lemma_tick_charges_one_label(self@, msg@, now as nat, other);
            }
        }
        let elapsed: u128 = now - self.last;
        let key = String::from_str(msg);
        match self.find(&key) {
            Some(at) => {
                proof {
                    lemma_place(self@, msg@, at as int);
                    lemma_sum_bounds(self@.spent, at as int);
                }
                let before: u128 = self.spent[at];
                self.spent.set(at, before + elapsed);
                self.held.set(at, true);
                self.last = now;
                proof {
                    let want = old(self)@.ticked(msg@, now as nat);
                    assert(self@.labels =~= want.labels);
                    assert(self@.spent =~= want.spent);
                    assert(self@.held =~= want.held);
                }
            },
            None => {
                self.keys.push(key);
                self.spent.push(elapsed);
                self.held.push(true);
                self.last = now;
                proof {
                    let want = old(self)@.ticked(msg@, now as nat);
                    assert(self@.labels =~= want.labels);
                    assert(self@.spent =~= want.spent);
                    assert(self@.held =~= want.held);
                }
            },
        }
        self.prints
    }

    /// Ticks at the time that the clock shows, or at the last mark should the
    /// clock show an earlier time: see `tick_at`.
    pub fn tick(&mut self, msg: &str) -> (echo: bool)
        requires
            old(self).wf(),
        ensures
            final(self).wf(),
            echo == old(self)@.echo,
            exists|now: nat|
                old(self)@.last <= now && final(self)@ == old(self)@.ticked(msg@, now),
    {
        if !self.enabled {
            assert(self@ == self@.ticked(msg@, self@.last));
            return self.prints;
        }
        let shown = nanos_since(&self.origin);
        let now = if shown < self.last {
            self.last
        } else {
            shown
        };
        self.tick_at(msg, now)
    }

    /// Renders the breakdown for `n` units named `unit`: the highlighted
    /// header, one line per label in first-ticked order with its whole
    /// milliseconds and its share of the total, highlighted where the share
    /// is above ten percent, the closing line with the total and the
    /// throughput, and the separator. A disabled stopwatch renders nothing.
    pub fn breakdown(&self, n: u32, unit: &str) -> (out: Option<String>)
        requires
            self.wf(),
        ensures
            match out {
                Some(text) => self@.enabled && text@ == report_text(self@, n as nat, unit@),
                None => !self@.enabled,
            },
    {
        if !self.enabled {
            return None;
        }
        let total: u128 = self.last - self.start;
        let total_ms: u128 = total / 1_000_000;
        let head = header(n, unit);
        let top = StopWatch::highlight_if(head.as_str(), true);
        let mut text = top.clone();
        let mut i: usize = 0;
        while i < self.keys.len()
            invariant
                i <= self.keys.len(),
                self.keys.len() == self.spent.len(),
                text@ == top@ + lines_text(self@.labels, self@.spent, total_ms as nat, i as nat),
            decreases self.keys.len() - i,
        {
            let ms: u128 = self.spent[i] / 1_000_000;
            let body = label_line(self.keys[i].as_str(), ms, total_ms);
            let shown = StopWatch::highlight_if(body.as_str(), exceeds_tenth(ms, total_ms));
            text.append(shown.as_str());
            proof {
                assert(text@ =~= top@ + lines_text(
                    self@.labels,
                    self@.spent,
                    total_ms as nat,
                    (i + 1) as nat,
                ));
            }
            i = i + 1;
        }
        let foot = footer(n, unit, total_ms);
        text.append(foot.as_str());
        let closing = separator(top.as_str());
        text.append(closing.as_str());
        Some(text)
    }
}

} // verus!
