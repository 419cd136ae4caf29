use vstd::prelude::*;

verus! {

/// A pending timer: `value` fires at `time` (milliseconds).
pub struct Timeout<T> {
    pub time: u128,
    pub value: T,
}

/// The index of the timer with the earliest deadline; among equal deadlines, the one
/// added first.
pub open spec fn earliest_index<T>(s: Seq<Timeout<T>>) -> int
    decreases s.len(),
{
    if s.len() <= 1 {
        0
    } else {
        let k = earliest_index(s.drop_last());
        if s.last().time < s[k].time {
            s.len() - 1
        } else {
            k
        }
    }
}

proof fn lemma_earliest_index<T>(s: Seq<Timeout<T>>)
    requires
        s.len() > 0,
    ensures
        0 <= earliest_index(s) < s.len(),
        forall|j: int| 0 <= j < s.len() ==> s[earliest_index(s)].time <= #[trigger] s[j].time,
        forall|j: int| 0 <= j < earliest_index(s) ==> s[earliest_index(s)].time < #[trigger] s[j].time,
    decreases s.len(),
{
    if s.len() > 1 {
        let p = s.drop_last();
        lemma_earliest_index(p);
        let k = earliest_index(p);
        let e = earliest_index(s);
        assert forall|j: int| 0 <= j < s.len() implies s[e].time <= #[trigger] s[j].time by {
            if j < s.len() - 1 {
                assert(s[j] == p[j]);
            }
            assert(s[k] == p[k]);
        }
        assert forall|j: int| 0 <= j < e implies s[e].time < #[trigger] s[j].time by {
            if j < s.len() - 1 {
                assert(s[j] == p[j]);
            }
            assert(s[k] == p[k]);
        }
    }
}

/// Timers, each tagged with an opaque value, fired earliest deadline first.
pub struct TimeoutManager<T> {
    timeouts: Vec<Timeout<T>>,
}

impl<T> TimeoutManager<T> {
    /// The pending timers, in the order they were added.
    pub closed spec fn pending(&self) -> Seq<Timeout<T>> {
        self.timeouts@
    }

    pub fn new() -> (r: TimeoutManager<T>)
        ensures
            r.pending().len() == 0,
    {
        TimeoutManager { timeouts: Vec::new() }
    }

    /// Schedules `value` to fire `delay` milliseconds after `now`.
    pub fn add(&mut self, value: T, now: u64, delay: u64)
        ensures
            final(self).pending() == old(self).pending().push(
                Timeout { time: (now as u128 + delay as u128) as u128, value },
            ),
    {
        self.timeouts.push(Timeout { time: now as u128 + delay as u128, value });
    }

    fn earliest(&self) -> (r: usize)
        requires
            self.pending().len() > 0,
        ensures
            r == earliest_index(self.pending()),
            r < self.pending().len(),
    {
        let mut best: usize = 0;
        let mut i: usize = 1;
        while i < self.timeouts.len()
            invariant
                1 <= i <= self.pending().len(),
                best == earliest_index(self.pending().subrange(0, i as int)),
                0 <= best < i,
            decreases self.pending().len() - i,
        {
            proof {
                let s = self.pending().subrange(0, i as int + 1);
                assert(s.drop_last() =~= self.pending().subrange(0, i as int));
                lemma_earliest_index(self.pending().subrange(0, i as int));
            }
            if self.timeouts[i].time < self.timeouts[best].time {
                best = i;
            }
            i = i + 1;
        }
        assert(self.pending().subrange(0, i as int) =~= self.pending());
        proof {
            lemma_earliest_index(self.pending());
        }
        best
    }

    /// The earliest deadline, if any timer is pending.
    pub fn next_deadline(&self) -> (r: Option<u128>)
        ensures
            self.pending().len() == 0 ==> r is None,
            self.pending().len() > 0 ==> r == Some(self.pending()[earliest_index(self.pending())].time),
    {
        if self.timeouts.len() == 0 {
            None
        } else {
            let k = self.earliest();
            Some(self.timeouts[k].time)
        }
    }

    /// Removes the timer with the earliest deadline and returns its value.
    pub fn get_next(&mut self) -> (r: Option<T>)
        ensures
            old(self).pending().len() == 0 ==> r is None && final(self).pending() == old(self).pending(),
            old(self).pending().len() > 0 ==> {
                let k = earliest_index(old(self).pending());
                &&& r == Some(old(self).pending()[k].value)
                &&& final(self).pending() == old(self).pending().remove(k)
            },
    {
        if self.timeouts.len() == 0 {
            None
        } else {
            let k = self.earliest();
            let t = self.timeouts.remove(k);
            Some(t.value)
        }
    }

    /// Removes and returns the earliest timer if its deadline is at or before `now`.
    pub fn pop_due(&mut self, now: u128) -> (r: Option<T>)
        ensures
            ({
                let s = old(self).pending();
                let k = earliest_index(s);
                if s.len() > 0 && s[k].time <= now {
                    r == Some(s[k].value) && final(self).pending() == s.remove(k)
                } else {
                    r is None && final(self).pending() == s
                }
            }),
            r is None ==> *final(self) == *old(self),
    {
        if self.timeouts.len() == 0 {
            return None;
        }
        let k = self.earliest();
        if self.timeouts[k].time <= now {
            let t = self.timeouts.remove(k);
            Some(t.value)
        } else {
            None
        }
    }
}

/// Of two timers added in turn, the one with the earlier deadline fires first even
/// when it was added second; the other fires next.
pub proof fn lemma_earlier_deadline_fires_first<T>(first: Timeout<T>, second: Timeout<T>)
    requires
        second.time < first.time,
    ensures
        earliest_index(seq![first, second]) == 1,
        seq![first, second].remove(1) == seq![first],
        earliest_index(seq![first]) == 0,
{
    reveal_with_fuel(earliest_index, 2);
    assert(seq![first, second].drop_last() =~= seq![first]);
    assert(seq![first, second].remove(1) =~= seq![first]);
}

/// A timer tag of the consensus rules.
#[derive(PartialEq, Eq, Structural, Clone, Copy, Debug)]
pub enum Timeouts {
    Propose { height: u64, round: u64 },
    Prevote { height: u64, round: u64 },
    Precommit { height: u64, round: u64 },
}

} // verus!
