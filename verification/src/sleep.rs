//! The wakeup times the timer interrupt checks: who is to be woken at which tick.
use vstd::prelude::*;

verus! {

/// The wakers of the entries of `s`, in order.
pub open spec fn flatten<W>(s: Seq<(usize, Seq<W>)>) -> Seq<W>
    decreases s.len(),
{
    if s.len() == 0 {
        Seq::empty()
    } else {
        flatten(s.drop_last()) + s.last().1
    }
}

/// Whether the ticks of `s` strictly increase.
pub open spec fn ticks_increase<W>(s: Seq<(usize, Seq<W>)>) -> bool {
    forall|i: int, j: int| 0 <= i < j < s.len() ==> #[trigger] s[i].0 < #[trigger] s[j].0
}

/// Number of entries of `s`, from the front, whose tick is at most `time`.
pub open spec fn due_count<W>(s: Seq<(usize, Seq<W>)>, time: usize) -> int
    decreases s.len(),
{
    if s.len() == 0 || s[0].0 > time {
        0
    } else {
        1 + due_count(s.drop_first(), time)
    }
}

/// The ticks and wakers of `v`, the wakers by their contents.
pub open spec fn entries_of<W>(v: Seq<(usize, Vec<W>)>) -> Seq<(usize, Seq<W>)> {
    v.map_values(|e: (usize, Vec<W>)| (e.0, e.1@))
}

/// The wakers waiting for ticks, by tick in increasing order; `W` is what wakes a
/// task.
pub struct InterruptWakeupList<W> {
    wakeup_times: Vec<(usize, Vec<W>)>,
}

impl<W> InterruptWakeupList<W> {
    /// The ticks with the wakers waiting for each, in increasing order of tick.
    pub closed spec fn entries(&self) -> Seq<(usize, Seq<W>)> {
        entries_of(self.wakeup_times@)
    }

    /// Whether the ticks are in increasing order.
    pub open spec fn wf(&self) -> bool {
        ticks_increase(self.entries())
    }

    /// No wakeups waiting.
    pub fn new() -> (r: Self)
        ensures
            r.wf(),
            r.entries() == Seq::<(usize, Seq<W>)>::empty(),
    {
        let r = InterruptWakeupList { wakeup_times: Vec::new() };
        assert(r.entries() =~= Seq::<(usize, Seq<W>)>::empty());
        r
    }

    /// Adds `waker` to those to be woken at tick `time`, after the ones already
    /// waiting for it.
    pub fn push_wakeup(&mut self, time: usize, waker: W)
        requires
            old(self).wf(),
        ensures
            final(self).wf(),
            ({
                let s = old(self).entries();
                exists|i: int|
                    0 <= i <= s.len() && (forall|j: int| 0 <= j < i ==> #[trigger] s[j].0 < time)
                        && (i < s.len() ==> time <= s[i].0) && if i < s.len() && s[i].0 == time {
                        final(self).entries() == s.update(i, (time, s[i].1.push(waker)))
                    } else {
                        final(self).entries() == s.insert(i, (time, seq![waker]))
                    }
            }),
    {
        let ghost s = self.entries();
        let n = self.wakeup_times.len();
        let mut i: usize = 0;
        while i < n && self.wakeup_times[i].0 < time
            invariant
                i <= n,
                n == self.wakeup_times@.len(),
                s == self.entries(),
                s.len() == n,
                forall|j: int| 0 <= j < i ==> #[trigger] s[j].0 < time,
            decreases n - i,
        {
            i += 1;
        }
        assert(0 <= i <= s.len() && (forall|j: int| 0 <= j < i ==> #[trigger] s[j].0 < time) && (i
            < s.len() ==> time <= s[i as int].0));
        if i < n && self.wakeup_times[i].0 == time {
            let (t, mut wakers) = self.wakeup_times.remove(i);
            wakers.push(waker);
            self.wakeup_times.insert(i, (t, wakers));
            assert(self.entries() =~= s.update(i as int, (time, s[i as int].1.push(waker))));
        } else {
            let mut wakers = Vec::new();
            wakers.push(waker);
            self.wakeup_times.insert(i, (time, wakers));
            assert(self.entries() =~= s.insert(i as int, (time, seq![waker])));
        }
        proof {
            let t = self.entries();
            assert forall|a: int, b: int| 0 <= a < b < t.len() implies #[trigger] t[a].0
                < #[trigger] t[b].0 by {
                if i < s.len() && s[i as int].0 == time {
                    assert(s[a].0 < s[b].0);
                } else {
                    if b < i {
                        assert(s[a].0 < s[b].0);
                    } else if b == i {
                    } else if a < i {
                        assert(s[a].0 < time);
                        assert(time <= s[b - 1].0);
                    } else if a == i {
                        assert(time <= s[i as int].0);
                        if b - 1 > i {
                            assert(s[i as int].0 < s[b - 1].0);
                        }
                    } else {
                        assert(s[a - 1].0 < s[b - 1].0);
                    }
                }
            }
        }
    }

    /// Takes out every tick that has come, `time` included, and returns the wakers
    /// waiting for them, earliest tick first, for the caller to wake.
    pub fn wakeup_if_neccessary(&mut self, time: usize) -> (r: Vec<W>)
        requires
            old(self).wf(),
        ensures
            final(self).wf(),
            ({
                let s = old(self).entries();
                let n = due_count(s, time);
                &&& 0 <= n <= s.len()
                &&& forall|j: int| 0 <= j < n ==> #[trigger] s[j].0 <= time
                &&& forall|j: int| n <= j < s.len() ==> #[trigger] s[j].0 > time
                &&& r@ == flatten(s.take(n))
                &&& final(self).entries() == s.skip(n)
            }),
    {
        let ghost s = self.entries();
        assert(s.skip(0) =~= s);
        let len = self.wakeup_times.len();
        let mut last_idx: usize = 0;
        while last_idx < len && self.wakeup_times[last_idx].0 <= time
            invariant
                last_idx <= len,
                len == self.wakeup_times@.len(),
                s == self.entries(),
                s.len() == len,
                ticks_increase(s),
                forall|j: int| 0 <= j < last_idx ==> #[trigger] s[j].0 <= time,
                due_count(s, time) == last_idx + due_count(s.skip(last_idx as int), time),
            decreases len - last_idx,
        {
            proof {
                assert(s.skip(last_idx as int).drop_first() =~= s.skip(last_idx + 1));
            }
            last_idx += 1;
        }
        proof {
            if last_idx < len {
                assert forall|j: int| last_idx <= j < s.len() implies #[trigger] s[j].0 > time by {
                    if j > last_idx {
                        assert(s[last_idx as int].0 < s[j].0);
                    }
                }
            }
        }
        let mut due = self.wakeup_times.split_off(last_idx);
        core::mem::swap(&mut due, &mut self.wakeup_times);
        let ghost d = s.take(last_idx as int);
        proof {
            assert(self.entries() =~= s.skip(last_idx as int));
            assert(entries_of(due@) =~= d);
        }
        let mut woken: Vec<W> = Vec::new();
        let mut j: usize = 0;
        while j < last_idx
            invariant
                j <= last_idx,
                last_idx <= s.len(),
                d == s.take(last_idx as int),
                due@.len() == last_idx - j,
                entries_of(due@) == d.skip(j as int),
                woken@ == flatten(d.take(j as int)),
            decreases last_idx - j,
        {
            let ghost before = due@;
            let (_, mut wakers) = due.remove(0);
            proof {
                assert(d.skip(j as int)[0] == (before[0].0, before[0].1@));
                assert(wakers@ == d[j as int].1);
                assert(d.take(j + 1).drop_last() =~= d.take(j as int));
                assert(d.take(j + 1).last() == d[j as int]);
                assert forall|k: int| 0 <= k < due@.len() implies #[trigger] entries_of(due@)[k] == d.skip(j + 1)[k] by {
                    assert(due@[k] == before[k + 1]);
                    assert(d.skip(j as int)[k + 1] == (before[k + 1].0, before[k + 1].1@));
                }
                assert(entries_of(due@) =~= d.skip(j + 1));
            }
            woken.append(&mut wakers);
            j += 1;
        }
        proof {
            assert(d.take(last_idx as int) =~= d);
        }
        woken
    }
}

} // verus!
