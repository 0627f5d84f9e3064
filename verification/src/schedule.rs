//! Automatic refreshing: when each module is due for an update.
use vstd::prelude::*;

use crate::module_trait::{effective_interval, PanelModule};
use crate::registry::ModuleRegistry;
use crate::text::str_eq;

verus! {

/// One pass over the listed modules at time `now` (milliseconds): a paused
/// module is skipped; a module seen for the first time starts its clock now;
/// a module whose interval (seconds) has elapsed in whole seconds is due and
/// its clock restarts. Returns the new clocks and the due ids, in list order.
pub open spec fn sched_spec<M: PanelModule>(
    reg: &ModuleRegistry<M>,
    last: Map<Seq<char>, u64>,
    now: u64,
    k: int,
) -> (Map<Seq<char>, u64>, Seq<Seq<char>>)
    decreases k,
{
    if k <= 0 {
        (last, Seq::empty())
    } else {
        let (m, d) = sched_spec(reg, last, now, k - 1);
        let id = reg.listed()[k - 1];
        let iv = effective_interval(&reg.module_of(id));
        if iv == 0 {
            (m, d)
        } else {
            let t = if m.contains_key(id) { m[id] } else { now };
            let elapsed = if now >= t { (now - t) / 1000 } else { 0 };
            if elapsed >= iv {
                (m.insert(id, now), d.push(id))
            } else {
                (m.insert(id, t), d)
            }
        }
    }
}

/// The time (milliseconds) each module was last updated.
pub struct RefreshSchedule {
    last: Vec<(String, u64)>,
}

impl View for RefreshSchedule {
    type V = Map<Seq<char>, u64>;

    closed spec fn view(&self) -> Map<Seq<char>, u64> {
        Map::new(
            |k: Seq<char>| exists|i: int| 0 <= i < self.last@.len() && self.last@[i].0@ == k,
            |k: Seq<char>|
                self.last@[choose|i: int| 0 <= i < self.last@.len() && self.last@[i].0@ == k].1,
        )
    }
}

impl RefreshSchedule {
    /// Each id occurs once.
    pub closed spec fn wf(&self) -> bool {
        forall|i: int, j: int|
            0 <= i < self.last@.len() && 0 <= j < self.last@.len() && i != j ==> self.last@[i].0@
                != self.last@[j].0@
    }

    pub fn new() -> (r: Self)
        ensures
            r.wf(),
            r@ == Map::<Seq<char>, u64>::empty(),
    {
        let r = RefreshSchedule { last: Vec::new() };
        assert(r@ =~= Map::<Seq<char>, u64>::empty());
        r
    }

    fn find(&self, id: &str) -> (r: Option<usize>)
        requires
            self.wf(),
        ensures
            match r {
                Some(i) => i < self.last@.len() && self.last@[i as int].0@ == id@ && self@.contains_key(
                    id@,
                ) && self@[id@] == self.last@[i as int].1,
                None => !self@.contains_key(id@),
            },
    {
        let mut i: usize = 0;
        while i < self.last.len()
            invariant
                i <= self.last.len(),
                self.wf(),
                forall|j: int| 0 <= j < i ==> self.last@[j].0@ != id@,
            decreases self.last.len() - i,
        {
            if str_eq(self.last[i].0.as_str(), id) {
                proof {
                    assert(self@.contains_key(id@));
                    let c = choose|j: int| 0 <= j < self.last@.len() && self.last@[j].0@ == id@;
                    assert(c == i);
                }
                return Some(i);
            }
            i = i + 1;
        }
        None
    }

    fn record(&mut self, id: &String, t: u64)
        requires
            old(self).wf(),
        ensures
            final(self).wf(),
            final(self)@ == old(self)@.insert(id@, t),
    {
        match self.find(id.as_str()) {
            Some(i) => {
                self.last.set(i, (id.clone(), t));
                proof {
                    assert forall|k: Seq<char>| #[trigger] self@.contains_key(k) == old(self)@.insert(
                        id@,
                        t,
                    ).contains_key(k) by {
                        if k == id@ {
                            assert(self.last@[i as int].0@ == k);
                        } else if old(self)@.contains_key(k) {
                            let c = choose|j: int| 0 <= j < old(self).last@.len() && old(self).last@[j].0@ == k;
                            assert(self.last@[c].0@ == k);
                        } else if self@.contains_key(k) {
                            let c = choose|j: int| 0 <= j < self.last@.len() && self.last@[j].0@ == k;
                            assert(old(self).last@[c].0@ == k);
                        }
                    }
                    assert forall|k: Seq<char>| #[trigger] self@.contains_key(k) implies self@[k]
                        == old(self)@.insert(id@, t)[k] by {
                        let c = choose|j: int| 0 <= j < self.last@.len() && self.last@[j].0@ == k;
                        if k == id@ {
                            assert(c == i);
                        } else {
                            let d = choose|j: int| 0 <= j < old(self).last@.len() && old(self).last@[j].0@ == k;
                            assert(self.last@[d].0@ == k);
                            assert(c == d);
                        }
                    }
                    assert(self@ =~= old(self)@.insert(id@, t));
                }
            },
            None => {
                self.last.push((id.clone(), t));
                proof {
                    let n = old(self).last@.len();
                    assert forall|k: Seq<char>| #[trigger] self@.contains_key(k) == old(self)@.insert(
                        id@,
                        t,
                    ).contains_key(k) by {
                        if k == id@ {
                            assert(self.last@[n as int].0@ == k);
                        } else if old(self)@.contains_key(k) {
                            let c = choose|j: int| 0 <= j < old(self).last@.len() && old(self).last@[j].0@ == k;
                            assert(self.last@[c].0@ == k);
                        } else if self@.contains_key(k) {
                            let c = choose|j: int| 0 <= j < self.last@.len() && self.last@[j].0@ == k;
                            assert(old(self).last@[c].0@ == k);
                        }
                    }
                    assert forall|k: Seq<char>| #[trigger] self@.contains_key(k) implies self@[k]
                        == old(self)@.insert(id@, t)[k] by {
                        let c = choose|j: int| 0 <= j < self.last@.len() && self.last@[j].0@ == k;
                        if k == id@ {
                            assert(c == n);
                        } else {
                            let d = choose|j: int| 0 <= j < old(self).last@.len() && old(self).last@[j].0@ == k;
                            assert(self.last@[d].0@ == k);
                            assert(c == d);
                        }
                    }
                    assert(self@ =~= old(self)@.insert(id@, t));
                }
            },
        }
    }

    /// The ids of the listed modules due for an update at `now` (milliseconds
    /// on a clock that does not go back); their clocks restart at `now`.
    pub fn due<M: PanelModule>(&mut self, reg: &ModuleRegistry<M>, now: u64) -> (r: Vec<String>)
        requires
            old(self).wf(),
            reg.wf(),
        ensures
            final(self).wf(),
            (final(self)@, r@.map_values(|s: String| s@)) == sched_spec(
                reg,
                old(self)@,
                now,
                reg.listed().len() as int,
            ),
    {
        let mods = reg.modules();
        let mut r: Vec<String> = Vec::new();
        let mut i: usize = 0;
        while i < mods.len()
            invariant
                self.wf(),
                reg.wf(),
                i <= mods.len(),
                mods@.len() == reg.listed().len(),
                forall|j: int|
                    0 <= j < mods@.len() ==> (#[trigger] mods@[j]).0@ == reg.listed()[j] && *mods@[j].1
                        == reg.module_of(reg.listed()[j]),
                (self@, r@.map_values(|s: String| s@)) == sched_spec(reg, old(self)@, now, i as int),
            decreases mods.len() - i,
        {
            let (id, m) = mods[i];
            let interval = m.refresh_interval();
            if interval != 0 {
                let t = match self.find(id.as_str()) {
                    Some(k) => self.last[k].1,
                    None => now,
                };
                let elapsed = if now >= t { (now - t) / 1000 } else { 0 };
                if elapsed >= interval {
                    self.record(id, now);
                    let ghost before = r@;
                    r.push(id.clone());
                    assert(r@.map_values(|s: String| s@) =~= before.map_values(|s: String| s@).push(
                        id@,
                    ));
                } else {
                    self.record(id, t);
                }
            }
            i = i + 1;
        }
        r
    }
}

/// A paused module is never due: every id a pass returns belongs to a
/// module whose interval in effect is not 0.
pub proof fn law_paused_never_due<M: PanelModule>(
    reg: &ModuleRegistry<M>,
    last: Map<Seq<char>, u64>,
    now: u64,
    k: int,
)
    ensures
        forall|j: int|
            0 <= j < sched_spec(reg, last, now, k).1.len() ==> effective_interval(
                &reg.module_of(#[trigger] sched_spec(reg, last, now, k).1[j]),
            ) > 0,
    decreases k,
{
    if k > 0 {
        law_paused_never_due(reg, last, now, k - 1);
        let d = sched_spec(reg, last, now, k - 1).1;
        let d2 = sched_spec(reg, last, now, k).1;
        assert forall|j: int| 0 <= j < d2.len() implies effective_interval(
            &reg.module_of(#[trigger] d2[j]),
        ) > 0 by {
            if j < d.len() {
                assert(d2[j] == d[j]);
                assert(effective_interval(&reg.module_of(d[j])) > 0);
            }
        }
    }
}

/// The clock of `id` when a pass starts: its last update, or `now` for a
/// module not seen before.
pub open spec fn clock_of(last: Map<Seq<char>, u64>, id: Seq<char>, now: u64) -> u64 {
    if last.contains_key(id) {
        last[id]
    } else {
        now
    }
}

/// Whole seconds from `t` to `now` (0 when the clock went back).
pub open spec fn elapsed_secs(t: u64, now: u64) -> int {
    if now >= t {
        (now - t) / 1000
    } else {
        0
    }
}

/// What one pass does to one module `id`, whose interval in effect is `iv`:
/// its clock afterwards, and whether it is due.
pub open spec fn module_outcome(last: Map<Seq<char>, u64>, id: Seq<char>, now: u64, iv: u64) -> (Option<u64>, bool) {
    if iv == 0 {
        (if last.contains_key(id) { Some(last[id]) } else { None }, false)
    } else {
        let t = clock_of(last, id, now);
        if elapsed_secs(t, now) >= iv {
            (Some(now), true)
        } else {
            (Some(t), false)
        }
    }
}

proof fn lemma_sched_at<M: PanelModule>(
    reg: &ModuleRegistry<M>,
    last: Map<Seq<char>, u64>,
    now: u64,
    k: int,
    p: int,
)
    requires
        reg.listed().no_duplicates(),
        0 <= p < reg.listed().len(),
        0 <= k <= reg.listed().len(),
    ensures
        ({
            let id = reg.listed()[p];
            let (m, d) = sched_spec(reg, last, now, k);
            let o = if k <= p {
                (if last.contains_key(id) { Some(last[id]) } else { None }, false)
            } else {
                module_outcome(last, id, now, effective_interval(&reg.module_of(id)))
            };
            &&& o.0 == (if m.contains_key(id) { Some(m[id]) } else { None })
            &&& o.1 == d.contains(id)
        }),
    decreases k,
{
    let id = reg.listed()[p];
    if k > 0 {
        lemma_sched_at(reg, last, now, k - 1, p);
        let (m, d) = sched_spec(reg, last, now, k - 1);
        let x = reg.listed()[k - 1];
        if k - 1 != p {
            assert(x != id);
        }
        let (m2, d2) = sched_spec(reg, last, now, k);
        assert(d2 == d || d2 == d.push(x));
        if d2 == d.push(x) {
            assert(d2.contains(id) == (d.contains(id) || x == id)) by {
                if d.contains(id) {
                    let i = choose|i: int| 0 <= i < d.len() && d[i] == id;
                    assert(d2[i] == id);
                }
                if x == id {
                    assert(d2[d.len() as int] == id);
                }
                if d2.contains(id) && x != id {
                    let i = choose|i: int| 0 <= i < d2.len() && d2[i] == id;
                    assert(i < d.len());
                    assert(d[i] == id);
                }
            }
        }
    }
}

proof fn lemma_sched_from_listed<M: PanelModule>(
    reg: &ModuleRegistry<M>,
    last: Map<Seq<char>, u64>,
    now: u64,
    k: int,
)
    requires
        reg.listed().no_duplicates(),
        0 <= k <= reg.listed().len(),
    ensures
        sched_spec(reg, last, now, k).1.no_duplicates(),
        forall|i: int|
            0 <= i < sched_spec(reg, last, now, k).1.len() ==> exists|j: int|
                0 <= j < k && reg.listed()[j] == #[trigger] sched_spec(reg, last, now, k).1[i],
    decreases k,
{
    if k > 0 {
        lemma_sched_from_listed(reg, last, now, k - 1);
        let d = sched_spec(reg, last, now, k - 1).1;
        let d2 = sched_spec(reg, last, now, k).1;
        let x = reg.listed()[k - 1];
        assert forall|i: int| 0 <= i < d2.len() implies exists|j: int|
            0 <= j < k && reg.listed()[j] == #[trigger] d2[i] by {
            if i < d.len() {
                assert(d2[i] == d[i]);
                let j = choose|j: int| 0 <= j < k - 1 && reg.listed()[j] == d[i];
                assert(0 <= j < k && reg.listed()[j] == d2[i]);
            } else {
                assert(d2[i] == x);
                assert(reg.listed()[k - 1] == d2[i]);
            }
        }
        if d2.len() > d.len() {
            assert forall|a: int, b: int| 0 <= a < d2.len() && 0 <= b < d2.len() && a != b implies d2[a]
                != d2[b] by {
                if a < d.len() && b < d.len() {
                    assert(d2[a] == d[a] && d2[b] == d[b]);
                } else if a < d.len() {
                    assert(d2[a] == d[a]);
                    let j = choose|j: int| 0 <= j < k - 1 && reg.listed()[j] == d[a];
                    assert(reg.listed()[j] != reg.listed()[k - 1]);
                } else if b < d.len() {
                    assert(d2[b] == d[b]);
                    let j = choose|j: int| 0 <= j < k - 1 && reg.listed()[j] == d[b];
                    assert(reg.listed()[j] != reg.listed()[k - 1]);
                }
            }
        }
    }
}

/// Each listed module is scheduled on its own (the listed ids being
/// distinct): a paused module is not due and its clock stays; any other is
/// due exactly when the whole seconds since its clock (which starts at its
/// first pass) reach its interval, and then its clock restarts at `now`;
/// no module is due twice in one pass.
pub proof fn law_schedule_per_module<M: PanelModule>(
    reg: &ModuleRegistry<M>,
    last: Map<Seq<char>, u64>,
    now: u64,
    id: Seq<char>,
)
    requires
        reg.listed().no_duplicates(),
        reg.listed().contains(id),
    ensures
        ({
            let (m, d) = sched_spec(reg, last, now, reg.listed().len() as int);
            let o = module_outcome(last, id, now, effective_interval(&reg.module_of(id)));
            &&& d.no_duplicates()
            &&& d.contains(id) == o.1
            &&& (if m.contains_key(id) { Some(m[id]) } else { None }) == o.0
        }),
{
    let p = choose|p: int| 0 <= p < reg.listed().len() && reg.listed()[p] == id;
    lemma_sched_at(reg, last, now, reg.listed().len() as int, p);
    lemma_sched_from_listed(reg, last, now, reg.listed().len() as int);
}

} // verus!
