//! Crunch points: dates on which task deadlines pile up, scored by the
//! effort of the tasks due that day.

use vstd::prelude::*;
use crate::action_item::Effort;
use crate::dates::Date;
use crate::extractors::tasks::Task;

verus! {

/// The numeric score one effort level contributes to a crunch point.
pub open spec fn effort_score(effort: Effort) -> u32 {
    match effort {
        Effort::Total => 10u32,
        Effort::High => 4u32,
        Effort::Medium => 2u32,
        Effort::Low => 1u32,
        Effort::Minimal => 0u32,
    }
}

/// Converts the given effort level to its numeric crunch-point score.
pub fn effort_to_numeric(effort: &Effort) -> (r: u32)
    ensures
        r == effort_score(*effort),
{
    match effort {
        Effort::Total => 10,
        Effort::High => 4,
        Effort::Medium => 2,
        Effort::Low => 1,
        Effort::Minimal => 0,
    }
}

/// A sum that stops at the largest representable value.
pub open spec fn sat_add(a: u32, b: u32) -> u32 {
    if a + b > u32::MAX {
        u32::MAX
    } else {
        (a + b) as u32
    }
}

/// Accumulated effort scores, one entry per date with a deadline.
pub struct CrunchPoints {
    pub inner: Vec<(Date, u32)>,
}

impl CrunchPoints {
    /// Dates are pairwise distinct.
    pub open spec fn wf(self) -> bool {
        forall|i: int, j: int|
            0 <= i < j < self.inner@.len() ==> #[trigger] self.inner@[i].0 != #[trigger] self.inner@[j].0
    }

    pub open spec fn has_date(self, d: Date) -> bool {
        exists|i: int| 0 <= i < self.inner@.len() && #[trigger] self.inner@[i].0 == d
    }

    pub open spec fn index_of(self, d: Date) -> int {
        choose|i: int| 0 <= i < self.inner@.len() && #[trigger] self.inner@[i].0 == d
    }

    /// The accumulated score of a date (zero when it has no entry).
    pub open spec fn score_at(self, d: Date) -> u32 {
        if self.has_date(d) {
            self.inner@[self.index_of(d)].1
        } else {
            0u32
        }
    }

    /// Creates a new, empty set of crunch points.
    pub fn new() -> (r: CrunchPoints)
        ensures
            r.wf(),
            r.inner@.len() == 0,
            forall|d: Date| !r.has_date(d),
    {
        CrunchPoints { inner: Vec::new() }
    }

    /// Accumulates the given task into this set of crunch points: a task
    /// with a deadline adds its effort score to that deadline's date.
    pub fn accumulate(self, task: &Task) -> (r: CrunchPoints)
        requires
            self.wf(),
        ensures
            r.wf(),
            match task.deadline {
                Some(m) => {
                    &&& r.has_date(m.date)
                    &&& r.score_at(m.date) == sat_add(
                        self.score_at(m.date),
                        effort_score(task.effort),
                    )
                    &&& forall|d: Date|
                        d != m.date ==> #[trigger] r.has_date(d) == self.has_date(d)
                    &&& forall|d: Date| d != m.date ==> #[trigger] r.score_at(d) == self.score_at(d)
                },
                None => r == self,
            },
    {
        let ghost old_self = self;
        match &task.deadline {
            Some(m) => {
                let mut inner = self.inner;
                let score = effort_to_numeric(&task.effort);
                let mut i: usize = 0;
                while i < inner.len()
                    invariant
                        old_self == self,
                        inner == old_self.inner,
                        old_self.wf(),
                        i <= inner@.len(),
                        forall|j: int| 0 <= j < i ==> #[trigger] inner@[j].0 != m.date,
                        task.deadline == Some(*m),
                        score == effort_score(task.effort),
                    decreases inner@.len() - i,
                {
                    if inner[i].0.year == m.date.year && inner[i].0.month == m.date.month
                        && inner[i].0.day == m.date.day {
                        proof {
                            assert(old_self.inner@[i as int].0 == m.date);
                        }
                        let old_score = inner[i].1;
                        let new_score = if old_score > u32::MAX - score {
                            u32::MAX
                        } else {
                            old_score + score
                        };
                        inner[i] = (m.date, new_score);
                        let r = CrunchPoints { inner };
                        proof {
                            assert(inner@[i as int].0 == m.date);
                            lemma_crunch_update(old_self, r, i as int, m.date, new_score);
                            assert(r.wf());
                            assert(r.has_date(m.date));
                            assert(old_self.score_at(m.date) == old_score);
                            assert(r.score_at(m.date) == new_score);
                            assert(new_score == sat_add(old_score, score));
                            assert(score == effort_score(task.effort));
                            assert(forall|d: Date|
                                d != m.date ==> #[trigger] r.has_date(d) == old_self.has_date(d));
                            assert(forall|d: Date|
                                d != m.date ==> #[trigger] r.score_at(d) == old_self.score_at(d));
                        }
                        return r;
                    }
                    i = i + 1;
                }
                inner.push((m.date, score));
                let r = CrunchPoints { inner };
                proof {
                    assert(!old_self.has_date(m.date));
                    assert(forall|j: int|
                        0 <= j < old_self.inner@.len() ==> r.inner@[j] == old_self.inner@[j]);
                    assert(r.wf());
                    assert(r.inner@[r.inner@.len() - 1].0 == m.date);
                    assert(r.has_date(m.date));
                    lemma_crunch_grown(old_self, r, m.date, score);
                }
                return r;
            },
            None => self,
        }
    }
}

/// After updating position `i` in place, only that date's score changed.
proof fn lemma_crunch_update(a: CrunchPoints, r: CrunchPoints, i: int, d: Date, v: u32)
    requires
        a.wf(),
        0 <= i < a.inner@.len(),
        a.inner@[i].0 == d,
        r.inner@ == a.inner@.update(i, (d, v)),
    ensures
        r.wf(),
        r.has_date(d),
        r.score_at(d) == v,
        a.has_date(d),
        a.score_at(d) == a.inner@[i].1,
        forall|x: Date| x != d ==> #[trigger] r.has_date(x) == a.has_date(x),
        forall|x: Date| x != d ==> #[trigger] r.score_at(x) == a.score_at(x),
{
    assert(r.inner@[i].0 == d);
    assert(r.has_date(d));
    let j = r.index_of(d);
    assert(r.inner@[j].0 == d);
    assert(forall|k: int| 0 <= k < r.inner@.len() && k != i ==> r.inner@[k] == a.inner@[k]);
    assert(j == i);
    let j2 = a.index_of(d);
    assert(a.inner@[j2].0 == d);
    assert(j2 == i);
    assert forall|x: Date| x != d implies #[trigger] r.has_date(x) == a.has_date(x) by {
        if a.has_date(x) {
            let k = a.index_of(x);
            assert(k != i);
            assert(r.inner@[k].0 == x);
        }
        if r.has_date(x) {
            let k = r.index_of(x);
            assert(k != i);
            assert(a.inner@[k].0 == x);
        }
    };
    assert forall|x: Date| x != d implies #[trigger] r.score_at(x) == a.score_at(x) by {
        if a.has_date(x) {
            let k = a.index_of(x);
            assert(k != i);
            assert(r.inner@[k].0 == x);
            assert(r.has_date(x));
            let k2 = r.index_of(x);
            assert(k2 == k);
        }
    };
}

/// After appending a fresh date, only that date gained an entry.
proof fn lemma_crunch_grown(a: CrunchPoints, r: CrunchPoints, d: Date, v: u32)
    requires
        a.wf(),
        !a.has_date(d),
        r.inner@ == a.inner@.push((d, v)),
    ensures
        r.wf(),
        r.has_date(d),
        r.score_at(d) == v,
        forall|x: Date| x != d ==> #[trigger] r.has_date(x) == a.has_date(x),
        forall|x: Date| x != d ==> #[trigger] r.score_at(x) == a.score_at(x),
{
    let n = a.inner@.len() as int;
    assert(r.inner@[n].0 == d);
    assert(r.has_date(d));
    assert(forall|k: int| 0 <= k < n ==> r.inner@[k] == a.inner@[k]);
    let j = r.index_of(d);
    assert(r.inner@[j].0 == d);
    assert(j == n);
    assert forall|x: Date| x != d implies #[trigger] r.has_date(x) == a.has_date(x) by {
        if a.has_date(x) {
            let k = a.index_of(x);
            assert(r.inner@[k].0 == x);
        }
        if r.has_date(x) {
            let k = r.index_of(x);
            assert(k != n);
            assert(a.inner@[k].0 == x);
        }
    };
    assert forall|x: Date| x != d implies #[trigger] r.score_at(x) == a.score_at(x) by {
        if a.has_date(x) {
            let k = a.index_of(x);
            assert(r.inner@[k].0 == x);
            assert(r.has_date(x));
            let k2 = r.index_of(x);
            assert(k2 == k);
        }
    };
}

} // verus!
