//! The target contexts of a date: the deduplicated, lexicographically sorted
//! list of context strings required to complete every low-or-lesser-effort
//! task due by that date.

use vstd::prelude::*;
use crate::action_item::Effort;
use crate::dates::{moment_le, Date, Moment, END_OF_DAY_SECS};
use crate::extractors::tasks::Task;
use crate::strutil::{chars_lt, seq_has_str, str_eq, str_lt};

verus! {

/// Strictly increasing in code-point order, hence duplicate-free.
pub open spec fn sorted_unique(v: Seq<String>) -> bool {
    forall|i: int, j: int| 0 <= i < j < v.len() ==> chars_lt(#[trigger] v[i]@, #[trigger] v[j]@)
}

/// The task needs doing by the end of the target date with low or lesser
/// effort.
pub open spec fn task_due(t: Task, until: Date) -> bool {
    t.effort.rank_spec() <= Effort::Low.rank_spec() && match t.deadline {
        Some(m) => moment_le(m, Moment { date: until, secs: END_OF_DAY_SECS }),
        None => false,
    }
}

proof fn lemma_chars_trichotomy(a: Seq<char>, b: Seq<char>)
    ensures
        chars_lt(a, b) || chars_lt(b, a) || a == b,
    decreases a.len(),
{
    if b.len() == 0 {
        if a.len() == 0 {
            assert(a =~= b);
        }
    } else if a.len() == 0 {
    } else if a[0] == b[0] {
        lemma_chars_trichotomy(a.drop_first(), b.drop_first());
        if a.drop_first() == b.drop_first() {
            assert(a.drop_first().len() == a.len() - 1);
            assert(b.drop_first().len() == b.len() - 1);
            assert(a.len() == b.len());
            assert forall|i: int| 0 <= i < a.len() implies a[i] == b[i] by {
                if i > 0 {
                    assert(a[i] == a.drop_first()[i - 1]);
                    assert(b[i] == b.drop_first()[i - 1]);
                }
            };
            assert(a =~= b);
        }
    }
}

proof fn lemma_chars_lt_trans(a: Seq<char>, b: Seq<char>, c: Seq<char>)
    requires
        chars_lt(a, b),
        chars_lt(b, c),
    ensures
        chars_lt(a, c),
    decreases a.len(),
{
    if a.len() == 0 {
    } else {
        // b and c are non-empty here, or one of the hypotheses fails.
        if a[0] == b[0] {
            if b[0] == c[0] {
                lemma_chars_lt_trans(a.drop_first(), b.drop_first(), c.drop_first());
            }
        }
    }
}

/// Inserts `s` into a strictly sorted list at its place, unless an equal
/// string is already there: afterwards the list holds exactly the old
/// strings and `s`.
fn insert_sorted_unique(v: &mut Vec<String>, s: String)
    requires
        sorted_unique(old(v)@),
    ensures
        sorted_unique(final(v)@),
        forall|x: Seq<char>|
            #[trigger] seq_has_str(final(v)@, x) <==> (seq_has_str(old(v)@, x) || x == s@),
{
    let ghost old_v = v@;
    let mut p: usize = 0;
    while p < v.len() && str_lt(v[p].as_str(), s.as_str())
        invariant
            v@ == old_v,
            sorted_unique(old_v),
            p <= v@.len(),
            forall|j: int| 0 <= j < p ==> chars_lt(#[trigger] v@[j]@, s@),
        decreases v@.len() - p,
    {
        p = p + 1;
    }
    if p < v.len() && str_eq(v[p].as_str(), s.as_str()) {
        proof {
            assert forall|x: Seq<char>| #[trigger] seq_has_str(v@, x) <==> (seq_has_str(old_v, x)
                || x == s@) by {
                if x == s@ {
                    assert(v@[p as int]@ == x);
                    assert(seq_has_str(v@, x));
                }
            };
        }
        return ;
    }
    proof {
        if p < old_v.len() {
            lemma_chars_trichotomy(old_v[p as int]@, s@);
            assert(chars_lt(s@, old_v[p as int]@));
        }
    }
    v.insert(p, s);
    proof {
        let new_v = v@;
        assert(new_v == old_v.insert(p as int, s));
        assert(new_v[p as int] == s);
        assert(forall|j: int| 0 <= j < p ==> new_v[j] == old_v[j]);
        assert(forall|j: int| p < j < new_v.len() ==> new_v[j] == old_v[j - 1]);
        assert forall|i: int, j: int| 0 <= i < j < new_v.len() implies chars_lt(
            #[trigger] new_v[i]@,
            #[trigger] new_v[j]@,
        ) by {
            if j < p {
                assert(chars_lt(old_v[i]@, old_v[j]@));
            } else if j == p {
                assert(chars_lt(old_v[i]@, s@));
            } else if i == p {
                // s goes before the first entry not below it, and the tail
                // stays above that entry.
                assert(chars_lt(s@, old_v[p as int]@));
                if j > p + 1 {
                    assert(chars_lt(old_v[p as int]@, old_v[j - 1]@));
                    lemma_chars_lt_trans(s@, old_v[p as int]@, old_v[j - 1]@);
                }
            } else if i < p {
                assert(i < j - 1);
                assert(chars_lt(old_v[i]@, old_v[j - 1]@));
            } else {
                assert(chars_lt(old_v[i - 1]@, old_v[j - 1]@));
            }
        };
        assert forall|x: Seq<char>| #[trigger] seq_has_str(new_v, x) <==> (seq_has_str(old_v, x)
            || x == s@) by {
            if seq_has_str(new_v, x) {
                let k = choose|k: int| 0 <= k < new_v.len() && new_v[k]@ == x;
                if k == p {
                } else if k < p {
                    assert(old_v[k]@ == x);
                } else {
                    assert(old_v[k - 1]@ == x);
                }
            }
            if seq_has_str(old_v, x) {
                let k = choose|k: int| 0 <= k < old_v.len() && old_v[k]@ == x;
                if k < p {
                    assert(new_v[k]@ == x);
                } else {
                    assert(new_v[k + 1]@ == x);
                }
            }
            if x == s@ {
                assert(new_v[p as int]@ == x);
            }
        };
    }
}

/// A context needed by some low-or-lesser-effort task due by `until`.
pub open spec fn in_targets(ts: Seq<Task>, until: Date, s: Seq<char>) -> bool {
    exists|i: int, c: int|
        #![trigger ts[i].contexts@[c]]
        {
            &&& 0 <= i < ts.len()
            &&& task_due(ts[i], until)
            &&& 0 <= c < ts[i].contexts@.len()
            &&& ts[i].contexts@[c]@ == s
        }
}

/// Computes the contexts needed to complete all low-or-lesser-effort tasks
/// due by the given date: deduplicated and sorted in code-point order.
pub fn target_contexts(tasks: &Vec<Task>, until: Date) -> (r: Vec<String>)
    ensures
        sorted_unique(r@),
        forall|s: Seq<char>| #[trigger] seq_has_str(r@, s) <==> in_targets(tasks@, until, s),
{
    let mut out: Vec<String> = Vec::new();
    let mut i: usize = 0;
    while i < tasks.len()
        invariant
            i <= tasks@.len(),
            sorted_unique(out@),
            forall|s: Seq<char>|
                #[trigger] seq_has_str(out@, s) <==> in_targets(tasks@.take(i as int), until, s),
        decreases tasks@.len() - i,
    {
        let t = &tasks[i];
        let due = t.effort.rank() <= 1 && match t.deadline {
            Some(m) => crate::dates::moment_le_x(
                &m,
                &Moment { date: until, secs: END_OF_DAY_SECS },
            ),
            None => false,
        };
        proof {
            assert(due == task_due(tasks@[i as int], until));
        }
        if due {
            let mut c: usize = 0;
            while c < t.contexts.len()
                invariant
                    i < tasks@.len(),
                    t == tasks@[i as int],
                    task_due(tasks@[i as int], until),
                    c <= t.contexts@.len(),
                    sorted_unique(out@),
                    forall|s: Seq<char>|
                        #[trigger] seq_has_str(out@, s) <==> (in_targets(
                            tasks@.take(i as int),
                            until,
                            s,
                        ) || exists|c2: int|
                            0 <= c2 < c && (#[trigger] t.contexts@[c2])@ == s),
                decreases t.contexts@.len() - c,
            {
                let ghost old_out = out@;
                insert_sorted_unique(&mut out, t.contexts[c].clone());
                proof {
                    assert forall|s: Seq<char>| #[trigger] seq_has_str(out@, s) <==> (in_targets(
                        tasks@.take(i as int),
                        until,
                        s,
                    ) || exists|c2: int|
                        0 <= c2 < c + 1 && (#[trigger] t.contexts@[c2])@ == s) by {
                        if seq_has_str(out@, s) {
                            assert(seq_has_str(old_out, s) || s == t.contexts@[c as int]@);
                        }
                        if s == t.contexts@[c as int]@ {
                            assert(0 <= c < c + 1 && t.contexts@[c as int]@ == s);
                        }
                        if exists|c2: int| 0 <= c2 < c && (#[trigger] t.contexts@[c2])@ == s {
                            assert(seq_has_str(old_out, s));
                        }
                    };
                }
                c = c + 1;
            }
            proof {
                lemma_targets_take_step(tasks@, until, i as int, out@, t.contexts@.len() as int);
            }
        } else {
            proof {
                assert forall|s: Seq<char>| #[trigger] seq_has_str(out@, s) <==> in_targets(
                    tasks@.take(i + 1),
                    until,
                    s,
                ) by {
                    lemma_targets_take_bridge(tasks@, until, i as int, s);
                };
            }
        }
        i = i + 1;
    }
    proof {
        assert(tasks@.take(tasks@.len() as int) =~= tasks@);
    }
    out
}

/// Membership in the targets of one more task splits into the previous
/// targets and that task's own contexts.
proof fn lemma_targets_take_bridge(ts: Seq<Task>, until: Date, i: int, s: Seq<char>)
    requires
        0 <= i < ts.len(),
    ensures
        in_targets(ts.take(i + 1), until, s) <==> (in_targets(ts.take(i), until, s) || (task_due(
            ts[i],
            until,
        ) && exists|c: int| 0 <= c < ts[i].contexts@.len() && (#[trigger] ts[i].contexts@[c])@
            == s)),
{
    let a = ts.take(i);
    let b = ts.take(i + 1);
    assert(forall|j: int| 0 <= j < a.len() ==> a[j] == ts[j]);
    assert(forall|j: int| 0 <= j < b.len() ==> b[j] == ts[j]);
    if in_targets(b, until, s) {
        let (j, c) = choose|j: int, c: int|
            #![trigger b[j].contexts@[c]]
            {
                &&& 0 <= j < b.len()
                &&& task_due(b[j], until)
                &&& 0 <= c < b[j].contexts@.len()
                &&& b[j].contexts@[c]@ == s
            };
        if j < i {
            assert(a[j].contexts@[c]@ == s);
            assert(in_targets(a, until, s));
        } else {
            assert(ts[i].contexts@[c]@ == s);
        }
    }
    if in_targets(a, until, s) {
        let (j, c) = choose|j: int, c: int|
            #![trigger a[j].contexts@[c]]
            {
                &&& 0 <= j < a.len()
                &&& task_due(a[j], until)
                &&& 0 <= c < a[j].contexts@.len()
                &&& a[j].contexts@[c]@ == s
            };
        assert(b[j].contexts@[c]@ == s);
        assert(in_targets(b, until, s));
    }
    if task_due(ts[i], until) && exists|c: int|
        0 <= c < ts[i].contexts@.len() && (#[trigger] ts[i].contexts@[c])@ == s {
        let c = choose|c: int| 0 <= c < ts[i].contexts@.len() && (#[trigger] ts[i].contexts@[c])@
            == s;
        assert(b[i].contexts@[c]@ == s);
        assert(in_targets(b, until, s));
    }
}

/// After folding all contexts of a due task into the list, membership equals
/// the targets of one more task.
proof fn lemma_targets_take_step(ts: Seq<Task>, until: Date, i: int, outv: Seq<String>, n: int)
    requires
        0 <= i < ts.len(),
        task_due(ts[i], until),
        n == ts[i].contexts@.len(),
        forall|s: Seq<char>|
            #[trigger] seq_has_str(outv, s) <==> (in_targets(ts.take(i), until, s) || exists|
                c2: int,
            |
                0 <= c2 < n && (#[trigger] ts[i].contexts@[c2])@ == s),
    ensures
        forall|s: Seq<char>| #[trigger] seq_has_str(outv, s) <==> in_targets(ts.take(i + 1), until, s),
{
    assert forall|s: Seq<char>| #[trigger] seq_has_str(outv, s) <==> in_targets(
        ts.take(i + 1),
        until,
        s,
    ) by {
        lemma_targets_take_bridge(ts, until, i, s);
    };
}

} // verus!
