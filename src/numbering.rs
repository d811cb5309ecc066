use crate::date::CalendarDate;
use vstd::prelude::*;

verus! {

/// A numbered entry: (doctor, day, number).
pub type NumberedEntry = (i64, CalendarDate, i64);

/// How many entries of `s` fall in the scope of doctor `d` on day `t`.
pub open spec fn count_in_scope(s: Seq<NumberedEntry>, d: i64, t: CalendarDate) -> nat
    decreases s.len(),
{
    if s.len() == 0 {
        0
    } else {
        count_in_scope(s.drop_last(), d, t) + if s.last().0 == d && s.last().1 == t {
            1nat
        } else {
            0nat
        }
    }
}

/// Each entry carries one more than the number of entries of its scope that came
/// before it: numbers are handed out 1, 2, 3, ... per scope, in order of arrival.
pub open spec fn densely_numbered(s: Seq<NumberedEntry>) -> bool {
    forall|i: int|
        0 <= i < s.len() ==> #[trigger] s[i].2 == count_in_scope(s.take(i), s[i].0, s[i].1) + 1
}

pub open spec fn in_scope(e: NumberedEntry, d: i64, t: CalendarDate) -> bool {
    e.0 == d && e.1 == t
}

/// Some entry of doctor `d`'s day `t` carries number `k`.
pub open spec fn number_used(s: Seq<NumberedEntry>, d: i64, t: CalendarDate, k: int) -> bool {
    exists|i: int| 0 <= i < s.len() && in_scope(#[trigger] s[i], d, t) && s[i].2 == k
}

pub proof fn lemma_count_step(s: Seq<NumberedEntry>, i: int, d: i64, t: CalendarDate)
    requires
        0 <= i < s.len(),
    ensures
        count_in_scope(s.take(i + 1), d, t) == count_in_scope(s.take(i), d, t) + if in_scope(
            s[i],
            d,
            t,
        ) {
            1nat
        } else {
            0nat
        },
{
    assert(s.take(i + 1).drop_last() =~= s.take(i));
}

pub proof fn lemma_count_monotone(s: Seq<NumberedEntry>, i: int, j: int, d: i64, t: CalendarDate)
    requires
        0 <= i <= j <= s.len(),
    ensures
        count_in_scope(s.take(i), d, t) <= count_in_scope(s.take(j), d, t),
    decreases j - i,
{
    if i < j {
        lemma_count_monotone(s, i, j - 1, d, t);
        lemma_count_step(s, j - 1, d, t);
    }
}

/// Appending an entry that carries the next number of its scope keeps the
/// numbering dense.
pub proof fn lemma_push_next(s: Seq<NumberedEntry>, e: NumberedEntry)
    requires
        densely_numbered(s),
        e.2 == count_in_scope(s, e.0, e.1) + 1,
    ensures
        densely_numbered(s.push(e)),
        forall|d: i64, t: CalendarDate|
            #![trigger count_in_scope(s.push(e), d, t)]
            count_in_scope(s.push(e), d, t) == count_in_scope(s, d, t) + if in_scope(e, d, t) {
                1nat
            } else {
                0nat
            },
{
    let s2 = s.push(e);
    assert(s2.drop_last() =~= s);
    assert forall|i: int| 0 <= i < s2.len() implies #[trigger] s2[i].2 == count_in_scope(
        s2.take(i),
        s2[i].0,
        s2[i].1,
    ) + 1 by {
        if i < s.len() {
            assert(s2.take(i) =~= s.take(i));
        } else {
            assert(s2.take(i) =~= s);
        }
    }
}

/// Dense numbering, stated of one scope: within doctor `d`'s day `t` no number
/// is used twice, every number lies in 1..=N where N is the number of entries of
/// that scope, and every number of 1..=N is used.
pub proof fn lemma_dense_scope(s: Seq<NumberedEntry>, d: i64, t: CalendarDate)
    requires
        densely_numbered(s),
    ensures
        forall|i: int, j: int|
            0 <= i < s.len() && 0 <= j < s.len() && i != j && in_scope(s[i], d, t) && in_scope(
                s[j],
                d,
                t,
            ) ==> #[trigger] s[i].2 != #[trigger] s[j].2,
        forall|i: int|
            0 <= i < s.len() && in_scope(#[trigger] s[i], d, t) ==> 1 <= s[i].2 <= count_in_scope(
                s,
                d,
                t,
            ),
        forall|k: int| 1 <= k <= count_in_scope(s, d, t) ==> #[trigger] number_used(s, d, t, k),
    decreases s.len(),
{
    assert forall|i: int, j: int|
        0 <= i < s.len() && 0 <= j < s.len() && i != j && in_scope(s[i], d, t) && in_scope(
            s[j],
            d,
            t,
        ) implies #[trigger] s[i].2 != #[trigger] s[j].2 by {
        let (a, b) = if i < j {
            (i, j)
        } else {
            (j, i)
        };
        assert(s[a].2 == count_in_scope(s.take(a), s[a].0, s[a].1) + 1);
        assert(s[b].2 == count_in_scope(s.take(b), s[b].0, s[b].1) + 1);
        lemma_count_step(s, a, d, t);
        lemma_count_monotone(s, a + 1, b, d, t);
    }
    assert forall|i: int| 0 <= i < s.len() && in_scope(#[trigger] s[i], d, t) implies 1 <= s[i].2
        <= count_in_scope(s, d, t) by {
        assert(s[i].2 == count_in_scope(s.take(i), s[i].0, s[i].1) + 1);
        lemma_count_step(s, i, d, t);
        lemma_count_monotone(s, i + 1, s.len() as int, d, t);
        assert(s.take(s.len() as int) =~= s);
    }
    if s.len() > 0 {
        let p = s.drop_last();
        let n = s.len() - 1;
        assert forall|i: int| 0 <= i < p.len() implies #[trigger] p[i].2 == count_in_scope(
            p.take(i),
            p[i].0,
            p[i].1,
        ) + 1 by {
            assert(p.take(i) =~= s.take(i));
            assert(s[i].2 == count_in_scope(s.take(i), s[i].0, s[i].1) + 1);
        }
        lemma_dense_scope(p, d, t);
        assert(s.take(n) =~= p);
        assert(s[n].2 == count_in_scope(s.take(n), s[n].0, s[n].1) + 1);
        assert forall|k: int| 1 <= k <= count_in_scope(s, d, t) implies #[trigger] number_used(
            s,
            d,
            t,
            k,
        ) by {
            if k <= count_in_scope(p, d, t) {
                assert(number_used(p, d, t, k));
                let i = choose|i: int| 0 <= i < p.len() && in_scope(#[trigger] p[i], d, t) && p[i].2 == k;
                assert(s[i] == p[i]);
            } else {
                assert(in_scope(s[n], d, t));
                assert(s[n].2 == k);
            }
        }
    }
}

} // verus!
