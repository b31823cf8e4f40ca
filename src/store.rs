use vstd::prelude::*;
use crate::location::{Fix, FixView, fix_views};
use crate::text::{compare_text, lemma_text_lt_strict_total, lemma_text_lt_transitive, text_lt, TextOrder};

verus! {

/// Rows whose timestamps strictly ascend in text order.
pub open spec fn ascending(rows: Seq<FixView>) -> bool {
    forall|i: int, j: int|
        0 <= i < j < rows.len() ==> text_lt(#[trigger] rows[i].timestamp, #[trigger] rows[j].timestamp)
}

/// Some row carries the timestamp `ts`.
pub open spec fn has_timestamp(rows: Seq<FixView>, ts: Seq<char>) -> bool {
    exists|i: int| 0 <= i < rows.len() && #[trigger] rows[i].timestamp == ts
}

/// The number of leading rows whose timestamps sort before `ts`.
pub open spec fn split_point(rows: Seq<FixView>, ts: Seq<char>) -> nat
    decreases rows.len(),
{
    if rows.len() == 0 {
        0
    } else if text_lt(rows[0].timestamp, ts) {
        1 + split_point(rows.drop_first(), ts)
    } else {
        0
    }
}

/// The rows after an insert of `f`: unchanged where its timestamp is already
/// taken, otherwise with `f` placed where its timestamp sorts.
pub open spec fn after_insert(rows: Seq<FixView>, f: FixView) -> Seq<FixView> {
    if has_timestamp(rows, f.timestamp) {
        rows
    } else {
        rows.insert(split_point(rows, f.timestamp) as int, f)
    }
}

/// The insert was refused because a row already carries this timestamp.
#[derive(Clone, Copy, Debug, PartialEq, Eq, Structural)]
pub enum DuplicateTimestamp {
    Taken,
}

proof fn lemma_split_point(rows: Seq<FixView>, ts: Seq<char>)
    ensures
        split_point(rows, ts) <= rows.len(),
        forall|i: int| 0 <= i < split_point(rows, ts) ==> text_lt(#[trigger] rows[i].timestamp, ts),
        split_point(rows, ts) < rows.len() ==> !text_lt(rows[split_point(rows, ts) as int].timestamp, ts),
    decreases rows.len(),
{
    if rows.len() > 0 && text_lt(rows[0].timestamp, ts) {
        let rest = rows.drop_first();
        lemma_split_point(rest, ts);
        assert forall|i: int| 0 <= i < split_point(rows, ts) implies text_lt(#[trigger] rows[i].timestamp, ts) by {
            if i > 0 {
                assert(rows[i] == rest[i - 1]);
            }
        }
    }
}

proof fn lemma_split_point_at(rows: Seq<FixView>, ts: Seq<char>, p: int)
    requires
        0 <= p <= rows.len(),
        forall|i: int| 0 <= i < p ==> text_lt(#[trigger] rows[i].timestamp, ts),
        p < rows.len() ==> !text_lt(rows[p].timestamp, ts),
    ensures
        split_point(rows, ts) == p,
    decreases rows.len(),
{
    if p > 0 {
        let rest = rows.drop_first();
        assert forall|i: int| 0 <= i < p - 1 implies text_lt(#[trigger] rest[i].timestamp, ts) by {
            assert(rest[i] == rows[i + 1]);
        }
        lemma_split_point_at(rest, ts, p - 1);
    }
}

proof fn lemma_absent(rows: Seq<FixView>, ts: Seq<char>, p: int)
    requires
        ascending(rows),
        0 <= p <= rows.len(),
        forall|i: int| 0 <= i < p ==> text_lt(#[trigger] rows[i].timestamp, ts),
        p < rows.len() ==> text_lt(ts, rows[p].timestamp),
    ensures
        !has_timestamp(rows, ts),
{
    assert forall|i: int| 0 <= i < rows.len() implies #[trigger] rows[i].timestamp != ts by {
        lemma_text_lt_strict_total(ts, ts);
        if i > p {
            lemma_text_lt_transitive(ts, rows[p].timestamp, rows[i].timestamp);
        }
    }
}

proof fn lemma_insert_ascending(rows: Seq<FixView>, f: FixView, p: int)
    requires
        ascending(rows),
        !has_timestamp(rows, f.timestamp),
        0 <= p <= rows.len(),
        forall|i: int| 0 <= i < p ==> text_lt(#[trigger] rows[i].timestamp, f.timestamp),
        p < rows.len() ==> !text_lt(rows[p].timestamp, f.timestamp),
    ensures
        ascending(rows.insert(p, f)),
{
    assert forall|k: int| p <= k < rows.len() implies text_lt(f.timestamp, #[trigger] rows[k].timestamp) by {
        assert(rows[p].timestamp != f.timestamp);
        lemma_text_lt_strict_total(rows[p].timestamp, f.timestamp);
        if k > p {
            lemma_text_lt_transitive(f.timestamp, rows[p].timestamp, rows[k].timestamp);
        }
    }
    let s = rows.insert(p, f);
    assert forall|i: int, j: int| 0 <= i < j < s.len() implies text_lt(
        #[trigger] s[i].timestamp,
        #[trigger] s[j].timestamp,
    ) by {
        if j < p {
        } else if j == p {
            assert(s[i] == rows[i]);
        } else if i < p {
            assert(s[j] == rows[j - 1]);
            lemma_text_lt_transitive(rows[i].timestamp, f.timestamp, rows[j - 1].timestamp);
        } else if i == p {
            assert(s[j] == rows[j - 1]);
        } else {
            assert(s[i] == rows[i - 1]);
            assert(s[j] == rows[j - 1]);
        }
    }
}

/// An insert keeps the rows ascending.
pub proof fn lemma_after_insert_ascending(rows: Seq<FixView>, f: FixView)
    requires
        ascending(rows),
    ensures
        ascending(after_insert(rows, f)),
{
    if !has_timestamp(rows, f.timestamp) {
        lemma_split_point(rows, f.timestamp);
        lemma_insert_ascending(rows, f, split_point(rows, f.timestamp) as int);
    }
}

/// In ascending rows no two rows share a timestamp.
pub proof fn lemma_ascending_timestamps_distinct(rows: Seq<FixView>)
    requires
        ascending(rows),
    ensures
        forall|i: int, j: int|
            0 <= i < rows.len() && 0 <= j < rows.len() && #[trigger] rows[i].timestamp
                == #[trigger] rows[j].timestamp ==> i == j,
{
    assert forall|i: int, j: int|
        0 <= i < rows.len() && 0 <= j < rows.len() && #[trigger] rows[i].timestamp
            == #[trigger] rows[j].timestamp implies i == j by {
        lemma_text_lt_strict_total(rows[i].timestamp, rows[j].timestamp);
    }
}

/// Whatever the outcome of an insert, afterwards exactly one row carries its
/// timestamp, and a second insert with that timestamp is refused and leaves
/// the rows as they are.
pub proof fn lemma_timestamp_stored_once(rows: Seq<FixView>, f: FixView, g: FixView)
    requires
        ascending(rows),
        g.timestamp == f.timestamp,
    ensures
        ascending(after_insert(rows, f)),
        has_timestamp(after_insert(rows, f), f.timestamp),
        !has_timestamp(rows, f.timestamp) ==> after_insert(rows, f).contains(f),
        after_insert(after_insert(rows, f), g) == after_insert(rows, f),
        forall|i: int, j: int|
            0 <= i < after_insert(rows, f).len() && 0 <= j < after_insert(rows, f).len()
                && #[trigger] after_insert(rows, f)[i].timestamp == f.timestamp
                && #[trigger] after_insert(rows, f)[j].timestamp == f.timestamp ==> i == j,
{
    let after = after_insert(rows, f);
    lemma_after_insert_ascending(rows, f);
    if !has_timestamp(rows, f.timestamp) {
        lemma_split_point(rows, f.timestamp);
        assert(after[split_point(rows, f.timestamp) as int] == f);
    }
    lemma_ascending_timestamps_distinct(after);
}

/// The rows after inserting `fixes` one by one, in order, into an empty table.
pub open spec fn stored_after(fixes: Seq<FixView>) -> Seq<FixView>
    decreases fixes.len(),
{
    if fixes.len() == 0 {
        Seq::empty()
    } else {
        after_insert(stored_after(fixes.drop_last()), fixes.last())
    }
}

/// No two of `fixes` share a timestamp.
pub open spec fn distinct_timestamps(fixes: Seq<FixView>) -> bool {
    forall|i: int, j: int|
        0 <= i < fixes.len() && 0 <= j < fixes.len() && i != j ==> #[trigger] fixes[i].timestamp
            != #[trigger] fixes[j].timestamp
}

proof fn lemma_insert_contains(s: Seq<FixView>, p: int, f: FixView)
    requires
        0 <= p <= s.len(),
    ensures
        forall|x: FixView| #[trigger] s.insert(p, f).contains(x) <==> (x == f || s.contains(x)),
{
    let t = s.insert(p, f);
    assert forall|x: FixView| #[trigger] t.contains(x) <==> (x == f || s.contains(x)) by {
        if t.contains(x) {
            let i = choose|i: int| 0 <= i < t.len() && t[i] == x;
            if i > p {
                assert(s[i - 1] == x);
            } else if i < p {
                assert(s[i] == x);
            }
        }
        if x == f {
            assert(t[p] == x);
        } else if s.contains(x) {
            let i = choose|i: int| 0 <= i < s.len() && s[i] == x;
            if i < p {
                assert(t[i] == x);
            } else {
                assert(t[i + 1] == x);
            }
        }
    }
}

proof fn lemma_stored_after(fixes: Seq<FixView>)
    requires
        distinct_timestamps(fixes),
    ensures
        ascending(stored_after(fixes)),
        forall|x: FixView| #[trigger] stored_after(fixes).contains(x) <==> fixes.contains(x),
    decreases fixes.len(),
{
    if fixes.len() > 0 {
        let init = fixes.drop_last();
        let f = fixes.last();
        let before = stored_after(init);
        assert(distinct_timestamps(init)) by {
            assert forall|i: int, j: int|
                0 <= i < init.len() && 0 <= j < init.len() && i != j implies #[trigger] init[i].timestamp
                    != #[trigger] init[j].timestamp by {
                assert(init[i] == fixes[i] && init[j] == fixes[j]);
            }
        }
        lemma_stored_after(init);
        assert(!has_timestamp(before, f.timestamp)) by {
            assert forall|i: int| 0 <= i < before.len() implies #[trigger] before[i].timestamp
                != f.timestamp by {
                assert(before.contains(before[i]));
                let k = choose|k: int| 0 <= k < init.len() && init[k] == before[i];
                assert(fixes[k] == init[k]);
                assert(fixes[fixes.len() - 1] == f);
            }
        }
        lemma_after_insert_ascending(before, f);
        lemma_split_point(before, f.timestamp);
        lemma_insert_contains(before, split_point(before, f.timestamp) as int, f);
        assert forall|x: FixView| #[trigger] fixes.contains(x) <==> (x == f || init.contains(x)) by {
            if fixes.contains(x) {
                let k = choose|k: int| 0 <= k < fixes.len() && fixes[k] == x;
                if k < fixes.len() - 1 {
                    assert(init[k] == x);
                }
            }
            if init.contains(x) {
                let k = choose|k: int| 0 <= k < init.len() && init[k] == x;
                assert(fixes[k] == x);
            }
            if x == f {
                assert(fixes[fixes.len() - 1] == x);
            }
        }
    }
}

proof fn lemma_ascending_determined(a: Seq<FixView>, b: Seq<FixView>)
    requires
        ascending(a),
        ascending(b),
        forall|x: FixView| #[trigger] a.contains(x) <==> b.contains(x),
    ensures
        a == b,
    decreases a.len(),
{
    if a.len() == 0 {
        if b.len() > 0 {
            assert(b.contains(b[0]));
            assert(a.contains(b[0]));
        }
        assert(a =~= b);
    } else {
        assert(a.contains(a[0]));
        assert(b.len() > 0);
        assert(b.contains(b[0]));
        assert(a.contains(b[0]));
        assert(b.contains(a[0]));
        let k = choose|k: int| 0 <= k < b.len() && b[k] == a[0];
        let m = choose|m: int| 0 <= m < a.len() && a[m] == b[0];
        if k > 0 && m > 0 {
            lemma_text_lt_strict_total(a[0].timestamp, b[0].timestamp);
            assert(text_lt(b[0].timestamp, b[k].timestamp));
            assert(text_lt(a[0].timestamp, a[m].timestamp));
        }
        let a1 = a.drop_first();
        let b1 = b.drop_first();
        assert forall|x: FixView| #[trigger] a1.contains(x) <==> b1.contains(x) by {
            if a1.contains(x) {
                let i = choose|i: int| 0 <= i < a1.len() && a1[i] == x;
                assert(a[i + 1] == x);
                assert(a.contains(x));
                assert(b.contains(x));
                let j = choose|j: int| 0 <= j < b.len() && b[j] == x;
                if j == 0 {
                    lemma_text_lt_strict_total(a[0].timestamp, a[0].timestamp);
                    assert(text_lt(a[0].timestamp, a[i + 1].timestamp));
                } else {
                    assert(b1[j - 1] == x);
                }
            }
            if b1.contains(x) {
                let i = choose|i: int| 0 <= i < b1.len() && b1[i] == x;
                assert(b[i + 1] == x);
                assert(b.contains(x));
                assert(a.contains(x));
                let j = choose|j: int| 0 <= j < a.len() && a[j] == x;
                if j == 0 {
                    lemma_text_lt_strict_total(b[0].timestamp, b[0].timestamp);
                    assert(text_lt(b[0].timestamp, b[i + 1].timestamp));
                } else {
                    assert(a1[j - 1] == x);
                }
            }
        }
        lemma_ascending_determined(a1, b1);
        assert(a =~= seq![a[0]] + a1);
        assert(b =~= seq![b[0]] + b1);
    }
}

/// Fixes with distinct timestamps, inserted one by one, are stored in
/// ascending timestamp order, all of them and nothing else, and the result
/// does not depend on the order in which they were inserted.
pub proof fn lemma_listing_independent_of_order(fixes: Seq<FixView>, other: Seq<FixView>)
    requires
        distinct_timestamps(fixes),
        distinct_timestamps(other),
        forall|x: FixView| #[trigger] fixes.contains(x) <==> other.contains(x),
    ensures
        ascending(stored_after(fixes)),
        forall|x: FixView| #[trigger] stored_after(fixes).contains(x) <==> fixes.contains(x),
        stored_after(fixes) == stored_after(other),
{
    lemma_stored_after(fixes);
    lemma_stored_after(other);
    lemma_ascending_determined(stored_after(fixes), stored_after(other));
}

/// An in-memory table of fixes, kept in ascending timestamp order, with at
/// most one fix per timestamp.
pub struct FixStore {
    rows: Vec<Fix>,
}

impl View for FixStore {
    type V = Seq<FixView>;

    closed spec fn view(&self) -> Seq<FixView> {
        fix_views(self.rows@)
    }
}

impl FixStore {
    pub open spec fn wf(&self) -> bool {
        ascending(self@)
    }

    pub fn new() -> (r: FixStore)
        ensures
            r@ == Seq::<FixView>::empty(),
            r.wf(),
    {
        let r = FixStore { rows: Vec::new() };
        assert(r@ =~= Seq::<FixView>::empty());
        r
    }

    pub fn len(&self) -> (r: usize)
        ensures
            r == self@.len(),
    {
        self.rows.len()
    }

    /// Adds `fix` unless its timestamp is already stored.
    pub fn insert(&mut self, fix: Fix) -> (r: Result<(), DuplicateTimestamp>)
        requires
            old(self).wf(),
        ensures
            final(self).wf(),
            final(self)@ == after_insert(old(self)@, fix@),
            r is Ok <==> !has_timestamp(old(self)@, fix@.timestamp),
    {
        let n = self.rows.len();
        let mut p: usize = 0;
        let mut placed = false;
        while p < n && !placed
            invariant
                n == self.rows@.len(),
                p <= n,
                self.wf(),
                forall|i: int| 0 <= i < p ==> text_lt(#[trigger] self@[i].timestamp, fix@.timestamp),
                placed ==> p < n && text_lt(fix@.timestamp, self@[p as int].timestamp),
            decreases n - p + (if placed { 0int } else { 1int }),
        {
            match compare_text(self.rows[p].timestamp.as_str(), fix.timestamp.as_str()) {
                TextOrder::Before => {
                    p = p + 1;
                },
                TextOrder::Same => {
                    assert(self@[p as int].timestamp == fix@.timestamp);
                    return Err(DuplicateTimestamp::Taken);
                },
                TextOrder::After => {
                    placed = true;
                },
            }
        }
        proof {
            lemma_absent(self@, fix@.timestamp, p as int);
            if p < n {
                lemma_text_lt_strict_total(fix@.timestamp, self@[p as int].timestamp);
            }
            lemma_split_point_at(self@, fix@.timestamp, p as int);
            lemma_insert_ascending(self@, fix@, p as int);
        }
        let ghost before = self@;
        self.rows.insert(p, fix);
        assert(self@ =~= before.insert(p as int, fix@));
        Ok(())
    }

    /// Every stored fix, in ascending timestamp order.
    pub fn list_all(&self) -> (r: Vec<Fix>)
        ensures
            fix_views(r@) == self@,
    {
        let mut out: Vec<Fix> = Vec::new();
        let mut i: usize = 0;
        while i < self.rows.len()
            invariant
                i <= self.rows@.len(),
                fix_views(out@) =~= self@.subrange(0, i as int),
            decreases self.rows@.len() - i,
        {
            let d = self.rows[i].duplicate();
            let ghost prev = out@;
            out.push(d);
            assert(fix_views(out@) =~= fix_views(prev).push(d@));
            assert(self@.subrange(0, i + 1) =~= self@.subrange(0, i as int).push(self@[i as int]));
            i = i + 1;
        }
        assert(self@.subrange(0, i as int) =~= self@);
        out
    }

    /// Removes every stored fix.
    pub fn clear(&mut self)
        ensures
            final(self)@ == Seq::<FixView>::empty(),
            final(self).wf(),
    {
        self.rows.clear();
        assert(self@ =~= Seq::<FixView>::empty());
    }
}

} // verus!
