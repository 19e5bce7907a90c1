//! Timing summaries of the latency probes: the best and the median of
//! repeated measurements, and the operator of a probe query.

use vstd::prelude::*;
use vstd::relations::{sorted_by, total_ordering};
use crate::text::{chars_of, push_char};
use crate::fts_query::Operator;

verus! {

broadcast use vstd::seq_lib::group_to_multiset_ensures;

/// `s` with every `c` removed.
pub open spec fn remove_all(s: Seq<char>, c: char) -> Seq<char>
    decreases s.len(),
{
    if s.len() == 0 {
        Seq::empty()
    } else {
        remove_all(s.drop_last(), c) + if s.last() == c {
            Seq::<char>::empty()
        } else {
            seq![s.last()]
        }
    }
}

/// A probe query `+a+b...` is run as an AND match of the query without its
/// `+` signs; any other query as an OR match of the query as given.
pub open spec fn split_operator_spec(raw: Seq<char>) -> (Seq<char>, Operator) {
    if raw.len() > 0 && raw[0] == '+' {
        (remove_all(raw.drop_first(), '+'), Operator::And)
    } else {
        (raw, Operator::Or)
    }
}

/// The text and operator of a probe query.
pub fn split_operator(raw: &str) -> (r: (String, Operator))
    ensures
        (r.0@, r.1) == split_operator_spec(raw@),
{
    let c = chars_of(raw);
    if c.len() > 0 && c[0] == '+' {
        let mut s = String::new();
        let mut i: usize = 1;
        assert(c@.subrange(1, 1) =~= Seq::<char>::empty());
        while i < c.len()
            invariant
                1 <= i <= c.len(),
                c@ == raw@,
                s@ == remove_all(c@.subrange(1, i as int), '+'),
            decreases c.len() - i,
        {
            assert(c@.subrange(1, i + 1).drop_last() =~= c@.subrange(1, i as int));
            if c[i] != '+' {
                push_char(&mut s, c[i]);
            }
            assert(s@ =~= remove_all(c@.subrange(1, i + 1), '+'));
            i += 1;
        }
        assert(c@.subrange(1, c.len() as int) =~= raw@.drop_first());
        (s, Operator::And)
    } else {
        (String::from_str(raw), Operator::Or)
    }
}

/// Numbers in increasing order.
pub open spec fn ascending() -> spec_fn(u128, u128) -> bool {
    |a: u128, b: u128| a <= b
}

/// The values sorted in increasing order.
pub open spec fn sorted_values(v: Seq<u128>) -> Seq<u128> {
    v.sort_by(ascending())
}

proof fn lemma_ascending_total()
    ensures
        total_ordering(ascending()),
{
}

fn insert_sorted(out: &mut Vec<u128>, x: u128)
    requires
        sorted_by(old(out)@, ascending()),
    ensures
        sorted_by(final(out)@, ascending()),
        final(out)@.to_multiset() == old(out)@.to_multiset().insert(x),
{
    let mut p: usize = 0;
    while p < out.len() && out[p] <= x
        invariant
            p <= out.len(),
            forall|k: int| 0 <= k < p ==> out@[k] <= x,
        decreases out.len() - p,
    {
        p += 1;
    }
    let ghost before = out@;
    out.insert(p, x);
    assert(out@ == before.insert(p as int, x));
    assert forall|i: int, j: int| 0 <= i < j < out@.len() implies #[trigger] ascending()(
        out@[i],
        out@[j],
    ) by {
        if j < p {
            assert(ascending()(before[i], before[j]));
        } else if j == p {
        } else if i < p {
            assert(ascending()(before[i], before[j - 1]));
        } else if i == p {
            assert(!(before[p as int] <= x));
            if j - 1 > p {
                assert(ascending()(before[p as int], before[j - 1]));
            }
        } else {
            assert(ascending()(before[i - 1], before[j - 1]));
        }
    }
}

/// The values sorted in increasing order.
pub fn sort_values(values: &Vec<u128>) -> (out: Vec<u128>)
    ensures
        out@ == sorted_values(values@),
{
    let mut out: Vec<u128> = Vec::new();
    let mut i: usize = 0;
    assert(values@.take(0) =~= Seq::<u128>::empty());
    while i < values.len()
        invariant
            i <= values.len(),
            sorted_by(out@, ascending()),
            out@.to_multiset() == values@.take(i as int).to_multiset(),
        decreases values.len() - i,
    {
        insert_sorted(&mut out, values[i]);
        assert(values@.take(i + 1) =~= values@.take(i as int).push(values@[i as int]));
        i += 1;
    }
    assert(values@.take(values.len() as int) =~= values@);
    proof {
        lemma_ascending_total();
        values@.lemma_sort_by_ensures(ascending());
        vstd::seq_lib::lemma_sorted_unique(out@, sorted_values(values@), ascending());
    }
    out
}

/// The best (smallest) and the median (the one at position `n / 2` in
/// increasing order) of `n > 0` measurements.
pub fn best_and_median(values: &Vec<u128>) -> (r: (u128, u128))
    requires
        values.len() > 0,
    ensures
        r.0 == sorted_values(values@)[0],
        r.1 == sorted_values(values@)[(values.len() / 2) as int],
{
    let sorted = sort_values(values);
    proof {
        values@.lemma_sort_by_ensures(ascending());
        lemma_ascending_total();
        assert(sorted@.to_multiset().len() == values@.to_multiset().len());
    }
    (sorted[0], sorted[values.len() / 2])
}

/// The wall-clock nanoseconds of each phase of one probe search.
#[derive(Clone, Copy, Debug, Default)]
pub struct Phases {
    pub build_query: u128,
    pub scan: u128,
    pub configure: u128,
    pub create_plan: u128,
    pub execute_plan: u128,
    pub drain: u128,
    pub total: u128,
}

/// A phase of a probe search.
#[derive(Clone, Copy, Debug, PartialEq, Eq, Structural)]
pub enum Phase {
    BuildQuery,
    Scan,
    Configure,
    CreatePlan,
    ExecutePlan,
    Drain,
    Total,
}

/// The time of one phase.
pub open spec fn phase_of(p: Phases, f: Phase) -> u128 {
    match f {
        Phase::BuildQuery => p.build_query,
        Phase::Scan => p.scan,
        Phase::Configure => p.configure,
        Phase::CreatePlan => p.create_plan,
        Phase::ExecutePlan => p.execute_plan,
        Phase::Drain => p.drain,
        Phase::Total => p.total,
    }
}

/// The times of one phase over the runs.
pub open spec fn phase_series(runs: Seq<Phases>, f: Phase) -> Seq<u128> {
    runs.map_values(|p: Phases| phase_of(p, f))
}

fn time_of(p: &Phases, f: Phase) -> (t: u128)
    ensures
        t == phase_of(*p, f),
{
    match f {
        Phase::BuildQuery => p.build_query,
        Phase::Scan => p.scan,
        Phase::Configure => p.configure,
        Phase::CreatePlan => p.create_plan,
        Phase::ExecutePlan => p.execute_plan,
        Phase::Drain => p.drain,
        Phase::Total => p.total,
    }
}

/// The best and the median time of one phase over `n > 0` runs.
pub fn phase_best_and_median(runs: &Vec<Phases>, f: Phase) -> (r: (u128, u128))
    requires
        runs.len() > 0,
    ensures
        r.0 == sorted_values(phase_series(runs@, f))[0],
        r.1 == sorted_values(phase_series(runs@, f))[(runs.len() / 2) as int],
{
    let mut values: Vec<u128> = Vec::new();
    let mut i: usize = 0;
    while i < runs.len()
        invariant
            i <= runs.len(),
            values@ == phase_series(runs@.take(i as int), f),
        decreases runs.len() - i,
    {
        values.push(time_of(&runs[i], f));
        assert(phase_series(runs@.take(i + 1), f) =~= phase_series(runs@.take(i as int), f).push(
            phase_of(runs@[i as int], f),
        ));
        i += 1;
    }
    assert(runs@.take(runs.len() as int) =~= runs@);
    best_and_median(&values)
}

/// The best of a series of measurements is no larger than any of them and
/// than the median, and both the best and the median are measurements of
/// the series.
pub proof fn law_best_and_median(v: Seq<u128>)
    requires
        v.len() > 0,
    ensures
        sorted_values(v).len() == v.len(),
        forall|i: int| 0 <= i < v.len() ==> sorted_values(v)[0] <= #[trigger] v[i],
        sorted_values(v)[0] <= sorted_values(v)[(v.len() / 2) as int],
        v.contains(sorted_values(v)[0]),
        v.contains(sorted_values(v)[(v.len() / 2) as int]),
{
    lemma_ascending_total();
    v.lemma_sort_by_ensures(ascending());
    let s = sorted_values(v);
    assert(s.to_multiset().len() == v.to_multiset().len());
    assert(s.len() == v.len());
    assert(ascending()(s[0], s[(v.len() / 2) as int]) || v.len() / 2 == 0);
    assert forall|i: int| 0 <= i < v.len() implies s[0] <= #[trigger] v[i] by {
        assert(v.contains(v[i]));
        assert(v.to_multiset().count(v[i]) > 0);
        assert(s.contains(v[i]));
        let j = choose|j: int| 0 <= j < s.len() && s[j] == v[i];
        if j > 0 {
            assert(ascending()(s[0], s[j]));
        }
    }
    assert(s.contains(s[0]));
    assert(s.contains(s[(v.len() / 2) as int]));
    assert(s.to_multiset().count(s[0]) > 0);
    assert(s.to_multiset().count(s[(v.len() / 2) as int]) > 0);
}

} // verus!
