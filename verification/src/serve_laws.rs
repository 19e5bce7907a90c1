//! What the request servers and the check tool promise of every request:
//! one answer line that is a number or `UNSUPPORTED`, at most two searches,
//! bounded id lists, and the Lance count commands sharing one search.

use vstd::prelude::*;
use crate::text::{is_ws, trim, trim_left, trim_right, find_from, lemma_find_from_bounds, join};
use crate::lance_query_laws::lemma_join_front;
use crate::numbers::{
    decimal, hex_digits, is_digit, lemma_decimal_digits, law_decimal_parses_back,
    lemma_hex_digits_value, lemma_hex8_injective, lemma_decimal_injective,
};
use crate::lancedb_serve::{ServeCommand, StepModel, serve_step_spec, unsupported};
use crate::lancedb_check::{
    CheckCommand, CheckStepModel, BatchModel, MAX_IDS, check_step_spec, ids_from, add_batch_ids,
    present_ids,
};
use crate::lance_serve::{
    Answer, command_and_query, lance_request_spec, parse_bytes_spec, search_answer, suffix_scale,
    hit_text, dump_text,
};

verus! {

/// An answer line: `UNSUPPORTED`, or the decimal text of a number.
pub open spec fn is_answer(r: Seq<char>) -> bool {
    r == unsupported() || exists|n: nat| decimal(n) == r
}

/// No decimal text reads `UNSUPPORTED`.
proof fn lemma_decimal_not_unsupported(n: nat)
    ensures
        decimal(n) != unsupported(),
{
    reveal_strlit("UNSUPPORTED");
    lemma_decimal_digits(n);
    assert(is_digit(decimal(n)[0]));
    assert(unsupported()[0] == 'U');
}

/// `1` is the decimal text of one.
pub proof fn lemma_one_is_decimal()
    ensures
        decimal(1) == "1"@,
{
    reveal_strlit("1");
    assert(decimal(1) =~= "1"@);
}

/// Every request to the LanceDB server runs at most two searches and is
/// answered with one line that is a number or `UNSUPPORTED`; a failed first
/// search is answered `UNSUPPORTED` at once.
pub proof fn law_serve_answers(cmd: ServeCommand, outcomes: Seq<Option<usize>>)
    ensures
        outcomes.len() >= 2 ==> serve_step_spec(cmd, outcomes) is Reply,
        outcomes.len() >= 1 && outcomes[0] is None ==> serve_step_spec(cmd, outcomes)
            == StepModel::Reply(unsupported()),
        serve_step_spec(cmd, outcomes) matches StepModel::Reply(r) ==> is_answer(r),
{
    lemma_one_is_decimal();
    match serve_step_spec(cmd, outcomes) {
        StepModel::Reply(r) => {
            if r != unsupported() {
                if r == "1"@ {
                    assert(decimal(1) == r);
                } else {
                    let n: nat = match cmd {
                        ServeCommand::Count => outcomes[0].unwrap() as nat,
                        _ => outcomes[1].unwrap() as nat,
                    };
                    assert(decimal(n) == r);
                }
            }
        },
        _ => {},
    }
}

/// Every search of the Lance server is answered with one line that is a
/// number or `UNSUPPORTED`: the row count for a count command, `1` for a
/// top-k command, `UNSUPPORTED` exactly when the search failed.
pub proof fn law_lance_answers(answer: Answer, rows: Option<usize>)
    ensures
        is_answer(search_answer(answer, rows)),
        (search_answer(answer, rows) == unsupported()) == (rows is None),
        rows matches Some(n) ==> search_answer(answer, rows) == match answer {
            Answer::Count => decimal(n as nat),
            Answer::One => decimal(1),
        },
{
    lemma_one_is_decimal();
    match rows {
        Some(n) => {
            lemma_decimal_not_unsupported(n as nat);
            lemma_decimal_not_unsupported(1);
            match answer {
                Answer::Count => assert(decimal(n as nat) == search_answer(answer, rows)),
                Answer::One => assert(decimal(1) == search_answer(answer, rows)),
            }
        },
        None => {},
    }
}

/// A batch adds no more ids than there is room for.
proof fn lemma_present_ids_len(col: Seq<Option<Seq<char>>>)
    ensures
        present_ids(col).len() <= col.len(),
    decreases col.len(),
{
    if col.len() > 0 {
        lemma_present_ids_len(col.drop_last());
    }
}

/// The ids kept from a result stream never pass the limit.
proof fn lemma_ids_bounded(kept: Seq<Seq<char>>, bs: Seq<BatchModel>)
    requires
        kept.len() <= MAX_IDS,
    ensures
        ids_from(kept, bs).len() <= MAX_IDS,
    decreases bs.len(),
{
    if bs.len() > 0 {
        match bs[0] {
            BatchModel::Rows { ids: Some(col), .. } => {
                let room = MAX_IDS - kept.len();
                let n = if room < col.len() { room } else { col.len() as int };
                lemma_present_ids_len(col.take(n));
            },
            _ => {},
        }
        assert(add_batch_ids(kept, bs[0]).len() <= MAX_IDS);
        lemma_ids_bounded(add_batch_ids(kept, bs[0]), bs.drop_first());
    }
}

/// Whatever the searches gave back, a finished check record keeps at most
/// twenty result ids, and its answer is `UNSUPPORTED` exactly when it holds
/// an error; otherwise the answer is a number.
pub proof fn law_check_record(
    cmd: CheckCommand,
    listing: Option<Result<Seq<BatchModel>, Seq<char>>>,
    total: Option<Result<Seq<BatchModel>, Seq<char>>>,
)
    ensures
        check_step_spec(cmd, listing, total) matches CheckStepModel::Done(r) ==> {
            &&& r.result_ids.len() <= MAX_IDS
            &&& (r.reply == unsupported() <==> r.errors.len() > 0)
            &&& is_answer(r.reply)
        },
{
    lemma_one_is_decimal();
    reveal_strlit("UNSUPPORTED");
    reveal_strlit("1");
    match listing {
        Some(Ok(bs)) => {
            lemma_ids_bounded(Seq::empty(), bs);
        },
        _ => {},
    }
    match check_step_spec(cmd, listing, total) {
        CheckStepModel::Done(r) => {
            let n = r.count as nat;
            lemma_decimal_not_unsupported(n);
            assert("1"@ != unsupported()) by {
                assert("1"@.len() != unsupported().len());
            }
            if r.errors.len() == 0 {
                assert(r.reply == decimal(n) || r.reply == "1"@);
                if r.reply == "1"@ {
                    assert(decimal(1) == r.reply);
                } else {
                    assert(decimal(n) == r.reply);
                }
            } else {
                assert(r.reply == unsupported());
            }
        },
        _ => {},
    }
}

/// The first tab of `c`, a tab and `q` is the one after `c` when `c` holds
/// none.
pub proof fn lemma_request_fields(c: Seq<char>, q: Seq<char>)
    requires
        forall|i: int| 0 <= i < c.len() ==> c[i] != '\t',
    ensures
        command_and_query(c + seq!['\t'] + q) == (c, q),
{
    let line = c + seq!['\t'] + q;
    lemma_find_from_bounds(line, '\t', 0);
    let k = find_from(line, '\t', 0);
    assert(line[c.len() as int] == '\t');
    if k < c.len() {
        assert(line[k] == c[k]);
    }
    assert(k == c.len());
    assert(line.take(k) =~= c);
    assert(line.skip(k + 1) =~= q);
}

/// A Lance count command after a top-k search (`TOP_k_COUNT`) runs the very
/// search that `COUNT` runs, on every query, and is answered the same way.
pub proof fn law_top_count_runs_count(command: Seq<char>, q: Seq<char>)
    requires
        command == "TOP_1_COUNT"@ || command == "TOP_5_COUNT"@ || command == "TOP_10_COUNT"@
            || command == "TOP_100_COUNT"@ || command == "TOP_1000_COUNT"@,
    ensures
        lance_request_spec(command + seq!['\t'] + q) == lance_request_spec(
            "COUNT"@ + seq!['\t'] + q,
        ),
{
    reveal_strlit("TOP_1_COUNT");
    reveal_strlit("TOP_5_COUNT");
    reveal_strlit("TOP_10_COUNT");
    reveal_strlit("TOP_100_COUNT");
    reveal_strlit("TOP_1000_COUNT");
    reveal_strlit("COUNT");
    reveal_strlit("TOP_10_DUMP");
    reveal_strlit("TOP_100_DUMP");
    reveal_strlit("UNOPTIMIZED_COUNT");
    reveal_strlit("TOP_10");
    reveal_strlit("TOP_100");
    reveal_strlit("TOP_1000");
    lemma_request_fields(command, q);
    lemma_request_fields("COUNT"@, q);
    assert(command != "TOP_10_DUMP"@ && command != "TOP_100_DUMP"@) by {
        assert(command[5] != "TOP_10_DUMP"@[5] || command[6] != "TOP_10_DUMP"@[6]
            || command.len() != "TOP_10_DUMP"@.len());
        assert(command[5] != "TOP_100_DUMP"@[5] || command[6] != "TOP_100_DUMP"@[6]
            || command[7] != "TOP_100_DUMP"@[7] || command.len() != "TOP_100_DUMP"@.len());
    }
}

/// `s` trims to itself when it is not empty and starts and ends with
/// something other than white space.
proof fn lemma_trim_fixed(s: Seq<char>)
    requires
        s.len() > 0,
        !is_ws(s[0]),
        !is_ws(s.last()),
    ensures
        trim(s) == s,
{
    assert(trim_left(s) == s);
    assert(trim_right(s) == s);
}

/// A byte size written as a number and a unit letter reads as the number
/// times the unit, while that fits in a `usize`.
pub proof fn law_size_with_unit(n: usize, unit: char)
    requires
        suffix_scale(unit) is Some,
        n * suffix_scale(unit).unwrap() <= usize::MAX,
    ensures
        parse_bytes_spec(decimal(n as nat).push(unit)) == Ok::<Option<usize>, crate::lance_serve::BytesError>(
            Some((n * suffix_scale(unit).unwrap()) as usize),
        ),
{
    let d = decimal(n as nat);
    let s = d.push(unit);
    lemma_decimal_digits(n as nat);
    assert(is_digit(d[0]) && is_digit(d.last()));
    assert(s[0] == d[0]);
    lemma_trim_fixed(s);
    assert(s.drop_last() =~= d);
    lemma_trim_fixed(d);
    law_decimal_parses_back(n);
}

/// No part holds the character `c`.
pub open spec fn parts_free_of(parts: Seq<Seq<char>>, c: char) -> bool {
    forall|i: int, j: int| 0 <= i < parts.len() && 0 <= j < parts[i].len() ==> #[trigger] parts[i][j] != c
}

/// Parts that do not hold the separator character are told apart by their
/// join.
proof fn lemma_join_injective(p: Seq<Seq<char>>, q: Seq<Seq<char>>, c: char)
    requires
        p.len() >= 1,
        q.len() >= 1,
        parts_free_of(p, c),
        parts_free_of(q, c),
        join(p, seq![c]) == join(q, seq![c]),
    ensures
        p == q,
    decreases p.len() + q.len(),
{
    let sep = seq![c];
    if p.len() == 1 && q.len() == 1 {
        assert(p =~= seq![p[0]]);
        assert(q =~= seq![q[0]]);
    } else if p.len() == 1 {
        lemma_join_front(q, sep);
        let j = join(q, sep);
        assert(j[q[0].len() as int] == c);
        assert(j == p[0]);
        assert(p[0][q[0].len() as int] != c);
    } else if q.len() == 1 {
        lemma_join_front(p, sep);
        let j = join(p, sep);
        assert(j[p[0].len() as int] == c);
        assert(j == q[0]);
        assert(q[0][p[0].len() as int] != c);
    } else {
        lemma_join_front(p, sep);
        lemma_join_front(q, sep);
        let j = join(p, sep);
        let a = p[0].len() as int;
        let b = q[0].len() as int;
        assert(j[a] == c);
        assert(j[b] == c);
        if a < b {
            assert(j[a] == q[0][a]);
        } else if b < a {
            assert(j[b] == p[0][b]);
        }
        assert(a == b);
        assert(p[0] =~= j.take(a));
        assert(q[0] =~= j.take(a));
        assert(join(p.drop_first(), sep) =~= j.skip(a + 1));
        assert(join(q.drop_first(), sep) =~= j.skip(a + 1));
        assert forall|i: int, k: int| 0 <= i < p.drop_first().len() && 0 <= k < p.drop_first()[i].len()
            implies #[trigger] p.drop_first()[i][k] != c by {
            assert(p.drop_first()[i] == p[i + 1]);
        }
        assert forall|i: int, k: int| 0 <= i < q.drop_first().len() && 0 <= k < q.drop_first()[i].len()
            implies #[trigger] q.drop_first()[i][k] != c by {
            assert(q.drop_first()[i] == q[i + 1]);
        }
        lemma_join_injective(p.drop_first(), q.drop_first(), c);
        assert(p =~= seq![p[0]] + p.drop_first());
        assert(q =~= seq![q[0]] + q.drop_first());
    }
}

/// A hit's text holds no comma, is not empty, and tells the hit apart from
/// every other hit.
proof fn lemma_hit_text(h: (u64, u32), g: (u64, u32))
    ensures
        hit_text(h).len() > 0,
        forall|j: int| 0 <= j < hit_text(h).len() ==> #[trigger] hit_text(h)[j] != ',',
        hit_text(h) == hit_text(g) ==> h == g,
{
    let d1 = decimal(h.0 as nat);
    let d2 = decimal(g.0 as nat);
    let x1 = hex_digits(h.1 as nat, 8);
    let x2 = hex_digits(g.1 as nat, 8);
    lemma_decimal_digits(h.0 as nat);
    lemma_decimal_digits(g.0 as nat);
    lemma_hex_digits_value(h.1 as nat, 8);
    lemma_hex_digits_value(g.1 as nat, 8);
    let t1 = hit_text(h);
    let t2 = hit_text(g);
    assert(t1 == d1 + seq![':'] + x1);
    assert(t2 == d2 + seq![':'] + x2);
    assert forall|j: int| 0 <= j < t1.len() implies #[trigger] t1[j] != ',' by {
        if j < d1.len() {
            assert(is_digit(d1[j]));
        } else if j > d1.len() {
            assert(t1[j] == x1[j - d1.len() - 1]);
        }
    }
    if t1 == t2 {
        let a = d1.len() as int;
        let b = d2.len() as int;
        assert(t1[a] == ':');
        assert(t2[b] == ':');
        if a < b {
            assert(t2[a] == d2[a]);
            assert(is_digit(d2[a]));
        } else if b < a {
            assert(t1[b] == d1[b]);
            assert(is_digit(d1[b]));
        }
        assert(d1 =~= t1.take(a));
        assert(d2 =~= t2.take(a));
        assert(x1 =~= t1.skip(a + 1));
        assert(x2 =~= t2.skip(a + 1));
        lemma_decimal_injective(h.0 as nat, g.0 as nat);
        lemma_hex8_injective(h.1, g.1);
    }
}

/// A dump line tells its hit list apart from every other: two dumps are the
/// same text exactly when they list the same row ids with the same score
/// bits in the same order.
pub proof fn law_dump_determines_hits(h1: Seq<(u64, u32)>, h2: Seq<(u64, u32)>)
    ensures
        dump_text(h1) == dump_text(h2) <==> h1 == h2,
{
    let p1 = h1.map_values(|h: (u64, u32)| hit_text(h));
    let p2 = h2.map_values(|h: (u64, u32)| hit_text(h));
    assert forall|i: int, j: int| 0 <= i < p1.len() && 0 <= j < p1[i].len() implies #[trigger] p1[i][j] != ',' by {
        lemma_hit_text(h1[i], h1[i]);
    }
    assert forall|i: int, j: int| 0 <= i < p2.len() && 0 <= j < p2[i].len() implies #[trigger] p2[i][j] != ',' by {
        lemma_hit_text(h2[i], h2[i]);
    }
    assert forall|i: int| 0 <= i < p1.len() implies (#[trigger] p1[i]).len() > 0 by {
        lemma_hit_text(h1[i], h1[i]);
    }
    assert forall|i: int| 0 <= i < p2.len() implies (#[trigger] p2[i]).len() > 0 by {
        lemma_hit_text(h2[i], h2[i]);
    }
    if dump_text(h1) == dump_text(h2) {
        if h1.len() == 0 || h2.len() == 0 {
            assert(p1.len() > 0 ==> join(p1, seq![',']).len() > 0);
            assert(p2.len() > 0 ==> join(p2, seq![',']).len() > 0);
            assert(h1.len() == 0 && h2.len() == 0);
            assert(h1 =~= h2);
        } else {
            lemma_join_injective(p1, p2, ',');
            assert forall|i: int| 0 <= i < h1.len() implies h1[i] == h2[i] by {
                assert(p1[i] == p2[i]);
                lemma_hit_text(h1[i], h2[i]);
            }
            assert(h1 =~= h2);
        }
    }
}

} // verus!
