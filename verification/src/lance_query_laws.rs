//! What the Lance query language promises of whole query shapes: a query
//! written as clauses separated by single spaces parses into exactly those
//! clauses, and the usual benchmark shapes become the documented queries.

use vstd::prelude::*;
use crate::text::{is_ws, no_ws, trim, join, prefix_each, space};
use crate::plus_terms::{run_end, lemma_run_end_bounds};
use crate::fts_query::{FtsModel, MatchModel, PhraseModel, LeafModel, Occur, Operator};
use crate::lance_query::{
    skip_ws, quote_end, clauses_at, prepend, word_leaf, phrase_leaf, lemma_skip_ws_bounds,
    lemma_quote_end_bounds, parse_clauses_spec, combine_clauses, build_fts_query_spec, all_occur,
    clause_words,
};

verus! {

proof fn lemma_skip_ws_shift(p: Seq<char>, y: Seq<char>, i: int)
    requires
        0 <= i <= y.len(),
    ensures
        skip_ws(p + y, p.len() + i) == p.len() + skip_ws(y, i),
    decreases y.len() - i,
{
    if i < y.len() {
        assert((p + y)[p.len() + i] == y[i]);
        lemma_skip_ws_shift(p, y, i + 1);
    }
}

proof fn lemma_quote_end_shift(p: Seq<char>, y: Seq<char>, i: int)
    requires
        0 <= i <= y.len(),
    ensures
        quote_end(p + y, p.len() + i) == p.len() + quote_end(y, i),
    decreases y.len() - i,
{
    if i < y.len() {
        assert((p + y)[p.len() + i] == y[i]);
        lemma_quote_end_shift(p, y, i + 1);
    }
}

pub proof fn lemma_run_end_shift(p: Seq<char>, y: Seq<char>, i: int)
    requires
        0 <= i <= y.len(),
    ensures
        run_end(p + y, p.len() + i) == p.len() + run_end(y, i),
    decreases y.len() - i,
{
    if i < y.len() {
        assert((p + y)[p.len() + i] == y[i]);
        lemma_run_end_shift(p, y, i + 1);
    }
}

/// Parsing after a prefix is parsing the rest on its own.
pub proof fn lemma_clauses_shift(p: Seq<char>, y: Seq<char>, i: int)
    requires
        0 <= i <= y.len(),
    ensures
        clauses_at(p + y, p.len() + i) == clauses_at(y, i),
    decreases y.len() - i,
{
    let c = p + y;
    let n = p.len();
    lemma_skip_ws_shift(p, y, i);
    lemma_skip_ws_bounds(y, i);
    let j = skip_ws(y, i);
    if j < y.len() {
        assert(c[n + j] == y[j]);
        let k = if y[j] == '+' { j + 1 } else { j };
        if k < y.len() {
            assert(c[n + k] == y[k]);
            if y[k] == '"' {
                lemma_quote_end_shift(p, y, k + 1);
                lemma_quote_end_bounds(y, k + 1);
                let e = quote_end(y, k + 1);
                if e < y.len() {
                    assert(c.subrange(n + k + 1, n + e) =~= y.subrange(k + 1, e));
                    lemma_clauses_shift(p, y, e + 1);
                }
            } else {
                lemma_run_end_shift(p, y, k);
                lemma_run_end_bounds(y, k);
                let e = run_end(y, k);
                if e != k {
                    assert(c.subrange(n + k, n + e) =~= y.subrange(k, e));
                    lemma_clauses_shift(p, y, e);
                }
            }
        }
    }
}

/// White space before a clause is skipped.
proof fn lemma_clauses_skip_one(c: Seq<char>, i: int)
    requires
        0 <= i < c.len(),
        is_ws(c[i]),
    ensures
        clauses_at(c, i) == clauses_at(c, i + 1),
{
    lemma_skip_ws_bounds(c, i);
    lemma_skip_ws_bounds(c, i + 1);
}

/// The part of a clause text after its optional `+`.
pub open spec fn token_body(t: Seq<char>) -> Seq<char> {
    if t.len() > 0 && t[0] == '+' {
        t.drop_first()
    } else {
        t
    }
}

/// A clause written out: an optional `+`, then either a word (not empty, no
/// white space, not starting with a double quote) or a double-quoted text
/// with no double quote inside.
pub open spec fn is_clause_text(t: Seq<char>) -> bool {
    let b = token_body(t);
    ||| (b.len() > 0 && b[0] != '"' && no_ws(b))
    ||| (b.len() >= 2 && b[0] == '"' && b.last() == '"' && !b.subrange(1, b.len() - 1).contains('"'))
}

/// The clause that a clause text stands for.
pub open spec fn token_clause(t: Seq<char>) -> (Occur, LeafModel) {
    let b = token_body(t);
    let occur = if t.len() > 0 && t[0] == '+' { Occur::Must } else { Occur::Should };
    if b.len() > 0 && b[0] == '"' {
        (occur, phrase_leaf(b.subrange(1, b.len() - 1)))
    } else {
        (occur, word_leaf(b))
    }
}

/// A clause text followed by anything that starts with white space (or by
/// nothing) parses into its clause and then the rest.
proof fn lemma_clause_then_rest(t: Seq<char>, y: Seq<char>)
    requires
        is_clause_text(t),
        y.len() > 0 ==> is_ws(y[0]),
    ensures
        clauses_at(t + y, 0) == prepend(seq![token_clause(t)], clauses_at(y, 0)),
{
    let c = t + y;
    let b = token_body(t);
    let m = t.len() - b.len();
    assert(c[0] == t[0]);
    lemma_skip_ws_bounds(c, 0);
    assert(!is_ws(c[0])) by {
        if t[0] == '+' {
        } else {
            assert(b =~= t);
            if b[0] != '"' {
                assert(!is_ws(b[0]));
            }
        }
    }
    assert(skip_ws(c, 0) == 0);
    let k = m;
    assert(k == if c[0] == '+' { 1int } else { 0int });
    assert(forall|x: int| 0 <= x < b.len() ==> c[k + x] == #[trigger] b[x]) by {
        assert forall|x: int| 0 <= x < b.len() implies c[k + x] == #[trigger] b[x] by {
            if t[0] == '+' {
                assert(b[x] == t[x + 1]);
            } else {
                assert(b =~= t);
            }
        }
    }
    assert(c[k] == b[0]);
    if b[0] == '"' {
        let n = b.len() - 1;
        // the closing quote is the last character of `t`
        assert(forall|x: int| k + 1 <= x < k + n ==> #[trigger] c[x] != '"') by {
            assert forall|x: int| k + 1 <= x < k + n implies #[trigger] c[x] != '"' by {
                assert(c[x] == b[x - k]);
                assert(b.subrange(1, b.len() - 1)[x - k - 1] == b[x - k]);
            }
        }
        assert(c[k + n] == '"');
        lemma_quote_end_to(c, k + 1, k + n);
        assert(c.subrange(k + 1, k + n) =~= b.subrange(1, b.len() - 1));
        assert(k + n + 1 == t.len());
        if y.len() > 0 {
            lemma_clauses_shift(t, y, 0);
            assert(t.len() + 0 == k + n + 1);
        } else {
            assert(c =~= t);
            lemma_skip_ws_bounds(c, t.len() as int);
            lemma_skip_ws_bounds(y, 0);
        }
        lemma_clauses_shift(t, y, 0);
    } else {
        assert(forall|x: int| k <= x < t.len() ==> !is_ws(#[trigger] c[x])) by {
            assert forall|x: int| k <= x < t.len() implies !is_ws(#[trigger] c[x]) by {
                assert(c[x] == b[x - k]);
            }
        }
        lemma_run_end_to(c, k, t.len() as int);
        assert(c.subrange(k, t.len() as int) =~= b);
        lemma_clauses_shift(t, y, 0);
    }
}

proof fn lemma_quote_end_to(c: Seq<char>, i: int, e: int)
    requires
        0 <= i <= e < c.len(),
        c[e] == '"',
        forall|x: int| i <= x < e ==> #[trigger] c[x] != '"',
    ensures
        quote_end(c, i) == e,
    decreases e - i,
{
    if i < e {
        lemma_quote_end_to(c, i + 1, e);
    }
}

pub proof fn lemma_run_end_to(c: Seq<char>, i: int, e: int)
    requires
        0 <= i <= e <= c.len(),
        e < c.len() ==> is_ws(c[e]),
        forall|x: int| i <= x < e ==> !is_ws(#[trigger] c[x]),
    ensures
        run_end(c, i) == e,
    decreases e - i,
{
    if i < e {
        lemma_run_end_to(c, i + 1, e);
    }
}

/// A join of two or more parts is the first part, the separator, and the
/// join of the others.
pub proof fn lemma_join_front(ts: Seq<Seq<char>>, sep: Seq<char>)
    requires
        ts.len() >= 2,
    ensures
        join(ts, sep) == ts[0] + sep + join(ts.drop_first(), sep),
    decreases ts.len(),
{
    if ts.len() == 2 {
        assert(ts.drop_last().len() == 1);
        assert(ts.drop_first().len() == 1);
        assert(join(ts.drop_last(), sep) == ts[0]);
        assert(join(ts.drop_first(), sep) == ts[1]);
        assert(join(ts, sep) == join(ts.drop_last(), sep) + sep + ts.last());
    } else {
        lemma_join_front(ts.drop_last(), sep);
        assert(ts.drop_last().drop_first() =~= ts.drop_first().drop_last());
        assert(ts.drop_first().last() == ts.last());
        assert(ts.drop_last()[0] == ts[0]);
        assert(join(ts.drop_first(), sep) == join(ts.drop_first().drop_last(), sep) + sep
            + ts.drop_first().last());
        assert(join(ts, sep) == join(ts.drop_last(), sep) + sep + ts.last());
        assert(ts[0] + sep + join(ts.drop_first().drop_last(), sep) + sep + ts.last() =~= ts[0] + sep
            + (join(ts.drop_first().drop_last(), sep) + sep + ts.last()));
    }
}

/// Every part is a clause text.
pub open spec fn all_clause_texts(ts: Seq<Seq<char>>) -> bool {
    forall|i: int| 0 <= i < ts.len() ==> is_clause_text(#[trigger] ts[i])
}

/// Clause texts joined by single spaces parse into their clauses, in order.
pub proof fn lemma_clauses_of_joined(ts: Seq<Seq<char>>)
    requires
        ts.len() >= 1,
        all_clause_texts(ts),
    ensures
        clauses_at(join(ts, space()), 0) == Ok::<_, Seq<char>>(
            ts.map_values(|t: Seq<char>| token_clause(t)),
        ),
    decreases ts.len(),
{
    assert(is_clause_text(ts[0]));
    if ts.len() == 1 {
        assert(ts[0] + Seq::<char>::empty() =~= ts[0]);
        lemma_clause_then_rest(ts[0], Seq::empty());
        assert(seq![token_clause(ts[0])] + Seq::<(Occur, LeafModel)>::empty() =~= ts.map_values(
            |t: Seq<char>| token_clause(t),
        ));
    } else {
        let rest = join(ts.drop_first(), space());
        lemma_join_front(ts, space());
        assert(ts[0] + space() + rest =~= ts[0] + (space() + rest));
        lemma_clause_then_rest(ts[0], space() + rest);
        lemma_clauses_skip_one(space() + rest, 0);
        lemma_clauses_shift(space(), rest, 0);
        assert forall|i: int| 0 <= i < ts.drop_first().len() implies is_clause_text(
            #[trigger] ts.drop_first()[i],
        ) by {
            assert(ts.drop_first()[i] == ts[i + 1]);
        }
        lemma_clauses_of_joined(ts.drop_first());
        assert(seq![token_clause(ts[0])] + ts.drop_first().map_values(|t: Seq<char>| token_clause(t))
            =~= ts.map_values(|t: Seq<char>| token_clause(t)));
    }
}

proof fn lemma_clause_text_ends(t: Seq<char>)
    requires
        is_clause_text(t),
    ensures
        t.len() > 0,
        !is_ws(t[0]),
        !is_ws(t.last()),
{
    let b = token_body(t);
    if t.len() > 0 && t[0] == '+' {
        assert(b.last() == t.last());
        if b[0] != '"' {
            assert(!is_ws(b[b.len() - 1]));
        }
    } else {
        assert(b =~= t);
        if b[0] != '"' {
            assert(!is_ws(b[0]));
            assert(!is_ws(b[b.len() - 1]));
        }
    }
}

pub proof fn lemma_join_ends(ts: Seq<Seq<char>>)
    requires
        ts.len() >= 1,
        forall|i: int| 0 <= i < ts.len() ==> (#[trigger] ts[i]).len() > 0,
    ensures
        join(ts, space()).len() > 0,
        join(ts, space())[0] == ts[0][0],
        join(ts, space()).last() == ts.last().last(),
    decreases ts.len(),
{
    assert(ts[0].len() > 0);
    assert(ts.last().len() > 0);
    if ts.len() > 1 {
        assert forall|i: int| 0 <= i < ts.drop_last().len() implies (
        #[trigger] ts.drop_last()[i]).len() > 0 by {
            assert(ts.drop_last()[i] == ts[i]);
        }
        lemma_join_ends(ts.drop_last());
        let j = join(ts.drop_last(), space());
        assert((j + space() + ts.last())[0] == j[0]);
    }
}

/// Clause texts joined by single spaces have no white space to trim.
proof fn lemma_trim_joined(ts: Seq<Seq<char>>)
    requires
        ts.len() >= 1,
        all_clause_texts(ts),
    ensures
        trim(join(ts, space())) == join(ts, space()),
{
    assert forall|i: int| 0 <= i < ts.len() implies (#[trigger] ts[i]).len() > 0 by {
        lemma_clause_text_ends(ts[i]);
    }
    lemma_clause_text_ends(ts[0]);
    lemma_clause_text_ends(ts.last());
    lemma_join_ends(ts);
}

/// A query written as clause texts separated by single spaces parses into
/// exactly those clauses and becomes the query that they combine into.
pub proof fn law_joined_clauses(ts: Seq<Seq<char>>)
    requires
        ts.len() >= 1,
        all_clause_texts(ts),
    ensures
        parse_clauses_spec(join(ts, space())) == Ok::<_, Seq<char>>(
            ts.map_values(|t: Seq<char>| token_clause(t)),
        ),
        build_fts_query_spec(join(ts, space())) == Ok::<_, Seq<char>>(
            combine_clauses(ts.map_values(|t: Seq<char>| token_clause(t))),
        ),
{
    lemma_clauses_of_joined(ts);
    lemma_trim_joined(ts);
}

/// A bare word: not empty, no white space, and not starting with `+` or a
/// double quote.
pub open spec fn is_bare_word(w: Seq<char>) -> bool {
    w.len() > 0 && no_ws(w) && w[0] != '+' && w[0] != '"'
}

/// Every part is a bare word.
pub open spec fn all_bare_words(ws: Seq<Seq<char>>) -> bool {
    forall|i: int| 0 <= i < ws.len() ==> is_bare_word(#[trigger] ws[i])
}

/// The match query on `text` that the shapes merge into.
pub open spec fn merged_match(terms: Seq<char>, op: Option<Operator>) -> FtsModel {
    FtsModel::Match(MatchModel { terms, column: Some("text"@), operator: op, fuzziness: Some(0) })
}

proof fn lemma_bare_word_clause(w: Seq<char>, must: bool)
    requires
        is_bare_word(w),
    ensures
        is_clause_text(if must { seq!['+'] + w } else { w }),
        token_clause(if must { seq!['+'] + w } else { w }) == (
            if must { Occur::Must } else { Occur::Should },
            word_leaf(w),
        ),
{
    if must {
        assert((seq!['+'] + w).drop_first() =~= w);
    }
}

/// A union `w1 w2 ...` of two or more bare words is one match query with the
/// OR operator over the words.
pub proof fn law_union_is_or_match(ws: Seq<Seq<char>>)
    requires
        ws.len() >= 2,
        all_bare_words(ws),
    ensures
        build_fts_query_spec(join(ws, space())) == Ok::<_, Seq<char>>(
            merged_match(join(ws, space()), Some(Operator::Or)),
        ),
{
    assert forall|i: int| 0 <= i < ws.len() implies is_clause_text(#[trigger] ws[i]) by {
        lemma_bare_word_clause(ws[i], false);
    }
    law_joined_clauses(ws);
    let cl = ws.map_values(|t: Seq<char>| token_clause(t));
    assert forall|i: int| 0 <= i < cl.len() implies (#[trigger] cl[i]).0 == Occur::Should && cl[i].1
        is Match by {
        lemma_bare_word_clause(ws[i], false);
    }
    assert(clause_words(cl) =~= ws) by {
        assert forall|i: int| 0 <= i < ws.len() implies clause_words(cl)[i] == ws[i] by {
            lemma_bare_word_clause(ws[i], false);
        }
    }
    assert(!all_occur(cl, Occur::Must)) by {
        assert(cl[0].0 == Occur::Should);
    }
}

/// An intersection `+w1 +w2 ...` of two or more words is one match query
/// with the AND operator over the words.
pub proof fn law_intersection_is_and_match(ws: Seq<Seq<char>>)
    requires
        ws.len() >= 2,
        all_bare_words(ws),
    ensures
        build_fts_query_spec(join(prefix_each(ws, seq!['+']), space())) == Ok::<_, Seq<char>>(
            merged_match(join(ws, space()), Some(Operator::And)),
        ),
{
    let ts = prefix_each(ws, seq!['+']);
    assert forall|i: int| 0 <= i < ts.len() implies is_clause_text(#[trigger] ts[i]) by {
        lemma_bare_word_clause(ws[i], true);
    }
    law_joined_clauses(ts);
    let cl = ts.map_values(|t: Seq<char>| token_clause(t));
    assert forall|i: int| 0 <= i < cl.len() implies (#[trigger] cl[i]).0 == Occur::Must && cl[i].1
        is Match by {
        lemma_bare_word_clause(ws[i], true);
    }
    assert(clause_words(cl) =~= ws) by {
        assert forall|i: int| 0 <= i < ws.len() implies clause_words(cl)[i] == ws[i] by {
            lemma_bare_word_clause(ws[i], true);
        }
    }
}

/// A quoted text `"p"` with no double quote inside is a phrase query over
/// `p`.
pub proof fn law_quoted_is_phrase(p: Seq<char>)
    requires
        !p.contains('"'),
    ensures
        build_fts_query_spec(seq!['"'] + p + seq!['"']) == Ok::<_, Seq<char>>(
            FtsModel::Phrase(PhraseModel { terms: p, column: Some("text"@) }),
        ),
{
    let t = seq!['"'] + p + seq!['"'];
    assert(t.subrange(1, t.len() - 1) =~= p);
    assert(is_clause_text(t));
    let ts = seq![t];
    assert(join(ts, space()) == t);
    law_joined_clauses(ts);
}

/// A single bare word is a match query over that word with the engine's
/// default operator.
pub proof fn law_word_is_match(w: Seq<char>)
    requires
        is_bare_word(w),
    ensures
        build_fts_query_spec(w) == Ok::<_, Seq<char>>(merged_match(w, None)),
{
    lemma_bare_word_clause(w, false);
    let ts = seq![w];
    assert(join(ts, space()) == w);
    law_joined_clauses(ts);
}

/// Clause texts that mix required and optional clauses, or that hold a
/// phrase among two or more clauses, stay a boolean query of those clauses.
pub proof fn law_mixed_is_boolean(ts: Seq<Seq<char>>)
    requires
        ts.len() >= 2,
        all_clause_texts(ts),
        (exists|i: int, j: int|
            0 <= i < ts.len() && 0 <= j < ts.len() && #[trigger] token_clause(ts[i]).0 == Occur::Must
                && #[trigger] token_clause(ts[j]).0 == Occur::Should) || (exists|i: int|
            0 <= i < ts.len() && #[trigger] token_clause(ts[i]).1 is Phrase),
    ensures
        build_fts_query_spec(join(ts, space())) == Ok::<_, Seq<char>>(
            FtsModel::Boolean(ts.map_values(|t: Seq<char>| token_clause(t))),
        ),
{
    law_joined_clauses(ts);
    let cl = ts.map_values(|t: Seq<char>| token_clause(t));
    if exists|i: int| 0 <= i < ts.len() && #[trigger] token_clause(ts[i]).1 is Phrase {
        let i = choose|i: int| 0 <= i < ts.len() && #[trigger] token_clause(ts[i]).1 is Phrase;
        assert(cl[i].1 is Phrase);
    } else {
        let (i, j) = choose|i: int, j: int|
            0 <= i < ts.len() && 0 <= j < ts.len() && #[trigger] token_clause(ts[i]).0 == Occur::Must
                && #[trigger] token_clause(ts[j]).0 == Occur::Should;
        assert(cl[i].0 == Occur::Must);
        assert(cl[j].0 == Occur::Should);
    }
}

/// A clause written back out: `+` for a required clause, then the phrase in
/// double quotes or the word.
pub open spec fn clause_text(cl: (Occur, LeafModel)) -> Seq<char> {
    let prefix = if cl.0 == Occur::Must { seq!['+'] } else { Seq::<char>::empty() };
    match cl.1 {
        LeafModel::Phrase(p) => prefix + seq!['"'] + p.terms + seq!['"'],
        LeafModel::Match(m) => prefix + m.terms,
    }
}

/// Clauses written back out, separated by single spaces.
pub open spec fn render_clauses(cs: Seq<(Occur, LeafModel)>) -> Seq<char> {
    join(cs.map_values(|cl: (Occur, LeafModel)| clause_text(cl)), space())
}

/// A clause as the parser makes it: a word clause holds a word with no white
/// space that does not start with a double quote (nor with `+` when it is
/// optional); a phrase clause holds a text with no double quote.
pub open spec fn clause_ok(cl: (Occur, LeafModel)) -> bool {
    match cl.1 {
        LeafModel::Match(m) => {
            &&& cl.1 == word_leaf(m.terms)
            &&& m.terms.len() > 0
            &&& no_ws(m.terms)
            &&& m.terms[0] != '"'
            &&& (cl.0 == Occur::Should ==> m.terms[0] != '+')
        },
        LeafModel::Phrase(p) => cl.1 == phrase_leaf(p.terms) && !p.terms.contains('"'),
    }
}

/// Every clause is one the parser can make.
pub open spec fn all_clauses_ok(cs: Seq<(Occur, LeafModel)>) -> bool {
    forall|k: int| 0 <= k < cs.len() ==> clause_ok(#[trigger] cs[k])
}

/// Every clause that the parser returns is well formed.
proof fn lemma_parsed_clauses_ok(c: Seq<char>, i: int)
    ensures
        clauses_at(c, i) matches Ok(cs) ==> all_clauses_ok(cs),
    decreases c.len() - i,
{
    if 0 <= i <= c.len() {
        let j = skip_ws(c, i);
        lemma_skip_ws_bounds(c, i);
        if j < c.len() {
            let occur = if c[j] == '+' { Occur::Must } else { Occur::Should };
            let k = if c[j] == '+' { j + 1 } else { j };
            if k < c.len() {
                if c[k] == '"' {
                    let e = quote_end(c, k + 1);
                    lemma_quote_end_bounds(c, k + 1);
                    if e < c.len() {
                        lemma_parsed_clauses_ok(c, e + 1);
                        let p = c.subrange(k + 1, e);
                        assert forall|x: int| 0 <= x < p.len() implies p[x] != '"' by {
                            assert(p[x] == c[k + 1 + x]);
                        }
                        let head = (occur, phrase_leaf(p));
                        assert(clause_ok(head));
                        match clauses_at(c, e + 1) {
                            Ok(rest) => {
                                let cs = seq![head] + rest;
                                assert forall|x: int| 0 <= x < cs.len() implies clause_ok(#[trigger] cs[x]) by {
                                    if x > 0 {
                                        assert(cs[x] == rest[x - 1]);
                                    }
                                }
                            },
                            Err(_) => {},
                        }
                    }
                } else {
                    let e = run_end(c, k);
                    lemma_run_end_bounds(c, k);
                    if e > k {
                        lemma_parsed_clauses_ok(c, e);
                        let w = c.subrange(k, e);
                        assert forall|x: int| 0 <= x < w.len() implies !is_ws(#[trigger] w[x]) by {
                            assert(w[x] == c[k + x]);
                        }
                        assert(w[0] == c[k]);
                        let head = (occur, word_leaf(w));
                        assert(clause_ok(head));
                        match clauses_at(c, e) {
                            Ok(rest) => {
                                let cs = seq![head] + rest;
                                assert forall|x: int| 0 <= x < cs.len() implies clause_ok(#[trigger] cs[x]) by {
                                    if x > 0 {
                                        assert(cs[x] == rest[x - 1]);
                                    }
                                }
                            },
                            Err(_) => {},
                        }
                    }
                }
            }
        }
    }
}

/// A well-formed clause written out is a clause text that stands for it.
proof fn lemma_clause_text_round_trip(cl: (Occur, LeafModel))
    requires
        clause_ok(cl),
    ensures
        is_clause_text(clause_text(cl)),
        token_clause(clause_text(cl)) == cl,
{
    let t = clause_text(cl);
    match cl.1 {
        LeafModel::Match(m) => {
            let w = m.terms;
            if cl.0 == Occur::Must {
                assert(t == seq!['+'] + w);
                assert(t.drop_first() =~= w);
            } else {
                assert(t =~= w);
            }
            assert(token_body(t) == w);
        },
        LeafModel::Phrase(p) => {
            let b = seq!['"'] + p.terms + seq!['"'];
            if cl.0 == Occur::Must {
                assert(t == seq!['+'] + b);
                assert(t.drop_first() =~= b);
            } else {
                assert(t =~= b);
            }
            assert(token_body(t) == b);
            assert(b.subrange(1, b.len() - 1) =~= p.terms);
        },
    }
}

/// Writing the clauses of a parsed query back out, separated by single
/// spaces, and parsing that text again gives the same clauses; the text
/// builds the query that those clauses combine into.
pub proof fn law_parse_render_round_trip(q: Seq<char>)
    requires
        parse_clauses_spec(q) is Ok,
    ensures
        parse_clauses_spec(render_clauses(parse_clauses_spec(q)->Ok_0)) == parse_clauses_spec(q),
        build_fts_query_spec(render_clauses(parse_clauses_spec(q)->Ok_0)) == Ok::<_, Seq<char>>(
            combine_clauses(parse_clauses_spec(q)->Ok_0),
        ),
{
    let cs = parse_clauses_spec(q)->Ok_0;
    lemma_parsed_clauses_ok(q, 0);
    assert(clauses_at(q, 0) == Ok::<_, Seq<char>>(cs));
    let ts = cs.map_values(|cl: (Occur, LeafModel)| clause_text(cl));
    assert forall|k: int| 0 <= k < ts.len() implies is_clause_text(#[trigger] ts[k]) by {
        lemma_clause_text_round_trip(cs[k]);
    }
    law_joined_clauses(ts);
    let back = ts.map_values(|t: Seq<char>| token_clause(t));
    assert forall|k: int| 0 <= k < cs.len() implies #[trigger] back[k] == cs[k] by {
        lemma_clause_text_round_trip(cs[k]);
    }
    assert(back =~= cs);
}

} // verus!
