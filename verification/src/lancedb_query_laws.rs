//! What the LanceDB query classification promises of whole query shapes.

use vstd::prelude::*;
use crate::text::{
    is_ws, no_ws, trim, join, prefix_each, space, all_ws, lemma_trim_padded, lemma_trim_idempotent,
};
use crate::lancedb_serve::serve_shape_spec;
use crate::plus_terms::{run_end, captures_from, plus_captures, lemma_run_end_bounds};
use crate::lance_query_laws::{
    lemma_join_front, lemma_run_end_shift, lemma_run_end_to, lemma_join_ends,
};
use crate::lancedb_query::{model_desc, model_terms, QueryModel, parse_query_spec, is_quoted, is_plus_list};

verus! {

proof fn lemma_captures_shift(p: Seq<char>, y: Seq<char>, i: int)
    requires
        0 <= i <= y.len(),
    ensures
        captures_from(p + y, p.len() + i) == captures_from(y, i),
    decreases y.len() - i,
{
    let c = p + y;
    let n = p.len();
    if i < y.len() {
        assert(c[n + i] == y[i]);
        if y[i] == '+' && i + 1 < y.len() && !is_ws(y[i + 1]) {
            assert(c[n + i + 1] == y[i + 1]);
            lemma_run_end_shift(p, y, i + 1);
            lemma_run_end_bounds(y, i + 1);
            let e = run_end(y, i + 1);
            assert(c.subrange(n + i + 1, n + e) =~= y.subrange(i + 1, e));
            lemma_captures_shift(p, y, e);
        } else {
            if y[i] == '+' && i + 1 >= y.len() {
                assert(n + i + 1 >= c.len());
            }
            if y[i] == '+' && i + 1 < y.len() {
                assert(c[n + i + 1] == y[i + 1]);
            }
            lemma_captures_shift(p, y, i + 1);
        }
    }
}

/// A word: not empty and holding no white space.
pub open spec fn is_word(w: Seq<char>) -> bool {
    w.len() > 0 && no_ws(w)
}

pub open spec fn all_words_ok(ws: Seq<Seq<char>>) -> bool {
    forall|i: int| 0 <= i < ws.len() ==> is_word(#[trigger] ws[i])
}

proof fn lemma_plus_word_then_rest(w: Seq<char>, y: Seq<char>)
    requires
        is_word(w),
        y.len() > 0 ==> is_ws(y[0]),
    ensures
        plus_captures(seq!['+'] + w + y) == seq![w] + captures_from(y, 0),
{
    let c = seq!['+'] + w + y;
    assert(c[0] == '+');
    assert(c[1] == w[0]);
    assert(forall|x: int| 1 <= x < 1 + w.len() ==> c[x] == #[trigger] w[x - 1]);
    assert(forall|x: int| 1 <= x < 1 + w.len() ==> !is_ws(#[trigger] c[x])) by {
        assert forall|x: int| 1 <= x < 1 + w.len() implies !is_ws(#[trigger] c[x]) by {
            assert(c[x] == w[x - 1]);
        }
    }
    if y.len() > 0 {
        assert(c[1 + w.len() as int] == y[0]);
    }
    lemma_run_end_to(c, 1, 1 + w.len() as int);
    assert(c.subrange(1, 1 + w.len() as int) =~= w);
    assert(c =~= (seq!['+'] + w) + y);
    lemma_captures_shift(seq!['+'] + w, y, 0);
}

/// The `+word` tokens of words joined by single spaces are the words.
pub proof fn lemma_plus_captures_of_joined(ws: Seq<Seq<char>>)
    requires
        ws.len() >= 1,
        all_words_ok(ws),
    ensures
        plus_captures(join(prefix_each(ws, seq!['+']), space())) == ws,
    decreases ws.len(),
{
    let ts = prefix_each(ws, seq!['+']);
    assert(is_word(ws[0]));
    assert(ts[0] == seq!['+'] + ws[0]);
    if ws.len() == 1 {
        assert(join(ts, space()) == ts[0]);
        assert(seq!['+'] + ws[0] + Seq::<char>::empty() =~= ts[0]);
        lemma_plus_word_then_rest(ws[0], Seq::empty());
        assert(seq![ws[0]] =~= ws);
    } else {
        lemma_join_front(ts, space());
        let rest = join(ts.drop_first(), space());
        assert(ts.drop_first() =~= prefix_each(ws.drop_first(), seq!['+']));
        assert(ts[0] + space() + rest =~= seq!['+'] + ws[0] + (space() + rest));
        lemma_plus_word_then_rest(ws[0], space() + rest);
        // the space is not a match start
        assert((space() + rest)[0] == ' ');
        assert(captures_from(space() + rest, 0) == captures_from(space() + rest, 1));
        lemma_captures_shift(space(), rest, 0);
        assert forall|i: int| 0 <= i < ws.drop_first().len() implies is_word(
            #[trigger] ws.drop_first()[i],
        ) by {
            assert(ws.drop_first()[i] == ws[i + 1]);
        }
        lemma_plus_captures_of_joined(ws.drop_first());
        assert(seq![ws[0]] + ws.drop_first() =~= ws);
    }
}

proof fn lemma_trim_unchanged(s: Seq<char>)
    requires
        s.len() > 0,
        !is_ws(s[0]),
        !is_ws(s.last()),
    ensures
        trim(s) == s,
{
}

/// An intersection written as `+w1 +w2 ...` (words without white space,
/// single spaces between them) is classified as an intersection of the
/// words `w1 w2 ...`.
pub proof fn law_plus_words_are_intersection(ws: Seq<Seq<char>>)
    requires
        ws.len() >= 1,
        all_words_ok(ws),
    ensures
        parse_query_spec(join(prefix_each(ws, seq!['+']), space())) == QueryModel::Intersection(
            join(ws, space()),
        ),
{
    let ts = prefix_each(ws, seq!['+']);
    let q = join(ts, space());
    assert forall|i: int| 0 <= i < ts.len() implies (#[trigger] ts[i]).len() > 0 by {
        assert(ts[i] == seq!['+'] + ws[i]);
    }
    lemma_join_ends(ts);
    assert(ts[0][0] == '+');
    let last = ws.last();
    assert(is_word(last));
    assert(ts.last() == seq!['+'] + last);
    assert(ts.last().last() == last.last());
    assert(!is_ws(last[last.len() - 1]));
    lemma_trim_unchanged(q);
    lemma_plus_captures_of_joined(ws);
    assert(!is_quoted(q));
    assert(is_plus_list(q));
}

/// A query enclosed in double quotes, with at least one character between
/// them, is a phrase of the text between the quotes.
pub proof fn law_quoted_is_phrase(p: Seq<char>)
    requires
        p.len() > 0,
    ensures
        parse_query_spec(seq!['"'] + p + seq!['"']) == QueryModel::Phrase(p),
{
    let q = seq!['"'] + p + seq!['"'];
    lemma_trim_unchanged(q);
    assert(q.subrange(1, q.len() - 1) =~= p);
}

/// A query that, trimmed, is one word not starting with `+` or a double
/// quote is a term; one that, trimmed, holds white space and starts with
/// neither is a union. Either way the shape carries the trimmed query.
pub proof fn law_plain_words(q: Seq<char>)
    requires
        trim(q).len() > 0,
        trim(q)[0] != '+',
        trim(q)[0] != '"',
    ensures
        no_ws(trim(q)) ==> parse_query_spec(q) == QueryModel::Term(trim(q)),
        !no_ws(trim(q)) ==> parse_query_spec(q) == QueryModel::Union(trim(q)),
{
}

/// The shape keeps the query: a phrase is the trimmed query between its
/// quotes, an intersection joins words that written as `+word` tokens give
/// back the trimmed query, and a term or a union is the trimmed query itself.
pub proof fn law_shape_keeps_query(q: Seq<char>)
    ensures
        match parse_query_spec(q) {
            QueryModel::Phrase(s) => seq!['"'] + s + seq!['"'] == trim(q),
            QueryModel::Intersection(s) => exists|ws: Seq<Seq<char>>|
                s == join(ws, space()) && trim(q) == join(prefix_each(ws, seq!['+']), space()),
            QueryModel::Term(s) => s == trim(q),
            QueryModel::Union(s) => s == trim(q),
        },
{
    let t = trim(q);
    if is_quoted(t) {
        assert(seq!['"'] + t.subrange(1, t.len() - 1) + seq!['"'] =~= t);
    } else if is_plus_list(t) {
        let ws = plus_captures(t);
        assert(join(ws, space()) == join(ws, space()) && t == join(prefix_each(ws, seq!['+']), space()));
    }
}

/// White space around a query never changes its shape, neither for the
/// check tool nor for the server: the query, the query trimmed, and the
/// query with white space added on either side all get the same shape.
pub proof fn law_outer_space_ignored(s: Seq<char>, pre: Seq<char>, post: Seq<char>)
    requires
        all_ws(pre),
        all_ws(post),
    ensures
        parse_query_spec(pre + s + post) == parse_query_spec(s),
        parse_query_spec(trim(s)) == parse_query_spec(s),
        serve_shape_spec(pre + s + post) == serve_shape_spec(s),
        serve_shape_spec(trim(s)) == serve_shape_spec(s),
{
    lemma_trim_padded(pre, s, post);
    lemma_trim_idempotent(s);
}

/// The text in front of the terms in a query's description.
pub open spec fn desc_label(m: QueryModel) -> Seq<char> {
    match m {
        QueryModel::Phrase(_) => "PhraseQuery: \""@,
        QueryModel::Intersection(_) => "MatchQuery(AND): \""@,
        QueryModel::Union(_) => "MatchQuery(OR): \""@,
        QueryModel::Term(_) => "MatchQuery: \""@,
    }
}

/// The description of a query shape names its kind and holds its terms,
/// so two shapes with the same description are the same shape with the same
/// terms.
pub proof fn law_description_determines_query(m1: QueryModel, m2: QueryModel)
    ensures
        model_desc(m1) == model_desc(m2) ==> m1 == m2,
{
    reveal_strlit("PhraseQuery: \"");
    reveal_strlit("MatchQuery(AND): \"");
    reveal_strlit("MatchQuery(OR): \"");
    reveal_strlit("MatchQuery: \"");
    reveal_strlit("\"");
    let d1 = model_desc(m1);
    let d2 = model_desc(m2);
    let l1 = desc_label(m1);
    let l2 = desc_label(m2);
    assert(d1 == l1 + model_terms(m1) + seq!['"']);
    assert(d2 == l2 + model_terms(m2) + seq!['"']);
    if d1 == d2 {
        assert(d1[0] == l1[0] && d1[10] == l1[10] && d1[11] == l1[11]);
        assert(d2[0] == l2[0] && d2[10] == l2[10] && d2[11] == l2[11]);
        assert(l1 == l2);
        assert(model_terms(m1) =~= d1.subrange(l1.len() as int, d1.len() - 1));
        assert(model_terms(m2) =~= d2.subrange(l2.len() as int, d2.len() - 1));
    }
}

} // verus!
