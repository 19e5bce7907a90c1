//! The query language of the Lance engine: a closed subset of the Lucene
//! syntax (`+` for a required clause, double quotes for a phrase), parsed into
//! clauses and then into a single full-text query over the `text` column.

use vstd::prelude::*;
use crate::text::{is_ws, trim, join, space, chars_of, trim_bounds, string_of};
use crate::plus_terms::{run_end, lemma_run_end_bounds};
use crate::fts_query::{
    FtsQuery, FtsModel, MatchQuery, MatchModel, PhraseQuery, PhraseModel, LeafQuery, LeafModel,
    Occur, Operator, clauses_view, clause_view, leaf_as_query,
};

verus! {

/// First index at or after `i` that is not white space (or the end).
pub open spec fn skip_ws(c: Seq<char>, i: int) -> int
    decreases c.len() - i,
{
    if 0 <= i < c.len() && is_ws(c[i]) {
        skip_ws(c, i + 1)
    } else {
        i
    }
}

/// First index at or after `i` that holds a double quote (or the end).
pub open spec fn quote_end(c: Seq<char>, i: int) -> int
    decreases c.len() - i,
{
    if 0 <= i < c.len() && c[i] != '"' {
        quote_end(c, i + 1)
    } else {
        i
    }
}

pub proof fn lemma_skip_ws_bounds(c: Seq<char>, i: int)
    requires
        0 <= i <= c.len(),
    ensures
        i <= skip_ws(c, i) <= c.len(),
        forall|j: int| i <= j < skip_ws(c, i) ==> is_ws(#[trigger] c[j]),
        skip_ws(c, i) < c.len() ==> !is_ws(c[skip_ws(c, i)]),
    decreases c.len() - i,
{
    if i < c.len() && is_ws(c[i]) {
        lemma_skip_ws_bounds(c, i + 1);
    }
}

pub proof fn lemma_quote_end_bounds(c: Seq<char>, i: int)
    requires
        0 <= i <= c.len(),
    ensures
        i <= quote_end(c, i) <= c.len(),
        forall|j: int| i <= j < quote_end(c, i) ==> #[trigger] c[j] != '"',
        quote_end(c, i) < c.len() ==> c[quote_end(c, i)] == '"',
    decreases c.len() - i,
{
    if i < c.len() && c[i] != '"' {
        lemma_quote_end_bounds(c, i + 1);
    }
}

/// The clause for a bare word: a match query on `text` with no fuzziness.
pub open spec fn word_leaf(t: Seq<char>) -> LeafModel {
    LeafModel::Match(
        MatchModel { terms: t, column: Some("text"@), operator: None, fuzziness: Some(0) },
    )
}

/// The clause for a quoted text: a phrase query on `text`.
pub open spec fn phrase_leaf(t: Seq<char>) -> LeafModel {
    LeafModel::Phrase(PhraseModel { terms: t, column: Some("text"@) })
}

/// `prefix` put in front of the clauses of a successful parse; an error
/// passes through.
pub open spec fn prepend(
    prefix: Seq<(Occur, LeafModel)>,
    r: Result<Seq<(Occur, LeafModel)>, Seq<char>>,
) -> Result<Seq<(Occur, LeafModel)>, Seq<char>> {
    match r {
        Ok(s) => Ok(prefix + s),
        Err(m) => Err(m),
    }
}

/// The clauses of `c[i..]`. White space separates clauses; a clause is an
/// optional `+` (required, else optional), then either a double-quoted
/// phrase or a word that runs to the next white space.
pub open spec fn clauses_at(c: Seq<char>, i: int) -> Result<Seq<(Occur, LeafModel)>, Seq<char>>
    decreases c.len() - i,
{
    if i < 0 || i > c.len() {
        Ok(Seq::empty())
    } else {
        let j = skip_ws(c, i);
        proof {
            lemma_skip_ws_bounds(c, i);
        }
        if j >= c.len() {
            Ok(Seq::empty())
        } else {
            let occur = if c[j] == '+' { Occur::Must } else { Occur::Should };
            let k = if c[j] == '+' { j + 1 } else { j };
            if k >= c.len() {
                Err("trailing +"@)
            } else if c[k] == '"' {
                let e = quote_end(c, k + 1);
                proof {
                    lemma_quote_end_bounds(c, k + 1);
                }
                if e >= c.len() {
                    Err("unclosed quote"@)
                } else {
                    prepend(seq![(occur, phrase_leaf(c.subrange(k + 1, e)))], clauses_at(c, e + 1))
                }
            } else {
                let e = run_end(c, k);
                proof {
                    lemma_run_end_bounds(c, k);
                }
                if e == k {
                    Err("empty term"@)
                } else {
                    prepend(seq![(occur, word_leaf(c.subrange(k, e)))], clauses_at(c, e))
                }
            }
        }
    }
}

/// The clauses of a query; a query with none is an error.
pub open spec fn parse_clauses_spec(q: Seq<char>) -> Result<Seq<(Occur, LeafModel)>, Seq<char>> {
    match clauses_at(q, 0) {
        Ok(s) => if s.len() == 0 {
            Err("empty query"@)
        } else {
            Ok(s)
        },
        Err(m) => Err(m),
    }
}

/// Every clause is a word (a match query).
pub open spec fn all_words(cl: Seq<(Occur, LeafModel)>) -> bool {
    forall|i: int| 0 <= i < cl.len() ==> (#[trigger] cl[i]).1 is Match
}

/// Every clause has the given occurrence.
pub open spec fn all_occur(cl: Seq<(Occur, LeafModel)>, o: Occur) -> bool {
    forall|i: int| 0 <= i < cl.len() ==> (#[trigger] cl[i]).0 == o
}

/// The words of word clauses.
pub open spec fn clause_words(cl: Seq<(Occur, LeafModel)>) -> Seq<Seq<char>> {
    cl.map_values(
        |c: (Occur, LeafModel)|
            match c.1 {
                LeafModel::Match(m) => m.terms,
                LeafModel::Phrase(p) => p.terms,
            },
    )
}

/// The single query for a list of clauses: one clause stands alone; words
/// that are all required, or all optional, merge into one match query with
/// the AND or OR operator; anything else is a boolean query of the clauses.
pub open spec fn combine_clauses(cl: Seq<(Occur, LeafModel)>) -> FtsModel {
    if cl.len() == 1 {
        leaf_as_query(cl[0].1)
    } else if all_words(cl) && (all_occur(cl, Occur::Must) || all_occur(cl, Occur::Should)) {
        FtsModel::Match(
            MatchModel {
                terms: join(clause_words(cl), space()),
                column: Some("text"@),
                operator: Some(
                    if all_occur(cl, Occur::Must) {
                        Operator::And
                    } else {
                        Operator::Or
                    },
                ),
                fuzziness: Some(0),
            },
        )
    } else {
        FtsModel::Boolean(cl)
    }
}

/// The query for a raw benchmark query, or the parse error.
pub open spec fn build_fts_query_spec(raw: Seq<char>) -> Result<FtsModel, Seq<char>> {
    match parse_clauses_spec(trim(raw)) {
        Ok(cl) => Ok(combine_clauses(cl)),
        Err(m) => Err(m),
    }
}

pub open spec fn result_clauses_view(
    r: Result<Vec<(Occur, LeafQuery)>, String>,
) -> Result<Seq<(Occur, LeafModel)>, Seq<char>> {
    match r {
        Ok(v) => Ok(clauses_view(v@)),
        Err(m) => Err(m@),
    }
}

pub open spec fn result_query_view(r: Result<FtsQuery, String>) -> Result<FtsModel, Seq<char>> {
    match r {
        Ok(q) => Ok(q@),
        Err(m) => Err(m@),
    }
}

fn skip_ws_from(c: &Vec<char>, i: usize) -> (j: usize)
    requires
        i <= c.len(),
    ensures
        j == skip_ws(c@, i as int),
        i <= j <= c.len(),
{
    proof {
        lemma_skip_ws_bounds(c@, i as int);
    }
    let mut j = i;
    while j < c.len() && crate::text::is_whitespace(c[j])
        invariant
            i <= j <= c.len(),
            skip_ws(c@, i as int) == skip_ws(c@, j as int),
        decreases c.len() - j,
    {
        j += 1;
    }
    j
}

fn quote_end_from(c: &Vec<char>, i: usize) -> (j: usize)
    requires
        i <= c.len(),
    ensures
        j == quote_end(c@, i as int),
        i <= j <= c.len(),
{
    proof {
        lemma_quote_end_bounds(c@, i as int);
    }
    let mut j = i;
    while j < c.len() && c[j] != '"'
        invariant
            i <= j <= c.len(),
            quote_end(c@, i as int) == quote_end(c@, j as int),
        decreases c.len() - j,
    {
        j += 1;
    }
    j
}

fn run_end_from(c: &Vec<char>, i: usize) -> (j: usize)
    requires
        i <= c.len(),
    ensures
        j == run_end(c@, i as int),
        i <= j <= c.len(),
{
    proof {
        lemma_run_end_bounds(c@, i as int);
    }
    let mut j = i;
    while j < c.len() && !crate::text::is_whitespace(c[j])
        invariant
            i <= j <= c.len(),
            run_end(c@, i as int) == run_end(c@, j as int),
        decreases c.len() - j,
    {
        j += 1;
    }
    j
}

proof fn lemma_prepend_assoc(
    p: Seq<(Occur, LeafModel)>,
    q: Seq<(Occur, LeafModel)>,
    r: Result<Seq<(Occur, LeafModel)>, Seq<char>>,
)
    ensures
        prepend(p, prepend(q, r)) == prepend(p + q, r),
{
    match r {
        Ok(s) => {
            assert(p + (q + s) =~= (p + q) + s);
        },
        Err(_) => {},
    }
}

fn text_column() -> (c: Option<String>)
    ensures
        crate::fts_query::opt_string_view(c) == Some("text"@),
{
    Some(String::from_str("text"))
}

/// Splits a query into its clauses.
pub fn parse_clauses(query: &str) -> (r: Result<Vec<(Occur, LeafQuery)>, String>)
    ensures
        result_clauses_view(r) == parse_clauses_spec(query@),
{
    let chars = chars_of(query);
    let ghost c = chars@;
    let mut clauses: Vec<(Occur, LeafQuery)> = Vec::new();
    let mut i: usize = 0;
    assert(clauses_view(clauses@) =~= Seq::<(Occur, LeafModel)>::empty());
    assert(prepend(Seq::empty(), clauses_at(c, 0)) == clauses_at(c, 0)) by {
        match clauses_at(c, 0) {
            Ok(s) => {
                assert(Seq::<(Occur, LeafModel)>::empty() + s =~= s);
            },
            Err(_) => {},
        }
    }
    loop
        invariant
            c == chars@,
            c == query@,
            i <= chars.len(),
            clauses_at(c, 0) == prepend(clauses_view(clauses@), clauses_at(c, i as int)),
        ensures
            clauses_at(c, 0) == Ok::<_, Seq<char>>(clauses_view(clauses@)),
        decreases chars.len() - i,
    {
        let j = skip_ws_from(&chars, i);
        if j >= chars.len() {
            assert(clauses_at(c, i as int) == Ok::<_, Seq<char>>(Seq::<(Occur, LeafModel)>::empty()));
            assert(clauses_view(clauses@) + Seq::<(Occur, LeafModel)>::empty() =~= clauses_view(clauses@));
            break;
        }
        let must = chars[j] == '+';
        let occur = if must { Occur::Must } else { Occur::Should };
        let k = if must { j + 1 } else { j };
        if k >= chars.len() {
            return Err(String::from_str("trailing +"));
        }
        if chars[k] == '"' {
            let e = quote_end_from(&chars, k + 1);
            if e >= chars.len() {
                return Err(String::from_str("unclosed quote"));
            }
            let terms = string_of(&chars, k + 1, e);
            let leaf = LeafQuery::Phrase(PhraseQuery { terms, column: text_column() });
            proof {
                let cl = seq![(occur, phrase_leaf(c.subrange(k + 1, e as int)))];
                assert(clause_view((occur, leaf)) == cl[0]);
                lemma_prepend_assoc(clauses_view(clauses@), cl, clauses_at(c, e + 1));
                assert(clauses_view(clauses@.push((occur, leaf))) =~= clauses_view(clauses@) + cl);
            }
            clauses.push((occur, leaf));
            i = e + 1;
        } else {
            let e = run_end_from(&chars, k);
            if e == k {
                return Err(String::from_str("empty term"));
            }
            let terms = string_of(&chars, k, e);
            let leaf = LeafQuery::Match(
                MatchQuery { terms, column: text_column(), operator: None, fuzziness: Some(0) },
            );
            proof {
                let cl = seq![(occur, word_leaf(c.subrange(k as int, e as int)))];
                assert(clause_view((occur, leaf)) == cl[0]);
                lemma_prepend_assoc(clauses_view(clauses@), cl, clauses_at(c, e as int));
                assert(clauses_view(clauses@.push((occur, leaf))) =~= clauses_view(clauses@) + cl);
            }
            clauses.push((occur, leaf));
            i = e;
        }
    }
    if clauses.len() == 0 {
        return Err(String::from_str("empty query"));
    }
    Ok(clauses)
}

/// Parses a raw benchmark query (surrounding white space removed) into the
/// one full-text query that runs it.
pub fn build_fts_query(raw: &str) -> (r: Result<FtsQuery, String>)
    ensures
        result_query_view(r) == build_fts_query_spec(raw@),
{
    let chars = chars_of(raw);
    let (lo, hi) = trim_bounds(&chars);
    let trimmed = string_of(&chars, lo, hi);
    let clauses = match parse_clauses(trimmed.as_str()) {
        Ok(c) => c,
        Err(m) => return Err(m),
    };
    let ghost cl = clauses_view(clauses@);
    if clauses.len() == 1 {
        let mut clauses = clauses;
        let (_, leaf) = clauses.pop().unwrap();
        return Ok(leaf.into_query());
    }
    let mut all_must = true;
    let mut all_should = true;
    let mut all_terms = true;
    let mut i: usize = 0;
    while i < clauses.len()
        invariant
            i <= clauses.len(),
            cl == clauses_view(clauses@),
            all_must == all_occur(cl.take(i as int), Occur::Must),
            all_should == all_occur(cl.take(i as int), Occur::Should),
            all_terms == all_words(cl.take(i as int)),
        decreases clauses.len() - i,
    {
        assert(cl[i as int] == clause_view(clauses@[i as int]));
        assert(forall|j: int| 0 <= j < i ==> cl.take(i + 1)[j] == #[trigger] cl.take(i as int)[j]);
        assert(cl.take(i + 1)[i as int] == cl[i as int]);
        if clauses[i].0 != Occur::Must {
            all_must = false;
        }
        if clauses[i].0 != Occur::Should {
            all_should = false;
        }
        match &clauses[i].1 {
            LeafQuery::Match(_) => {},
            LeafQuery::Phrase(_) => {
                all_terms = false;
            },
        }
        i += 1;
    }
    assert(cl.take(clauses.len() as int) =~= cl);
    if all_terms && (all_must || all_should) {
        let mut words: Vec<String> = Vec::new();
        let mut i: usize = 0;
        while i < clauses.len()
            invariant
                i <= clauses.len(),
                cl == clauses_view(clauses@),
                words.deep_view() =~= clause_words(cl).take(i as int),
            decreases clauses.len() - i,
        {
            assert(cl[i as int] == clause_view(clauses@[i as int]));
            let t = match &clauses[i].1 {
                LeafQuery::Match(m) => m.terms.clone(),
                LeafQuery::Phrase(p) => p.terms.clone(),
            };
            assert(t@ == clause_words(cl)[i as int]);
            let ghost before = words.deep_view();
            words.push(t);
            assert(words.deep_view() =~= before.push(t@));
            assert(clause_words(cl).take(i + 1) =~= clause_words(cl).take(i as int).push(t@));
            i += 1;
        }
        assert(clause_words(cl).take(clauses.len() as int) =~= clause_words(cl));
        let terms = crate::text::join_strings(&words, " ");
        proof {
            reveal_strlit(" ");
        }
        assert(" "@ =~= space());
        let operator = if all_must { Operator::And } else { Operator::Or };
        return Ok(
            FtsQuery::Match(
                MatchQuery { terms, column: text_column(), operator: Some(operator), fuzziness: Some(0) },
            ),
        );
    }
    Ok(FtsQuery::Boolean(clauses))
}

} // verus!
