//! Classification of Tantivy-style benchmark queries into the four shapes
//! that the LanceDB engine runs (term, union, intersection, phrase), and the
//! full-text query built for each shape.

use vstd::prelude::*;
use crate::text::{
    no_ws, trim, join, prefix_each, space, chars_of, trim_bounds, string_of, range_has_no_ws,
    join_strings, join_prefixed,
};
use crate::plus_terms::{plus_captures, PlusTermPattern};
use crate::fts_query::{
    FtsQuery, FtsModel, MatchQuery, MatchModel, PhraseQuery, PhraseModel, Operator,
};

verus! {

/// The shape of a benchmark query, with the text that the engine searches for.
#[derive(Clone, Debug)]
pub enum QueryType {
    /// A single word.
    Term(String),
    /// Several words, any of which may match (OR).
    Union(String),
    /// `+a +b ...`: all of the words must match (AND); holds `a b ...`.
    Intersection(String),
    /// `"a b"`: the words in order; holds the text between the quotes.
    Phrase(String),
}

/// The mathematical value of a [`QueryType`].
pub enum QueryModel {
    Term(Seq<char>),
    Union(Seq<char>),
    Intersection(Seq<char>),
    Phrase(Seq<char>),
}

impl View for QueryType {
    type V = QueryModel;

    open spec fn view(&self) -> QueryModel {
        match self {
            QueryType::Term(s) => QueryModel::Term(s@),
            QueryType::Union(s) => QueryModel::Union(s@),
            QueryType::Intersection(s) => QueryModel::Intersection(s@),
            QueryType::Phrase(s) => QueryModel::Phrase(s@),
        }
    }
}

/// The text that a query shape carries.
pub open spec fn model_terms(m: QueryModel) -> Seq<char> {
    match m {
        QueryModel::Term(s) => s,
        QueryModel::Union(s) => s,
        QueryModel::Intersection(s) => s,
        QueryModel::Phrase(s) => s,
    }
}

/// The name of a query shape.
pub open spec fn model_name(m: QueryModel) -> Seq<char> {
    match m {
        QueryModel::Term(_) => "term"@,
        QueryModel::Union(_) => "union"@,
        QueryModel::Intersection(_) => "intersection"@,
        QueryModel::Phrase(_) => "phrase"@,
    }
}

/// The description of the query that is actually run for a shape:
/// the query kind, then the searched text in double quotes.
pub open spec fn model_desc(m: QueryModel) -> Seq<char> {
    match m {
        QueryModel::Phrase(s) => "PhraseQuery: \""@ + s + "\""@,
        QueryModel::Intersection(s) => "MatchQuery(AND): \""@ + s + "\""@,
        QueryModel::Union(s) => "MatchQuery(OR): \""@ + s + "\""@,
        QueryModel::Term(s) => "MatchQuery: \""@ + s + "\""@,
    }
}

/// A trimmed query is a phrase when it is longer than two characters and is
/// enclosed in double quotes.
pub open spec fn is_quoted(t: Seq<char>) -> bool {
    t.len() > 2 && t[0] == '"' && t.last() == '"'
}

/// A trimmed query is an intersection when it starts with `+` and is exactly
/// its `+term` tokens joined by single spaces.
pub open spec fn is_plus_list(t: Seq<char>) -> bool {
    &&& t.len() > 0
    &&& t[0] == '+'
    &&& plus_captures(t).len() > 0
    &&& join(prefix_each(plus_captures(t), seq!['+']), space()) == t
}

/// A trimmed text is one word when it is not empty and holds no white space.
pub open spec fn is_one_word(t: Seq<char>) -> bool {
    t.len() > 0 && no_ws(t)
}

/// The shape of a query: phrase, then intersection, then term, else union;
/// each is judged on the query with surrounding white space removed.
pub open spec fn parse_query_spec(q: Seq<char>) -> QueryModel {
    let t = trim(q);
    if is_quoted(t) {
        QueryModel::Phrase(t.subrange(1, t.len() - 1))
    } else if is_plus_list(t) {
        QueryModel::Intersection(join(plus_captures(t), space()))
    } else if is_one_word(t) {
        QueryModel::Term(t)
    } else {
        QueryModel::Union(t)
    }
}

/// The full-text query for a shape: a phrase query, a match query with the
/// AND or OR operator, or, for a single term, a match query with the
/// engine's default operator.
pub open spec fn shape_query(m: QueryModel) -> FtsModel {
    match m {
        QueryModel::Phrase(s) => FtsModel::Phrase(PhraseModel { terms: s, column: None }),
        QueryModel::Intersection(s) => FtsModel::Match(
            MatchModel { terms: s, column: None, operator: Some(Operator::And), fuzziness: None },
        ),
        QueryModel::Union(s) => FtsModel::Match(
            MatchModel { terms: s, column: None, operator: Some(Operator::Or), fuzziness: None },
        ),
        QueryModel::Term(s) => FtsModel::Match(
            MatchModel { terms: s, column: None, operator: None, fuzziness: None },
        ),
    }
}

impl QueryType {
    /// The name of the shape: `term`, `union`, `intersection` or `phrase`.
    pub fn name(&self) -> (r: &'static str)
        ensures
            r@ == model_name(self@),
    {
        match self {
            QueryType::Term(_) => "term",
            QueryType::Union(_) => "union",
            QueryType::Intersection(_) => "intersection",
            QueryType::Phrase(_) => "phrase",
        }
    }

    /// The text that the shape carries.
    pub fn terms(&self) -> (r: &str)
        ensures
            r@ == model_terms(self@),
    {
        match self {
            QueryType::Term(s) | QueryType::Union(s) | QueryType::Intersection(s)
            | QueryType::Phrase(s) => s.as_str(),
        }
    }
}

fn quoted_after(prefix: &str, s: &String) -> (r: String)
    ensures
        r@ == prefix@ + s@ + "\""@,
{
    let mut r = String::from_str(prefix);
    r.append(s.as_str());
    r.append("\"");
    r
}

/// The description of the query that is actually run for a shape.
pub fn get_actual_query_desc(query_type: &QueryType) -> (r: String)
    ensures
        r@ == model_desc(query_type@),
{
    match query_type {
        QueryType::Phrase(terms) => quoted_after("PhraseQuery: \"", terms),
        QueryType::Intersection(terms) => quoted_after("MatchQuery(AND): \"", terms),
        QueryType::Union(terms) => quoted_after("MatchQuery(OR): \"", terms),
        QueryType::Term(term) => quoted_after("MatchQuery: \"", term),
    }
}

/// The phrase or intersection shape of a trimmed query `chars[lo..hi]`, if it
/// has one of them.
pub(crate) fn quoted_or_plus_list(
    pattern: &PlusTermPattern,
    chars: &Vec<char>,
    lo: usize,
    hi: usize,
) -> (r: Option<QueryType>)
    requires
        lo <= hi <= chars.len(),
    ensures
        ({
            let t = chars@.subrange(lo as int, hi as int);
            match r {
                Some(q) => if is_quoted(t) {
                    q@ == QueryModel::Phrase(t.subrange(1, t.len() - 1))
                } else {
                    is_plus_list(t) && q@ == QueryModel::Intersection(join(plus_captures(t), space()))
                },
                None => !is_quoted(t) && !is_plus_list(t),
            }
        }),
{
    let ghost t = chars@.subrange(lo as int, hi as int);
    if hi - lo > 2 && chars[lo] == '"' && chars[hi - 1] == '"' {
        let inner = string_of(chars, lo + 1, hi - 1);
        assert(inner@ =~= t.subrange(1, t.len() - 1));
        return Some(QueryType::Phrase(inner));
    }
    if hi - lo > 0 && chars[lo] == '+' {
        let trimmed = string_of(chars, lo, hi);
        proof {
            use_type_invariant(pattern);
        }
        let terms = pattern.captures(trimmed.as_str());
        if terms.len() > 0 {
            let reconstructed = join_prefixed(&terms, "+", " ");
            proof {
                reveal_strlit("+");
                reveal_strlit(" ");
            }
            assert("+"@ =~= seq!['+']);
            assert(" "@ =~= space());
            if reconstructed == trimmed {
                return Some(QueryType::Intersection(join_strings(&terms, " ")));
            }
        }
    }
    None
}

/// Classifies a Tantivy-style query string.
pub fn parse_query(query_str: &str) -> (q: QueryType)
    ensures
        q@ == parse_query_spec(query_str@),
{
    let pattern = PlusTermPattern::new();
    let chars = chars_of(query_str);
    let (lo, hi) = trim_bounds(&chars);
    match quoted_or_plus_list(&pattern, &chars, lo, hi) {
        Some(q) => q,
        None => {
            let trimmed = string_of(&chars, lo, hi);
            if hi - lo > 0 && range_has_no_ws(&chars, lo, hi) {
                QueryType::Term(trimmed)
            } else {
                QueryType::Union(trimmed)
            }
        },
    }
}

/// The full-text query that runs a query shape.
pub fn build_fts_query(query_type: &QueryType) -> (q: FtsQuery)
    ensures
        q@ == shape_query(query_type@),
{
    match query_type {
        QueryType::Phrase(terms) => FtsQuery::Phrase(PhraseQuery { terms: terms.clone(), column: None }),
        QueryType::Intersection(terms) => FtsQuery::Match(
            MatchQuery { terms: terms.clone(), column: None, operator: Some(Operator::And), fuzziness: None },
        ),
        QueryType::Union(terms) => FtsQuery::Match(
            MatchQuery { terms: terms.clone(), column: None, operator: Some(Operator::Or), fuzziness: None },
        ),
        QueryType::Term(term) => FtsQuery::Match(
            MatchQuery { terms: term.clone(), column: None, operator: None, fuzziness: None },
        ),
    }
}

} // verus!
