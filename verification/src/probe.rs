//! The Lance latency probe: its built-in query cases, the cases made from
//! benchmark queries, and query files.

use vstd::prelude::*;
use crate::text::{join, space};
use crate::fts_query::{
    FtsQuery, FtsModel, MatchQuery, MatchModel, PhraseQuery, PhraseModel, LeafQuery, LeafModel,
    Occur, Operator,
};
use crate::lance_query::{build_fts_query, build_fts_query_spec, combine_clauses};
use crate::lance_query_laws::{law_joined_clauses, all_clause_texts, token_clause};

verus! {

/// A match query on `text` with the given operator and no fuzziness.
pub open spec fn match_model(terms: Seq<char>, op: Operator) -> MatchModel {
    MatchModel { terms, column: Some("text"@), operator: Some(op), fuzziness: Some(0) }
}

fn text_column() -> (c: Option<String>)
    ensures
        crate::fts_query::opt_string_view(c) == Some("text"@),
{
    Some(String::from_str("text"))
}

fn match_leaf(terms: &str, op: Operator) -> (m: MatchQuery)
    ensures
        m@ == match_model(terms@, op),
{
    MatchQuery { terms: String::from_str(terms), column: text_column(), operator: Some(op), fuzziness: Some(0) }
}

/// A match query on `text`.
pub fn match_query(terms: &str, op: Operator) -> (q: FtsQuery)
    ensures
        q@ == FtsModel::Match(match_model(terms@, op)),
{
    FtsQuery::Match(match_leaf(terms, op))
}

/// A phrase query on `text`.
pub fn phrase_query(terms: &str) -> (q: FtsQuery)
    ensures
        q@ == FtsModel::Phrase(PhraseModel { terms: terms@, column: Some("text"@) }),
{
    FtsQuery::Phrase(PhraseQuery { terms: String::from_str(terms), column: text_column() })
}

/// A boolean query: `must` required, `should` optional, each an OR match.
pub fn must_should(must: &str, should: &str) -> (q: FtsQuery)
    ensures
        q@ == FtsModel::Boolean(
            seq![
                (Occur::Must, LeafModel::Match(match_model(must@, Operator::Or))),
                (Occur::Should, LeafModel::Match(match_model(should@, Operator::Or))),
            ],
        ),
{
    let mut v: Vec<(Occur, LeafQuery)> = Vec::new();
    v.push((Occur::Must, LeafQuery::Match(match_leaf(must, Operator::Or))));
    v.push((Occur::Should, LeafQuery::Match(match_leaf(should, Operator::Or))));
    let q = FtsQuery::Boolean(v);
    assert(crate::fts_query::clauses_view(v@) =~= seq![
        (Occur::Must, LeafModel::Match(match_model(must@, Operator::Or))),
        (Occur::Should, LeafModel::Match(match_model(should@, Operator::Or))),
    ]);
    q
}

/// A boolean query with one required OR match.
pub fn boolean_must(term: &str) -> (q: FtsQuery)
    ensures
        q@ == FtsModel::Boolean(seq![(Occur::Must, LeafModel::Match(match_model(term@, Operator::Or)))]),
{
    let mut v: Vec<(Occur, LeafQuery)> = Vec::new();
    v.push((Occur::Must, LeafQuery::Match(match_leaf(term, Operator::Or))));
    assert(crate::fts_query::clauses_view(v@) =~= seq![
        (Occur::Must, LeafModel::Match(match_model(term@, Operator::Or))),
    ]);
    FtsQuery::Boolean(v)
}

/// A named query with its limit (`None`: all matches).
#[derive(Clone, Debug)]
pub struct Case {
    pub name: String,
    pub query: FtsQuery,
    pub limit: Option<i64>,
}

/// The mathematical value of a [`Case`].
pub struct CaseModel {
    pub name: Seq<char>,
    pub query: FtsModel,
    pub limit: Option<i64>,
}

impl View for Case {
    type V = CaseModel;

    open spec fn view(&self) -> CaseModel {
        CaseModel { name: self.name@, query: self.query@, limit: self.limit }
    }
}

pub open spec fn cases_view(v: Seq<Case>) -> Seq<CaseModel> {
    v.map_values(|c: Case| c@)
}

/// The case for a benchmark query: named by the query, its first ten hits.
pub fn case_from_query(raw: &str) -> (r: Result<Case, String>)
    ensures
        match r {
            Ok(c) => build_fts_query_spec(raw@) == Ok::<_, Seq<char>>(c.query@) && c.name@ == raw@
                && c.limit == Some(10i64),
            Err(m) => build_fts_query_spec(raw@) == Err::<FtsModel, _>(m@),
        },
{
    match build_fts_query(raw) {
        Ok(query) => Ok(Case { name: String::from_str(raw), query, limit: Some(10) }),
        Err(m) => Err(m),
    }
}

/// A query of the built-in cases, written in the benchmark syntax: it parses,
/// and into the query that its clauses combine into.
fn built_in(raw: &str, Ghost(parts): Ghost<Seq<Seq<char>>>) -> (q: FtsQuery)
    requires
        parts.len() >= 1,
        all_clause_texts(parts),
        raw@ == join(parts, space()),
    ensures
        build_fts_query_spec(raw@) == Ok::<_, Seq<char>>(q@),
        q@ == combine_clauses(parts.map_values(|t: Seq<char>| token_clause(t))),
{
    proof {
        law_joined_clauses(parts);
    }
    match build_fts_query(raw) {
        Ok(q) => q,
        Err(_) => {
            assert(false);
            FtsQuery::Boolean(Vec::new())
        },
    }
}

fn case(name: &str, query: FtsQuery, limit: Option<i64>) -> (c: Case)
    ensures
        c@ == (CaseModel { name: name@, query: query@, limit }),
{
    Case { name: String::from_str(name), query, limit }
}

/// The query of a built-in case written in the benchmark syntax.
pub open spec fn parsed(raw: Seq<char>) -> FtsModel {
    match build_fts_query_spec(raw) {
        Ok(q) => q,
        Err(_) => FtsModel::Boolean(Seq::empty()),
    }
}

/// The built-in cases, in order.
pub open spec fn builtin_cases() -> Seq<CaseModel> {
    seq![
        CaseModel { name: "and_rare"@, query: FtsModel::Match(match_model("griffith observatory"@, Operator::And)), limit: Some(10i64) },
        CaseModel { name: "or_rare"@, query: FtsModel::Match(match_model("griffith observatory"@, Operator::Or)), limit: Some(10i64) },
        CaseModel { name: "phrase_rare"@, query: FtsModel::Phrase(PhraseModel { terms: "griffith observatory"@, column: Some("text"@) }), limit: Some(10i64) },
        CaseModel { name: "term_climate"@, query: FtsModel::Match(match_model("climate"@, Operator::Or)), limit: Some(10i64) },
        CaseModel { name: "must_only_climate"@, query: FtsModel::Boolean(seq![(Occur::Must, LeafModel::Match(match_model("climate"@, Operator::Or)))]), limit: Some(10i64) },
        CaseModel { name: "term_policy"@, query: FtsModel::Match(match_model("policy"@, Operator::Or)), limit: Some(10i64) },
        CaseModel { name: "must_should_climate"@, query: FtsModel::Boolean(seq![(Occur::Must, LeafModel::Match(match_model("climate"@, Operator::Or))), (Occur::Should, LeafModel::Match(match_model("policy"@, Operator::Or)))]), limit: Some(10i64) },
        CaseModel { name: "must_should_climate_count"@, query: FtsModel::Boolean(seq![(Occur::Must, LeafModel::Match(match_model("climate"@, Operator::Or))), (Occur::Should, LeafModel::Match(match_model("policy"@, Operator::Or)))]), limit: None },
        CaseModel { name: "term_vehicles"@, query: FtsModel::Match(match_model("vehicles"@, Operator::Or)), limit: Some(10i64) },
        CaseModel { name: "must_should_vehicles"@, query: FtsModel::Boolean(seq![(Occur::Must, LeafModel::Match(match_model("vehicles"@, Operator::Or))), (Occur::Should, LeafModel::Match(match_model("electric"@, Operator::Or)))]), limit: Some(10i64) },
        CaseModel { name: "term_global"@, query: FtsModel::Match(match_model("global"@, Operator::Or)), limit: Some(10i64) },
        CaseModel { name: "must_only_global"@, query: FtsModel::Boolean(seq![(Occur::Must, LeafModel::Match(match_model("global"@, Operator::Or)))]), limit: Some(10i64) },
        CaseModel { name: "term_markets"@, query: FtsModel::Match(match_model("markets"@, Operator::Or)), limit: Some(10i64) },
        CaseModel { name: "must_should_markets"@, query: FtsModel::Boolean(seq![(Occur::Must, LeafModel::Match(match_model("global"@, Operator::Or))), (Occur::Should, LeafModel::Match(match_model("markets"@, Operator::Or)))]), limit: Some(10i64) },
        CaseModel { name: "must_should_privacy"@, query: FtsModel::Boolean(seq![(Occur::Must, LeafModel::Match(match_model("data"@, Operator::Or))), (Occur::Should, LeafModel::Match(match_model("privacy"@, Operator::Or)))]), limit: Some(10i64) },
        CaseModel { name: "the_topk"@, query: FtsModel::Match(match_model("the"@, Operator::Or)), limit: Some(10i64) },
        CaseModel { name: "iu_cheap_data_center"@, query: parsed("+data center cooling"@), limit: Some(10i64) },
        CaseModel { name: "iu_tail_customer_service"@, query: parsed("customer +service phone number"@), limit: Some(10i64) },
        CaseModel { name: "iu_tail_city_council"@, query: parsed("city +council meeting agenda"@), limit: Some(10i64) },
        CaseModel { name: "iu_tail_climate_policy"@, query: parsed("+climate policy"@), limit: Some(10i64) },
        CaseModel { name: "and_typical_new_york"@, query: FtsModel::Match(match_model("new york"@, Operator::And)), limit: Some(10i64) },
        CaseModel { name: "phrase_typical_new_york"@, query: FtsModel::Phrase(PhraseModel { terms: "new york"@, column: Some("text"@) }), limit: Some(10i64) },
    ]
}

proof fn lemma_join_words(ps: Seq<Seq<char>>)
    requires
        1 <= ps.len() <= 4,
    ensures
        ps.len() == 1 ==> join(ps, space()) == ps[0],
        ps.len() == 2 ==> join(ps, space()) == ps[0] + space() + ps[1],
        ps.len() == 3 ==> join(ps, space()) == ps[0] + space() + ps[1] + space() + ps[2],
        ps.len() == 4 ==> join(ps, space()) == ps[0] + space() + ps[1] + space() + ps[2] + space()
            + ps[3],
    decreases ps.len(),
{
    if ps.len() > 1 {
        lemma_join_words(ps.drop_last());
    }
}

proof fn lemma_parts_ok(parts: Seq<Seq<char>>)
    requires
        forall|i: int| 0 <= i < parts.len() ==> {
            let p = #[trigger] parts[i];
            &&& p.len() > 0
            &&& p[0] != '"'
            &&& (p[0] == '+' ==> p.len() > 1 && p[1] != '"')
            &&& crate::text::no_ws(p)
        },
    ensures
        all_clause_texts(parts),
{
    assert forall|i: int| 0 <= i < parts.len() implies crate::lance_query_laws::is_clause_text(
        #[trigger] parts[i],
    ) by {
        let p = parts[i];
        let b = crate::lance_query_laws::token_body(p);
        if p[0] == '+' {
            assert forall|j: int| 0 <= j < b.len() implies !crate::text::is_ws(#[trigger] b[j]) by {
                assert(b[j] == p[j + 1]);
            }
        }
    }
}

/// The built-in cases of the probe.
#[verifier::rlimit(100)]
pub fn cases() -> (v: Vec<Case>)
    ensures
        cases_view(v@) == builtin_cases(),
        build_fts_query_spec("+data center cooling"@) is Ok,
        build_fts_query_spec("customer +service phone number"@) is Ok,
        build_fts_query_spec("city +council meeting agenda"@) is Ok,
        build_fts_query_spec("+climate policy"@) is Ok,
{
    let mut v: Vec<Case> = Vec::new();
    let q = match_query("griffith observatory", Operator::And);
    v.push(case("and_rare", q, Some(10)));
    let q = match_query("griffith observatory", Operator::Or);
    v.push(case("or_rare", q, Some(10)));
    let q = phrase_query("griffith observatory");
    v.push(case("phrase_rare", q, Some(10)));
    let q = match_query("climate", Operator::Or);
    v.push(case("term_climate", q, Some(10)));
    let q = boolean_must("climate");
    v.push(case("must_only_climate", q, Some(10)));
    let q = match_query("policy", Operator::Or);
    v.push(case("term_policy", q, Some(10)));
    let q = must_should("climate", "policy");
    v.push(case("must_should_climate", q, Some(10)));
    let q = must_should("climate", "policy");
    v.push(case("must_should_climate_count", q, None));
    let q = match_query("vehicles", Operator::Or);
    v.push(case("term_vehicles", q, Some(10)));
    let q = must_should("vehicles", "electric");
    v.push(case("must_should_vehicles", q, Some(10)));
    let q = match_query("global", Operator::Or);
    v.push(case("term_global", q, Some(10)));
    let q = boolean_must("global");
    v.push(case("must_only_global", q, Some(10)));
    let q = match_query("markets", Operator::Or);
    v.push(case("term_markets", q, Some(10)));
    let q = must_should("global", "markets");
    v.push(case("must_should_markets", q, Some(10)));
    let q = must_should("data", "privacy");
    v.push(case("must_should_privacy", q, Some(10)));
    let q = match_query("the", Operator::Or);
    v.push(case("the_topk", q, Some(10)));
    let q = {
        proof {
            reveal_strlit("+data center cooling");
            reveal_strlit("+data");
            reveal_strlit("center");
            reveal_strlit("cooling");
            lemma_parts_ok(seq!["+data"@, "center"@, "cooling"@]);
            lemma_join_words(seq!["+data"@, "center"@, "cooling"@]);
            assert("+data center cooling"@ =~= join(seq!["+data"@, "center"@, "cooling"@], space()));
        }
        let ghost parts: Seq<Seq<char>> = seq!["+data"@, "center"@, "cooling"@];
        built_in("+data center cooling", Ghost(parts))
    };
    v.push(case("iu_cheap_data_center", q, Some(10)));
    let q = {
        proof {
            reveal_strlit("customer +service phone number");
            reveal_strlit("customer");
            reveal_strlit("+service");
            reveal_strlit("phone");
            reveal_strlit("number");
            lemma_parts_ok(seq!["customer"@, "+service"@, "phone"@, "number"@]);
            lemma_join_words(seq!["customer"@, "+service"@, "phone"@, "number"@]);
            assert("customer +service phone number"@ =~= join(seq!["customer"@, "+service"@, "phone"@, "number"@], space()));
        }
        let ghost parts: Seq<Seq<char>> = seq!["customer"@, "+service"@, "phone"@, "number"@];
        built_in("customer +service phone number", Ghost(parts))
    };
    v.push(case("iu_tail_customer_service", q, Some(10)));
    let q = {
        proof {
            reveal_strlit("city +council meeting agenda");
            reveal_strlit("city");
            reveal_strlit("+council");
            reveal_strlit("meeting");
            reveal_strlit("agenda");
            lemma_parts_ok(seq!["city"@, "+council"@, "meeting"@, "agenda"@]);
            lemma_join_words(seq!["city"@, "+council"@, "meeting"@, "agenda"@]);
            assert("city +council meeting agenda"@ =~= join(seq!["city"@, "+council"@, "meeting"@, "agenda"@], space()));
        }
        let ghost parts: Seq<Seq<char>> = seq!["city"@, "+council"@, "meeting"@, "agenda"@];
        built_in("city +council meeting agenda", Ghost(parts))
    };
    v.push(case("iu_tail_city_council", q, Some(10)));
    let q = {
        proof {
            reveal_strlit("+climate policy");
            reveal_strlit("+climate");
            reveal_strlit("policy");
            lemma_parts_ok(seq!["+climate"@, "policy"@]);
            lemma_join_words(seq!["+climate"@, "policy"@]);
            assert("+climate policy"@ =~= join(seq!["+climate"@, "policy"@], space()));
        }
        let ghost parts: Seq<Seq<char>> = seq!["+climate"@, "policy"@];
        built_in("+climate policy", Ghost(parts))
    };
    v.push(case("iu_tail_climate_policy", q, Some(10)));
    let q = match_query("new york", Operator::And);
    v.push(case("and_typical_new_york", q, Some(10)));
    let q = phrase_query("new york");
    v.push(case("phrase_typical_new_york", q, Some(10)));
    assert(cases_view(v@) =~= builtin_cases());
    v
}

} // verus!
