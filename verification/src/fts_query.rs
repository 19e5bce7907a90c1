//! The full-text query that an engine is asked to run: a plain model of the
//! match, phrase and boolean queries of the Lance inverted index.

use vstd::prelude::*;

verus! {

/// How the terms of a match query combine.
#[derive(Clone, Copy, Debug, PartialEq, Eq, Structural)]
pub enum Operator {
    And,
    Or,
}

/// How a clause takes part in a boolean query.
#[derive(Clone, Copy, Debug, PartialEq, Eq, Structural)]
pub enum Occur {
    Should,
    Must,
}

/// A match query. A field left `None` is one whose builder the query does
/// not call, so the engine's default applies.
#[derive(Clone, Debug)]
pub struct MatchQuery {
    pub terms: String,
    pub column: Option<String>,
    pub operator: Option<Operator>,
    pub fuzziness: Option<u32>,
}

/// A phrase query.
#[derive(Clone, Debug)]
pub struct PhraseQuery {
    pub terms: String,
    pub column: Option<String>,
}

/// A query that stands as one clause of a boolean query.
#[derive(Clone, Debug)]
pub enum LeafQuery {
    Match(MatchQuery),
    Phrase(PhraseQuery),
}

/// A full-text query.
#[derive(Clone, Debug)]
pub enum FtsQuery {
    Match(MatchQuery),
    Phrase(PhraseQuery),
    Boolean(Vec<(Occur, LeafQuery)>),
}

/// The mathematical value of a match query.
pub struct MatchModel {
    pub terms: Seq<char>,
    pub column: Option<Seq<char>>,
    pub operator: Option<Operator>,
    pub fuzziness: Option<u32>,
}

/// The mathematical value of a phrase query.
pub struct PhraseModel {
    pub terms: Seq<char>,
    pub column: Option<Seq<char>>,
}

/// The mathematical value of a clause query.
pub enum LeafModel {
    Match(MatchModel),
    Phrase(PhraseModel),
}

/// The mathematical value of a full-text query.
pub enum FtsModel {
    Match(MatchModel),
    Phrase(PhraseModel),
    Boolean(Seq<(Occur, LeafModel)>),
}

pub open spec fn opt_string_view(o: Option<String>) -> Option<Seq<char>> {
    match o {
        Some(s) => Some(s@),
        None => None,
    }
}

impl View for MatchQuery {
    type V = MatchModel;

    open spec fn view(&self) -> MatchModel {
        MatchModel {
            terms: self.terms@,
            column: opt_string_view(self.column),
            operator: self.operator,
            fuzziness: self.fuzziness,
        }
    }
}

impl View for PhraseQuery {
    type V = PhraseModel;

    open spec fn view(&self) -> PhraseModel {
        PhraseModel { terms: self.terms@, column: opt_string_view(self.column) }
    }
}

impl View for LeafQuery {
    type V = LeafModel;

    open spec fn view(&self) -> LeafModel {
        match self {
            LeafQuery::Match(m) => LeafModel::Match(m@),
            LeafQuery::Phrase(p) => LeafModel::Phrase(p@),
        }
    }
}

pub open spec fn clause_view(c: (Occur, LeafQuery)) -> (Occur, LeafModel) {
    (c.0, c.1@)
}

pub open spec fn clauses_view(v: Seq<(Occur, LeafQuery)>) -> Seq<(Occur, LeafModel)> {
    v.map_values(|c: (Occur, LeafQuery)| clause_view(c))
}

impl View for FtsQuery {
    type V = FtsModel;

    open spec fn view(&self) -> FtsModel {
        match self {
            FtsQuery::Match(m) => FtsModel::Match(m@),
            FtsQuery::Phrase(p) => FtsModel::Phrase(p@),
            FtsQuery::Boolean(v) => FtsModel::Boolean(clauses_view(v@)),
        }
    }
}

/// The query that a clause stands for on its own.
pub open spec fn leaf_as_query(l: LeafModel) -> FtsModel {
    match l {
        LeafModel::Match(m) => FtsModel::Match(m),
        LeafModel::Phrase(p) => FtsModel::Phrase(p),
    }
}

impl LeafQuery {
    /// The clause as a query of its own.
    pub fn into_query(self) -> (q: FtsQuery)
        ensures
            q@ == leaf_as_query(self@),
    {
        match self {
            LeafQuery::Match(m) => FtsQuery::Match(m),
            LeafQuery::Phrase(p) => FtsQuery::Phrase(p),
        }
    }
}

} // verus!
