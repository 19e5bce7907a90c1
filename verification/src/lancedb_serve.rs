//! The LanceDB benchmark server: requests are `COMMAND<TAB>query` lines; each
//! command runs one or two searches and is answered with one line.

use vstd::prelude::*;
use crate::text::{
    trim, find_from, chars_of, trim_bounds, string_of, range_contains, find_char, str_eq, join, space,
};
use crate::plus_terms::{plus_captures, PlusTermPattern};
use crate::numbers::{decimal, decimal_string};
use crate::fts_query::FtsQuery;
use crate::lancedb_query::{
    QueryType, QueryModel, is_quoted, is_plus_list, shape_query, quoted_or_plus_list,
    build_fts_query as shape_to_query,
};

verus! {

/// The shape of a query as the server judges it: phrase, then intersection,
/// then a term when the trimmed query holds no space character, else union.
pub open spec fn serve_shape_spec(q: Seq<char>) -> QueryModel {
    let t = trim(q);
    if is_quoted(t) {
        QueryModel::Phrase(t.subrange(1, t.len() - 1))
    } else if is_plus_list(t) {
        QueryModel::Intersection(join(plus_captures(t), space()))
    } else if !t.contains(' ') {
        QueryModel::Term(t)
    } else {
        QueryModel::Union(t)
    }
}

/// Classifies a query with a compiled `+term` pattern.
pub fn parse_query(pattern: &PlusTermPattern, query_str: &str) -> (q: QueryType)
    ensures
        q@ == serve_shape_spec(query_str@),
{
    let chars = chars_of(query_str);
    let (lo, hi) = trim_bounds(&chars);
    match quoted_or_plus_list(pattern, &chars, lo, hi) {
        Some(q) => q,
        None => {
            let trimmed = string_of(&chars, lo, hi);
            if !range_contains(&chars, lo, hi, ' ') {
                QueryType::Term(trimmed)
            } else {
                QueryType::Union(trimmed)
            }
        },
    }
}

/// The full-text query that runs a raw query.
pub fn build_fts_query(pattern: &PlusTermPattern, query_str: &str) -> (q: FtsQuery)
    ensures
        q@ == shape_query(serve_shape_spec(query_str@)),
{
    let shape = parse_query(pattern, query_str);
    shape_to_query(&shape)
}

/// The two fields of a request line, when `line.split('\t')` yields exactly
/// two, that is when the line holds exactly one tab.
pub open spec fn two_fields(line: Seq<char>) -> Option<(Seq<char>, Seq<char>)> {
    let k = find_from(line, '\t', 0);
    if k < line.len() && find_from(line, '\t', k + 1) == line.len() {
        Some((line.take(k), line.skip(k + 1)))
    } else {
        None
    }
}

pub open spec fn fields_view(r: Option<(String, String)>) -> Option<(Seq<char>, Seq<char>)> {
    match r {
        Some((a, b)) => Some((a@, b@)),
        None => None,
    }
}

/// Splits a request line into command and query.
pub fn split_request(line: &str) -> (r: Option<(String, String)>)
    ensures
        fields_view(r) == two_fields(line@),
{
    let chars = chars_of(line);
    let k = find_char(&chars, '\t', 0);
    if k >= chars.len() {
        return None;
    }
    let k2 = find_char(&chars, '\t', k + 1);
    if k2 < chars.len() {
        return None;
    }
    let command = string_of(&chars, 0, k);
    let query = string_of(&chars, k + 1, chars.len());
    assert(command@ =~= line@.take(k as int));
    assert(query@ =~= line@.skip(k + 1));
    Some((command, query))
}

/// What a command asks for.
#[derive(Clone, Copy, Debug, PartialEq, Eq, Structural)]
pub enum ServeCommand {
    /// Count every match and answer the count.
    Count,
    /// Run a top-k search and answer `1`.
    Top(usize),
    /// Run a top-k search, then count every match and answer the count.
    TopThenCount(usize),
}

/// The command table of the server.
pub open spec fn serve_command_spec(c: Seq<char>) -> Option<ServeCommand> {
    if c == "COUNT"@ {
        Some(ServeCommand::Count)
    } else if c == "TOP_10"@ {
        Some(ServeCommand::Top(10))
    } else if c == "TOP_100"@ {
        Some(ServeCommand::Top(100))
    } else if c == "TOP_1000"@ {
        Some(ServeCommand::Top(1000))
    } else if c == "TOP_1_COUNT"@ {
        Some(ServeCommand::TopThenCount(1))
    } else if c == "TOP_5_COUNT"@ {
        Some(ServeCommand::TopThenCount(5))
    } else if c == "TOP_10_COUNT"@ {
        Some(ServeCommand::TopThenCount(10))
    } else if c == "TOP_100_COUNT"@ {
        Some(ServeCommand::TopThenCount(100))
    } else if c == "TOP_1000_COUNT"@ {
        Some(ServeCommand::TopThenCount(1000))
    } else {
        None
    }
}

/// Looks a command up in the command table.
pub fn serve_command(command: &str) -> (r: Option<ServeCommand>)
    ensures
        r == serve_command_spec(command@),
{
    if str_eq(command, "COUNT") {
        Some(ServeCommand::Count)
    } else if str_eq(command, "TOP_10") {
        Some(ServeCommand::Top(10))
    } else if str_eq(command, "TOP_100") {
        Some(ServeCommand::Top(100))
    } else if str_eq(command, "TOP_1000") {
        Some(ServeCommand::Top(1000))
    } else if str_eq(command, "TOP_1_COUNT") {
        Some(ServeCommand::TopThenCount(1))
    } else if str_eq(command, "TOP_5_COUNT") {
        Some(ServeCommand::TopThenCount(5))
    } else if str_eq(command, "TOP_10_COUNT") {
        Some(ServeCommand::TopThenCount(10))
    } else if str_eq(command, "TOP_100_COUNT") {
        Some(ServeCommand::TopThenCount(100))
    } else if str_eq(command, "TOP_1000_COUNT") {
        Some(ServeCommand::TopThenCount(1000))
    } else {
        None
    }
}

/// The next thing to do for a request.
#[derive(Debug)]
pub enum Step {
    /// Run a search with this limit (`None`: every match); `count_rows` asks
    /// for the number of rows that it returns.
    Search { limit: Option<usize>, count_rows: bool },
    /// Answer with this line.
    Reply(String),
}

/// The mathematical value of a [`Step`].
pub enum StepModel {
    Search { limit: Option<usize>, count_rows: bool },
    Reply(Seq<char>),
}

impl View for Step {
    type V = StepModel;

    open spec fn view(&self) -> StepModel {
        match self {
            Step::Search { limit, count_rows } => StepModel::Search {
                limit: *limit,
                count_rows: *count_rows,
            },
            Step::Reply(s) => StepModel::Reply(s@),
        }
    }
}

/// The answer to a failed request.
pub open spec fn unsupported() -> Seq<char> {
    "UNSUPPORTED"@
}

/// The answer for a count: the count, or `UNSUPPORTED` when the search
/// failed.
pub open spec fn count_reply(o: Option<usize>) -> Seq<char> {
    match o {
        Some(n) => decimal(n as nat),
        None => unsupported(),
    }
}

/// What to do next for a command, given the outcomes of the searches run so
/// far (`None` for a failed search, else the rows counted). A count searches
/// without a limit, so that it answers the full hit count.
pub open spec fn serve_step_spec(cmd: ServeCommand, outcomes: Seq<Option<usize>>) -> StepModel {
    match cmd {
        ServeCommand::Count => if outcomes.len() == 0 {
            StepModel::Search { limit: None, count_rows: true }
        } else {
            StepModel::Reply(count_reply(outcomes[0]))
        },
        ServeCommand::Top(k) => if outcomes.len() == 0 {
            StepModel::Search { limit: Some(k), count_rows: false }
        } else if outcomes[0] is Some {
            StepModel::Reply("1"@)
        } else {
            StepModel::Reply(unsupported())
        },
        ServeCommand::TopThenCount(k) => if outcomes.len() == 0 {
            StepModel::Search { limit: Some(k), count_rows: false }
        } else if outcomes[0] is None {
            StepModel::Reply(unsupported())
        } else if outcomes.len() == 1 {
            StepModel::Search { limit: None, count_rows: true }
        } else {
            StepModel::Reply(count_reply(outcomes[1]))
        },
    }
}

fn count_reply_string(o: Option<usize>) -> (s: String)
    ensures
        s@ == count_reply(o),
{
    match o {
        Some(n) => decimal_string(n as u64),
        None => String::from_str("UNSUPPORTED"),
    }
}

/// Decides the next step of a request.
pub fn serve_step(cmd: ServeCommand, outcomes: &Vec<Option<usize>>) -> (s: Step)
    ensures
        s@ == serve_step_spec(cmd, outcomes@),
{
    match cmd {
        ServeCommand::Count => if outcomes.len() == 0 {
            Step::Search { limit: None, count_rows: true }
        } else {
            Step::Reply(count_reply_string(outcomes[0]))
        },
        ServeCommand::Top(k) => if outcomes.len() == 0 {
            Step::Search { limit: Some(k), count_rows: false }
        } else if outcomes[0].is_some() {
            Step::Reply(String::from_str("1"))
        } else {
            Step::Reply(String::from_str("UNSUPPORTED"))
        },
        ServeCommand::TopThenCount(k) => if outcomes.len() == 0 {
            Step::Search { limit: Some(k), count_rows: false }
        } else if outcomes[0].is_none() {
            Step::Reply(String::from_str("UNSUPPORTED"))
        } else if outcomes.len() == 1 {
            Step::Search { limit: None, count_rows: true }
        } else {
            Step::Reply(count_reply_string(outcomes[1]))
        },
    }
}

/// The rows of the batches that arrived, added up; a failed batch (`None`)
/// adds nothing.
pub open spec fn ok_rows(batches: Seq<Option<usize>>) -> int
    decreases batches.len(),
{
    if batches.len() == 0 {
        0
    } else {
        ok_rows(batches.drop_last()) + match batches.last() {
            Some(n) => n as int,
            None => 0,
        }
    }
}

proof fn lemma_ok_rows_grow(batches: Seq<Option<usize>>, k: int)
    requires
        0 <= k <= batches.len(),
    ensures
        ok_rows(batches.take(k)) <= ok_rows(batches),
    decreases batches.len() - k,
{
    if k < batches.len() {
        lemma_ok_rows_grow(batches, k + 1);
        assert(batches.take(k + 1).drop_last() =~= batches.take(k));
    } else {
        assert(batches.take(k) =~= batches);
    }
}

/// The rows counted by a search: the rows of its batches that arrived, or
/// `None` when that total does not fit in a `usize`.
pub fn count_ok_rows(batches: &Vec<Option<usize>>) -> (r: Option<usize>)
    ensures
        r == (if ok_rows(batches@) <= usize::MAX {
            Some(ok_rows(batches@) as usize)
        } else {
            None
        }),
{
    let mut count: usize = 0;
    let mut i: usize = 0;
    while i < batches.len()
        invariant
            i <= batches.len(),
            count == ok_rows(batches@.take(i as int)),
        decreases batches.len() - i,
    {
        assert(batches@.take(i + 1).drop_last() =~= batches@.take(i as int));
        assert(batches@.take(i + 1).last() == batches@[i as int]);
        match batches[i] {
            Some(n) => {
                if count > usize::MAX - n {
                    proof {
                        lemma_ok_rows_grow(batches@, i + 1);
                    }
                    return None;
                }
                count = count + n;
            },
            None => {},
        }
        i += 1;
    }
    assert(batches@.take(batches.len() as int) =~= batches@);
    Some(count)
}

} // verus!
