//! The Lance benchmark server: request lines, the search each command runs,
//! the answer lines, and the cache sizes read from the environment.

use vstd::prelude::*;
use crate::text::{
    trim, find_from, chars_of, trim_bounds, string_of, find_char, str_eq, join, push_char,
};
use crate::numbers::{
    decimal, hex_digits, decimal_string, hex_string, IntErrorKind, parse_usize_spec, parse_usize,
};
use crate::fts_query::{FtsQuery, FtsModel};
use crate::lance_query::{build_fts_query, build_fts_query_spec};
use crate::lancedb_serve::unsupported;

verus! {

/// Command and query of a request line, as `line.splitn(2, '\t')` gives
/// them: the text before the first tab and the text after it (empty when
/// there is no tab).
pub open spec fn command_and_query(line: Seq<char>) -> (Seq<char>, Seq<char>) {
    let k = find_from(line, '\t', 0);
    if k < line.len() {
        (line.take(k), line.skip(k + 1))
    } else {
        (line, Seq::empty())
    }
}

/// Splits a request line into command and query.
pub fn split_command(line: &str) -> (r: (String, String))
    ensures
        (r.0@, r.1@) == command_and_query(line@),
{
    let chars = chars_of(line);
    let k = find_char(&chars, '\t', 0);
    if k < chars.len() {
        let c = string_of(&chars, 0, k);
        let q = string_of(&chars, k + 1, chars.len());
        assert(c@ =~= line@.take(k as int));
        assert(q@ =~= line@.skip(k + 1));
        (c, q)
    } else {
        let c = string_of(&chars, 0, chars.len());
        assert(c@ =~= line@);
        (c, String::new())
    }
}

/// How the answer to a search is written.
#[derive(Clone, Copy, Debug, PartialEq, Eq, Structural)]
pub enum Answer {
    /// The number of rows found.
    Count,
    /// The constant `1`.
    One,
}

/// What the server does for a request.
#[derive(Debug)]
pub enum LanceRequest {
    /// Answer `UNSUPPORTED`.
    Unsupported,
    /// Run the query for its first `top` hits and answer them ranked.
    Dump { query: FtsQuery, top: i64 },
    /// Run the query with this limit (none: all matches) and answer as said.
    Search { query: FtsQuery, limit: Option<i64>, answer: Answer },
}

/// The mathematical value of a [`LanceRequest`].
pub enum LanceRequestModel {
    Unsupported,
    Dump { query: FtsModel, top: i64 },
    Search { query: FtsModel, limit: Option<i64>, answer: Answer },
}

impl View for LanceRequest {
    type V = LanceRequestModel;

    open spec fn view(&self) -> LanceRequestModel {
        match self {
            LanceRequest::Unsupported => LanceRequestModel::Unsupported,
            LanceRequest::Dump { query, top } => LanceRequestModel::Dump { query: query@, top: *top },
            LanceRequest::Search { query, limit, answer } => LanceRequestModel::Search {
                query: query@,
                limit: *limit,
                answer: *answer,
            },
        }
    }
}

/// The limit of a dump command, if the command is one.
pub open spec fn dump_limit(c: Seq<char>) -> Option<i64> {
    if c == "TOP_10_DUMP"@ {
        Some(10)
    } else if c == "TOP_100_DUMP"@ {
        Some(100)
    } else {
        None
    }
}

/// The search of a search command, if the command is one: the counts search
/// every match, the top-k commands search the first k and answer `1`.
pub open spec fn search_of(c: Seq<char>) -> Option<(Option<i64>, Answer)> {
    if c == "COUNT"@ || c == "UNOPTIMIZED_COUNT"@ {
        Some((None, Answer::Count))
    } else if c == "TOP_10"@ {
        Some((Some(10), Answer::One))
    } else if c == "TOP_100"@ {
        Some((Some(100), Answer::One))
    } else if c == "TOP_1000"@ {
        Some((Some(1000), Answer::One))
    } else if c == "TOP_1_COUNT"@ || c == "TOP_5_COUNT"@ || c == "TOP_10_COUNT"@ || c
        == "TOP_100_COUNT"@ || c == "TOP_1000_COUNT"@ {
        Some((None, Answer::Count))
    } else {
        None
    }
}

/// What the server does for a request line: an empty command or query, a
/// query that does not parse, or an unknown command is unsupported.
pub open spec fn lance_request_spec(line: Seq<char>) -> LanceRequestModel {
    let (c, q) = command_and_query(line);
    if c.len() == 0 || q.len() == 0 {
        LanceRequestModel::Unsupported
    } else {
        match build_fts_query_spec(q) {
            Err(_) => LanceRequestModel::Unsupported,
            Ok(query) => match dump_limit(c) {
                Some(top) => LanceRequestModel::Dump { query, top },
                None => match search_of(c) {
                    Some((limit, answer)) => LanceRequestModel::Search { query, limit, answer },
                    None => LanceRequestModel::Unsupported,
                },
            },
        }
    }
}

fn search_command(c: &str) -> (r: Option<(Option<i64>, Answer)>)
    ensures
        r == search_of(c@),
{
    if str_eq(c, "COUNT") || str_eq(c, "UNOPTIMIZED_COUNT") {
        Some((None, Answer::Count))
    } else if str_eq(c, "TOP_10") {
        Some((Some(10), Answer::One))
    } else if str_eq(c, "TOP_100") {
        Some((Some(100), Answer::One))
    } else if str_eq(c, "TOP_1000") {
        Some((Some(1000), Answer::One))
    } else if str_eq(c, "TOP_1_COUNT") || str_eq(c, "TOP_5_COUNT") || str_eq(c, "TOP_10_COUNT")
        || str_eq(c, "TOP_100_COUNT") || str_eq(c, "TOP_1000_COUNT") {
        Some((None, Answer::Count))
    } else {
        None
    }
}

/// Decides what to do for a request line.
pub fn plan_request(line: &str) -> (r: LanceRequest)
    ensures
        r@ == lance_request_spec(line@),
{
    let (c, q) = split_command(line);
    if c.as_str().is_empty() || q.as_str().is_empty() {
        return LanceRequest::Unsupported;
    }
    let query = match build_fts_query(q.as_str()) {
        Ok(query) => query,
        Err(_) => return LanceRequest::Unsupported,
    };
    if str_eq(c.as_str(), "TOP_10_DUMP") {
        return LanceRequest::Dump { query, top: 10 };
    }
    if str_eq(c.as_str(), "TOP_100_DUMP") {
        return LanceRequest::Dump { query, top: 100 };
    }
    match search_command(c.as_str()) {
        Some((limit, answer)) => LanceRequest::Search { query, limit, answer },
        None => LanceRequest::Unsupported,
    }
}

/// The answer to a search: `UNSUPPORTED` when it failed, else the row count
/// or `1`.
pub open spec fn search_answer(answer: Answer, rows: Option<usize>) -> Seq<char> {
    match rows {
        None => unsupported(),
        Some(n) => match answer {
            Answer::Count => decimal(n as nat),
            Answer::One => "1"@,
        },
    }
}

/// Writes the answer to a search.
pub fn answer_search(answer: Answer, rows: Option<usize>) -> (s: String)
    ensures
        s@ == search_answer(answer, rows),
{
    match rows {
        None => String::from_str("UNSUPPORTED"),
        Some(n) => match answer {
            Answer::Count => decimal_string(n as u64),
            Answer::One => String::from_str("1"),
        },
    }
}

/// One ranked hit written as `row_id:score_bits`, the bits as eight
/// lower-case hexadecimal digits.
pub open spec fn hit_text(h: (u64, u32)) -> Seq<char> {
    decimal(h.0 as nat) + seq![':'] + hex_digits(h.1 as nat, 8)
}

/// The ranked hits, each as `row_id:score_bits`, separated by commas.
pub open spec fn dump_text(hits: Seq<(u64, u32)>) -> Seq<char> {
    join(hits.map_values(|h: (u64, u32)| hit_text(h)), seq![','])
}

/// Writes the ranked hits of a dump command.
pub fn format_dump(hits: &Vec<(u64, u32)>) -> (s: String)
    ensures
        s@ == dump_text(hits@),
{
    let ghost parts = hits@.map_values(|h: (u64, u32)| hit_text(h));
    let mut s = String::new();
    let mut i: usize = 0;
    while i < hits.len()
        invariant
            i <= hits.len(),
            parts == hits@.map_values(|h: (u64, u32)| hit_text(h)),
            s@ == join(parts.take(i as int), seq![',']),
        decreases hits.len() - i,
    {
        assert(parts.take(i + 1).drop_last() =~= parts.take(i as int));
        if i != 0 {
            push_char(&mut s, ',');
        }
        let (row, bits) = hits[i];
        let d = decimal_string(row);
        s.append(d.as_str());
        push_char(&mut s, ':');
        let h = hex_string(bits as u64, 8);
        s.append(h.as_str());
        assert(parts[i as int] == hit_text(hits@[i as int]));
        assert(s@ =~= join(parts.take(i + 1), seq![','])) by {
            if i != 0 {
                assert(join(parts.take(i + 1), seq![',']) == join(parts.take(i as int), seq![',']) + seq![','] + parts[i as int]);
            } else {
                assert(parts.take(1).len() == 1);
            }
        }
        i += 1;
    }
    assert(parts.take(hits.len() as int) =~= parts);
    s
}

/// Why a byte size in the environment is refused.
#[derive(Clone, Copy, Debug, PartialEq, Eq, Structural)]
pub enum BytesError {
    /// The number does not parse as a `usize`.
    Parse(IntErrorKind),
    /// The number times its unit is past `usize::MAX`.
    Overflow,
}

/// The unit that a size suffix stands for: `k`, `m`, `g` (either case) for
/// KiB, MiB, GiB.
pub open spec fn suffix_scale(c: char) -> Option<int> {
    if c == 'k' || c == 'K' {
        Some(1024int)
    } else if c == 'm' || c == 'M' {
        Some(1048576int)
    } else if c == 'g' || c == 'G' {
        Some(1073741824int)
    } else {
        None
    }
}

/// A byte size as written in the environment: blank means unset; otherwise
/// a `usize`, optionally followed by a unit suffix, white space around the
/// number allowed.
pub open spec fn parse_bytes_spec(raw: Seq<char>) -> Result<Option<usize>, BytesError> {
    let t = trim(raw);
    if t.len() == 0 {
        Ok(None)
    } else {
        let (num, scale) = match suffix_scale(t.last()) {
            Some(sc) => (trim(t.drop_last()), sc),
            None => (t, 1int),
        };
        match parse_usize_spec(num) {
            Err(k) => Err(BytesError::Parse(k)),
            Ok(v) => if v * scale > usize::MAX {
                Err(BytesError::Overflow)
            } else {
                Ok(Some((v * scale) as usize))
            },
        }
    }
}

fn scale_of(c: char) -> (r: Option<usize>)
    ensures
        match r {
            Some(x) => suffix_scale(c) == Some(x as int),
            None => suffix_scale(c) is None,
        },
{
    if c == 'k' || c == 'K' {
        Some(1024)
    } else if c == 'm' || c == 'M' {
        Some(1024 * 1024)
    } else if c == 'g' || c == 'G' {
        Some(1024 * 1024 * 1024)
    } else {
        None
    }
}

/// Reads a byte size from the text of an environment variable.
pub fn parse_bytes(raw: &str) -> (r: Result<Option<usize>, BytesError>)
    ensures
        r == parse_bytes_spec(raw@),
{
    let chars = chars_of(raw);
    let (lo, hi) = trim_bounds(&chars);
    let ghost t = trim(raw@);
    assert(t =~= chars@.subrange(lo as int, hi as int));
    if lo == hi {
        return Ok(None);
    }
    let (value, scale) = match scale_of(chars[hi - 1]) {
        Some(sc) => {
            let num = string_of(&chars, lo, hi - 1);
            assert(num@ =~= t.drop_last());
            let num_chars = chars_of(num.as_str());
            let (a, b) = trim_bounds(&num_chars);
            (parse_usize(&num_chars, a, b), sc)
        },
        None => (parse_usize(&chars, lo, hi), 1usize),
    };
    match value {
        Err(k) => Err(BytesError::Parse(k)),
        Ok(v) => match v.checked_mul(scale) {
            Some(x) => Ok(Some(x)),
            None => Err(BytesError::Overflow),
        },
    }
}

} // verus!
