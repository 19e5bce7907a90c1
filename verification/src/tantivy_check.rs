//! The Tantivy check tool: how it names the shape of a query, which
//! collectors each command runs, and which result ids its record keeps.

use vstd::prelude::*;
use crate::text::{is_ws, is_whitespace, chars_of, str_eq, push_char};
use crate::numbers::{decimal, decimal_string};

verus! {

/// `s` holds at least two words: a non-white-space character, later white
/// space, and later again a non-white-space character.
pub open spec fn has_two_words(s: Seq<char>) -> bool {
    exists|a: int, b: int, c: int|
        0 <= a < b < c < s.len() && !is_ws(#[trigger] s[a]) && is_ws(#[trigger] s[b]) && !is_ws(
            #[trigger] s[c],
        )
}

/// The shape name of a query as the check tool judges it, on the query as
/// given: quoted at both ends is a phrase, a leading `+` an intersection,
/// two or more words a union, anything else a term.
pub open spec fn shape_name_spec(q: Seq<char>) -> Seq<char> {
    if q.len() > 0 && q[0] == '"' && q.last() == '"' {
        "phrase"@
    } else if q.len() > 0 && q[0] == '+' {
        "intersection"@
    } else if has_two_words(q) {
        "union"@
    } else {
        "term"@
    }
}

/// Whether a text holds two or more words.
pub fn two_or_more_words(s: &Vec<char>) -> (r: bool)
    ensures
        r == has_two_words(s@),
{
    let mut seen_word = false;
    let mut gap = false;
    let mut i: usize = 0;
    while i < s.len()
        invariant
            i <= s.len(),
            !seen_word ==> forall|j: int| 0 <= j < i ==> is_ws(#[trigger] s@[j]),
            seen_word ==> exists|a: int| 0 <= a < i && !is_ws(#[trigger] s@[a]),
            gap ==> seen_word,
            gap ==> exists|a: int, b: int| 0 <= a < b < i && !is_ws(#[trigger] s@[a]) && is_ws(#[trigger] s@[b]),
            !gap ==> forall|a: int, b: int| 0 <= a < b < i && !is_ws(#[trigger] s@[a]) ==> !is_ws(#[trigger] s@[b]),
            forall|a: int, b: int, c: int|
                0 <= a < b < c < i && !is_ws(#[trigger] s@[a]) && is_ws(#[trigger] s@[b]) ==> is_ws(#[trigger] s@[c]),
        decreases s.len() - i,
    {
        let c = s[i];
        if !is_whitespace(c) {
            if gap {
                let ghost (a, b) = choose|a: int, b: int| 0 <= a < b < i && !is_ws(#[trigger] s@[a]) && is_ws(#[trigger] s@[b]);
                assert(!is_ws(s@[a]) && is_ws(s@[b]) && !is_ws(s@[i as int]));
                return true;
            }
            proof {
                assert forall|a: int, b: int| 0 <= a < b < i + 1 && !is_ws(#[trigger] s@[a]) implies !is_ws(#[trigger] s@[b]) by {
                    if b < i {
                    }
                }
            }
            seen_word = true;
        } else {
            if seen_word {
                proof {
                    let a = choose|a: int| 0 <= a < i && !is_ws(#[trigger] s@[a]);
                    assert(!is_ws(s@[a]) && is_ws(s@[i as int]));
                }
                gap = true;
            } else {
                assert(forall|j: int| 0 <= j < i + 1 ==> is_ws(#[trigger] s@[j]));
            }
        }
        i += 1;
    }
    false
}

/// Names the shape of a query.
pub fn query_shape_name(query_str: &str) -> (r: &'static str)
    ensures
        r@ == shape_name_spec(query_str@),
{
    let s = chars_of(query_str);
    if s.len() > 0 && s[0] == '"' && s[s.len() - 1] == '"' {
        "phrase"
    } else if s.len() > 0 && s[0] == '+' {
        "intersection"
    } else if two_or_more_words(&s) {
        "union"
    } else {
        "term"
    }
}

/// What a check command asks Tantivy for.
#[derive(Clone, Copy, Debug, PartialEq, Eq, Structural)]
pub enum TantivyCommand {
    /// The number of matches.
    Count,
    /// The top k documents; the answer is `1`.
    Top(usize),
    /// The top k documents and the number of matches; the answer is the
    /// number.
    TopCount(usize),
}

/// The command table of the Tantivy check tool.
pub open spec fn tantivy_command_spec(c: Seq<char>) -> Option<TantivyCommand> {
    if c == "COUNT"@ {
        Some(TantivyCommand::Count)
    } else if c == "TOP_10"@ {
        Some(TantivyCommand::Top(10))
    } else if c == "TOP_100"@ {
        Some(TantivyCommand::Top(100))
    } else if c == "TOP_1000"@ {
        Some(TantivyCommand::Top(1000))
    } else if c == "TOP_1_COUNT"@ {
        Some(TantivyCommand::TopCount(1))
    } else if c == "TOP_5_COUNT"@ {
        Some(TantivyCommand::TopCount(5))
    } else if c == "TOP_10_COUNT"@ {
        Some(TantivyCommand::TopCount(10))
    } else if c == "TOP_100_COUNT"@ {
        Some(TantivyCommand::TopCount(100))
    } else if c == "TOP_1000_COUNT"@ {
        Some(TantivyCommand::TopCount(1000))
    } else {
        None
    }
}

/// Looks a command up in the Tantivy check tool's table.
pub fn tantivy_command(command: &str) -> (r: Option<TantivyCommand>)
    ensures
        r == tantivy_command_spec(command@),
{
    if str_eq(command, "COUNT") {
        Some(TantivyCommand::Count)
    } else if str_eq(command, "TOP_10") {
        Some(TantivyCommand::Top(10))
    } else if str_eq(command, "TOP_100") {
        Some(TantivyCommand::Top(100))
    } else if str_eq(command, "TOP_1000") {
        Some(TantivyCommand::Top(1000))
    } else if str_eq(command, "TOP_1_COUNT") {
        Some(TantivyCommand::TopCount(1))
    } else if str_eq(command, "TOP_5_COUNT") {
        Some(TantivyCommand::TopCount(5))
    } else if str_eq(command, "TOP_10_COUNT") {
        Some(TantivyCommand::TopCount(10))
    } else if str_eq(command, "TOP_100_COUNT") {
        Some(TantivyCommand::TopCount(100))
    } else if str_eq(command, "TOP_1000_COUNT") {
        Some(TantivyCommand::TopCount(1000))
    } else {
        None
    }
}

/// The count that a command answers, given the count collected: that count,
/// or `1` for a plain top-k command.
pub open spec fn answer_spec(cmd: TantivyCommand, counted: usize) -> usize {
    match cmd {
        TantivyCommand::Top(_) => 1,
        _ => counted,
    }
}

/// The count that a command answers: the collected count, or `1` for a
/// plain top-k command.
pub fn answered_count(cmd: TantivyCommand, counted: usize) -> (n: usize)
    ensures
        n == answer_spec(cmd, counted),
{
    match cmd {
        TantivyCommand::Top(_) => 1,
        _ => counted,
    }
}

/// A top-k hit: its address, whether its stored document could be read, and
/// the first value of its `id` field when that is text.
#[derive(Debug)]
pub struct StoredHit {
    pub segment_ord: u32,
    pub doc_id: u32,
    pub fetched: bool,
    pub id_text: Option<String>,
}

/// The most hits whose ids a record keeps.
pub const MAX_HIT_IDS: usize = 20;

/// The id that a hit contributes: nothing when its document could not be
/// read; with an `id` field, that field's text if any; without one, the
/// address written `segment:doc`.
pub open spec fn hit_id(h: StoredHit, has_id_field: bool) -> Seq<Seq<char>> {
    if !h.fetched {
        Seq::empty()
    } else if has_id_field {
        match h.id_text {
            Some(t) => seq![t@],
            None => Seq::empty(),
        }
    } else {
        seq![decimal(h.segment_ord as nat) + seq![':'] + decimal(h.doc_id as nat)]
    }
}

/// The ids of the given hits, in order.
pub open spec fn hits_ids(hits: Seq<StoredHit>, has_id_field: bool) -> Seq<Seq<char>>
    decreases hits.len(),
{
    if hits.len() == 0 {
        Seq::empty()
    } else {
        hits_ids(hits.drop_last(), has_id_field) + hit_id(hits.last(), has_id_field)
    }
}

/// The ids of the first twenty hits.
pub open spec fn doc_ids_spec(hits: Seq<StoredHit>, has_id_field: bool) -> Seq<Seq<char>> {
    hits_ids(hits.take(if hits.len() < MAX_HIT_IDS { hits.len() as int } else { MAX_HIT_IDS as int }), has_id_field)
}

/// Collects the ids of the first twenty hits.
pub fn get_doc_ids(hits: &Vec<StoredHit>, has_id_field: bool) -> (ids: Vec<String>)
    ensures
        ids.deep_view() == doc_ids_spec(hits@, has_id_field),
{
    let n = if hits.len() < MAX_HIT_IDS { hits.len() } else { MAX_HIT_IDS };
    let mut ids: Vec<String> = Vec::new();
    let mut i: usize = 0;
    assert(ids.deep_view() =~= Seq::<Seq<char>>::empty());
    while i < n
        invariant
            i <= n <= hits.len(),
            n == if hits.len() < MAX_HIT_IDS { hits.len() } else { MAX_HIT_IDS },
            ids.deep_view() == hits_ids(hits@.take(i as int), has_id_field),
        decreases n - i,
    {
        assert(hits@.take(i + 1).drop_last() =~= hits@.take(i as int));
        assert(hits@.take(i + 1).last() == hits@[i as int]);
        let h = &hits[i];
        let ghost before = ids.deep_view();
        if h.fetched {
            if has_id_field {
                match &h.id_text {
                    Some(t) => {
                        ids.push(t.clone());
                        assert(ids.deep_view() =~= before + seq![t@]);
                    },
                    None => {
                        assert(before + Seq::<Seq<char>>::empty() =~= before);
                    },
                }
            } else {
                let mut s = decimal_string(h.segment_ord as u64);
                push_char(&mut s, ':');
                let d = decimal_string(h.doc_id as u64);
                s.append(d.as_str());
                assert(s@ =~= decimal(h.segment_ord as nat) + seq![':'] + decimal(h.doc_id as nat));
                ids.push(s);
                assert(ids.deep_view() =~= before + hit_id(hits@[i as int], has_id_field));
            }
        } else {
            assert(before + Seq::<Seq<char>>::empty() =~= before);
        }
        i += 1;
    }
    ids
}

/// Each hit gives at most one id.
proof fn lemma_hits_ids_len(hits: Seq<StoredHit>, has_id_field: bool)
    ensures
        hits_ids(hits, has_id_field).len() <= hits.len(),
    decreases hits.len(),
{
    if hits.len() > 0 {
        lemma_hits_ids_len(hits.drop_last(), has_id_field);
    }
}

/// A check record of the Tantivy engine lists at most twenty ids, whatever
/// the search returned.
pub proof fn law_doc_ids_bounded(hits: Seq<StoredHit>, has_id_field: bool)
    ensures
        doc_ids_spec(hits, has_id_field).len() <= MAX_HIT_IDS,
{
    let n = if hits.len() < MAX_HIT_IDS { hits.len() as int } else { MAX_HIT_IDS as int };
    lemma_hits_ids_len(hits.take(n), has_id_field);
}

} // verus!
