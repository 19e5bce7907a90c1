//! The LanceDB check tool: runs each benchmark request, keeps a record of what
//! came back (row count, the first result ids, errors) and answers one line.

use vstd::prelude::*;
use crate::text::str_eq;
use crate::numbers::{decimal, decimal_string};
use crate::lancedb_serve::unsupported;

verus! {

/// What a check command asks for.
#[derive(Clone, Copy, Debug, PartialEq, Eq, Structural)]
pub enum CheckCommand {
    /// One search with this limit (`None`: every match); `answer_count`
    /// answers the row count, else `1`.
    Listing { limit: Option<usize>, answer_count: bool },
    /// A top-k search for the result ids, then a count search without a
    /// limit.
    ListingThenTotal { limit: usize },
}

/// The command table of the check tool.
pub open spec fn check_command_spec(c: Seq<char>) -> Option<CheckCommand> {
    if c == "COUNT"@ {
        Some(CheckCommand::Listing { limit: None, answer_count: true })
    } else if c == "TOP_10"@ {
        Some(CheckCommand::Listing { limit: Some(10), answer_count: false })
    } else if c == "TOP_100"@ {
        Some(CheckCommand::Listing { limit: Some(100), answer_count: false })
    } else if c == "TOP_1000"@ {
        Some(CheckCommand::Listing { limit: Some(1000), answer_count: false })
    } else if c == "TOP_1_COUNT"@ {
        Some(CheckCommand::ListingThenTotal { limit: 1 })
    } else if c == "TOP_5_COUNT"@ {
        Some(CheckCommand::ListingThenTotal { limit: 5 })
    } else if c == "TOP_10_COUNT"@ {
        Some(CheckCommand::ListingThenTotal { limit: 10 })
    } else if c == "TOP_100_COUNT"@ {
        Some(CheckCommand::ListingThenTotal { limit: 100 })
    } else if c == "TOP_1000_COUNT"@ {
        Some(CheckCommand::ListingThenTotal { limit: 1000 })
    } else {
        None
    }
}

/// Looks a command up in the check tool's table.
pub fn check_command(command: &str) -> (r: Option<CheckCommand>)
    ensures
        r == check_command_spec(command@),
{
    if str_eq(command, "COUNT") {
        Some(CheckCommand::Listing { limit: None, answer_count: true })
    } else if str_eq(command, "TOP_10") {
        Some(CheckCommand::Listing { limit: Some(10), answer_count: false })
    } else if str_eq(command, "TOP_100") {
        Some(CheckCommand::Listing { limit: Some(100), answer_count: false })
    } else if str_eq(command, "TOP_1000") {
        Some(CheckCommand::Listing { limit: Some(1000), answer_count: false })
    } else if str_eq(command, "TOP_1_COUNT") {
        Some(CheckCommand::ListingThenTotal { limit: 1 })
    } else if str_eq(command, "TOP_5_COUNT") {
        Some(CheckCommand::ListingThenTotal { limit: 5 })
    } else if str_eq(command, "TOP_10_COUNT") {
        Some(CheckCommand::ListingThenTotal { limit: 10 })
    } else if str_eq(command, "TOP_100_COUNT") {
        Some(CheckCommand::ListingThenTotal { limit: 100 })
    } else if str_eq(command, "TOP_1000_COUNT") {
        Some(CheckCommand::ListingThenTotal { limit: 1000 })
    } else {
        None
    }
}

/// The most result ids that a record keeps.
pub const MAX_IDS: usize = 20;

/// One item of a search's result stream.
#[derive(Debug)]
pub enum BatchOutcome {
    /// A batch of rows; `ids` is its `id` column when it has one of strings,
    /// with `None` for a null entry.
    Rows { num_rows: usize, ids: Option<Vec<Option<String>>> },
    /// A failed batch, with the error's message.
    Failed(String),
}

/// The mathematical value of a [`BatchOutcome`].
pub enum BatchModel {
    Rows { num_rows: usize, ids: Option<Seq<Option<Seq<char>>>> },
    Failed(Seq<char>),
}

pub open spec fn opt_ids_view(v: Vec<Option<String>>) -> Seq<Option<Seq<char>>> {
    v@.map_values(|o: Option<String>| crate::fts_query::opt_string_view(o))
}

impl View for BatchOutcome {
    type V = BatchModel;

    open spec fn view(&self) -> BatchModel {
        match self {
            BatchOutcome::Rows { num_rows, ids } => BatchModel::Rows {
                num_rows: *num_rows,
                ids: match ids {
                    Some(v) => Some(opt_ids_view(*v)),
                    None => None,
                },
            },
            BatchOutcome::Failed(m) => BatchModel::Failed(m@),
        }
    }
}

pub open spec fn batches_view(v: Seq<BatchOutcome>) -> Seq<BatchModel> {
    v.map_values(|b: BatchOutcome| b@)
}

/// The rows of the successful batches, added up.
pub open spec fn total_rows(bs: Seq<BatchModel>) -> int
    decreases bs.len(),
{
    if bs.len() == 0 {
        0
    } else {
        total_rows(bs.drop_last()) + match bs.last() {
            BatchModel::Rows { num_rows, .. } => num_rows as int,
            BatchModel::Failed(_) => 0,
        }
    }
}

/// The messages of the failed batches, in order.
pub open spec fn batch_errors(bs: Seq<BatchModel>) -> Seq<Seq<char>>
    decreases bs.len(),
{
    if bs.len() == 0 {
        Seq::empty()
    } else {
        batch_errors(bs.drop_last()) + match bs.last() {
            BatchModel::Rows { .. } => Seq::<Seq<char>>::empty(),
            BatchModel::Failed(m) => seq![m],
        }
    }
}

/// The non-null entries of an id column, in order.
pub open spec fn present_ids(col: Seq<Option<Seq<char>>>) -> Seq<Seq<char>>
    decreases col.len(),
{
    if col.len() == 0 {
        Seq::empty()
    } else {
        present_ids(col.drop_last()) + match col.last() {
            Some(s) => seq![s],
            None => Seq::<Seq<char>>::empty(),
        }
    }
}

/// The ids kept so far after one more batch: its first `20 - kept` rows are
/// looked at, and their non-null ids kept.
pub open spec fn add_batch_ids(kept: Seq<Seq<char>>, b: BatchModel) -> Seq<Seq<char>> {
    match b {
        BatchModel::Rows { ids: Some(col), .. } => {
            let room = MAX_IDS - kept.len();
            let n = if room < col.len() { room } else { col.len() as int };
            kept + present_ids(col.take(n))
        },
        _ => kept,
    }
}

/// The result ids that a record keeps, batch by batch from the first.
pub open spec fn ids_from(kept: Seq<Seq<char>>, bs: Seq<BatchModel>) -> Seq<Seq<char>>
    decreases bs.len(),
{
    if bs.len() == 0 {
        kept
    } else {
        ids_from(add_batch_ids(kept, bs[0]), bs.drop_first())
    }
}

/// The record of a request: the row count, the first result ids, the
/// errors, and the answer line.
#[derive(Debug)]
pub struct CheckRecord {
    pub count: usize,
    pub result_ids: Vec<String>,
    pub errors: Vec<String>,
    pub reply: String,
}

/// The mathematical value of a [`CheckRecord`].
pub struct RecordModel {
    pub count: int,
    pub result_ids: Seq<Seq<char>>,
    pub errors: Seq<Seq<char>>,
    pub reply: Seq<char>,
}

impl View for CheckRecord {
    type V = RecordModel;

    open spec fn view(&self) -> RecordModel {
        RecordModel {
            count: self.count as int,
            result_ids: self.result_ids.deep_view(),
            errors: self.errors.deep_view(),
            reply: self.reply@,
        }
    }
}

/// The next thing to do for a check request.
#[derive(Debug)]
pub enum CheckStep {
    /// Run a search with this limit (`None`: every match).
    Search(Option<usize>),
    /// The request is done.
    Done(CheckRecord),
}

/// The mathematical value of a [`CheckStep`].
pub enum CheckStepModel {
    Search(Option<usize>),
    Done(RecordModel),
}

impl View for CheckStep {
    type V = CheckStepModel;

    open spec fn view(&self) -> CheckStepModel {
        match self {
            CheckStep::Search(l) => CheckStepModel::Search(*l),
            CheckStep::Done(r) => CheckStepModel::Done(r@),
        }
    }
}

/// A search's outcome: its result stream, or the error that stopped it
/// from running.
pub open spec fn outcome_view(o: Option<Result<Vec<BatchOutcome>, String>>) -> Option<
    Result<Seq<BatchModel>, Seq<char>>,
> {
    match o {
        Some(Ok(v)) => Some(Ok(batches_view(v@))),
        Some(Err(e)) => Some(Err(e@)),
        None => None,
    }
}

/// The answer after the searches: `UNSUPPORTED` when any error was seen,
/// else the count or `1`.
pub open spec fn record_reply(errors: Seq<Seq<char>>, answer_count: bool, count: int) -> Seq<char> {
    if errors.len() > 0 {
        unsupported()
    } else if answer_count {
        decimal(count as nat)
    } else {
        "1"@
    }
}

/// What to do next for a check request, given the outcome of the listing
/// search and of the count search (each `None` until it has run).
pub open spec fn check_step_spec(
    cmd: CheckCommand,
    listing: Option<Result<Seq<BatchModel>, Seq<char>>>,
    total: Option<Result<Seq<BatchModel>, Seq<char>>>,
) -> CheckStepModel {
    match listing {
        None => CheckStepModel::Search(
            match cmd {
                CheckCommand::Listing { limit, .. } => limit,
                CheckCommand::ListingThenTotal { limit } => Some(limit),
            },
        ),
        Some(Err(e)) => CheckStepModel::Done(
            RecordModel { count: 0, result_ids: Seq::empty(), errors: seq![e], reply: unsupported() },
        ),
        Some(Ok(bs)) => match cmd {
            CheckCommand::Listing { answer_count, .. } => CheckStepModel::Done(
                RecordModel {
                    count: total_rows(bs),
                    result_ids: ids_from(Seq::empty(), bs),
                    errors: batch_errors(bs),
                    reply: record_reply(batch_errors(bs), answer_count, total_rows(bs)),
                },
            ),
            CheckCommand::ListingThenTotal { .. } => match total {
                None => CheckStepModel::Search(None),
                Some(Ok(ts)) => CheckStepModel::Done(
                    RecordModel {
                        count: total_rows(ts),
                        result_ids: ids_from(Seq::empty(), bs),
                        errors: batch_errors(bs),
                        reply: record_reply(batch_errors(bs), true, total_rows(ts)),
                    },
                ),
                Some(Err(e)) => CheckStepModel::Done(
                    RecordModel {
                        count: 0,
                        result_ids: ids_from(Seq::empty(), bs),
                        errors: batch_errors(bs).push("count_query: "@ + e),
                        reply: unsupported(),
                    },
                ),
            },
        },
    }
}

/// The row count, kept ids and errors of a result stream.
fn summarize(bs: &Vec<BatchOutcome>) -> (r: (usize, Vec<String>, Vec<String>))
    requires
        total_rows(batches_view(bs@)) <= usize::MAX,
    ensures
        r.0 == total_rows(batches_view(bs@)),
        r.1.deep_view() == ids_from(Seq::empty(), batches_view(bs@)),
        r.2.deep_view() == batch_errors(batches_view(bs@)),
{
    let ghost bv = batches_view(bs@);
    let mut count: usize = 0;
    let mut errors: Vec<String> = Vec::new();
    let mut i: usize = 0;
    while i < bs.len()
        invariant
            i <= bs.len(),
            bv == batches_view(bs@),
            total_rows(bv) <= usize::MAX,
            count == total_rows(bv.take(i as int)),
            errors.deep_view() == batch_errors(bv.take(i as int)),
        decreases bs.len() - i,
    {
        assert(bv.take(i + 1).drop_last() =~= bv.take(i as int));
        assert(bv.take(i + 1).last() == bs@[i as int]@);
        proof {
            lemma_total_rows_prefix(bv, i + 1);
        }
        match &bs[i] {
            BatchOutcome::Rows { num_rows, .. } => {
                count = count + *num_rows;
            },
            BatchOutcome::Failed(m) => {
                let ghost before = errors.deep_view();
                errors.push(m.clone());
                assert(errors.deep_view() =~= before.push(m@));
                assert(errors.deep_view() =~= batch_errors(bv.take(i as int)) + seq![m@]);
            },
        }
        i += 1;
    }
    assert(bv.take(bs.len() as int) =~= bv);
    let mut ids: Vec<String> = Vec::new();
    let mut i: usize = 0;
    assert(bv.skip(0) =~= bv);
    assert(ids.deep_view() =~= Seq::<Seq<char>>::empty());
    while i < bs.len()
        invariant
            i <= bs.len(),
            bv == batches_view(bs@),
            ids.len() <= MAX_IDS,
            ids_from(Seq::empty(), bv) == ids_from(ids.deep_view(), bv.skip(i as int)),
        decreases bs.len() - i,
    {
        assert(bv.skip(i as int)[0] == bs@[i as int]@);
        assert(bv.skip(i as int).drop_first() =~= bv.skip(i + 1));
        match &bs[i] {
            BatchOutcome::Rows { ids: Some(col), .. } => {
                let room = MAX_IDS - ids.len();
                let n = if room < col.len() { room } else { col.len() };
                let ghost colv = opt_ids_view(*col);
                let ghost start = ids.deep_view();
                let mut j: usize = 0;
                while j < n
                    invariant
                        j <= n <= col.len(),
                        n <= room,
                        room == MAX_IDS - start.len(),
                        colv == opt_ids_view(*col),
                        ids.len() <= start.len() + j,
                        start.len() <= MAX_IDS,
                        ids.deep_view() == start + present_ids(colv.take(j as int)),
                    decreases n - j,
                {
                    assert(colv.take(j + 1).drop_last() =~= colv.take(j as int));
                    assert(colv.take(j + 1).last() == crate::fts_query::opt_string_view(col@[j as int]));
                    match &col[j] {
                        Some(s) => {
                            let ghost before = ids.deep_view();
                            ids.push(s.clone());
                            assert(ids.deep_view() =~= before.push(s@));
                            assert(ids.deep_view() =~= start + present_ids(colv.take(j + 1)));
                        },
                        None => {
                            assert(present_ids(colv.take(j + 1)) =~= present_ids(colv.take(j as int)));
                        },
                    }
                    j += 1;
                }
                assert(ids.deep_view() == add_batch_ids(start, bv.skip(i as int)[0]));
            },
            _ => {},
        }
        i += 1;
    }
    assert(bv.skip(bs.len() as int).len() == 0);
    (count, ids, errors)
}

proof fn lemma_total_rows_prefix(bs: Seq<BatchModel>, k: int)
    requires
        0 <= k <= bs.len(),
    ensures
        total_rows(bs.take(k)) <= total_rows(bs),
    decreases bs.len() - k,
{
    if k < bs.len() {
        lemma_total_rows_prefix(bs, k + 1);
        assert(bs.take(k + 1).drop_last() =~= bs.take(k));
    } else {
        assert(bs.take(k) =~= bs);
    }
}

fn record_reply_string(errors: &Vec<String>, answer_count: bool, count: usize) -> (s: String)
    ensures
        s@ == record_reply(errors.deep_view(), answer_count, count as int),
{
    if errors.len() > 0 {
        String::from_str("UNSUPPORTED")
    } else if answer_count {
        decimal_string(count as u64)
    } else {
        String::from_str("1")
    }
}

/// Decides the next step of a check request.
pub fn check_step(
    cmd: CheckCommand,
    listing: &Option<Result<Vec<BatchOutcome>, String>>,
    total: &Option<Result<Vec<BatchOutcome>, String>>,
) -> (s: CheckStep)
    requires
        outcome_view(*listing) matches Some(Ok(bs)) ==> total_rows(bs) <= usize::MAX,
        outcome_view(*total) matches Some(Ok(ts)) ==> total_rows(ts) <= usize::MAX,
    ensures
        s@ == check_step_spec(cmd, outcome_view(*listing), outcome_view(*total)),
{
    match listing {
        None => CheckStep::Search(
            match cmd {
                CheckCommand::Listing { limit, .. } => limit,
                CheckCommand::ListingThenTotal { limit } => Some(limit),
            },
        ),
        Some(Err(e)) => {
            let mut errors = Vec::new();
            errors.push(e.clone());
            assert(errors.deep_view() =~= seq![e@]);
            let no_ids: Vec<String> = Vec::new();
            assert(no_ids.deep_view() =~= Seq::<Seq<char>>::empty());
            CheckStep::Done(
                CheckRecord {
                    count: 0,
                    result_ids: no_ids,
                    errors,
                    reply: String::from_str("UNSUPPORTED"),
                },
            )
        },
        Some(Ok(bs)) => {
            let (count, ids, mut errors) = summarize(bs);
            match cmd {
                CheckCommand::Listing { answer_count, .. } => {
                    let reply = record_reply_string(&errors, answer_count, count);
                    CheckStep::Done(CheckRecord { count, result_ids: ids, errors, reply })
                },
                CheckCommand::ListingThenTotal { .. } => match total {
                    None => CheckStep::Search(None),
                    Some(Ok(ts)) => {
                        let (total_count, _, _) = summarize(ts);
                        let reply = record_reply_string(&errors, true, total_count);
                        CheckStep::Done(
                            CheckRecord { count: total_count, result_ids: ids, errors, reply },
                        )
                    },
                    Some(Err(e)) => {
                        let mut m = String::from_str("count_query: ");
                        m.append(e.as_str());
                        let ghost before = errors.deep_view();
                        errors.push(m);
                        assert(errors.deep_view() =~= before.push("count_query: "@ + e@));
                        CheckStep::Done(
                            CheckRecord {
                                count: 0,
                                result_ids: ids,
                                errors,
                                reply: String::from_str("UNSUPPORTED"),
                            },
                        )
                    },
                },
            }
        },
    }
}

} // verus!
