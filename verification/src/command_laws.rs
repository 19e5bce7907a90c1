//! What each benchmark command name asks for, across the engines: `COUNT`
//! answers the full hit count, `TOP_k` runs a top-k search and answers `1`,
//! and `TOP_k_COUNT` runs a top-k search and answers the full hit count.

use vstd::prelude::*;
use crate::numbers::decimal;
use crate::lancedb_serve::{StepModel, serve_command_spec, serve_step_spec, unsupported};
use crate::lancedb_check::{CheckStepModel, BatchModel, check_command_spec, check_step_spec, total_rows, batch_errors};
use crate::tantivy_check::{TantivyCommand, tantivy_command_spec, answer_spec};
use crate::lance_serve::{Answer, LanceRequestModel, lance_request_spec, search_answer};
use crate::lance_query::build_fts_query_spec;
use crate::fts_query::FtsModel;
use crate::serve_laws::{lemma_request_fields, lemma_one_is_decimal};
use crate::timing::{Phases, Phase, phase_series};

verus! {

/// The command `TOP_k`.
pub open spec fn top_name(k: nat) -> Seq<char> {
    "TOP_"@ + decimal(k)
}

/// The command `TOP_k_COUNT`.
pub open spec fn top_count_name(k: nat) -> Seq<char> {
    "TOP_"@ + decimal(k) + "_COUNT"@
}

/// The depths of the `TOP_k_COUNT` commands.
pub open spec fn is_count_depth(k: nat) -> bool {
    k == 1 || k == 5 || k == 10 || k == 100 || k == 1000
}

/// The depths of the `TOP_k` commands.
pub open spec fn is_top_depth(k: nat) -> bool {
    k == 10 || k == 100 || k == 1000
}

proof fn lemma_small_decimals()
    ensures
        decimal(1) == seq!['1'],
        decimal(5) == seq!['5'],
        decimal(10) == seq!['1', '0'],
        decimal(100) == seq!['1', '0', '0'],
        decimal(1000) == seq!['1', '0', '0', '0'],
{
    assert(decimal(1) =~= seq!['1']);
    assert(decimal(5) =~= seq!['5']);
    assert(decimal(10) =~= seq!['1', '0']);
    assert(decimal(100) =~= seq!['1', '0', '0']);
    assert(decimal(1000) =~= seq!['1', '0', '0', '0']);
}

/// The command names, written out.
proof fn lemma_names()
    ensures
        top_count_name(1) == "TOP_1_COUNT"@,
        top_count_name(5) == "TOP_5_COUNT"@,
        top_count_name(10) == "TOP_10_COUNT"@,
        top_count_name(100) == "TOP_100_COUNT"@,
        top_count_name(1000) == "TOP_1000_COUNT"@,
        top_name(10) == "TOP_10"@,
        top_name(100) == "TOP_100"@,
        top_name(1000) == "TOP_1000"@,
{
    lemma_small_decimals();
    reveal_strlit("TOP_");
    reveal_strlit("_COUNT");
    reveal_strlit("TOP_1_COUNT");
    reveal_strlit("TOP_5_COUNT");
    reveal_strlit("TOP_10_COUNT");
    reveal_strlit("TOP_100_COUNT");
    reveal_strlit("TOP_1000_COUNT");
    reveal_strlit("TOP_10");
    reveal_strlit("TOP_100");
    reveal_strlit("TOP_1000");
    assert(top_count_name(1) =~= "TOP_1_COUNT"@);
    assert(top_count_name(5) =~= "TOP_5_COUNT"@);
    assert(top_count_name(10) =~= "TOP_10_COUNT"@);
    assert(top_count_name(100) =~= "TOP_100_COUNT"@);
    assert(top_count_name(1000) =~= "TOP_1000_COUNT"@);
    assert(top_name(10) =~= "TOP_10"@);
    assert(top_name(100) =~= "TOP_100"@);
    assert(top_name(1000) =~= "TOP_1000"@);
}

proof fn lemma_table_literals()
    ensures
        "COUNT"@.len() == 5,
        "TOP_10"@.len() == 6,
        "TOP_100"@.len() == 7,
        "TOP_1000"@.len() == 8,
        "TOP_1_COUNT"@.len() == 11,
        "TOP_5_COUNT"@.len() == 11,
        "TOP_10_COUNT"@.len() == 12,
        "TOP_100_COUNT"@.len() == 13,
        "TOP_1000_COUNT"@.len() == 14,
        "TOP_1_COUNT"@[4] == '1',
        "TOP_5_COUNT"@[4] == '5',
        "UNOPTIMIZED_COUNT"@.len() == 17,
        "TOP_10_DUMP"@.len() == 11,
        "TOP_100_DUMP"@.len() == 12,
        "TOP_10_DUMP"@[7] == 'D',
        "TOP_100_DUMP"@[8] == 'D',
        "TOP_1_COUNT"@[6] == 'C',
        "TOP_10_COUNT"@[7] == 'C',
{
    reveal_strlit("COUNT");
    reveal_strlit("TOP_10");
    reveal_strlit("TOP_100");
    reveal_strlit("TOP_1000");
    reveal_strlit("TOP_1_COUNT");
    reveal_strlit("TOP_5_COUNT");
    reveal_strlit("TOP_10_COUNT");
    reveal_strlit("TOP_100_COUNT");
    reveal_strlit("TOP_1000_COUNT");
    reveal_strlit("UNOPTIMIZED_COUNT");
    reveal_strlit("TOP_10_DUMP");
    reveal_strlit("TOP_100_DUMP");
}

/// LanceDB server: `TOP_k_COUNT` runs a top-k search without counting its
/// rows, then a count search without a limit, and answers the rows that
/// count search found.
pub proof fn law_serve_top_count(k: usize, a: usize, n: usize)
    requires
        is_count_depth(k as nat),
    ensures
        serve_command_spec(top_count_name(k as nat)) matches Some(cmd) && {
            &&& serve_step_spec(cmd, seq![]) == (StepModel::Search { limit: Some(k), count_rows: false })
            &&& serve_step_spec(cmd, seq![Some(a)]) == (StepModel::Search { limit: None, count_rows: true })
            &&& serve_step_spec(cmd, seq![Some(a), Some(n)]) == StepModel::Reply(decimal(n as nat))
        },
{
    lemma_names();
    lemma_table_literals();
}

/// LanceDB server: `TOP_k` runs one top-k search and answers `1`, or
/// `UNSUPPORTED` when it failed.
pub proof fn law_serve_top(k: usize, a: usize)
    requires
        is_top_depth(k as nat),
    ensures
        serve_command_spec(top_name(k as nat)) matches Some(cmd) && {
            &&& serve_step_spec(cmd, seq![]) == (StepModel::Search { limit: Some(k), count_rows: false })
            &&& serve_step_spec(cmd, seq![Some(a)]) == StepModel::Reply(decimal(1))
            &&& serve_step_spec(cmd, seq![None]) == StepModel::Reply(unsupported())
        },
{
    lemma_names();
    lemma_table_literals();
    lemma_one_is_decimal();
}

/// LanceDB server: `COUNT` runs one search without a limit and answers the
/// rows it found.
pub proof fn law_serve_count(n: usize)
    ensures
        serve_command_spec("COUNT"@) matches Some(cmd) && {
            &&& serve_step_spec(cmd, seq![]) == (StepModel::Search { limit: None, count_rows: true })
            &&& serve_step_spec(cmd, seq![Some(n)]) == StepModel::Reply(decimal(n as nat))
        },
{
}

/// LanceDB check tool: `TOP_k_COUNT` runs a top-k listing, then a count
/// search without a limit; when the listing has no errors, the record holds
/// the rows of the count search and answers that number.
pub proof fn law_check_top_count(k: usize, bs: Seq<BatchModel>, ts: Seq<BatchModel>)
    requires
        is_count_depth(k as nat),
        batch_errors(bs).len() == 0,
    ensures
        check_command_spec(top_count_name(k as nat)) matches Some(cmd) && {
            &&& check_step_spec(cmd, None, None) == CheckStepModel::Search(Some(k))
            &&& check_step_spec(cmd, Some(Ok(bs)), None) == CheckStepModel::Search(None)
            &&& check_step_spec(cmd, Some(Ok(bs)), Some(Ok(ts))) matches CheckStepModel::Done(r)
                && r.count == total_rows(ts) && r.reply == decimal(total_rows(ts) as nat)
        },
{
    lemma_names();
    lemma_table_literals();
}

/// LanceDB check tool: `TOP_k` runs one top-k listing and, without errors,
/// answers `1`; `COUNT` runs one listing without a limit and answers its
/// rows.
pub proof fn law_check_top_and_count(k: usize, bs: Seq<BatchModel>)
    requires
        is_top_depth(k as nat),
        batch_errors(bs).len() == 0,
    ensures
        check_command_spec(top_name(k as nat)) matches Some(cmd) && {
            &&& check_step_spec(cmd, None, None) == CheckStepModel::Search(Some(k))
            &&& check_step_spec(cmd, Some(Ok(bs)), None) matches CheckStepModel::Done(r)
                && r.reply == decimal(1)
        },
        check_command_spec("COUNT"@) matches Some(cmd) && {
            &&& check_step_spec(cmd, None, None) == CheckStepModel::Search(None)
            &&& check_step_spec(cmd, Some(Ok(bs)), None) matches CheckStepModel::Done(r)
                && r.count == total_rows(bs) && r.reply == decimal(total_rows(bs) as nat)
        },
{
    lemma_names();
    lemma_table_literals();
    lemma_one_is_decimal();
}

/// Tantivy check tool: `TOP_k_COUNT` collects the top k documents and the
/// match count, and answers the match count; `TOP_k` collects the top k and
/// answers `1`; `COUNT` answers the match count.
pub proof fn law_tantivy_commands(k: usize, counted: usize)
    ensures
        is_count_depth(k as nat) ==> tantivy_command_spec(top_count_name(k as nat)) == Some(
            TantivyCommand::TopCount(k),
        ) && answer_spec(TantivyCommand::TopCount(k), counted) == counted,
        is_top_depth(k as nat) ==> tantivy_command_spec(top_name(k as nat)) == Some(
            TantivyCommand::Top(k),
        ) && answer_spec(TantivyCommand::Top(k), counted) == 1,
        tantivy_command_spec("COUNT"@) matches Some(cmd) && answer_spec(cmd, counted) == counted,
{
    lemma_names();
    lemma_table_literals();
}

/// Lance server: `TOP_k` on a query that builds runs that query for its
/// first k hits and answers `1`; `TOP_k_COUNT` and `COUNT` run it over every
/// match and answer the row count.
pub proof fn law_lance_commands(k: usize, q: Seq<char>, rows: usize)
    requires
        q.len() > 0,
        build_fts_query_spec(q) is Ok,
    ensures
        is_top_depth(k as nat) ==> lance_request_spec(top_name(k as nat) + seq!['\t'] + q)
            == (LanceRequestModel::Search {
                query: build_fts_query_spec(q)->Ok_0,
                limit: Some(k as i64),
                answer: Answer::One,
            }) && search_answer(Answer::One, Some(rows)) == decimal(1),
        is_count_depth(k as nat) ==> lance_request_spec(top_count_name(k as nat) + seq!['\t'] + q)
            == (LanceRequestModel::Search {
                query: build_fts_query_spec(q)->Ok_0,
                limit: None,
                answer: Answer::Count,
            }) && search_answer(Answer::Count, Some(rows)) == decimal(rows as nat),
        lance_request_spec("COUNT"@ + seq!['\t'] + q) == (LanceRequestModel::Search {
            query: build_fts_query_spec(q)->Ok_0,
            limit: None,
            answer: Answer::Count,
        }),
{
    lemma_names();
    lemma_table_literals();
    lemma_one_is_decimal();
    reveal_strlit("COUNT");
    assert forall|i: int| 0 <= i < "COUNT"@.len() implies "COUNT"@[i] != '\t' by {}
    lemma_request_fields("COUNT"@, q);
    if is_top_depth(k as nat) {
        let c = top_name(k as nat);
        reveal_strlit("TOP_10");
        reveal_strlit("TOP_100");
        reveal_strlit("TOP_1000");
        assert forall|i: int| 0 <= i < c.len() implies c[i] != '\t' by {}
        lemma_request_fields(c, q);
    }
    if is_count_depth(k as nat) {
        let c = top_count_name(k as nat);
        reveal_strlit("TOP_1_COUNT");
        reveal_strlit("TOP_5_COUNT");
        reveal_strlit("TOP_10_COUNT");
        reveal_strlit("TOP_100_COUNT");
        reveal_strlit("TOP_1000_COUNT");
        assert forall|i: int| 0 <= i < c.len() implies c[i] != '\t' by {}
        lemma_request_fields(c, q);
    }
}

/// The series summarised for a phase is that phase's own time in each run,
/// in run order.
pub proof fn law_phase_series_fields(runs: Seq<Phases>)
    ensures
        forall|i: int| 0 <= i < runs.len() ==> {
            &&& #[trigger] phase_series(runs, Phase::BuildQuery)[i] == runs[i].build_query
            &&& phase_series(runs, Phase::Scan)[i] == runs[i].scan
            &&& phase_series(runs, Phase::Configure)[i] == runs[i].configure
            &&& phase_series(runs, Phase::CreatePlan)[i] == runs[i].create_plan
            &&& phase_series(runs, Phase::ExecutePlan)[i] == runs[i].execute_plan
            &&& phase_series(runs, Phase::Drain)[i] == runs[i].drain
            &&& phase_series(runs, Phase::Total)[i] == runs[i].total
        },
        phase_series(runs, Phase::CreatePlan).len() == runs.len(),
        phase_series(runs, Phase::ExecutePlan).len() == runs.len(),
{
}

} // verus!
