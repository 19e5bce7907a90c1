use fts_bench::lancedb_check::{check_command, check_step, BatchOutcome, CheckCommand, CheckStep};
use fts_bench::tantivy_check::{
    answered_count, get_doc_ids, query_shape_name, tantivy_command, two_or_more_words, StoredHit,
    TantivyCommand,
};

fn rows(n: usize, ids: &[Option<&str>]) -> BatchOutcome {
    BatchOutcome::Rows {
        num_rows: n,
        ids: Some(ids.iter().map(|o| o.map(|s| s.to_string())).collect()),
    }
}

fn done(s: CheckStep) -> (usize, Vec<String>, Vec<String>, String) {
    match s {
        CheckStep::Done(r) => (r.count, r.result_ids, r.errors, r.reply),
        CheckStep::Search(l) => panic!("still searching with limit {l:?}"),
    }
}

fn strings(v: &[&str]) -> Vec<String> {
    v.iter().map(|s| s.to_string()).collect()
}

#[test]
fn check_command_table() {
    assert_eq!(check_command("COUNT"), Some(CheckCommand::Listing { limit: None, answer_count: true }));
    assert_eq!(check_command("TOP_100"), Some(CheckCommand::Listing { limit: Some(100), answer_count: false }));
    assert_eq!(check_command("TOP_10_COUNT"), Some(CheckCommand::ListingThenTotal { limit: 10 }));
    assert_eq!(check_command("TOP_10_DUMP"), None);
}

#[test]
fn first_step_is_the_listing_search() {
    match check_step(CheckCommand::Listing { limit: Some(10), answer_count: false }, &None, &None) {
        CheckStep::Search(l) => assert_eq!(l, Some(10)),
        _ => panic!("expected a search"),
    }
}

#[test]
fn count_listing_record() {
    let listing = Some(Ok(vec![rows(2, &[Some("a"), None]), rows(3, &[Some("b"), Some("c"), Some("d")])]));
    let (count, ids, errors, reply) =
        done(check_step(CheckCommand::Listing { limit: None, answer_count: true }, &listing, &None));
    assert_eq!(count, 5);
    assert_eq!(ids, strings(&["a", "b", "c", "d"]));
    assert!(errors.is_empty());
    assert_eq!(reply, "5");
}

#[test]
fn top_listing_answers_one() {
    let listing = Some(Ok(vec![rows(1, &[Some("x")])]));
    let (_, _, _, reply) =
        done(check_step(CheckCommand::Listing { limit: Some(10), answer_count: false }, &listing, &None));
    assert_eq!(reply, "1");
}

#[test]
fn at_most_twenty_ids() {
    let names: Vec<String> = (0..30).map(|i| format!("d{i}")).collect();
    let col: Vec<Option<&str>> = names.iter().map(|s| Some(s.as_str())).collect();
    let listing = Some(Ok(vec![rows(15, &col[..15]), rows(15, &col[15..])]));
    let (count, ids, _, _) =
        done(check_step(CheckCommand::Listing { limit: Some(1000), answer_count: true }, &listing, &None));
    assert_eq!(count, 30);
    assert_eq!(ids.len(), 20);
    assert_eq!(ids[19], "d19");
}

#[test]
fn failed_batch_is_unsupported() {
    let listing = Some(Ok(vec![rows(1, &[Some("a")]), BatchOutcome::Failed("boom".to_string())]));
    let (count, ids, errors, reply) =
        done(check_step(CheckCommand::Listing { limit: Some(10), answer_count: true }, &listing, &None));
    assert_eq!(count, 1);
    assert_eq!(ids, strings(&["a"]));
    assert_eq!(errors, strings(&["boom"]));
    assert_eq!(reply, "UNSUPPORTED");
}

#[test]
fn failed_search_is_unsupported() {
    let listing: Option<Result<Vec<BatchOutcome>, String>> = Some(Err("no index".to_string()));
    let (count, ids, errors, reply) = done(check_step(CheckCommand::ListingThenTotal { limit: 5 }, &listing, &None));
    assert_eq!((count, ids.len()), (0, 0));
    assert_eq!(errors, strings(&["no index"]));
    assert_eq!(reply, "UNSUPPORTED");
}

#[test]
fn listing_then_total() {
    let cmd = CheckCommand::ListingThenTotal { limit: 1 };
    let listing = Some(Ok(vec![rows(1, &[Some("top")])]));
    match check_step(cmd, &listing, &None) {
        CheckStep::Search(l) => assert_eq!(l, None),
        _ => panic!("expected the count search"),
    }
    let total = Some(Ok(vec![rows(400, &[]), rows(600, &[])]));
    let (count, ids, errors, reply) = done(check_step(cmd, &listing, &total));
    assert_eq!(count, 1000);
    assert_eq!(ids, strings(&["top"]));
    assert!(errors.is_empty());
    assert_eq!(reply, "1000");
    let failed: Option<Result<Vec<BatchOutcome>, String>> = Some(Err("timeout".to_string()));
    let (count, _, errors, reply) = done(check_step(cmd, &listing, &failed));
    assert_eq!(count, 0);
    assert_eq!(errors, strings(&["count_query: timeout"]));
    assert_eq!(reply, "UNSUPPORTED");
}

#[test]
fn tantivy_shape_names() {
    assert_eq!(query_shape_name("\"a b\""), "phrase");
    assert_eq!(query_shape_name("\""), "phrase");
    assert_eq!(query_shape_name("+a b"), "intersection");
    assert_eq!(query_shape_name("a b"), "union");
    assert_eq!(query_shape_name("a\tb"), "union");
    assert_eq!(query_shape_name(" a "), "term");
    assert_eq!(query_shape_name(""), "term");
}

#[test]
fn word_counting() {
    let w = |s: &str| two_or_more_words(&s.chars().collect());
    assert!(w("a b"));
    assert!(!w("  ab  "));
    assert!(!w(""));
    assert!(w(" x\u{3000}y "));
}

#[test]
fn tantivy_commands() {
    assert_eq!(tantivy_command("COUNT"), Some(TantivyCommand::Count));
    assert_eq!(tantivy_command("TOP_1000"), Some(TantivyCommand::Top(1000)));
    assert_eq!(tantivy_command("TOP_1_COUNT"), Some(TantivyCommand::TopCount(1)));
    assert_eq!(tantivy_command("TOP_3"), None);
    assert_eq!(answered_count(TantivyCommand::Top(10), 77), 1);
    assert_eq!(answered_count(TantivyCommand::TopCount(10), 77), 77);
    assert_eq!(answered_count(TantivyCommand::Count, 0), 0);
}

fn hit(seg: u32, doc: u32, fetched: bool, id: Option<&str>) -> StoredHit {
    StoredHit { segment_ord: seg, doc_id: doc, fetched, id_text: id.map(|s| s.to_string()) }
}

#[test]
fn tantivy_doc_ids() {
    let hits = vec![hit(0, 1, true, Some("x")), hit(0, 2, false, Some("y")), hit(1, 3, true, None)];
    assert_eq!(get_doc_ids(&hits, true), strings(&["x"]));
    assert_eq!(get_doc_ids(&hits, false), strings(&["0:1", "1:3"]));
    let many: Vec<StoredHit> = (0..25).map(|i| hit(0, i, true, None)).collect();
    let ids = get_doc_ids(&many, false);
    assert_eq!(ids.len(), 20);
    assert_eq!(ids[19], "0:19");
}

#[test]
fn counts_are_not_capped() {
    let big = Some(Ok(vec![rows(3_000_000, &[]), rows(1_168_066, &[])]));
    let (count, _, _, reply) =
        done(check_step(CheckCommand::Listing { limit: None, answer_count: true }, &big, &None));
    assert_eq!((count, reply.as_str()), (4_168_066, "4168066"));
    let listing = Some(Ok(vec![rows(1, &[Some("top")])]));
    let (count, _, _, reply) = done(check_step(CheckCommand::ListingThenTotal { limit: 1 }, &listing, &big));
    assert_eq!((count, reply.as_str()), (4_168_066, "4168066"));
}
