use fts_bench::fts_query::{FtsQuery, Operator};
use fts_bench::lancedb_query::{build_fts_query, get_actual_query_desc, parse_query, QueryType};
use fts_bench::lancedb_serve;
use fts_bench::lancedb_serve::{serve_command, serve_step, split_request, ServeCommand, Step};
use fts_bench::plus_terms::PlusTermPattern;

fn shape(q: &QueryType) -> (String, String) {
    (q.name().to_string(), q.terms().to_string())
}

fn describe(q: &FtsQuery) -> String {
    match q {
        FtsQuery::Match(m) => format!("match({};{:?};{:?};{:?})", m.terms, m.column, m.operator, m.fuzziness),
        FtsQuery::Phrase(p) => format!("phrase({};{:?})", p.terms, p.column),
        FtsQuery::Boolean(cs) => format!("boolean({})", cs.len()),
    }
}

#[test]
fn quoted_query_is_phrase() {
    let q = parse_query("\"foo bar\"");
    assert_eq!(shape(&q), ("phrase".to_string(), "foo bar".to_string()));
    assert_eq!(get_actual_query_desc(&q), "PhraseQuery: \"foo bar\"");
    assert_eq!(describe(&build_fts_query(&q)), "phrase(foo bar;None)");
}

#[test]
fn plus_words_are_intersection() {
    let q = parse_query("+foo +bar");
    assert_eq!(shape(&q), ("intersection".to_string(), "foo bar".to_string()));
    assert_eq!(get_actual_query_desc(&q), "MatchQuery(AND): \"foo bar\"");
    assert_eq!(describe(&build_fts_query(&q)), "match(foo bar;None;Some(And);None)");
}

#[test]
fn plain_words_are_union() {
    let q = parse_query("foo bar");
    assert_eq!(shape(&q), ("union".to_string(), "foo bar".to_string()));
    assert_eq!(get_actual_query_desc(&q), "MatchQuery(OR): \"foo bar\"");
    assert_eq!(describe(&build_fts_query(&q)), "match(foo bar;None;Some(Or);None)");
}

#[test]
fn single_word_is_term() {
    let q = parse_query("  foo  ");
    assert_eq!(shape(&q), ("term".to_string(), "foo".to_string()));
    assert_eq!(get_actual_query_desc(&q), "MatchQuery: \"foo\"");
    assert_eq!(describe(&build_fts_query(&q)), "match(foo;None;None;None)");
}

#[test]
fn mixed_plus_query_is_union() {
    assert_eq!(shape(&parse_query("+foo bar")), ("union".to_string(), "+foo bar".to_string()));
    assert_eq!(shape(&parse_query("+foo  +bar")), ("union".to_string(), "+foo  +bar".to_string()));
}

#[test]
fn edge_queries() {
    assert_eq!(shape(&parse_query("\"\"")), ("term".to_string(), "\"\"".to_string()));
    assert_eq!(shape(&parse_query("")), ("union".to_string(), "".to_string()));
    assert_eq!(shape(&parse_query("foo\tbar")), ("union".to_string(), "foo\tbar".to_string()));
    assert_eq!(shape(&parse_query("+")), ("term".to_string(), "+".to_string()));
}

#[test]
fn plus_terms_are_the_words_after_each_plus() {
    let p = PlusTermPattern::new();
    assert_eq!(shape(&lancedb_serve::parse_query(&p, "+ab +cd")), ("intersection".to_string(), "ab cd".to_string()));
    assert_eq!(shape(&parse_query("+++a +b")), ("intersection".to_string(), "++a b".to_string()));
    assert_eq!(shape(&parse_query("+\u{3000}a")), ("union".to_string(), "+\u{3000}a".to_string()));
}

#[test]
fn server_shapes() {
    let p = PlusTermPattern::new();
    assert_eq!(shape(&lancedb_serve::parse_query(&p, "+x +y")), ("intersection".to_string(), "x y".to_string()));
    assert_eq!(shape(&lancedb_serve::parse_query(&p, "\"x y\"")), ("phrase".to_string(), "x y".to_string()));
    assert_eq!(shape(&lancedb_serve::parse_query(&p, "x y")), ("union".to_string(), "x y".to_string()));
    // The server tells a term by the absence of a space character only.
    assert_eq!(shape(&lancedb_serve::parse_query(&p, "x\ty")), ("term".to_string(), "x\ty".to_string()));
    let q = lancedb_serve::build_fts_query(&p, "+x +y");
    match q {
        FtsQuery::Match(m) => {
            assert_eq!(m.terms, "x y");
            assert_eq!(m.operator, Some(Operator::And));
        }
        _ => panic!("expected a match query"),
    }
}

#[test]
fn request_lines() {
    assert_eq!(split_request("COUNT\tfoo bar"), Some(("COUNT".to_string(), "foo bar".to_string())));
    assert_eq!(split_request("COUNT"), None);
    assert_eq!(split_request("a\tb\tc"), None);
    assert_eq!(split_request("\t"), Some(("".to_string(), "".to_string())));
}

#[test]
fn command_table() {
    assert_eq!(serve_command("COUNT"), Some(ServeCommand::Count));
    assert_eq!(serve_command("TOP_100"), Some(ServeCommand::Top(100)));
    assert_eq!(serve_command("TOP_5_COUNT"), Some(ServeCommand::TopThenCount(5)));
    assert_eq!(serve_command("TOP_10_DUMP"), None);
    assert_eq!(serve_command("count"), None);
}

fn reply(s: Step) -> String {
    match s {
        Step::Reply(r) => r,
        Step::Search { limit, count_rows } => format!("search {limit:?} {count_rows}"),
    }
}

#[test]
fn count_command_steps() {
    assert_eq!(reply(serve_step(ServeCommand::Count, &vec![])), "search None true");
    assert_eq!(reply(serve_step(ServeCommand::Count, &vec![Some(42)])), "42");
    assert_eq!(reply(serve_step(ServeCommand::Count, &vec![None])), "UNSUPPORTED");
}

#[test]
fn top_command_steps() {
    assert_eq!(reply(serve_step(ServeCommand::Top(10), &vec![])), "search Some(10) false");
    assert_eq!(reply(serve_step(ServeCommand::Top(10), &vec![Some(0)])), "1");
    assert_eq!(reply(serve_step(ServeCommand::Top(10), &vec![None])), "UNSUPPORTED");
}

#[test]
fn top_then_count_steps() {
    let cmd = ServeCommand::TopThenCount(5);
    assert_eq!(reply(serve_step(cmd, &vec![])), "search Some(5) false");
    assert_eq!(reply(serve_step(cmd, &vec![Some(5)])), "search None true");
    assert_eq!(reply(serve_step(cmd, &vec![Some(5), Some(1234)])), "1234");
    assert_eq!(reply(serve_step(cmd, &vec![Some(5), None])), "UNSUPPORTED");
    assert_eq!(reply(serve_step(cmd, &vec![None])), "UNSUPPORTED");
}

#[test]
fn outer_space_never_changes_the_shape() {
    let p = PlusTermPattern::new();
    for s in ["foo", "foo bar", "+a +b", "\"a b\"", "+a b", "", " x\ty "] {
        let padded = format!(" \t{s}\n\u{3000}");
        assert_eq!(shape(&parse_query(s)), shape(&parse_query(&padded)));
        assert_eq!(shape(&parse_query(s)), shape(&parse_query(s.trim())));
        assert_eq!(
            shape(&lancedb_serve::parse_query(&p, s)),
            shape(&lancedb_serve::parse_query(&p, &padded))
        );
    }
}

#[test]
fn descriptions_tell_queries_apart() {
    let qs = [
        QueryType::Term("a b".to_string()),
        QueryType::Union("a b".to_string()),
        QueryType::Intersection("a b".to_string()),
        QueryType::Phrase("a b".to_string()),
        QueryType::Term("a".to_string()),
    ];
    for (i, x) in qs.iter().enumerate() {
        for (j, y) in qs.iter().enumerate() {
            assert_eq!(get_actual_query_desc(x) == get_actual_query_desc(y), i == j);
        }
    }
}

#[test]
fn rows_of_arrived_batches() {
    assert_eq!(lancedb_serve::count_ok_rows(&vec![Some(2), None, Some(3)]), Some(5));
    assert_eq!(lancedb_serve::count_ok_rows(&vec![]), Some(0));
    assert_eq!(lancedb_serve::count_ok_rows(&vec![None]), Some(0));
    assert_eq!(lancedb_serve::count_ok_rows(&vec![Some(usize::MAX), Some(1)]), None);
}

#[test]
fn counts_run_without_a_limit() {
    assert_eq!(reply(serve_step(ServeCommand::Count, &vec![Some(4_168_066)])), "4168066");
    assert_eq!(reply(serve_step(ServeCommand::TopThenCount(10), &vec![Some(10), Some(4_168_066)])), "4168066");
}
