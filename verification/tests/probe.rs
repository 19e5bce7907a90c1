use fts_bench::fts_query::{FtsQuery, LeafQuery, Occur, Operator};
use fts_bench::probe::{boolean_must, case_from_query, cases, match_query, must_should, phrase_query};
use fts_bench::probe_cli::{parse_cli, query_from_line, select_builtin, CliError, QueryLine};

fn leaf(q: &LeafQuery) -> String {
    match q {
        LeafQuery::Match(m) => format!("match({};{:?};{:?};{:?})", m.terms, m.column, m.operator, m.fuzziness),
        LeafQuery::Phrase(p) => format!("phrase({};{:?})", p.terms, p.column),
    }
}

fn describe(q: &FtsQuery) -> String {
    match q {
        FtsQuery::Match(m) => format!("match({};{:?};{:?};{:?})", m.terms, m.column, m.operator, m.fuzziness),
        FtsQuery::Phrase(p) => format!("phrase({};{:?})", p.terms, p.column),
        FtsQuery::Boolean(cs) => {
            let parts: Vec<String> = cs.iter().map(|(o, q)| format!("{:?} {}", o, leaf(q))).collect();
            format!("boolean[{}]", parts.join(", "))
        }
    }
}

fn args(v: &[&str]) -> Vec<String> {
    v.iter().map(|s| s.to_string()).collect()
}

#[test]
fn query_builders() {
    assert_eq!(describe(&match_query("a b", Operator::And)), "match(a b;Some(\"text\");Some(And);Some(0))");
    assert_eq!(describe(&phrase_query("a b")), "phrase(a b;Some(\"text\"))");
    assert_eq!(
        describe(&must_should("x", "y")),
        "boolean[Must match(x;Some(\"text\");Some(Or);Some(0)), Should match(y;Some(\"text\");Some(Or);Some(0))]"
    );
    assert_eq!(describe(&boolean_must("z")), "boolean[Must match(z;Some(\"text\");Some(Or);Some(0))]");
}

#[test]
fn built_in_cases() {
    let cs = cases();
    assert_eq!(cs.len(), 22);
    assert_eq!(cs[0].name, "and_rare");
    assert_eq!(cs[7].name, "must_should_climate_count");
    assert_eq!(cs[7].limit, None);
    assert!(cs.iter().filter(|c| c.name != "must_should_climate_count").all(|c| c.limit == Some(10)));
    let data_center = cs.iter().find(|c| c.name == "iu_cheap_data_center").unwrap();
    assert_eq!(
        describe(&data_center.query),
        "boolean[Must match(data;Some(\"text\");None;Some(0)), Should match(center;Some(\"text\");None;Some(0)), Should match(cooling;Some(\"text\");None;Some(0))]"
    );
    let phrase = cs.iter().find(|c| c.name == "phrase_typical_new_york").unwrap();
    assert_eq!(describe(&phrase.query), "phrase(new york;Some(\"text\"))");
}

#[test]
fn case_of_a_query() {
    let c = case_from_query("+climate policy").unwrap();
    assert_eq!(c.name, "+climate policy");
    assert_eq!(c.limit, Some(10));
    match &c.query {
        FtsQuery::Boolean(cs) => {
            assert_eq!(cs.len(), 2);
            assert_eq!(cs[0].0, Occur::Must);
        }
        _ => panic!("expected a boolean query"),
    }
    assert_eq!(case_from_query("\"open").err(), Some("unclosed quote".to_string()));
}

#[test]
fn prefix_selection() {
    let names: Vec<String> = select_builtin(&Some("must_".to_string())).into_iter().map(|c| c.name).collect();
    assert_eq!(
        names,
        vec![
            "must_only_climate",
            "must_should_climate",
            "must_should_climate_count",
            "must_should_vehicles",
            "must_only_global",
            "must_should_markets",
            "must_should_privacy",
        ]
    );
    assert_eq!(select_builtin(&None).len(), 22);
    assert!(select_builtin(&Some("zzz".to_string())).is_empty());
}

#[test]
fn command_line_defaults() {
    let cli = parse_cli(&args(&["probe", "/idx"])).unwrap();
    assert_eq!(cli.index, "/idx");
    assert_eq!((cli.warmup, cli.iters), (8, 20));
    assert!(cli.case_prefix.is_none() && cli.queries_file.is_none());
    assert!(cli.extra_queries.is_empty() && cli.seconds_values.is_empty());
}

#[test]
fn command_line_options() {
    let cli = parse_cli(&args(&[
        "probe", "/idx", "term_", "--query", "+a b", "--query", "c", "--warmup", "3", "--iters", "5",
        "--seconds", "1.5", "--queries-file", "q.jsonl",
    ]))
    .unwrap();
    assert_eq!(cli.case_prefix, Some("term_".to_string()));
    assert_eq!(cli.extra_queries, args(&["+a b", "c"]));
    assert_eq!((cli.warmup, cli.iters), (3, 5));
    assert_eq!(cli.seconds_values, args(&["1.5"]));
    assert_eq!(cli.queries_file, Some("q.jsonl".to_string()));
}

fn error(v: &[&str]) -> CliError {
    parse_cli(&args(v)).unwrap_err().error
}

#[test]
fn command_line_errors() {
    assert!(matches!(error(&["probe"]), CliError::Usage));
    assert!(matches!(error(&["probe", "/idx", "--query"]), CliError::QueryNeedsValue));
    assert!(matches!(error(&["probe", "/idx", "--queries-file"]), CliError::QueriesFileNeedsPath));
    assert!(matches!(error(&["probe", "/idx", "--seconds"]), CliError::SecondsNeedsNumber));
    assert!(matches!(error(&["probe", "/idx", "--warmup", "x"]), CliError::WarmupNeedsInteger));
    assert!(matches!(error(&["probe", "/idx", "--iters", "-1"]), CliError::ItersNeedsInteger));
    assert!(matches!(error(&["probe", "/idx", "--verbose"]), CliError::UnknownFlag(f) if f == "--verbose"));
    assert!(matches!(error(&["probe", "/idx", "a", "b"]), CliError::UnexpectedArgument(f) if f == "b"));
    let failure = parse_cli(&args(&["probe", "/idx", "--seconds", "abc", "--warmup", "x"])).unwrap_err();
    assert_eq!(failure.seconds_values, args(&["abc"]));
}

#[test]
fn query_file_lines() {
    assert!(matches!(query_from_line("   "), QueryLine::Skip));
    assert!(matches!(query_from_line("# comment"), QueryLine::Skip));
    assert!(matches!(query_from_line("  +a b  "), QueryLine::Query(q) if q == "+a b"));
    assert!(matches!(query_from_line("{\"query\": \"\\\"new york\\\"\"}"), QueryLine::Query(q) if q == "\"new york\""));
    assert!(matches!(query_from_line("{\"q\": 1}"), QueryLine::MissingQuery));
    assert!(matches!(query_from_line("{\"query\": 1}"), QueryLine::MissingQuery));
    assert!(matches!(query_from_line("{broken"), QueryLine::BadJson(_)));
}

fn selected(v: &[&str], file: Option<Vec<fts_bench::probe::Case>>) -> Result<Vec<String>, String> {
    let cli = parse_cli(&args(v)).unwrap();
    match fts_bench::probe_cli::select_cases(&cli, file) {
        Ok(cs) => Ok(cs.into_iter().map(|c| c.name).collect()),
        Err(fts_bench::probe_cli::SelectError::BadQuery { query, message }) => Err(format!("query {query}: {message}")),
        Err(fts_bench::probe_cli::SelectError::NoneSelected) => Err("no queries selected".to_string()),
    }
}

#[test]
fn case_selection_precedence() {
    assert_eq!(selected(&["probe", "/idx"], None).unwrap().len(), 22);
    assert_eq!(selected(&["probe", "/idx", "phrase_"], None).unwrap(), vec!["phrase_rare", "phrase_typical_new_york"]);
    assert_eq!(selected(&["probe", "/idx", "--query", "a b", "--query", "+c"], None).unwrap(), vec!["a b", "+c"]);
    let file = vec![case_from_query("from file").unwrap()];
    assert_eq!(
        selected(&["probe", "/idx", "--query", "\"bad", "--queries-file", "q"], Some(file)).unwrap(),
        vec!["from file"]
    );
    assert_eq!(selected(&["probe", "/idx", "--query", "ok", "--query", "\"bad"], None), Err("query \"bad: unclosed quote".to_string()));
    assert_eq!(selected(&["probe", "/idx", "zzz"], None), Err("no queries selected".to_string()));
    assert_eq!(selected(&["probe", "/idx", "--queries-file", "q"], Some(vec![])), Err("no queries selected".to_string()));
}
