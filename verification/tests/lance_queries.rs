use fts_bench::fts_query::{FtsQuery, LeafQuery, Occur};
use fts_bench::lance_query::{build_fts_query, parse_clauses};
use fts_bench::lance_serve::{
    answer_search, format_dump, parse_bytes, plan_request, split_command, Answer, BytesError,
    LanceRequest,
};
use fts_bench::numbers::IntErrorKind;

fn leaf(q: &LeafQuery) -> String {
    match q {
        LeafQuery::Match(m) => format!("match({};{:?};{:?};{:?})", m.terms, m.column, m.operator, m.fuzziness),
        LeafQuery::Phrase(p) => format!("phrase({};{:?})", p.terms, p.column),
    }
}

fn describe(q: &FtsQuery) -> String {
    match q {
        FtsQuery::Match(m) => format!("match({};{:?};{:?};{:?})", m.terms, m.column, m.operator, m.fuzziness),
        FtsQuery::Phrase(p) => format!("phrase({};{:?})", p.terms, p.column),
        FtsQuery::Boolean(cs) => {
            let parts: Vec<String> = cs.iter().map(|(o, q)| format!("{:?} {}", o, leaf(q))).collect();
            format!("boolean[{}]", parts.join(", "))
        }
    }
}

fn built(raw: &str) -> String {
    match build_fts_query(raw) {
        Ok(q) => describe(&q),
        Err(e) => format!("error: {e}"),
    }
}

#[test]
fn quoted_words_are_a_phrase() {
    assert_eq!(built("\"foo bar\""), "phrase(foo bar;Some(\"text\"))");
}

#[test]
fn plus_words_are_an_and_match() {
    assert_eq!(built("+foo +bar"), "match(foo bar;Some(\"text\");Some(And);Some(0))");
}

#[test]
fn plain_words_are_an_or_match() {
    assert_eq!(built("foo bar"), "match(foo bar;Some(\"text\");Some(Or);Some(0))");
    assert_eq!(built("  foo   bar "), "match(foo bar;Some(\"text\");Some(Or);Some(0))");
}

#[test]
fn one_word_is_a_match_with_default_operator() {
    assert_eq!(built("foo"), "match(foo;Some(\"text\");None;Some(0))");
    assert_eq!(built("+foo"), "match(foo;Some(\"text\");None;Some(0))");
}

#[test]
fn mixed_occurrence_is_boolean() {
    assert_eq!(
        built("+climate policy"),
        "boolean[Must match(climate;Some(\"text\");None;Some(0)), Should match(policy;Some(\"text\");None;Some(0))]"
    );
}

#[test]
fn should_then_must_stays_boolean() {
    assert_eq!(
        built("electric +vehicles"),
        "boolean[Should match(electric;Some(\"text\");None;Some(0)), Must match(vehicles;Some(\"text\");None;Some(0))]"
    );
}

#[test]
fn phrase_clauses_make_a_boolean() {
    assert_eq!(
        built("+\"the who\" +uk"),
        "boolean[Must phrase(the who;Some(\"text\")), Must match(uk;Some(\"text\");None;Some(0))]"
    );
}

#[test]
fn query_errors() {
    assert_eq!(built("+"), "error: trailing +");
    assert_eq!(built("foo +"), "error: trailing +");
    assert_eq!(built("\"abc"), "error: unclosed quote");
    assert_eq!(built("+ foo"), "error: empty term");
    assert_eq!(built("   "), "error: empty query");
    assert_eq!(built(""), "error: empty query");
}

#[test]
fn clauses_in_order() {
    let cs = parse_clauses("a +\"b c\" d").unwrap();
    assert_eq!(cs.len(), 3);
    assert_eq!(cs[0].0, Occur::Should);
    assert_eq!(cs[1].0, Occur::Must);
    assert_eq!(leaf(&cs[1].1), "phrase(b c;Some(\"text\"))");
    assert_eq!(leaf(&cs[2].1), "match(d;Some(\"text\");None;Some(0))");
    assert_eq!(parse_clauses("\"\"").map(|c| c.len()), Ok(1));
}

fn plan(line: &str) -> String {
    match plan_request(line) {
        LanceRequest::Unsupported => "unsupported".to_string(),
        LanceRequest::Dump { query, top } => format!("dump {top} {}", describe(&query)),
        LanceRequest::Search { query, limit, answer } => {
            format!("search {:?} {:?} {}", limit, answer, describe(&query))
        }
    }
}

#[test]
fn request_plans() {
    assert_eq!(plan("COUNT\tfoo"), "search None Count match(foo;Some(\"text\");None;Some(0))");
    assert_eq!(plan("UNOPTIMIZED_COUNT\tfoo"), plan("COUNT\tfoo"));
    assert_eq!(plan("TOP_10\tfoo"), "search Some(10) One match(foo;Some(\"text\");None;Some(0))");
    assert_eq!(plan("TOP_1000\tfoo"), "search Some(1000) One match(foo;Some(\"text\");None;Some(0))");
    assert_eq!(plan("TOP_100_DUMP\tfoo"), "dump 100 match(foo;Some(\"text\");None;Some(0))");
    assert_eq!(plan("TOP_10_DUMP\tfoo"), "dump 10 match(foo;Some(\"text\");None;Some(0))");
    assert_eq!(plan("BOGUS\tfoo"), "unsupported");
    assert_eq!(plan("COUNT\t"), "unsupported");
    assert_eq!(plan("\tfoo"), "unsupported");
    assert_eq!(plan("COUNT"), "unsupported");
    assert_eq!(plan("COUNT\t+"), "unsupported");
}

#[test]
fn top_k_count_runs_the_count_search() {
    for c in ["TOP_1_COUNT", "TOP_5_COUNT", "TOP_10_COUNT", "TOP_100_COUNT", "TOP_1000_COUNT"] {
        assert_eq!(plan(&format!("{c}\t+climate policy")), plan("COUNT\t+climate policy"));
    }
}

#[test]
fn command_split_at_first_tab() {
    assert_eq!(split_command("TOP_10\tfoo\tbar"), ("TOP_10".to_string(), "foo\tbar".to_string()));
    assert_eq!(split_command("COUNT"), ("COUNT".to_string(), "".to_string()));
}

#[test]
fn answers() {
    assert_eq!(answer_search(Answer::Count, Some(42)), "42");
    assert_eq!(answer_search(Answer::One, Some(42)), "1");
    assert_eq!(answer_search(Answer::Count, None), "UNSUPPORTED");
    assert_eq!(answer_search(Answer::Count, Some(0)), "0");
}

#[test]
fn dump_lines() {
    assert_eq!(format_dump(&vec![(1, 0x3f80_0000), (22, 0xff)]), "1:3f800000,22:000000ff");
    assert_eq!(format_dump(&vec![]), "");
    assert_eq!(format_dump(&vec![(u64::MAX, u32::MAX)]), "18446744073709551615:ffffffff");
}

#[test]
fn byte_sizes() {
    assert_eq!(parse_bytes(""), Ok(None));
    assert_eq!(parse_bytes("   "), Ok(None));
    assert_eq!(parse_bytes("4096"), Ok(Some(4096)));
    assert_eq!(parse_bytes("4k"), Ok(Some(4096)));
    assert_eq!(parse_bytes("2M"), Ok(Some(2 * 1024 * 1024)));
    assert_eq!(parse_bytes("1g"), Ok(Some(1024 * 1024 * 1024)));
    assert_eq!(parse_bytes(" 10 k "), Ok(Some(10240)));
    assert_eq!(parse_bytes("+5"), Ok(Some(5)));
}

#[test]
fn byte_size_errors() {
    assert_eq!(parse_bytes("abc"), Err(BytesError::Parse(IntErrorKind::InvalidDigit)));
    assert_eq!(parse_bytes("k"), Err(BytesError::Parse(IntErrorKind::Empty)));
    assert_eq!(parse_bytes("-5"), Err(BytesError::Parse(IntErrorKind::InvalidDigit)));
    assert_eq!(parse_bytes("1.5g"), Err(BytesError::Parse(IntErrorKind::InvalidDigit)));
    assert_eq!(
        parse_bytes("999999999999999999999999"),
        Err(BytesError::Parse(IntErrorKind::PosOverflow))
    );
    assert_eq!(parse_bytes(&format!("{}k", usize::MAX)), Err(BytesError::Overflow));
}

fn render(cs: &[(Occur, LeafQuery)]) -> String {
    cs.iter()
        .map(|(o, q)| {
            let plus = if *o == Occur::Must { "+" } else { "" };
            match q {
                LeafQuery::Phrase(p) => format!("{plus}\"{}\"", p.terms),
                LeafQuery::Match(m) => format!("{plus}{}", m.terms),
            }
        })
        .collect::<Vec<_>>()
        .join(" ")
}

#[test]
fn parsed_clauses_written_out_parse_the_same() {
    for q in ["  a +\"b  c\"   ++d ", "x", "+\"\" \"p q\" y+z", "electric +vehicles"] {
        let cs = parse_clauses(q).unwrap();
        let again = parse_clauses(&render(&cs)).unwrap();
        let a: Vec<String> = cs.iter().map(|(o, l)| format!("{:?} {}", o, leaf(l))).collect();
        let b: Vec<String> = again.iter().map(|(o, l)| format!("{:?} {}", o, leaf(l))).collect();
        assert_eq!(a, b);
    }
}

#[test]
fn dumps_tell_hit_lists_apart() {
    let lists: Vec<Vec<(u64, u32)>> = vec![
        vec![],
        vec![(1, 2)],
        vec![(12, 0)],
        vec![(1, 2), (3, 4)],
        vec![(3, 4), (1, 2)],
        vec![(1, 0x8000_0000)],
    ];
    for (i, x) in lists.iter().enumerate() {
        for (j, y) in lists.iter().enumerate() {
            assert_eq!(format_dump(x) == format_dump(y), i == j);
        }
    }
}
