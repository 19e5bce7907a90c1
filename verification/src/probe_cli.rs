//! Command line, query files and case selection of the Lance latency probe.

use vstd::prelude::*;
use crate::text::{trim, chars_of, trim_bounds, string_of, str_eq};
use crate::numbers::{parse_usize_spec, parse_usize};
use crate::fts_query::opt_string_view;
use crate::json::{json_accepts, json_string_member, json_string_field};
use crate::probe::{Case, CaseModel, cases, cases_view, builtin_cases, case_from_query};
use crate::lance_query::build_fts_query_spec;

verus! {

/// The probe's settings.
#[derive(Debug)]
pub struct Cli {
    pub index: String,
    pub case_prefix: Option<String>,
    pub extra_queries: Vec<String>,
    pub queries_file: Option<String>,
    /// Every value given to `--seconds`, in order; the last one is the
    /// setting. Each must be a number.
    pub seconds_values: Vec<String>,
    pub warmup: usize,
    pub iters: usize,
}

/// Why a command line is refused.
#[derive(Debug)]
pub enum CliError {
    /// Fewer than an index directory.
    Usage,
    QueryNeedsValue,
    QueriesFileNeedsPath,
    SecondsNeedsNumber,
    WarmupNeedsInteger,
    ItersNeedsInteger,
    UnknownFlag(String),
    UnexpectedArgument(String),
}

/// A refused command line, with the `--seconds` values met before the
/// refusal (each had to be a number).
#[derive(Debug)]
pub struct CliFailure {
    pub error: CliError,
    pub seconds_values: Vec<String>,
}

/// The mathematical value of the probe's settings.
pub struct CliModel {
    pub index: Seq<char>,
    pub case_prefix: Option<Seq<char>>,
    pub extra_queries: Seq<Seq<char>>,
    pub queries_file: Option<Seq<char>>,
    pub seconds_values: Seq<Seq<char>>,
    pub warmup: usize,
    pub iters: usize,
}

/// The mathematical value of a refusal.
pub enum CliErrorModel {
    Usage,
    QueryNeedsValue,
    QueriesFileNeedsPath,
    SecondsNeedsNumber,
    WarmupNeedsInteger,
    ItersNeedsInteger,
    UnknownFlag(Seq<char>),
    UnexpectedArgument(Seq<char>),
}

impl View for Cli {
    type V = CliModel;

    open spec fn view(&self) -> CliModel {
        CliModel {
            index: self.index@,
            case_prefix: opt_string_view(self.case_prefix),
            extra_queries: self.extra_queries.deep_view(),
            queries_file: opt_string_view(self.queries_file),
            seconds_values: self.seconds_values.deep_view(),
            warmup: self.warmup,
            iters: self.iters,
        }
    }
}

impl View for CliError {
    type V = CliErrorModel;

    open spec fn view(&self) -> CliErrorModel {
        match self {
            CliError::Usage => CliErrorModel::Usage,
            CliError::QueryNeedsValue => CliErrorModel::QueryNeedsValue,
            CliError::QueriesFileNeedsPath => CliErrorModel::QueriesFileNeedsPath,
            CliError::SecondsNeedsNumber => CliErrorModel::SecondsNeedsNumber,
            CliError::WarmupNeedsInteger => CliErrorModel::WarmupNeedsInteger,
            CliError::ItersNeedsInteger => CliErrorModel::ItersNeedsInteger,
            CliError::UnknownFlag(s) => CliErrorModel::UnknownFlag(s@),
            CliError::UnexpectedArgument(s) => CliErrorModel::UnexpectedArgument(s@),
        }
    }
}

/// Reads the options from `args[i..]` onto `acc`.
pub open spec fn options_from(args: Seq<Seq<char>>, i: int, acc: CliModel) -> Result<
    CliModel,
    (CliErrorModel, Seq<Seq<char>>),
>
    decreases args.len() - i,
{
    if i < 0 || i >= args.len() {
        Ok(acc)
    } else {
        let a = args[i];
        let has_value = i + 1 < args.len();
        if a == "--query"@ {
            if has_value {
                options_from(args, i + 2, CliModel { extra_queries: acc.extra_queries.push(args[i + 1]), ..acc })
            } else {
                Err((CliErrorModel::QueryNeedsValue, acc.seconds_values))
            }
        } else if a == "--queries-file"@ {
            if has_value {
                options_from(args, i + 2, CliModel { queries_file: Some(args[i + 1]), ..acc })
            } else {
                Err((CliErrorModel::QueriesFileNeedsPath, acc.seconds_values))
            }
        } else if a == "--seconds"@ {
            if has_value {
                options_from(args, i + 2, CliModel { seconds_values: acc.seconds_values.push(args[i + 1]), ..acc })
            } else {
                Err((CliErrorModel::SecondsNeedsNumber, acc.seconds_values))
            }
        } else if a == "--warmup"@ {
            if has_value && parse_usize_spec(args[i + 1]) is Ok {
                options_from(args, i + 2, CliModel { warmup: parse_usize_spec(args[i + 1])->Ok_0, ..acc })
            } else {
                Err((CliErrorModel::WarmupNeedsInteger, acc.seconds_values))
            }
        } else if a == "--iters"@ {
            if has_value && parse_usize_spec(args[i + 1]) is Ok {
                options_from(args, i + 2, CliModel { iters: parse_usize_spec(args[i + 1])->Ok_0, ..acc })
            } else {
                Err((CliErrorModel::ItersNeedsInteger, acc.seconds_values))
            }
        } else if a.len() > 0 && a[0] == '-' {
            Err((CliErrorModel::UnknownFlag(a), acc.seconds_values))
        } else if acc.case_prefix is Some {
            Err((CliErrorModel::UnexpectedArgument(a), acc.seconds_values))
        } else {
            options_from(args, i + 1, CliModel { case_prefix: Some(a), ..acc })
        }
    }
}

/// The settings for `probe <index-dir> [options]`: at least the index
/// directory; defaults are eight warm-up and twenty timed runs.
pub open spec fn parse_cli_spec(args: Seq<Seq<char>>) -> Result<CliModel, (CliErrorModel, Seq<Seq<char>>)> {
    if args.len() < 2 {
        Err((CliErrorModel::Usage, Seq::empty()))
    } else {
        options_from(
            args,
            2,
            CliModel {
                index: args[1],
                case_prefix: None,
                extra_queries: Seq::empty(),
                queries_file: None,
                seconds_values: Seq::empty(),
                warmup: 8,
                iters: 20,
            },
        )
    }
}

pub open spec fn cli_result_view(r: Result<Cli, CliFailure>) -> Result<CliModel, (CliErrorModel, Seq<Seq<char>>)> {
    match r {
        Ok(c) => Ok(c@),
        Err(f) => Err((f.error@, f.seconds_values.deep_view())),
    }
}

fn parse_count(s: &String) -> (r: Option<usize>)
    ensures
        match r {
            Some(v) => parse_usize_spec(s@) == Ok::<usize, crate::numbers::IntErrorKind>(v),
            None => parse_usize_spec(s@) is Err,
        },
{
    let c = chars_of(s.as_str());
    assert(c@.subrange(0, c@.len() as int) =~= s@);
    match parse_usize(&c, 0, c.len()) {
        Ok(v) => Some(v),
        Err(_) => None,
    }
}

fn fail(error: CliError, seconds_values: Vec<String>) -> (r: Result<Cli, CliFailure>)
    ensures
        r == Err::<Cli, CliFailure>(CliFailure { error, seconds_values }),
{
    Err(CliFailure { error, seconds_values })
}

/// Reads the probe's command line.
pub fn parse_cli(args: &Vec<String>) -> (r: Result<Cli, CliFailure>)
    ensures
        cli_result_view(r) == parse_cli_spec(args.deep_view()),
{
    let ghost a = args.deep_view();
    if args.len() < 2 {
        let none: Vec<String> = Vec::new();
        assert(none.deep_view() =~= Seq::<Seq<char>>::empty());
        return fail(CliError::Usage, none);
    }
    let mut cli = Cli {
        index: args[1].clone(),
        case_prefix: None,
        extra_queries: Vec::new(),
        queries_file: None,
        seconds_values: Vec::new(),
        warmup: 8,
        iters: 20,
    };
    assert(cli@.extra_queries =~= Seq::<Seq<char>>::empty());
    assert(cli@.seconds_values =~= Seq::<Seq<char>>::empty());
    let mut i: usize = 2;
    while i < args.len()
        invariant
            2 <= i <= args.len(),
            a == args.deep_view(),
            parse_cli_spec(a) == options_from(a, i as int, cli@),
        decreases args.len() - i,
    {
        let arg = args[i].as_str();
        let has_value = i + 1 < args.len();
        assert(a[i as int] == arg@);
        if has_value {
            assert(a[i + 1] == args@[i + 1]@);
        }
        if str_eq(arg, "--query") {
            if !has_value {
                return fail(CliError::QueryNeedsValue, cli.seconds_values);
            }
            let ghost before = cli.extra_queries.deep_view();
            cli.extra_queries.push(args[i + 1].clone());
            assert(cli.extra_queries.deep_view() =~= before.push(a[i + 1]));
            i += 2;
        } else if str_eq(arg, "--queries-file") {
            if !has_value {
                return fail(CliError::QueriesFileNeedsPath, cli.seconds_values);
            }
            cli.queries_file = Some(args[i + 1].clone());
            i += 2;
        } else if str_eq(arg, "--seconds") {
            if !has_value {
                return fail(CliError::SecondsNeedsNumber, cli.seconds_values);
            }
            let ghost before = cli.seconds_values.deep_view();
            cli.seconds_values.push(args[i + 1].clone());
            assert(cli.seconds_values.deep_view() =~= before.push(a[i + 1]));
            i += 2;
        } else if str_eq(arg, "--warmup") {
            if !has_value {
                return fail(CliError::WarmupNeedsInteger, cli.seconds_values);
            }
            match parse_count(&args[i + 1]) {
                Some(v) => {
                    cli.warmup = v;
                },
                None => {
                    return fail(CliError::WarmupNeedsInteger, cli.seconds_values);
                },
            }
            i += 2;
        } else if str_eq(arg, "--iters") {
            if !has_value {
                return fail(CliError::ItersNeedsInteger, cli.seconds_values);
            }
            match parse_count(&args[i + 1]) {
                Some(v) => {
                    cli.iters = v;
                },
                None => {
                    return fail(CliError::ItersNeedsInteger, cli.seconds_values);
                },
            }
            i += 2;
        } else {
            let ac = chars_of(arg);
            if ac.len() > 0 && ac[0] == '-' {
                return fail(CliError::UnknownFlag(args[i].clone()), cli.seconds_values);
            }
            if cli.case_prefix.is_some() {
                return fail(CliError::UnexpectedArgument(args[i].clone()), cli.seconds_values);
            }
            cli.case_prefix = Some(args[i].clone());
            i += 1;
        }
    }
    Ok(cli)
}

/// What a line of a query file holds.
#[derive(Debug)]
pub enum QueryLine {
    /// A blank line or a `#` comment.
    Skip,
    /// A benchmark query.
    Query(String),
    /// A line starting with `{` that is not JSON.
    BadJson(serde_json::Error),
    /// A JSON line without a string `query` member.
    MissingQuery,
}

/// Reads one line of a query file: the line is trimmed; blank lines and `#`
/// comments are skipped; a line starting with `{` is a JSON object whose
/// string member `query` is the query; any other line is the query itself.
pub fn query_from_line(line: &str) -> (r: QueryLine)
    ensures
        ({
            let t = trim(line@);
            match r {
                QueryLine::Skip => t.len() == 0 || t[0] == '#',
                QueryLine::Query(q) => t.len() > 0 && t[0] != '#' && (if t[0] == '{' {
                    json_accepts(t) && json_string_member(t, "query"@) == Some(q@)
                } else {
                    q@ == t
                }),
                QueryLine::BadJson(_) => t.len() > 0 && t[0] == '{' && !json_accepts(t),
                QueryLine::MissingQuery => t.len() > 0 && t[0] == '{' && json_accepts(t)
                    && json_string_member(t, "query"@) is None,
            }
        }),
{
    let chars = chars_of(line);
    let (lo, hi) = trim_bounds(&chars);
    let t = string_of(&chars, lo, hi);
    if lo == hi || chars[lo] == '#' {
        return QueryLine::Skip;
    }
    if chars[lo] == '{' {
        match json_string_field(t.as_str(), "query") {
            Err(e) => QueryLine::BadJson(e),
            Ok(None) => QueryLine::MissingQuery,
            Ok(Some(q)) => QueryLine::Query(q),
        }
    } else {
        QueryLine::Query(t)
    }
}

/// `name` starts with `prefix`.
pub open spec fn has_prefix(name: Seq<char>, prefix: Seq<char>) -> bool {
    prefix.len() <= name.len() && name.take(prefix.len() as int) == prefix
}

/// The cases whose name starts with the prefix (all of them without one),
/// in order.
pub open spec fn select_spec(cs: Seq<CaseModel>, prefix: Option<Seq<char>>) -> Seq<CaseModel>
    decreases cs.len(),
{
    if cs.len() == 0 {
        Seq::empty()
    } else {
        select_spec(cs.drop_last(), prefix) + match prefix {
            Some(p) => if has_prefix(cs.last().name, p) {
                seq![cs.last()]
            } else {
                Seq::<CaseModel>::empty()
            },
            None => seq![cs.last()],
        }
    }
}

fn starts_with(name: &String, prefix: &String) -> (r: bool)
    ensures
        r == has_prefix(name@, prefix@),
{
    let n = chars_of(name.as_str());
    let p = chars_of(prefix.as_str());
    if p.len() > n.len() {
        return false;
    }
    let mut i: usize = 0;
    while i < p.len()
        invariant
            n@ == name@,
            p@ == prefix@,
            p.len() <= n.len(),
            i <= p.len(),
            forall|j: int| 0 <= j < i ==> n@[j] == p@[j],
        decreases p.len() - i,
    {
        if n[i] != p[i] {
            assert(n@.take(p.len() as int)[i as int] == n@[i as int]);
            assert(n@.take(p.len() as int)[i as int] != p@[i as int]);
            return false;
        }
        i += 1;
    }
    assert(n@.take(p.len() as int) =~= p@);
    true
}

/// The built-in cases selected by a name prefix.
pub fn select_builtin(prefix: &Option<String>) -> (v: Vec<Case>)
    ensures
        cases_view(v@) == select_spec(builtin_cases(), opt_string_view(*prefix)),
{
    let mut rest = cases();
    let ghost av = cases_view(rest@);
    let mut out: Vec<Case> = Vec::new();
    let mut i: usize = 0;
    assert(cases_view(out@) =~= Seq::<CaseModel>::empty());
    assert(cases_view(rest@) =~= av.skip(0));
    while rest.len() > 0
        invariant
            i <= av.len(),
            av == builtin_cases(),
            cases_view(rest@) == av.skip(i as int),
            cases_view(out@) == select_spec(av.take(i as int), opt_string_view(*prefix)),
        decreases rest.len(),
    {
        assert(av.skip(i as int).len() > 0);
        let ghost old_rest = rest@;
        assert(cases_view(old_rest)[0] == old_rest[0]@);
        assert(av.skip(i as int)[0] == av[i as int]);
        let c = rest.remove(0);
        assert(rest@ =~= old_rest.subrange(1, old_rest.len() as int));
        assert(c@ == av[i as int]);
        assert forall|j: int| 0 <= j < rest@.len() implies #[trigger] cases_view(rest@)[j] == av.skip(i + 1)[j] by {
            assert(cases_view(old_rest)[j + 1] == old_rest[j + 1]@);
            assert(av.skip(i as int)[j + 1] == av.skip(i + 1)[j]);
        }
        assert(cases_view(rest@) =~= av.skip(i + 1));
        assert(av.take(i + 1).drop_last() =~= av.take(i as int));
        assert(av.take(i + 1).last() == c@);
        let keep = match prefix {
            Some(p) => starts_with(&c.name, p),
            None => true,
        };
        if keep {
            let ghost before = cases_view(out@);
            out.push(c);
            assert(cases_view(out@) =~= before.push(c@));
            assert(cases_view(out@) =~= select_spec(av.take(i + 1), opt_string_view(*prefix)));
        } else {
            assert(select_spec(av.take(i + 1), opt_string_view(*prefix)) =~= select_spec(
                av.take(i as int),
                opt_string_view(*prefix),
            ) + Seq::<CaseModel>::empty());
        }
        i += 1;
    }
    assert(av.take(i as int) =~= av);
    out
}

/// Why no cases could be selected.
#[derive(Debug)]
pub enum SelectError {
    /// A `--query` does not parse; with its parse error.
    BadQuery { query: String, message: String },
    /// The selection is empty.
    NoneSelected,
}

/// The mathematical value of a [`SelectError`].
pub enum SelectErrorModel {
    BadQuery { query: Seq<char>, message: Seq<char> },
    NoneSelected,
}

impl View for SelectError {
    type V = SelectErrorModel;

    open spec fn view(&self) -> SelectErrorModel {
        match self {
            SelectError::BadQuery { query, message } => SelectErrorModel::BadQuery {
                query: query@,
                message: message@,
            },
            SelectError::NoneSelected => SelectErrorModel::NoneSelected,
        }
    }
}

/// The case for a benchmark query: named by the query, its first ten hits.
pub open spec fn query_case(q: Seq<char>, query: crate::fts_query::FtsModel) -> CaseModel {
    CaseModel { name: q, query, limit: Some(10i64) }
}

/// The cases of the given queries, in order, or the first query that does
/// not parse with its parse error.
pub open spec fn cases_from_queries(qs: Seq<Seq<char>>) -> Result<Seq<CaseModel>, (Seq<char>, Seq<char>)>
    decreases qs.len(),
{
    if qs.len() == 0 {
        Ok(Seq::empty())
    } else {
        match cases_from_queries(qs.drop_last()) {
            Err(e) => Err(e),
            Ok(done) => match build_fts_query_spec(qs.last()) {
                Err(m) => Err((qs.last(), m)),
                Ok(query) => Ok(done.push(query_case(qs.last(), query))),
            },
        }
    }
}

/// The selection before the emptiness test: the cases of the query file
/// when one was given, else those of the `--query` options when there are
/// any, else the built-in cases whose name starts with the prefix.
pub open spec fn selection_spec(cli: CliModel, file_cases: Option<Seq<CaseModel>>) -> Result<
    Seq<CaseModel>,
    (Seq<char>, Seq<char>),
> {
    match file_cases {
        Some(v) => Ok(v),
        None => if cli.extra_queries.len() > 0 {
            cases_from_queries(cli.extra_queries)
        } else {
            Ok(select_spec(builtin_cases(), cli.case_prefix))
        },
    }
}

/// The cases that the probe runs, and when it refuses to run.
pub open spec fn select_cases_spec(cli: CliModel, file_cases: Option<Seq<CaseModel>>) -> Result<
    Seq<CaseModel>,
    SelectErrorModel,
> {
    match selection_spec(cli, file_cases) {
        Err((query, message)) => Err(SelectErrorModel::BadQuery { query, message }),
        Ok(v) => if v.len() == 0 {
            Err(SelectErrorModel::NoneSelected)
        } else {
            Ok(v)
        },
    }
}

pub open spec fn select_result_view(r: Result<Vec<Case>, SelectError>) -> Result<Seq<CaseModel>, SelectErrorModel> {
    match r {
        Ok(v) => Ok(cases_view(v@)),
        Err(e) => Err(e@),
    }
}

pub open spec fn file_cases_view(f: Option<Vec<Case>>) -> Option<Seq<CaseModel>> {
    match f {
        Some(v) => Some(cases_view(v@)),
        None => None,
    }
}

/// The cases of the `--query` options.
fn cases_of_queries(qs: &Vec<String>) -> (r: Result<Vec<Case>, SelectError>)
    ensures
        match cases_from_queries(qs.deep_view()) {
            Ok(v) => r matches Ok(out) && cases_view(out@) == v,
            Err((query, message)) => r matches Err(e) && e@ == (SelectErrorModel::BadQuery { query, message }),
        },
{
    let ghost all = qs.deep_view();
    let mut out: Vec<Case> = Vec::new();
    let mut i: usize = 0;
    assert(all.take(0) =~= Seq::<Seq<char>>::empty());
    assert(cases_view(out@) =~= Seq::<CaseModel>::empty());
    while i < qs.len()
        invariant
            i <= qs.len(),
            all == qs.deep_view(),
            cases_from_queries(all.take(i as int)) == Ok::<_, (Seq<char>, Seq<char>)>(cases_view(out@)),
        decreases qs.len() - i,
    {
        assert(all.take(i + 1).drop_last() =~= all.take(i as int));
        assert(all.take(i + 1).last() == qs@[i as int]@);
        match case_from_query(qs[i].as_str()) {
            Ok(c) => {
                let ghost before = cases_view(out@);
                out.push(c);
                assert(cases_view(out@) =~= before.push(c@));
                assert(c@ == query_case(qs@[i as int]@, c.query@));
            },
            Err(m) => {
                let query = qs[i].clone();
                let e = SelectError::BadQuery { query, message: m };
                proof {
                    lemma_error_stays(all, i as int + 1);
                }
                return Err(e);
            },
        }
        i += 1;
    }
    assert(all.take(qs.len() as int) =~= all);
    Ok(out)
}

/// Once a prefix of the queries fails, every longer prefix fails the same way.
proof fn lemma_error_stays(qs: Seq<Seq<char>>, k: int)
    requires
        0 < k <= qs.len(),
        cases_from_queries(qs.take(k)) is Err,
    ensures
        cases_from_queries(qs) == cases_from_queries(qs.take(k)),
    decreases qs.len() - k,
{
    if k < qs.len() {
        assert(qs.take(k + 1).drop_last() =~= qs.take(k));
        lemma_error_stays(qs, k + 1);
    } else {
        assert(qs.take(k) =~= qs);
    }
}

/// Picks the cases to run: the cases read from the query file when one was
/// given (`file_cases`), else those made from the `--query` options, else
/// the built-in cases selected by the prefix; a `--query` that does not
/// parse, or an empty selection, is refused.
pub fn select_cases(cli: &Cli, file_cases: Option<Vec<Case>>) -> (r: Result<Vec<Case>, SelectError>)
    ensures
        select_result_view(r) == select_cases_spec(cli@, file_cases_view(file_cases)),
{
    let chosen = match file_cases {
        Some(v) => Ok(v),
        None => if cli.extra_queries.len() > 0 {
            cases_of_queries(&cli.extra_queries)
        } else {
            Ok(select_builtin(&cli.case_prefix))
        },
    };
    match chosen {
        Err(e) => Err(e),
        Ok(v) => if v.len() == 0 {
            Err(SelectError::NoneSelected)
        } else {
            Ok(v)
        },
    }
}

} // verus!
