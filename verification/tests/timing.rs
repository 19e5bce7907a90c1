use fts_bench::fts_query::Operator;
use fts_bench::timing::{best_and_median, phase_best_and_median, sort_values, split_operator, Phase, Phases};

#[test]
fn probe_query_operator() {
    assert_eq!(split_operator("+a+b"), ("ab".to_string(), Operator::And));
    assert_eq!(split_operator("+data +center"), ("data center".to_string(), Operator::And));
    assert_eq!(split_operator("data center"), ("data center".to_string(), Operator::Or));
    assert_eq!(split_operator("a+b"), ("a+b".to_string(), Operator::Or));
    assert_eq!(split_operator(""), ("".to_string(), Operator::Or));
}

#[test]
fn sorting() {
    assert_eq!(sort_values(&vec![5, 1, 4, 1, 3]), vec![1, 1, 3, 4, 5]);
    assert_eq!(sort_values(&vec![]), Vec::<u128>::new());
}

#[test]
fn best_and_median_of_runs() {
    assert_eq!(best_and_median(&vec![30, 10, 20]), (10, 20));
    assert_eq!(best_and_median(&vec![4, 3, 2, 1]), (1, 3));
    assert_eq!(best_and_median(&vec![7]), (7, 7));
    let (best, median) = best_and_median(&vec![9, 2, 7, 7, 1, 8]);
    assert!(best <= median);
    assert_eq!((best, median), (1, 7));
}

#[test]
fn phase_summary() {
    let runs: Vec<Phases> = (1..=5u128)
        .map(|i| Phases { scan: 10 * (6 - i), total: 100 + i, ..Phases::default() })
        .collect();
    assert_eq!(phase_best_and_median(&runs, Phase::Scan), (10, 30));
    assert_eq!(phase_best_and_median(&runs, Phase::Total), (101, 103));
    assert_eq!(phase_best_and_median(&runs, Phase::Drain), (0, 0));
}
