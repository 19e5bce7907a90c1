use fts_bench::ingest::{Batch, DocBatcher, LineStep};

fn docs(b: &Batch) -> Vec<(String, String)> {
    b.ids.iter().cloned().zip(b.texts.iter().cloned()).collect()
}

fn pair(a: &str, b: &str) -> (String, String) {
    (a.to_string(), b.to_string())
}

#[test]
fn batches_of_the_given_size() {
    let mut b = DocBatcher::new(2);
    assert!(b.push_doc("1".to_string(), "one".to_string()).is_none());
    let full = b.push_doc("2".to_string(), "two".to_string()).expect("a full batch");
    assert_eq!(docs(&full), vec![pair("1", "one"), pair("2", "two")]);
    assert!(b.push_doc("3".to_string(), "three".to_string()).is_none());
    assert_eq!(b.total_count(), 3);
    let rest = b.finish().expect("the pending document");
    assert_eq!(docs(&rest), vec![pair("3", "three")]);
    assert!(b.finish().is_none());
}

#[test]
fn documents_are_kept_in_order() {
    let mut b = DocBatcher::new(3);
    let mut out: Vec<(String, String)> = Vec::new();
    for i in 0..10 {
        if let Some(batch) = b.push_doc(format!("id{i}"), format!("text{i}")) {
            assert_eq!(batch.ids.len(), 3);
            out.extend(docs(&batch));
        }
    }
    if let Some(batch) = b.finish() {
        out.extend(docs(&batch));
    }
    let expected: Vec<(String, String)> = (0..10).map(|i| (format!("id{i}"), format!("text{i}"))).collect();
    assert_eq!(out, expected);
}

#[test]
fn corpus_lines() {
    let mut b = DocBatcher::new(2);
    assert!(matches!(b.read_line("   "), Ok(LineStep::Skipped)));
    assert!(matches!(b.read_line(""), Ok(LineStep::Skipped)));
    match b.read_line("{\"id\": \"a\", \"text\": \"hello world\"}") {
        Ok(LineStep::Accepted { progress, batch }) => {
            assert!(!progress);
            assert!(batch.is_none());
        }
        other => panic!("unexpected {other:?}"),
    }
    match b.read_line("{\"id\": 7, \"body\": \"x\"}") {
        Ok(LineStep::Accepted { batch: Some(batch), .. }) => {
            assert_eq!(docs(&batch), vec![pair("a", "hello world"), pair("", "")]);
        }
        other => panic!("unexpected {other:?}"),
    }
    assert!(b.read_line("not json").is_err());
    assert!(b.read_line("{\"id\": \"unterminated").is_err());
    assert_eq!(b.total_count(), 2);
    match b.read_line("[1, 2]") {
        Ok(LineStep::Accepted { batch: None, .. }) => {}
        other => panic!("unexpected {other:?}"),
    }
    assert_eq!(docs(&b.finish().unwrap()), vec![pair("", "")]);
}

#[test]
fn progress_every_hundred_thousand() {
    let mut b = DocBatcher::new(1000);
    let mut reports = 0;
    for _ in 0..200_000 {
        if let Ok(LineStep::Accepted { progress: true, .. }) = b.read_line("{\"id\":\"x\",\"text\":\"y\"}") {
            reports += 1;
        }
    }
    assert_eq!(reports, 2);
}
