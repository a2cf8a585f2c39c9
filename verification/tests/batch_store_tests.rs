use health_guard::batch::{apply_file_outcome, file_outcome_effect, BatchTally, FileOutcome};
use health_guard::lifecycle::RecordStatus;
use health_guard::reconcile::Indicator;
use health_guard::store::{OcrStore, StoredValue};

fn ind(id: &str, project: &str, name: &str) -> Indicator {
    Indicator {
        id: id.to_string(),
        project_id: project.to_string(),
        name: name.to_string(),
        unit: String::new(),
        reference_range: String::new(),
        sort_order: 0,
        is_core: false,
        created_at: "t0".to_string(),
    }
}

fn good_reply() -> FileOutcome {
    // an OpenAI-chat-style reply whose content is a fenced readings array
    let body = "{\"choices\":[{\"message\":{\"content\":\"```json\\n[{\\\"name\\\":\\\"血糖\\\",\\\"value\\\":\\\"5.2\\\",\\\"unit\\\":\\\"mmol/L\\\",\\\"reference_range\\\":\\\"3.9-6.1\\\",\\\"is_abnormal\\\":false}]\\n```\"}}]}";
    FileOutcome::Reply(body.to_string())
}

fn rows_for_file<'a>(store: &'a OcrStore, file_id: &str) -> Vec<&'a health_guard::store::OcrResult> {
    store.results.iter().filter(|r| r.file_id == file_id).collect()
}

#[test]
fn batch_of_three_with_one_http_failure() {
    let catalog = vec![ind("i1", "p1", "血糖")];
    let mut store = OcrStore::new();
    let mut tally = BatchTally::new(3);

    let outcomes = [
        ("f1", "o1", good_reply()),
        (
            "f2",
            "o2",
            FileOutcome::HttpError {
                status: "500 Internal Server Error".to_string(),
                body: "boom".to_string(),
            },
        ),
        ("f3", "o3", good_reply()),
    ];
    for (fid, oid, outcome) in outcomes {
        let (success, err) = apply_file_outcome(
            &mut store,
            oid,
            fid,
            "r1",
            "p1",
            "2024-01-02",
            "now",
            &format!("{}.jpg", fid),
            &outcome,
            &catalog,
        );
        tally.absorb(success, err);
    }

    let statuses: Vec<&str> = store.results.iter().map(|r| r.status.as_str()).collect();
    assert_eq!(statuses, vec!["success", "failed", "success"]);
    assert_eq!(tally.total, 3);
    assert_eq!(tally.success_count, 2);
    assert_eq!(tally.errors.len(), 1);
    assert_eq!(
        tally.errors[0],
        "f2.jpg: API错误(500 Internal Server Error) - boom"
    );
    assert_eq!(tally.final_status(), RecordStatus::OcrDone);

    // the successful files got reconciled values, the failed one none
    assert_eq!(store.values.len(), 2);
    assert!(store.values.iter().all(|v| v.indicator_id == "i1"));
    assert!(store.values.iter().any(|v| v.ocr_result_id == "o1"));
    assert!(store.values.iter().any(|v| v.ocr_result_id == "o3"));
}

#[test]
fn batch_with_no_success_falls_back_for_retry() {
    let catalog: Vec<Indicator> = Vec::new();
    let mut store = OcrStore::new();
    let mut tally = BatchTally::new(1);
    let (success, err) = apply_file_outcome(
        &mut store,
        "o1",
        "f1",
        "r1",
        "p1",
        "2024-01-02",
        "now",
        "a.jpg",
        &FileOutcome::RequestFailed("timeout".to_string()),
        &catalog,
    );
    tally.absorb(success, err);
    assert_eq!(tally.success_count, 0);
    assert_eq!(tally.errors, vec!["a.jpg: 请求失败 - timeout".to_string()]);
    assert_eq!(tally.final_status(), RecordStatus::PendingOcr);
    assert_eq!(store.results[0].error_message, "a.jpg: 请求失败 - timeout");
    assert_eq!(store.results[0].parsed_items, "[]");
}

#[test]
fn at_most_one_live_result_per_file_after_batches_and_retries() {
    let catalog = vec![ind("i1", "p1", "血糖")];
    let mut store = OcrStore::new();
    // first batch writes a result for the file
    apply_file_outcome(
        &mut store, "o1", "f1", "r1", "p1", "d", "t1", "a.jpg", &good_reply(), &catalog,
    );
    // a later batch for the same file supersedes it
    apply_file_outcome(
        &mut store,
        "o2",
        "f1",
        "r1",
        "p1",
        "d",
        "t2",
        "a.jpg",
        &FileOutcome::ReadFailed("gone".to_string()),
        &catalog,
    );
    // a retry places a fresh row and supersedes again
    let placeholder =
        health_guard::batch::retry_placeholder_row("o3", "f1", "r1", "p1", "d", "t3");
    store.record_attempt(placeholder, Vec::new());

    assert_eq!(rows_for_file(&store, "f1").len(), 1);
    assert_eq!(store.results.len(), 1);
    assert_eq!(store.results[0].id, "o3");
    assert_eq!(store.results[0].status, "processing");
    // the superseded results' values went with them
    assert_eq!(store.values.len(), 0);

    // another file is untouched by all of this
    apply_file_outcome(
        &mut store, "o4", "f2", "r1", "p1", "d", "t4", "b.jpg", &good_reply(), &catalog,
    );
    assert_eq!(rows_for_file(&store, "f1").len(), 1);
    assert_eq!(rows_for_file(&store, "f2").len(), 1);
}

#[test]
fn reply_whose_body_is_not_json_is_a_failed_attempt() {
    let catalog: Vec<Indicator> = Vec::new();
    let rec = file_outcome_effect(
        "o1",
        "f1",
        "r1",
        "p1",
        "d",
        "t",
        "a.jpg",
        &FileOutcome::Reply("<html>gateway error</html>".to_string()),
        &catalog,
    );
    assert!(!rec.success);
    assert_eq!(rec.row.status, "failed");
    assert_eq!(rec.batch_error.unwrap(), "a.jpg: 解析响应失败");
}

#[test]
fn reply_that_answers_but_holds_no_readings_is_still_a_success() {
    let catalog: Vec<Indicator> = Vec::new();
    let body = "{\"choices\":[{\"message\":{\"content\":\"图片不清晰。\"}}]}";
    let rec = file_outcome_effect(
        "o1", "f1", "r1", "p1", "d", "t", "a.jpg", &FileOutcome::Reply(body.to_string()), &catalog,
    );
    assert!(rec.success);
    assert_eq!(rec.row.status, "success");
    assert_eq!(rec.row.raw_json, "图片不清晰。");
    assert_eq!(rec.row.parsed_items, "[]");
    assert_eq!(rec.values.len(), 0);
}

#[test]
fn regenerating_values_twice_leaves_the_same_set() {
    let mut store = OcrStore::new();
    apply_file_outcome(
        &mut store,
        "o1",
        "f1",
        "r1",
        "p1",
        "d",
        "t",
        "a.jpg",
        &good_reply(),
        &vec![ind("i1", "p1", "血糖")],
    );
    let fresh = || {
        vec![StoredValue {
            ocr_result_id: "o1".to_string(),
            record_id: "r1".to_string(),
            project_id: "p1".to_string(),
            indicator_id: "i9".to_string(),
            checkup_date: "d".to_string(),
            value_text: "7.7".to_string(),
            value_is_numeric: true,
            is_abnormal: true,
            created_at: "t".to_string(),
        }]
    };
    store.regenerate_values(&"o1".to_string(), fresh());
    let snapshot: Vec<(String, String)> = store
        .values
        .iter()
        .map(|v| (v.indicator_id.clone(), v.value_text.clone()))
        .collect();
    store.regenerate_values(&"o1".to_string(), fresh());
    let again: Vec<(String, String)> = store
        .values
        .iter()
        .map(|v| (v.indicator_id.clone(), v.value_text.clone()))
        .collect();
    assert_eq!(snapshot, again);
    assert_eq!(again, vec![("i9".to_string(), "7.7".to_string())]);
}

#[test]
fn stored_parsed_items_round_trip_through_the_strict_parser() {
    let catalog = vec![ind("i1", "p1", "血糖")];
    let rec = file_outcome_effect(
        "o1", "f1", "r1", "p1", "d", "t", "a.jpg", &good_reply(), &catalog,
    );
    let reparsed = health_guard::extract::extract_json_array(&rec.row.parsed_items);
    assert_eq!(reparsed.len(), 1);
    assert_eq!(reparsed[0].name, "血糖");
    assert_eq!(reparsed[0].value, "5.2");
    assert_eq!(reparsed[0].unit, "mmol/L");
    assert!(!reparsed[0].is_abnormal);
}
