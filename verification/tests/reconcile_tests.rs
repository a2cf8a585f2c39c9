use health_guard::extract::OcrParsedItem;
use health_guard::reconcile::{backfill_matches, reconcile, Indicator};

fn ind(id: &str, project: &str, name: &str) -> Indicator {
    Indicator {
        id: id.to_string(),
        project_id: project.to_string(),
        name: name.to_string(),
        unit: String::new(),
        reference_range: String::new(),
        sort_order: 0,
        is_core: false,
        created_at: "t0".to_string(),
    }
}

fn reading(name: &str, value: &str, abnormal: bool) -> OcrParsedItem {
    OcrParsedItem {
        name: name.to_string(),
        value: value.to_string(),
        unit: String::new(),
        reference_range: String::new(),
        is_abnormal: abnormal,
    }
}

#[test]
fn matched_reading_produces_one_draft() {
    let catalog = vec![ind("i1", "p1", "血糖(空腹)"), ind("i2", "p1", "ALT")];
    let items = vec![reading("血糖", "5.2", false)];
    let drafts = reconcile(&items, &catalog, "p1");
    assert_eq!(drafts.len(), 1);
    assert_eq!(drafts[0].indicator_id, "i1");
    assert_eq!(drafts[0].value_text, "5.2");
    assert!(drafts[0].value_is_numeric);
    assert!(!drafts[0].is_abnormal);
}

#[test]
fn unmatched_reading_produces_nothing() {
    let catalog = vec![ind("i1", "p1", "ALT")];
    let items = vec![reading("AST", "30", false)];
    let drafts = reconcile(&items, &catalog, "p1");
    assert_eq!(drafts.len(), 0);
}

#[test]
fn other_projects_never_match() {
    let catalog = vec![ind("i1", "p2", "血糖")];
    let items = vec![reading("血糖", "5.2", false)];
    let drafts = reconcile(&items, &catalog, "p1");
    assert_eq!(drafts.len(), 0);
}

#[test]
fn unparsable_value_still_produces_a_draft_without_a_number() {
    let catalog = vec![ind("i1", "p1", "尿蛋白")];
    let items = vec![reading("尿蛋白", "见图", true)];
    let drafts = reconcile(&items, &catalog, "p1");
    assert_eq!(drafts.len(), 1);
    assert_eq!(drafts[0].value_text, "见图");
    assert!(!drafts[0].value_is_numeric);
    assert!("见图".parse::<f64>().is_err());
}

#[test]
fn numeric_flag_agrees_with_float_parsing() {
    let catalog = vec![ind("i1", "p1", "x")];
    for (text, ok) in [
        ("5.2", true),
        ("-3", true),
        (".5", true),
        ("1e3", true),
        ("inf", true),
        ("NaN", true),
        ("+2.5e-1", true),
        ("", false),
        ("5,2", false),
        ("1.2.3", false),
        (" 5", false),
        ("5 ", false),
    ] {
        let items = vec![reading("x", text, false)];
        let drafts = reconcile(&items, &catalog, "p1");
        assert_eq!(drafts[0].value_is_numeric, ok, "value {:?}", text);
        assert_eq!(text.parse::<f64>().is_ok(), ok, "std disagrees on {:?}", text);
    }
}

#[test]
fn reconciliation_is_deterministic() {
    let catalog = vec![ind("i1", "p1", "血糖"), ind("i2", "p1", "ALT")];
    let items = vec![reading("血糖", "5.2", false), reading("ALT", "55", true)];
    let a = reconcile(&items, &catalog, "p1");
    let b = reconcile(&items, &catalog, "p1");
    assert_eq!(a.len(), b.len());
    for (x, y) in a.iter().zip(b.iter()) {
        assert_eq!(x.indicator_id, y.indicator_id);
        assert_eq!(x.value_text, y.value_text);
        assert_eq!(x.value_is_numeric, y.value_is_numeric);
        assert_eq!(x.is_abnormal, y.is_abnormal);
    }
}

#[test]
fn first_matching_indicator_wins() {
    let catalog = vec![ind("i1", "p1", "血糖"), ind("i2", "p1", "血糖(空腹)")];
    let items = vec![reading("血糖", "5.2", false)];
    let drafts = reconcile(&items, &catalog, "p1");
    assert_eq!(drafts.len(), 1);
    assert_eq!(drafts[0].indicator_id, "i1");
}

#[test]
fn backfill_recovers_space_stripped_name_matches() {
    let stored = r#"[{"name":"血 糖","value":5.2,"is_abnormal":true},{"name":"ALT","value":"55"}]"#;
    let got = backfill_matches(stored, "血糖");
    assert_eq!(got.len(), 1);
    assert_eq!(got[0].value_text, "5.2");
    assert!(got[0].value_is_numeric);
    assert!(got[0].is_abnormal);
}

#[test]
fn backfill_of_unreadable_text_recovers_nothing() {
    assert_eq!(backfill_matches("not json", "血糖").len(), 0);
    assert_eq!(backfill_matches("{}", "血糖").len(), 0);
}
