use health_guard::extract::{extract_json_array, OcrParsedItem};

fn item(name: &str, value: &str, unit: &str, range: &str, abnormal: bool) -> OcrParsedItem {
    OcrParsedItem {
        name: name.to_string(),
        value: value.to_string(),
        unit: unit.to_string(),
        reference_range: range.to_string(),
        is_abnormal: abnormal,
    }
}

fn assert_item_eq(got: &OcrParsedItem, want: &OcrParsedItem) {
    assert_eq!(got.name, want.name);
    assert_eq!(got.value, want.value);
    assert_eq!(got.unit, want.unit);
    assert_eq!(got.reference_range, want.reference_range);
    assert_eq!(got.is_abnormal, want.is_abnormal);
}

const STRICT: &str = r#"[{"name":"血糖","value":"5.2","unit":"mmol/L","reference_range":"3.9-6.1","is_abnormal":false},{"name":"ALT","value":"55","unit":"U/L","reference_range":"0-40","is_abnormal":true}]"#;

#[test]
fn strict_array_is_returned_unchanged() {
    let items = extract_json_array(STRICT);
    assert_eq!(items.len(), 2);
    assert_item_eq(&items[0], &item("血糖", "5.2", "mmol/L", "3.9-6.1", false));
    assert_item_eq(&items[1], &item("ALT", "55", "U/L", "0-40", true));
}

#[test]
fn strict_array_tolerates_surrounding_json_whitespace() {
    let text = format!("\n  {}\t\r\n", STRICT);
    let items = extract_json_array(&text);
    assert_eq!(items.len(), 2);
}

#[test]
fn fenced_input_extracts_like_the_unfenced_content() {
    let fenced = format!("```json\n{}\n```", STRICT);
    let direct = extract_json_array(STRICT);
    let stripped = extract_json_array(&fenced);
    assert_eq!(direct.len(), stripped.len());
    for (a, b) in direct.iter().zip(stripped.iter()) {
        assert_item_eq(a, b);
    }
}

#[test]
fn bare_fence_without_language_tag_works_too() {
    let fenced = format!("```\n{}\n```", STRICT);
    let items = extract_json_array(&fenced);
    assert_eq!(items.len(), 2);
}

#[test]
fn prose_around_the_array_falls_back_to_the_bracket_span() {
    let text = format!("好的，以下是提取结果：{}希望对您有帮助。", STRICT);
    let items = extract_json_array(&text);
    assert_eq!(items.len(), 2);
    assert_eq!(items[0].name, "血糖");
}

#[test]
fn alias_keys_recover_the_same_reading() {
    let canonical = r#"[{"name":"血红蛋白","value":"150","unit":"g/L","reference_range":"130-175","is_abnormal":false}]"#;
    // the aliased object is not the strict shape, so it takes the permissive path
    let aliased = r#"[{"指标名称":"血红蛋白","数值":"150","单位":"g/L","参考范围":"130-175","是否异常":"否"}]"#;
    let a = extract_json_array(canonical);
    let b = extract_json_array(aliased);
    assert_eq!(a.len(), 1);
    assert_eq!(b.len(), 1);
    assert_eq!(a[0].name, b[0].name);
    assert_eq!(a[0].value, b[0].value);
    assert_eq!(a[0].unit, b[0].unit);
    assert_eq!(a[0].reference_range, b[0].reference_range);
    assert_eq!(a[0].is_abnormal, b[0].is_abnormal);
}

#[test]
fn numbers_are_kept_as_their_written_tokens() {
    let text = r#"[{"name":"白细胞","value":6.4,"unit":"e9/L","reference_range":4}]"#;
    let items = extract_json_array(text);
    assert_eq!(items.len(), 1);
    assert_eq!(items[0].value, "6.4");
    assert_eq!(items[0].reference_range, "4");
}

#[test]
fn reference_range_array_joins_with_dashes() {
    let text = r#"[{"name":"a","value":"1","range":["3.9","6.1"]}]"#;
    let items = extract_json_array(text);
    assert_eq!(items[0].reference_range, "3.9-6.1");
}

#[test]
fn range_alias_priority_prefers_reference_range() {
    let text = r#"[{"name":"a","value":"1","range":"B","reference_range":"A"}]"#;
    let items = extract_json_array(text);
    assert_eq!(items[0].reference_range, "A");
}

#[test]
fn abnormal_flag_variants_normalize() {
    let text = r#"[
        {"name":"a","value":"1","status":"异常"},
        {"name":"b","value":"1","status":"High"},
        {"name":"c","value":"1","status":"↑120"},
        {"name":"d","value":"1","is_abnormal":true},
        {"name":"e","value":"1","status":"正常"},
        {"name":"f","value":"1"},
        {"name":"g","value":"1","is_abnormal":false},
        {"name":"h","value":"1","status":"0"}
    ]"#;
    let items = extract_json_array(text);
    let flags: Vec<bool> = items.iter().map(|i| i.is_abnormal).collect();
    assert_eq!(flags, vec![true, true, true, true, false, false, false, false]);
}

#[test]
fn abnormal_flag_more_words() {
    let text = r#"[
        {"name":"a","value":"1","status":" TRUE "},
        {"name":"b","value":"1","status":"yes"},
        {"name":"c","value":"1","status":"1"},
        {"name":"d","value":"1","status":"是"},
        {"name":"e","value":"1","status":"low"},
        {"name":"f","value":"1","status":"3+"},
        {"name":"g","value":"1","status":"↓"},
        {"name":"h","value":"1","status":"maybe"}
    ]"#;
    let items = extract_json_array(text);
    let flags: Vec<bool> = items.iter().map(|i| i.is_abnormal).collect();
    assert_eq!(flags, vec![true, true, true, true, true, true, true, false]);
}

#[test]
fn unusable_text_yields_no_readings() {
    assert_eq!(extract_json_array("").len(), 0);
    assert_eq!(extract_json_array("很抱歉，图片不清晰。").len(), 0);
    assert_eq!(extract_json_array("{\"name\":\"x\"}").len(), 0);
    assert_eq!(extract_json_array("] oops [").len(), 0);
}

#[test]
fn missing_strict_field_takes_the_permissive_path() {
    // no unit: not the strict shape, but permissively readable
    let text = r#"[{"name":"血糖","value":"5.2"}]"#;
    let items = extract_json_array(text);
    assert_eq!(items.len(), 1);
    assert_eq!(items[0].name, "血糖");
    assert_eq!(items[0].unit, "");
}

#[test]
fn non_object_elements_read_as_empty_readings() {
    let text = r#"[{"name":"a","value":"1"},42]"#;
    let items = extract_json_array(text);
    assert_eq!(items.len(), 2);
    assert_eq!(items[1].name, "");
    assert!(!items[1].is_abnormal);
}

#[test]
fn string_escapes_decode() {
    let text = r#"[{"name":"a\"b\\c\nA","value":"1","unit":"","reference_range":"","is_abnormal":false}]"#;
    let items = extract_json_array(text);
    assert_eq!(items[0].name, "a\"b\\c\nA");
}

#[test]
fn surrogate_pair_escapes_decode() {
    let text = r#"[{"name":"😀","value":"1","unit":"","reference_range":"","is_abnormal":false}]"#;
    let items = extract_json_array(text);
    assert_eq!(items[0].name, "😀");
}

#[test]
fn lone_surrogate_is_rejected_and_falls_through() {
    let text = r#"[{"name":"\uD83D","value":"1","unit":"","reference_range":"","is_abnormal":false}]"#;
    let items = extract_json_array(text);
    assert_eq!(items.len(), 0);
}

#[test]
fn number_grammar_follows_the_format() {
    // a leading zero ends the number token, so the array does not parse
    assert_eq!(extract_json_array("[{\"name\":\"a\",\"value\":01}]").len(), 0);
    let items = extract_json_array("[{\"name\":\"a\",\"value\":-0.5e+2}]");
    assert_eq!(items[0].value, "-0.5e+2");
    let items = extract_json_array("[{\"name\":\"a\",\"value\":-0}]");
    assert_eq!(items[0].value, "-0");
    // a bare dot or sign is no number
    assert_eq!(extract_json_array("[{\"name\":\"a\",\"value\":.5}]").len(), 0);
    assert_eq!(extract_json_array("[{\"name\":\"a\",\"value\":+5}]").len(), 0);
}

#[test]
fn nesting_beyond_the_cap_is_refused() {
    let mut deep = String::new();
    for _ in 0..200 {
        deep.push('[');
    }
    deep.push('1');
    for _ in 0..200 {
        deep.push(']');
    }
    assert_eq!(extract_json_array(&deep).len(), 0);
    let mut shallow = String::from("[{\"name\":\"a\",\"value\":");
    for _ in 0..5 {
        shallow.push('[');
    }
    shallow.push('1');
    for _ in 0..5 {
        shallow.push(']');
    }
    shallow.push_str("}]");
    // nested but under the cap: parses, the value is not a string or number
    let items = extract_json_array(&shallow);
    assert_eq!(items.len(), 1);
    assert_eq!(items[0].value, "");
}

#[test]
fn duplicate_strict_field_is_not_the_strict_shape() {
    // duplicate known field: falls to the permissive path, last binding wins
    let text = r#"[{"name":"a","name":"b","value":"1","unit":"","reference_range":"","is_abnormal":false}]"#;
    let items = extract_json_array(text);
    assert_eq!(items.len(), 1);
    assert_eq!(items[0].name, "b");
}
