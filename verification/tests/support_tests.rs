use health_guard::batch::{items_to_json, FileOutcome};
use health_guard::entities::{
    ai_config_from_values, default_model_choice, merged_record_update, new_record, parse_u64,
    CreateRecordInput, UpdateRecordInput,
};
use health_guard::extract::{extract_json_array, OcrParsedItem};
use health_guard::files::{data_uri, guess_mime_type, prepare_upload, stored_filename, UploadFileInput};
use health_guard::lifecycle::{
    on_analysis_finished, on_analysis_started, on_extraction_finished, on_extraction_started,
    on_file_uploaded, on_record_created, RecordStatus,
};
use health_guard::prompt::{
    abnormal_items, abnormal_line, analysis_prompt, completion_request, context_in_time_order,
    history_part, vision_request, ChatTurn, PromptSection,
};

#[test]
fn lifecycle_happy_path_and_fallbacks() {
    let s = on_record_created();
    assert_eq!(s, RecordStatus::PendingUpload);
    assert_eq!(s.label(), "pending_upload");
    let s = on_file_uploaded(s);
    assert_eq!(s, RecordStatus::PendingOcr);
    // a second upload does not re-trigger the transition
    assert_eq!(on_file_uploaded(RecordStatus::OcrDone), RecordStatus::OcrDone);
    let s = on_extraction_started(s);
    assert_eq!(s, RecordStatus::OcrProcessing);
    assert_eq!(on_extraction_finished(0), RecordStatus::PendingOcr);
    let s = on_extraction_finished(2);
    assert_eq!(s, RecordStatus::OcrDone);
    let s = on_analysis_started(s);
    assert_eq!(s, RecordStatus::AiProcessing);
    assert_eq!(on_analysis_finished(false), RecordStatus::OcrDone);
    assert_eq!(on_analysis_finished(true), RecordStatus::AiDone);
    assert_eq!(RecordStatus::AiDone.label(), "ai_done");
}

#[test]
fn record_creation_and_out_of_band_update() {
    let r = new_record(
        "r1".to_string(),
        CreateRecordInput { checkup_date: "2024-01-02".to_string(), notes: None },
        "t0",
    );
    assert_eq!(r.status, "pending_upload");
    assert_eq!(r.notes, "");
    let u = merged_record_update(
        &r,
        UpdateRecordInput {
            id: "r1".to_string(),
            checkup_date: None,
            notes: Some("复查".to_string()),
            status: Some("something_custom".to_string()),
        },
        "t1",
    );
    assert_eq!(u.checkup_date, "2024-01-02");
    assert_eq!(u.notes, "复查");
    assert_eq!(u.status, "something_custom");
    assert_eq!(u.updated_at, "t1");
}

#[test]
fn mime_types_follow_the_lowercased_extension() {
    assert_eq!(guess_mime_type("a.JPG"), "image/jpeg");
    assert_eq!(guess_mime_type("b.jpeg"), "image/jpeg");
    assert_eq!(guess_mime_type("c.png"), "image/png");
    assert_eq!(guess_mime_type("d.webp"), "image/webp");
    assert_eq!(guess_mime_type("e.PDF"), "application/pdf");
    assert_eq!(guess_mime_type("noext"), "application/octet-stream");
    assert_eq!(guess_mime_type("weird.heic"), "application/octet-stream");
}

#[test]
fn uploads_decode_and_get_named() {
    let input = UploadFileInput {
        record_id: "r1".to_string(),
        project_id: "p1".to_string(),
        checkup_date: "d".to_string(),
        file_data: "aGVsbG8=".to_string(),
        filename: "report.png".to_string(),
    };
    let p = prepare_upload(&input, "0123456789abcdef").unwrap();
    assert_eq!(p.bytes, b"hello".to_vec());
    assert_eq!(p.size, 5);
    assert_eq!(p.stored_filename, "01234567_report.png");
    assert_eq!(p.mime_type, "image/png");

    let bad = UploadFileInput { file_data: "!!!".to_string(), ..input };
    match prepare_upload(&bad, "0123456789abcdef") {
        Ok(_) => panic!("decoding should fail"),
        Err(e) => assert_eq!(e, "文件解码失败"),
    }
}

#[test]
fn data_uris_frame_encoded_bytes() {
    assert_eq!(
        data_uri("image/png", "aGVsbG8="),
        "data:image/png;base64,aGVsbG8="
    );
    assert_eq!(stored_filename("0123456789abcdef", "x.png"), "01234567_x.png");
    let url = health_guard::files::file_data_url("image/png", &b"hello".to_vec());
    assert_eq!(url, "data:image/png;base64,aGVsbG8=");
}

#[test]
fn unsigned_decimal_parsing_matches_std() {
    for text in ["0", "120", "+7", "18446744073709551615", "18446744073709551616", "", "+", "1x", "-1", " 1"] {
        let mine = parse_u64(text);
        let std = text.parse::<u64>().ok();
        assert_eq!(mine, std, "on {:?}", text);
    }
}

#[test]
fn client_config_reads_and_validates() {
    let c = ai_config_from_values(
        "https://api.example.test/v1/chat/completions".to_string(),
        "SECRET-REDACTED".to_string(),
        "true",
        "127.0.0.1:1080".to_string(),
        "u".to_string(),
        "p".to_string(),
        "90",
    )
    .unwrap();
    assert!(c.proxy_enabled);
    assert_eq!(c.timeout, 90);
    let c = ai_config_from_values(
        "u".to_string(),
        "k".to_string(),
        "false",
        String::new(),
        String::new(),
        String::new(),
        "not-a-number",
    )
    .unwrap();
    assert!(!c.proxy_enabled);
    assert_eq!(c.timeout, 120);
    match ai_config_from_values(
        String::new(),
        "k".to_string(),
        "",
        String::new(),
        String::new(),
        String::new(),
        "",
    ) {
        Ok(_) => panic!("a missing address should be rejected"),
        Err(e) => assert_eq!(e, "请先配置 AI API 地址"),
    }
    match ai_config_from_values(
        "u".to_string(),
        String::new(),
        "",
        String::new(),
        String::new(),
        String::new(),
        "",
    ) {
        Ok(_) => panic!("a missing key should be rejected"),
        Err(e) => assert_eq!(e, "请先配置 API Key"),
    }
}

#[test]
fn model_choice_prefers_configured_then_list_then_fallback() {
    assert_eq!(default_model_choice("gpt-x", "[\"a\"]"), "gpt-x");
    assert_eq!(default_model_choice("", "[\"a\",\"b\"]"), "a");
    assert_eq!(default_model_choice("", "[]"), "gpt-4o-mini");
    assert_eq!(default_model_choice("", "not json"), "gpt-4o-mini");
    assert_eq!(default_model_choice("", "[\"a\",5]"), "gpt-4o-mini");
}

#[test]
fn item_lists_render_to_strict_json_and_round_trip() {
    let items = vec![OcrParsedItem {
        name: "血糖\"x\"".to_string(),
        value: "5.2".to_string(),
        unit: "mmol/L".to_string(),
        reference_range: "3.9-6.1".to_string(),
        is_abnormal: true,
    }];
    let text = items_to_json(&items);
    let back = extract_json_array(&text);
    assert_eq!(back.len(), 1);
    assert_eq!(back[0].name, "血糖\"x\"");
    assert!(back[0].is_abnormal);
    let empty: Vec<OcrParsedItem> = Vec::new();
    assert_eq!(items_to_json(&empty), "[]");
}

#[test]
fn abnormal_readings_become_timeline_items_and_lines() {
    let items = vec![
        OcrParsedItem {
            name: "ALT".to_string(),
            value: "55".to_string(),
            unit: "U/L".to_string(),
            reference_range: "0-40".to_string(),
            is_abnormal: true,
        },
        OcrParsedItem {
            name: "AST".to_string(),
            value: "20".to_string(),
            unit: "U/L".to_string(),
            reference_range: "0-40".to_string(),
            is_abnormal: false,
        },
    ];
    let abn = abnormal_items(&items, "血检");
    assert_eq!(abn.len(), 1);
    assert_eq!(abn[0].name, "ALT");
    assert_eq!(abnormal_line(&abn[0]), "- [血检] ALT: 55 U/L (参考: 0-40)");
}

#[test]
fn analysis_prompt_assembles_its_sections() {
    let sections = vec![PromptSection {
        project_name: "血检".to_string(),
        parsed_items: "[]".to_string(),
    }];
    let hist = vec!["### 日期: 2023-12-01\n- [血检] ALT: 55 U/L (参考: 0-40)".to_string()];
    let p = analysis_prompt(
        "请分析。",
        "2024-01-02",
        &sections,
        &hist,
        &Some("多喝水。".to_string()),
    );
    assert_eq!(
        p,
        "请分析。\n\n## 1. 本次检查结果（检查日期: 2024-01-02）\n### 血检\n[]\n\n## 2. 近期历史异常记录（仅供参考对比）\n### 日期: 2023-12-01\n- [血检] ALT: 55 U/L (参考: 0-40)\n## 3. 上次 AI 分析建议（仅供参考）\n多喝水。\n"
    );
    // blank suggestion and empty history leave their sections out
    let q = analysis_prompt("T", "d", &sections, &Vec::new(), &Some("  ".to_string()));
    assert_eq!(q, "T\n\n## 1. 本次检查结果（检查日期: d）\n### 血检\n[]\n");
    assert!(history_part("d", &Vec::new()).is_none());
    assert_eq!(
        history_part("d", &vec!["x".to_string()]).unwrap(),
        "### 日期: d\nx"
    );
}

#[test]
fn chat_context_reverses_into_time_order() {
    let newest_first = vec![
        ChatTurn { role: "assistant".to_string(), content: "三".to_string() },
        ChatTurn { role: "user".to_string(), content: "二".to_string() },
        ChatTurn { role: "user".to_string(), content: "一".to_string() },
    ];
    let ordered = context_in_time_order(newest_first);
    let contents: Vec<&str> = ordered.iter().map(|t| t.content.as_str()).collect();
    assert_eq!(contents, vec!["一", "二", "三"]);
}

#[test]
fn completion_request_bodies_render_compactly() {
    let turns = vec![
        ChatTurn { role: "system".to_string(), content: "S".to_string() },
        ChatTurn { role: "user".to_string(), content: "U".to_string() },
    ];
    let body = completion_request("m1", &turns, true, "4096");
    assert_eq!(
        body,
        "{\"model\":\"m1\",\"messages\":[{\"role\":\"system\",\"content\":\"S\"},{\"role\":\"user\",\"content\":\"U\"}],\"stream\":true,\"max_tokens\":4096}"
    );
    let body = completion_request("m1", &turns, false, "10");
    assert_eq!(
        body,
        "{\"model\":\"m1\",\"messages\":[{\"role\":\"system\",\"content\":\"S\"},{\"role\":\"user\",\"content\":\"U\"}],\"max_tokens\":10}"
    );
}

#[test]
fn vision_request_bodies_carry_the_inline_image() {
    let body = vision_request("m1", "识别。", "data:image/png;base64,AAAA", "4096");
    assert_eq!(
        body,
        "{\"model\":\"m1\",\"messages\":[{\"role\":\"user\",\"content\":[{\"type\":\"text\",\"text\":\"识别。\"},{\"type\":\"image_url\",\"image_url\":{\"url\":\"data:image/png;base64,AAAA\"}}]}],\"max_tokens\":4096}"
    );
}

#[test]
fn failed_outcome_texts_match_their_shape() {
    let catalog: Vec<health_guard::reconcile::Indicator> = Vec::new();
    let rec = health_guard::batch::file_outcome_effect(
        "o",
        "f",
        "r",
        "p",
        "d",
        "t",
        "scan.jpg",
        &FileOutcome::ReadFailed("no such file".to_string()),
        &catalog,
    );
    assert_eq!(rec.row.error_message, "读取文件失败: no such file");
    assert_eq!(rec.batch_error.unwrap(), "scan.jpg: 读取文件失败 - no such file");
}
