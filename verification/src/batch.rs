//! Per-batch orchestration rules.
//!
//! The surrounding program walks a record's files in catalog order and
//! performs the outside work — reading bytes, the vision call, the
//! delay between requests.  Every decision about what each outcome
//! means lives here: which result row it produces, which indicator
//! values are generated, which error line the batch report carries, and
//! how the record's status moves when the batch is done.  A failure is
//! recorded and the batch goes on; it never aborts.

use vstd::prelude::*;
use crate::extract::{extract_json_array, extract_spec, OcrParsedItem, Reading};
use crate::json::{render_val, render_value, JsonVal, JsonValue, jget, parse_json, parse_json_text,
    lemma_deep_list_index, lemma_deep_pairs_index, deep, deep_list, deep_pairs};
use crate::reconcile::{reconcile, reconcile_spec, DraftView, Indicator, IndicatorValueDraft};
use crate::store::{OcrResult, OcrResultView, OcrStore, StoredValue, StoredValueView,
    keep_other_results, keep_values_of_other_files};
use crate::text::{chars_of, string_from_chars};

verus! {

/// A progress event: how far the batch has come, which file is worked
/// on now.
pub struct OcrProgress {
    pub record_id: String,
    pub total: usize,
    pub completed: usize,
    pub current_file: String,
    pub status: String,
}

/// What one file's outside work came to, as handed back by the caller.
pub enum FileOutcome {
    /// The stored file could not be read; the text is the error.
    ReadFailed(String),
    /// The request could not be sent or answered; the text is the error.
    RequestFailed(String),
    /// The service answered outside the success range.
    HttpError { status: String, body: String },
    /// The service answered; the text is the whole reply body.
    Reply(String),
}

/// The mathematical content of an outcome.
pub ghost enum FileOutcomeView {
    ReadFailed(Seq<char>),
    RequestFailed(Seq<char>),
    HttpError(Seq<char>, Seq<char>),
    Reply(Seq<char>),
}

impl View for FileOutcome {
    type V = FileOutcomeView;

    open spec fn view(&self) -> FileOutcomeView {
        match self {
            FileOutcome::ReadFailed(e) => FileOutcomeView::ReadFailed(e@),
            FileOutcome::RequestFailed(e) => FileOutcomeView::RequestFailed(e@),
            FileOutcome::HttpError { status, body } => FileOutcomeView::HttpError(status@, body@),
            FileOutcome::Reply(b) => FileOutcomeView::Reply(b@),
        }
    }
}

/// The message text of a reply: `choices[0].message.content`, or empty
/// where the reply has no such field.
pub open spec fn message_content_of(v: JsonVal) -> Seq<char> {
    match jget(v, "choices"@) {
        Option::Some(JsonVal::Arr(cs)) => if cs.len() > 0 {
            match jget(cs[0], "message"@) {
                Option::Some(m) => match jget(m, "content"@) {
                    Option::Some(JsonVal::Str(s)) => s,
                    _ => Seq::empty(),
                },
                Option::None => Seq::empty(),
            }
        } else {
            Seq::empty()
        },
        _ => Seq::empty(),
    }
}

/// The reply's content, or `None` where the body is not JSON at all.
pub open spec fn reply_content(body: Seq<char>) -> Option<Seq<char>> {
    match parse_json(body) {
        Option::Some(v) => Option::Some(message_content_of(v)),
        Option::None => Option::None,
    }
}

/// The members of a reading written as a JSON object of the strict shape.
pub open spec fn reading_pairs(r: Reading) -> Seq<(Seq<char>, JsonVal)> {
    seq![
        ("name"@, JsonVal::Str(r.name)),
        ("value"@, JsonVal::Str(r.value)),
        ("unit"@, JsonVal::Str(r.unit)),
        ("reference_range"@, JsonVal::Str(r.reference_range)),
        ("is_abnormal"@, JsonVal::Bool(r.is_abnormal)),
    ]
}

/// One reading as a JSON object of the strict shape.
pub open spec fn reading_jval(r: Reading) -> JsonVal {
    JsonVal::Obj(reading_pairs(r))
}

/// A reading list as a JSON array of the strict shape.
pub open spec fn items_jval(items: Seq<Reading>) -> JsonVal {
    JsonVal::Arr(Seq::new(items.len(), |i: int| reading_jval(items[i])))
}

/// The stored text of a reading list.
pub open spec fn items_json_text(items: Seq<Reading>) -> Seq<char> {
    render_val(items_jval(items))
}

/// Render a reading list as the JSON text under which it is stored.
pub fn items_to_json(items: &Vec<OcrParsedItem>) -> (r: String)
    ensures
        r@ == items_json_text(items.deep_view()),
{
    let ghost full = items.deep_view();
    let mut arr: Vec<JsonValue> = Vec::new();
    let mut k: usize = 0;
    while k < items.len()
        invariant
            0 <= k <= items.len(),
            full == items.deep_view(),
            full.len() == items@.len(),
            forall|m: int| 0 <= m < items@.len() ==> full[m] == items@[m]@,
            arr@.len() == k,
            forall|m: int| 0 <= m < k ==> deep(arr@[m]) == reading_jval(full[m]),
        decreases items@.len() - k,
    {
        let item = &items[k];
        let v_name = JsonValue::Str(chars_of(item.name.as_str()));
        let v_value = JsonValue::Str(chars_of(item.value.as_str()));
        let v_unit = JsonValue::Str(chars_of(item.unit.as_str()));
        let v_range = JsonValue::Str(chars_of(item.reference_range.as_str()));
        let v_flag = JsonValue::Bool(item.is_abnormal);
        proof {
            assert(deep(v_name) == JsonVal::Str(item.name@));
            assert(deep(v_value) == JsonVal::Str(item.value@));
            assert(deep(v_unit) == JsonVal::Str(item.unit@));
            assert(deep(v_range) == JsonVal::Str(item.reference_range@));
            assert(deep(v_flag) == JsonVal::Bool(item.is_abnormal));
        }
        let mut pairs: Vec<(Vec<char>, JsonValue)> = Vec::new();
        pairs.push((chars_of("name"), v_name));
        pairs.push((chars_of("value"), v_value));
        pairs.push((chars_of("unit"), v_unit));
        pairs.push((chars_of("reference_range"), v_range));
        pairs.push((chars_of("is_abnormal"), v_flag));
        let ghost pv = pairs@;
        let obj = JsonValue::Obj(pairs);
        proof {
            lemma_deep_pairs_index(pv);
            assert(deep_pairs(pv) =~= reading_pairs(full[k as int]));
            assert(deep(obj) == reading_jval(full[k as int]));
        }
        arr.push(obj);
        k = k + 1;
    }
    let ghost av = arr@;
    let value = JsonValue::Arr(arr);
    proof {
        lemma_deep_list_index(av);
        assert(deep_list(av) =~= Seq::new(full.len(), |i: int| reading_jval(full[i])));
        assert(deep(value) == items_jval(full));
    }
    let rendered = render_value(&value);
    string_from_chars(&rendered)
}

/// A successful attempt's result row.
pub open spec fn success_row(
    ocr_id: Seq<char>,
    file_id: Seq<char>,
    record_id: Seq<char>,
    project_id: Seq<char>,
    checkup_date: Seq<char>,
    now: Seq<char>,
    content: Seq<char>,
) -> OcrResultView {
    OcrResultView {
        id: ocr_id,
        file_id,
        record_id,
        project_id,
        checkup_date,
        raw_json: content,
        parsed_items: items_json_text(extract_spec(content)),
        status: "success"@,
        error_message: Seq::empty(),
        created_at: now,
    }
}

/// A failed attempt's result row.
pub open spec fn failed_row(
    ocr_id: Seq<char>,
    file_id: Seq<char>,
    record_id: Seq<char>,
    project_id: Seq<char>,
    checkup_date: Seq<char>,
    now: Seq<char>,
    msg: Seq<char>,
) -> OcrResultView {
    OcrResultView {
        id: ocr_id,
        file_id,
        record_id,
        project_id,
        checkup_date,
        raw_json: Seq::empty(),
        parsed_items: "[]"@,
        status: "failed"@,
        error_message: msg,
        created_at: now,
    }
}

/// The stored row of one reconciled draft.
pub open spec fn value_row_of(
    d: DraftView,
    ocr_id: Seq<char>,
    record_id: Seq<char>,
    project_id: Seq<char>,
    checkup_date: Seq<char>,
    now: Seq<char>,
) -> StoredValueView {
    StoredValueView {
        ocr_result_id: ocr_id,
        record_id,
        project_id,
        indicator_id: d.indicator_id,
        checkup_date,
        value_text: d.value_text,
        value_is_numeric: d.value_is_numeric,
        is_abnormal: d.is_abnormal,
        created_at: now,
    }
}

/// The stored rows of a reconciled draft list, in order.
pub open spec fn value_rows_of(
    drafts: Seq<DraftView>,
    ocr_id: Seq<char>,
    record_id: Seq<char>,
    project_id: Seq<char>,
    checkup_date: Seq<char>,
    now: Seq<char>,
) -> Seq<StoredValueView> {
    Seq::new(
        drafts.len(),
        |i: int| value_row_of(drafts[i], ocr_id, record_id, project_id, checkup_date, now),
    )
}

/// Whether an outcome counts as a success: the service answered and the
/// body was JSON.  A reply whose content holds no usable readings is
/// still a success — a data-quality issue, not a pipeline failure.
pub open spec fn outcome_is_success(o: FileOutcomeView) -> bool {
    match o {
        FileOutcomeView::Reply(body) => parse_json(body) is Some,
        _ => false,
    }
}

/// The result row an outcome produces.
pub open spec fn outcome_row_spec(
    ocr_id: Seq<char>,
    file_id: Seq<char>,
    record_id: Seq<char>,
    project_id: Seq<char>,
    checkup_date: Seq<char>,
    now: Seq<char>,
    filename: Seq<char>,
    o: FileOutcomeView,
) -> OcrResultView {
    match o {
        FileOutcomeView::Reply(body) => match reply_content(body) {
            Option::Some(content) => success_row(
                ocr_id,
                file_id,
                record_id,
                project_id,
                checkup_date,
                now,
                content,
            ),
            Option::None => failed_row(
                ocr_id,
                file_id,
                record_id,
                project_id,
                checkup_date,
                now,
                filename + ": 解析响应失败"@,
            ),
        },
        FileOutcomeView::ReadFailed(e) => failed_row(
            ocr_id,
            file_id,
            record_id,
            project_id,
            checkup_date,
            now,
            "读取文件失败: "@ + e,
        ),
        FileOutcomeView::RequestFailed(e) => failed_row(
            ocr_id,
            file_id,
            record_id,
            project_id,
            checkup_date,
            now,
            filename + ": 请求失败 - "@ + e,
        ),
        FileOutcomeView::HttpError(st, body) => failed_row(
            ocr_id,
            file_id,
            record_id,
            project_id,
            checkup_date,
            now,
            filename + ": API错误("@ + st + ") - "@ + body,
        ),
    }
}

/// The value rows an outcome produces: reconciliation of what was
/// extracted, on success alone.
pub open spec fn outcome_values_spec(
    ocr_id: Seq<char>,
    record_id: Seq<char>,
    project_id: Seq<char>,
    checkup_date: Seq<char>,
    now: Seq<char>,
    catalog: Seq<crate::reconcile::IndicatorView>,
    o: FileOutcomeView,
) -> Seq<StoredValueView> {
    match o {
        FileOutcomeView::Reply(body) => match reply_content(body) {
            Option::Some(content) => value_rows_of(
                reconcile_spec(extract_spec(content), catalog, project_id),
                ocr_id,
                record_id,
                project_id,
                checkup_date,
                now,
            ),
            Option::None => Seq::empty(),
        },
        _ => Seq::empty(),
    }
}

/// The error line the batch report carries for a failed outcome.
pub open spec fn batch_error_text(filename: Seq<char>, o: FileOutcomeView) -> Seq<char> {
    match o {
        FileOutcomeView::ReadFailed(e) => filename + ": 读取文件失败 - "@ + e,
        FileOutcomeView::RequestFailed(e) => filename + ": 请求失败 - "@ + e,
        FileOutcomeView::HttpError(st, body) => filename + ": API错误("@ + st + ") - "@ + body,
        FileOutcomeView::Reply(body) => filename + ": 解析响应失败"@,
    }
}

/// Everything one outcome decides: the row, the values, the report line.
pub struct FileRecord {
    pub row: OcrResult,
    pub values: Vec<StoredValue>,
    pub batch_error: Option<String>,
    pub success: bool,
}

/// The message text of a reply payload value.
fn message_content_exec(v: &JsonValue) -> (r: Vec<char>)
    ensures
        r@ == message_content_of(v@),
{
    let k_choices = chars_of("choices");
    match crate::json::value_get(v, &k_choices) {
        Option::Some(JsonValue::Arr(cs)) => {
            if cs.len() > 0 {
                proof {
                    lemma_deep_list_index(cs@);
                }
                let k_message = chars_of("message");
                match crate::json::value_get(&cs[0], &k_message) {
                    Option::Some(m) => {
                        let k_content = chars_of("content");
                        match crate::json::value_get(m, &k_content) {
                            Option::Some(JsonValue::Str(s)) => crate::text::sub_chars(
                                s,
                                0,
                                s.len(),
                            ),
                            _ => Vec::new(),
                        }
                    },
                    Option::None => Vec::new(),
                }
            } else {
                Vec::new()
            }
        },
        _ => Vec::new(),
    }
}

/// Two texts, joined.
fn concat2(a: &str, b: &str) -> (r: String)
    ensures
        r@ == a@ + b@,
{
    let mut s = String::new();
    s.append(a);
    s.append(b);
    proof {
        assert(s@ =~= a@ + b@);
    }
    s
}

/// Three texts, joined.
fn concat3(a: &str, b: &str, c: &str) -> (r: String)
    ensures
        r@ == a@ + b@ + c@,
{
    let mut s = String::new();
    s.append(a);
    s.append(b);
    s.append(c);
    proof {
        assert(s@ =~= a@ + b@ + c@);
    }
    s
}

/// Five texts, joined.
fn concat5(a: &str, b: &str, c: &str, d: &str, e: &str) -> (r: String)
    ensures
        r@ == a@ + b@ + c@ + d@ + e@,
{
    let mut s = String::new();
    s.append(a);
    s.append(b);
    s.append(c);
    s.append(d);
    s.append(e);
    proof {
        assert(s@ =~= a@ + b@ + c@ + d@ + e@);
    }
    s
}

/// The stored rows of the reconciled drafts.
fn draft_rows(
    drafts: &Vec<IndicatorValueDraft>,
    ocr_id: &str,
    record_id: &str,
    project_id: &str,
    checkup_date: &str,
    now: &str,
) -> (r: Vec<StoredValue>)
    ensures
        r.deep_view() == value_rows_of(
            drafts.deep_view(),
            ocr_id@,
            record_id@,
            project_id@,
            checkup_date@,
            now@,
        ),
{
    let ghost full = drafts.deep_view();
    let mut out: Vec<StoredValue> = Vec::new();
    let mut k: usize = 0;
    while k < drafts.len()
        invariant
            0 <= k <= drafts.len(),
            full == drafts.deep_view(),
            full.len() == drafts@.len(),
            forall|m: int| 0 <= m < drafts@.len() ==> full[m] == drafts@[m]@,
            out.deep_view().len() == k,
            forall|m: int|
                0 <= m < k ==> out.deep_view()[m] == value_row_of(
                    full[m],
                    ocr_id@,
                    record_id@,
                    project_id@,
                    checkup_date@,
                    now@,
                ),
        decreases drafts@.len() - k,
    {
        let d = &drafts[k];
        let ghost out_old = out.deep_view();
        let row = StoredValue {
            ocr_result_id: String::from_str(ocr_id),
            record_id: String::from_str(record_id),
            project_id: String::from_str(project_id),
            indicator_id: d.indicator_id.clone(),
            checkup_date: String::from_str(checkup_date),
            value_text: d.value_text.clone(),
            value_is_numeric: d.value_is_numeric,
            is_abnormal: d.is_abnormal,
            created_at: String::from_str(now),
        };
        out.push(row);
        proof {
            assert(out.deep_view() =~= out_old.push(value_row_of(
                full[k as int],
                ocr_id@,
                record_id@,
                project_id@,
                checkup_date@,
                now@,
            )));
        }
        k = k + 1;
    }
    proof {
        assert(out.deep_view() =~= value_rows_of(
            full,
            ocr_id@,
            record_id@,
            project_id@,
            checkup_date@,
            now@,
        ));
    }
    out
}

/// Decide everything one file's outcome means: the result row to
/// record, the indicator values to generate, whether the batch counts a
/// success, and the error line the batch report carries if not.
pub fn file_outcome_effect(
    ocr_id: &str,
    file_id: &str,
    record_id: &str,
    project_id: &str,
    checkup_date: &str,
    now: &str,
    filename: &str,
    outcome: &FileOutcome,
    catalog: &Vec<Indicator>,
) -> (r: FileRecord)
    ensures
        r.row@ == outcome_row_spec(
            ocr_id@,
            file_id@,
            record_id@,
            project_id@,
            checkup_date@,
            now@,
            filename@,
            outcome@,
        ),
        r.values.deep_view() == outcome_values_spec(
            ocr_id@,
            record_id@,
            project_id@,
            checkup_date@,
            now@,
            catalog.deep_view(),
            outcome@,
        ),
        r.success == outcome_is_success(outcome@),
        (match r.batch_error {
            Option::Some(e) => !r.success && e@ == batch_error_text(filename@, outcome@),
            Option::None => r.success,
        }),
{
    match outcome {
        FileOutcome::Reply(body) => {
            let bc = chars_of(body.as_str());
            match parse_json_text(&bc) {
                Option::Some(v) => {
                    let content_chars = message_content_exec(&v);
                    let content = string_from_chars(&content_chars);
                    let items = extract_json_array(content.as_str());
                    let parsed_json = items_to_json(&items);
                    let drafts = reconcile(&items, catalog, project_id);
                    let values = draft_rows(&drafts, ocr_id, record_id, project_id, checkup_date, now);
                    let row = OcrResult {
                        id: String::from_str(ocr_id),
                        file_id: String::from_str(file_id),
                        record_id: String::from_str(record_id),
                        project_id: String::from_str(project_id),
                        checkup_date: String::from_str(checkup_date),
                        raw_json: content,
                        parsed_items: parsed_json,
                        status: String::from_str("success"),
                        error_message: String::new(),
                        created_at: String::from_str(now),
                    };
                    FileRecord { row, values, batch_error: None, success: true }
                },
                Option::None => {
                    let msg = concat2(filename, ": 解析响应失败");
                    let row = OcrResult {
                        id: String::from_str(ocr_id),
                        file_id: String::from_str(file_id),
                        record_id: String::from_str(record_id),
                        project_id: String::from_str(project_id),
                        checkup_date: String::from_str(checkup_date),
                        raw_json: String::new(),
                        parsed_items: String::from_str("[]"),
                        status: String::from_str("failed"),
                        error_message: msg.clone(),
                        created_at: String::from_str(now),
                    };
                    FileRecord { row, values: Vec::new(), batch_error: Some(msg), success: false }
                },
            }
        },
        FileOutcome::ReadFailed(e) => {
            let msg = concat2("读取文件失败: ", e.as_str());
            let report = concat3(filename, ": 读取文件失败 - ", e.as_str());
            let row = OcrResult {
                id: String::from_str(ocr_id),
                file_id: String::from_str(file_id),
                record_id: String::from_str(record_id),
                project_id: String::from_str(project_id),
                checkup_date: String::from_str(checkup_date),
                raw_json: String::new(),
                parsed_items: String::from_str("[]"),
                status: String::from_str("failed"),
                error_message: msg,
                created_at: String::from_str(now),
            };
            FileRecord { row, values: Vec::new(), batch_error: Some(report), success: false }
        },
        FileOutcome::RequestFailed(e) => {
            let msg = concat3(filename, ": 请求失败 - ", e.as_str());
            let row = OcrResult {
                id: String::from_str(ocr_id),
                file_id: String::from_str(file_id),
                record_id: String::from_str(record_id),
                project_id: String::from_str(project_id),
                checkup_date: String::from_str(checkup_date),
                raw_json: String::new(),
                parsed_items: String::from_str("[]"),
                status: String::from_str("failed"),
                error_message: msg.clone(),
                created_at: String::from_str(now),
            };
            FileRecord { row, values: Vec::new(), batch_error: Some(msg), success: false }
        },
        FileOutcome::HttpError { status, body } => {
            let msg = concat5(filename, ": API错误(", status.as_str(), ") - ", body.as_str());
            let row = OcrResult {
                id: String::from_str(ocr_id),
                file_id: String::from_str(file_id),
                record_id: String::from_str(record_id),
                project_id: String::from_str(project_id),
                checkup_date: String::from_str(checkup_date),
                raw_json: String::new(),
                parsed_items: String::from_str("[]"),
                status: String::from_str("failed"),
                error_message: msg.clone(),
                created_at: String::from_str(now),
            };
            FileRecord { row, values: Vec::new(), batch_error: Some(msg), success: false }
        },
    }
}

/// Record one file's outcome in the store, superseding any earlier
/// result of the same file, and hand back the batch-report line.
pub fn apply_file_outcome(
    store: &mut OcrStore,
    ocr_id: &str,
    file_id: &str,
    record_id: &str,
    project_id: &str,
    checkup_date: &str,
    now: &str,
    filename: &str,
    outcome: &FileOutcome,
    catalog: &Vec<Indicator>,
) -> (r: (bool, Option<String>))
    ensures
        final(store).results.deep_view() == keep_other_results(
            old(store).results.deep_view(),
            file_id@,
        ).push(
            outcome_row_spec(
                ocr_id@,
                file_id@,
                record_id@,
                project_id@,
                checkup_date@,
                now@,
                filename@,
                outcome@,
            ),
        ),
        final(store).values.deep_view() == keep_values_of_other_files(
            old(store).values.deep_view(),
            old(store).results.deep_view(),
            file_id@,
        ) + outcome_values_spec(
            ocr_id@,
            record_id@,
            project_id@,
            checkup_date@,
            now@,
            catalog.deep_view(),
            outcome@,
        ),
        r.0 == outcome_is_success(outcome@),
        (match r.1 {
            Option::Some(e) => !r.0 && e@ == batch_error_text(filename@, outcome@),
            Option::None => r.0,
        }),
{
    let rec = file_outcome_effect(
        ocr_id,
        file_id,
        record_id,
        project_id,
        checkup_date,
        now,
        filename,
        outcome,
        catalog,
    );
    store.record_attempt(rec.row, rec.values);
    (rec.success, rec.batch_error)
}

/// The running report of one extraction batch.
pub struct BatchTally {
    pub total: usize,
    pub success_count: usize,
    pub errors: Vec<String>,
}

impl BatchTally {
    /// A fresh report over `total` files.
    pub fn new(total: usize) -> (r: BatchTally)
        ensures
            r.total == total,
            r.success_count == 0,
            r.errors@.len() == 0,
    {
        BatchTally { total, success_count: 0, errors: Vec::new() }
    }

    /// Count one file's outcome: a success raises the count, a failure
    /// adds its report line.
    pub fn absorb(&mut self, success: bool, batch_error: Option<String>)
        requires
            old(self).success_count < usize::MAX,
        ensures
            final(self).total == old(self).total,
            final(self).success_count == old(self).success_count + (if success {
                1int
            } else {
                0int
            }),
            final(self).errors@ == (match batch_error {
                Option::Some(e) => old(self).errors@.push(e),
                Option::None => old(self).errors@,
            }),
    {
        if success {
            self.success_count = self.success_count + 1;
        }
        match batch_error {
            Option::Some(e) => {
                self.errors.push(e);
            },
            Option::None => {},
        }
    }

    /// The record status the finished batch leaves behind: one success
    /// is enough to advance, none at all falls back for a retry.
    pub fn final_status(&self) -> (r: crate::lifecycle::RecordStatus)
        ensures
            r == (if self.success_count > 0 {
                crate::lifecycle::RecordStatus::OcrDone
            } else {
                crate::lifecycle::RecordStatus::PendingOcr
            }),
    {
        crate::lifecycle::on_extraction_finished(self.success_count)
    }
}

/// The placeholder row a retry writes before its outside work starts.
pub fn retry_placeholder_row(
    ocr_id: &str,
    file_id: &str,
    record_id: &str,
    project_id: &str,
    checkup_date: &str,
    now: &str,
) -> (r: OcrResult)
    ensures
        r@ == (OcrResultView {
            id: ocr_id@,
            file_id: file_id@,
            record_id: record_id@,
            project_id: project_id@,
            checkup_date: checkup_date@,
            raw_json: Seq::<char>::empty(),
            parsed_items: "[]"@,
            status: "processing"@,
            error_message: Seq::<char>::empty(),
            created_at: now@,
        }),
{
    OcrResult {
        id: String::from_str(ocr_id),
        file_id: String::from_str(file_id),
        record_id: String::from_str(record_id),
        project_id: String::from_str(project_id),
        checkup_date: String::from_str(checkup_date),
        raw_json: String::new(),
        parsed_items: String::from_str("[]"),
        status: String::from_str("processing"),
        error_message: String::new(),
        created_at: String::from_str(now),
    }
}

} // verus!
