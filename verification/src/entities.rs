//! The catalog and record entities and the rules that fill them in:
//! creation defaults, update merging, and the reading of stored
//! configuration values.

use vstd::prelude::*;
use crate::json::{deep, deep_list, parse_json, JsonVal, JsonValue, lemma_deep_list_index};
use crate::lifecycle::{status_label, RecordStatus};
use crate::reconcile::Indicator;
use crate::text::{chars_of, digits_end, eq_chars, scan_digits, string_from_chars};

verus! {

/// A named category of checkup, owning a catalog of indicators.
pub struct Project {
    pub id: String,
    pub name: String,
    pub description: String,
    pub sort_order: i32,
    pub is_active: bool,
    pub created_at: String,
    pub updated_at: String,
}

/// Input for creating a project.
pub struct CreateProjectInput {
    pub name: String,
    pub description: Option<String>,
}

/// Input for updating a project; absent fields keep their value.
pub struct UpdateProjectInput {
    pub id: String,
    pub name: Option<String>,
    pub description: Option<String>,
    pub is_active: Option<bool>,
    pub sort_order: Option<i32>,
}

/// One physical visit: a batch of report files and their results.
pub struct CheckupRecord {
    pub id: String,
    pub checkup_date: String,
    pub status: String,
    pub notes: String,
    pub created_at: String,
    pub updated_at: String,
    pub file_count: Option<i32>,
    pub project_names: Option<Vec<String>>,
}

/// Input for creating a record.
pub struct CreateRecordInput {
    pub checkup_date: String,
    pub notes: Option<String>,
}

/// Input for updating a record; absent fields keep their value.  The
/// status is a plain label here: out-of-band writes are accepted.
pub struct UpdateRecordInput {
    pub id: String,
    pub checkup_date: Option<String>,
    pub notes: Option<String>,
    pub status: Option<String>,
}

/// Input for creating an indicator.
pub struct CreateIndicatorInput {
    pub project_id: String,
    pub name: String,
    pub unit: Option<String>,
    pub reference_range: Option<String>,
    pub is_core: Option<bool>,
}

/// Input for updating an indicator; absent fields keep their value.
pub struct UpdateIndicatorInput {
    pub id: String,
    pub name: Option<String>,
    pub unit: Option<String>,
    pub reference_range: Option<String>,
    pub is_core: Option<bool>,
    pub sort_order: Option<i32>,
}

/// One narrative-analysis request and reply for a record.
pub struct AiAnalysis {
    pub id: String,
    pub record_id: String,
    pub request_prompt: String,
    pub response_content: String,
    pub model_used: String,
    pub status: String,
    pub error_message: String,
    pub created_at: String,
}

/// One page entry of the analysis history.
pub struct AiAnalysisHistoryItem {
    pub id: String,
    pub record_id: String,
    pub checkup_date: String,
    pub response_content: String,
    pub created_at: String,
}

/// One chat log entry.
pub struct ChatMessage {
    pub id: String,
    pub role: String,
    pub content: String,
    pub created_at: String,
}

/// One stored configuration binding.
pub struct ConfigValue {
    pub config_key: String,
    pub config_value: String,
}

/// One timeline entry: a record with its abnormal readings and latest
/// analysis.
pub struct HistoryTimelineItem {
    pub id: String,
    pub checkup_date: String,
    pub status: String,
    pub notes: String,
    pub abnormal_items: Vec<crate::prompt::AbnormalItem>,
    pub ai_analysis: Option<String>,
}

/// What the phone needs to reach the transfer page.
pub struct MobileConnectionInfo {
    pub url: String,
    pub qr_code: String,
}

/// The completion-service client settings read from configuration.
pub struct AiClientConfig {
    pub api_url: String,
    pub api_key: String,
    pub proxy_enabled: bool,
    pub proxy_url: String,
    pub proxy_username: String,
    pub proxy_password: String,
    pub timeout: u64,
}

/// A fresh record: waiting for its first upload, no notes unless given.
pub fn new_record(id: String, input: CreateRecordInput, now: &str) -> (r: CheckupRecord)
    ensures
        r.id@ == id@,
        r.checkup_date@ == input.checkup_date@,
        r.status@ == status_label(RecordStatus::PendingUpload),
        r.notes@ == (match input.notes {
            Option::Some(n) => n@,
            Option::None => Seq::<char>::empty(),
        }),
        r.created_at@ == now@,
        r.updated_at@ == now@,
        r.file_count == Option::Some(0i32),
        (match r.project_names {
            Option::Some(v) => v@.len() == 0,
            Option::None => false,
        }),
{
    let status = crate::lifecycle::on_record_created();
    CheckupRecord {
        id,
        checkup_date: input.checkup_date,
        status: String::from_str(status.label()),
        notes: (match input.notes {
            Option::Some(n) => n,
            Option::None => String::new(),
        }),
        created_at: String::from_str(now),
        updated_at: String::from_str(now),
        file_count: Some(0),
        project_names: Some(Vec::new()),
    }
}

/// A record update: given fields replace, absent fields keep.
pub fn merged_record_update(existing: &CheckupRecord, input: UpdateRecordInput, now: &str) -> (r:
    CheckupRecord)
    ensures
        r.id@ == existing.id@,
        r.checkup_date@ == (match input.checkup_date {
            Option::Some(d) => d@,
            Option::None => existing.checkup_date@,
        }),
        r.notes@ == (match input.notes {
            Option::Some(n) => n@,
            Option::None => existing.notes@,
        }),
        r.status@ == (match input.status {
            Option::Some(s) => s@,
            Option::None => existing.status@,
        }),
        r.created_at@ == existing.created_at@,
        r.updated_at@ == now@,
{
    CheckupRecord {
        id: existing.id.clone(),
        checkup_date: (match input.checkup_date {
            Option::Some(d) => d,
            Option::None => existing.checkup_date.clone(),
        }),
        status: (match input.status {
            Option::Some(s) => s,
            Option::None => existing.status.clone(),
        }),
        notes: (match input.notes {
            Option::Some(n) => n,
            Option::None => existing.notes.clone(),
        }),
        created_at: existing.created_at.clone(),
        updated_at: String::from_str(now),
        file_count: None,
        project_names: None,
    }
}

/// A fresh project: active, at the default sort position.
pub fn new_project(id: String, input: CreateProjectInput, now: &str) -> (r: Project)
    ensures
        r.id@ == id@,
        r.name@ == input.name@,
        r.description@ == (match input.description {
            Option::Some(d) => d@,
            Option::None => Seq::<char>::empty(),
        }),
        r.sort_order == 0i32,
        r.is_active == true,
        r.created_at@ == now@,
        r.updated_at@ == now@,
{
    Project {
        id,
        name: input.name,
        description: (match input.description {
            Option::Some(d) => d,
            Option::None => String::new(),
        }),
        sort_order: 0,
        is_active: true,
        created_at: String::from_str(now),
        updated_at: String::from_str(now),
    }
}

/// A project update: given fields replace, absent fields keep.
pub fn merged_project_update(existing: &Project, input: UpdateProjectInput, now: &str) -> (r:
    Project)
    ensures
        r.id@ == existing.id@,
        r.name@ == (match input.name {
            Option::Some(n) => n@,
            Option::None => existing.name@,
        }),
        r.description@ == (match input.description {
            Option::Some(d) => d@,
            Option::None => existing.description@,
        }),
        r.is_active == (match input.is_active {
            Option::Some(a) => a,
            Option::None => existing.is_active,
        }),
        r.sort_order == (match input.sort_order {
            Option::Some(s) => s,
            Option::None => existing.sort_order,
        }),
        r.created_at@ == existing.created_at@,
        r.updated_at@ == now@,
{
    Project {
        id: existing.id.clone(),
        name: (match input.name {
            Option::Some(n) => n,
            Option::None => existing.name.clone(),
        }),
        description: (match input.description {
            Option::Some(d) => d,
            Option::None => existing.description.clone(),
        }),
        sort_order: (match input.sort_order {
            Option::Some(s) => s,
            Option::None => existing.sort_order,
        }),
        is_active: (match input.is_active {
            Option::Some(a) => a,
            Option::None => existing.is_active,
        }),
        created_at: existing.created_at.clone(),
        updated_at: String::from_str(now),
    }
}

/// A fresh indicator: default sort position; the core flag defaults as
/// the calling workflow asks (plain creation defaults off, the quick-add
/// path defaults on).
pub fn new_indicator(id: String, input: CreateIndicatorInput, now: &str, default_core: bool) -> (r:
    Indicator)
    ensures
        r.id@ == id@,
        r.project_id@ == input.project_id@,
        r.name@ == input.name@,
        r.unit@ == (match input.unit {
            Option::Some(u) => u@,
            Option::None => Seq::<char>::empty(),
        }),
        r.reference_range@ == (match input.reference_range {
            Option::Some(x) => x@,
            Option::None => Seq::<char>::empty(),
        }),
        r.sort_order == 0i32,
        r.is_core == (match input.is_core {
            Option::Some(c) => c,
            Option::None => default_core,
        }),
        r.created_at@ == now@,
{
    Indicator {
        id,
        project_id: input.project_id,
        name: input.name,
        unit: (match input.unit {
            Option::Some(u) => u,
            Option::None => String::new(),
        }),
        reference_range: (match input.reference_range {
            Option::Some(x) => x,
            Option::None => String::new(),
        }),
        sort_order: 0,
        is_core: (match input.is_core {
            Option::Some(c) => c,
            Option::None => default_core,
        }),
        created_at: String::from_str(now),
    }
}

/// An indicator update: given fields replace, absent fields keep.
pub fn merged_indicator_update(existing: &Indicator, input: UpdateIndicatorInput) -> (r: Indicator)
    ensures
        r.id@ == existing.id@,
        r.project_id@ == existing.project_id@,
        r.name@ == (match input.name {
            Option::Some(n) => n@,
            Option::None => existing.name@,
        }),
        r.unit@ == (match input.unit {
            Option::Some(u) => u@,
            Option::None => existing.unit@,
        }),
        r.reference_range@ == (match input.reference_range {
            Option::Some(x) => x@,
            Option::None => existing.reference_range@,
        }),
        r.is_core == (match input.is_core {
            Option::Some(c) => c,
            Option::None => existing.is_core,
        }),
        r.sort_order == (match input.sort_order {
            Option::Some(s) => s,
            Option::None => existing.sort_order,
        }),
        r.created_at@ == existing.created_at@,
{
    Indicator {
        id: existing.id.clone(),
        project_id: existing.project_id.clone(),
        name: (match input.name {
            Option::Some(n) => n,
            Option::None => existing.name.clone(),
        }),
        unit: (match input.unit {
            Option::Some(u) => u,
            Option::None => existing.unit.clone(),
        }),
        reference_range: (match input.reference_range {
            Option::Some(x) => x,
            Option::None => existing.reference_range.clone(),
        }),
        sort_order: (match input.sort_order {
            Option::Some(s) => s,
            Option::None => existing.sort_order,
        }),
        is_core: (match input.is_core {
            Option::Some(c) => c,
            Option::None => existing.is_core,
        }),
        created_at: existing.created_at.clone(),
    }
}

/// The numeric value of a decimal digit text, most significant first.
pub open spec fn dec_val(t: Seq<char>) -> int
    decreases t.len(),
{
    if t.len() == 0 {
        0
    } else {
        dec_val(t.drop_last()) * 10 + (t.last() as int - '0' as int)
    }
}

/// What an unsigned 64-bit decimal parse accepts: an optional plus sign,
/// then digits only, with a value that fits.
pub open spec fn parse_u64_spec(s: Seq<char>) -> Option<int> {
    let t = if s.len() > 0 && s[0] == '+' {
        s.skip(1)
    } else {
        s
    };
    if t.len() > 0 && digits_end(t, 0) == t.len() && dec_val(t) <= u64::MAX {
        Option::Some(dec_val(t))
    } else {
        Option::None
    }
}

/// Digit texts have non-negative values, never shrinking as digits are
/// appended.
proof fn lemma_dec_val_bounds(t: Seq<char>, k: int)
    requires
        0 <= k <= t.len(),
        forall|i: int| 0 <= i < t.len() ==> '0' <= t[i] && t[i] <= '9',
    ensures
        dec_val(t.take(k)) >= 0,
        dec_val(t.take(k)) <= dec_val(t),
    decreases t.len() - k,
{
    if k < t.len() {
        lemma_dec_val_bounds(t, k + 1);
        assert(t.take(k + 1).drop_last() =~= t.take(k));
        assert(t.take(k + 1).last() == t[k]);
        assert(dec_val(t.take(k + 1)) == dec_val(t.take(k)) * 10 + (t[k] as int - '0' as int));
    } else {
        assert(t.take(k) =~= t);
        lemma_dec_val_nonneg(t);
    }
}

/// Digit texts have non-negative values.
proof fn lemma_dec_val_nonneg(t: Seq<char>)
    requires
        forall|i: int| 0 <= i < t.len() ==> '0' <= t[i] && t[i] <= '9',
    ensures
        dec_val(t) >= 0,
    decreases t.len(),
{
    if t.len() > 0 {
        lemma_dec_val_nonneg(t.drop_last());
    }
}

/// Parse an unsigned 64-bit decimal text.
pub fn parse_u64(s: &str) -> (r: Option<u64>)
    ensures
        (match r {
            Option::Some(v) => parse_u64_spec(s@) == Option::Some(v as int),
            Option::None => parse_u64_spec(s@) is None,
        }),
{
    let v = chars_of(s);
    let start: usize = if v.len() > 0 && v[0] == '+' {
        1
    } else {
        0
    };
    let ghost t = if start == 1 {
        v@.skip(1)
    } else {
        v@
    };
    proof {
        assert(t =~= v@.skip(start as int));
    }
    if start >= v.len() {
        proof {
            assert(t.len() == 0);
        }
        return None;
    }
    let e = scan_digits(&v, start);
    proof {
        crate::text::lemma_digits_end_skip(v@, start as int, start as int);
    }
    if e != v.len() {
        proof {
            assert(digits_end(t, 0) != t.len());
        }
        return None;
    }
    proof {
        assert(digits_end(t, 0) == t.len());
        assert(forall|i: int| 0 <= i < t.len() ==> '0' <= t[i] && t[i] <= '9') by {
            lemma_digits_end_all(t, 0);
        }
    }
    let mut acc: u64 = 0;
    let mut k: usize = start;
    while k < v.len()
        invariant
            start <= k <= v.len(),
            v@ == s@,
            start as int == (if s@.len() > 0 && s@[0] == '+' {
                1int
            } else {
                0int
            }),
            t == v@.skip(start as int),
            t.len() == v@.len() - start,
            t.len() > 0,
            digits_end(t, 0) == t.len(),
            forall|i: int| 0 <= i < t.len() ==> '0' <= t[i] && t[i] <= '9',
            forall|i: int| 0 <= i < t.len() ==> t[i] == v@[start + i],
            acc as int == dec_val(t.take(k - start)),
        decreases v@.len() - k,
    {
        let c = v[k];
        proof {
            assert(t[k - start] == c);
            assert('0' <= c && c <= '9');
        }
        let d: u64 = (c as u32 - 0x30) as u64;
        proof {
            assert(0 <= d <= 9);
            assert(t.take(k - start + 1).drop_last() =~= t.take(k - start));
            assert(t.take(k - start + 1).last() == t[k - start]);
            assert(dec_val(t.take(k - start + 1)) == dec_val(t.take(k - start)) * 10 + (c as int
                - '0' as int));
        }
        if acc > (u64::MAX - d) / 10 {
            proof {
                let q = (u64::MAX - d) as int / 10;
                assert(q * 10 + (u64::MAX - d) as int % 10 == (u64::MAX - d) as int);
                assert(acc as int >= q + 1);
                assert(acc as int * 10 + d as int > u64::MAX as int);
                lemma_dec_val_bounds(t, k - start + 1);
                assert(dec_val(t.take(k - start + 1)) > u64::MAX as int);
                assert(dec_val(t) > u64::MAX as int);
                assert(t =~= (if s@.len() > 0 && s@[0] == '+' {
                    s@.skip(1)
                } else {
                    s@
                }));
            }
            return None;
        }
        acc = acc * 10 + d;
        k = k + 1;
    }
    proof {
        assert(t.take(t.len() as int) =~= t);
        assert(t =~= (if s@.len() > 0 && s@[0] == '+' {
            s@.skip(1)
        } else {
            s@
        }));
    }
    Some(acc)
}

/// Read the client settings from stored configuration values.  Rejected
/// exactly when the service address or the key is missing; a proxy is
/// used when its switch reads `true`; an unreadable timeout falls back
/// to 120 seconds.
pub fn ai_config_from_values(
    api_url: String,
    api_key: String,
    proxy_enabled: &str,
    proxy_url: String,
    proxy_username: String,
    proxy_password: String,
    timeout_text: &str,
) -> (r: Result<AiClientConfig, String>)
    ensures
        (match r {
            Result::Ok(c) => {
                &&& api_url@.len() > 0
                &&& api_key@.len() > 0
                &&& c.api_url@ == api_url@
                &&& c.api_key@ == api_key@
                &&& c.proxy_enabled == (proxy_enabled@ == "true"@)
                &&& c.proxy_url@ == proxy_url@
                &&& c.proxy_username@ == proxy_username@
                &&& c.proxy_password@ == proxy_password@
                &&& c.timeout as int == (match parse_u64_spec(timeout_text@) {
                    Option::Some(v) => v,
                    Option::None => 120,
                })
            },
            Result::Err(e) => {
                (api_url@.len() == 0 && e@ == "请先配置 AI API 地址"@) || (api_url@.len() > 0
                    && api_key@.len() == 0 && e@ == "请先配置 API Key"@)
            },
        }),
{
    if api_url.as_str().unicode_len() == 0 {
        return Err(String::from_str("请先配置 AI API 地址"));
    }
    if api_key.as_str().unicode_len() == 0 {
        return Err(String::from_str("请先配置 API Key"));
    }
    let pe = {
        let a = chars_of(proxy_enabled);
        let b = chars_of("true");
        eq_chars(&a, &b)
    };
    let timeout = match parse_u64(timeout_text) {
        Option::Some(v) => v,
        Option::None => 120,
    };
    Ok(
        AiClientConfig {
            api_url,
            api_key,
            proxy_enabled: pe,
            proxy_url,
            proxy_username,
            proxy_password,
            timeout,
        },
    )
}

/// Every element of an array value is a string.
pub open spec fn all_strings(vals: Seq<JsonVal>) -> bool {
    forall|i: int| 0 <= i < vals.len() ==> vals[i] is Str
}

/// The model the engine should use: the configured default where one is
/// set, else the first of the configured model list, else the built-in
/// fallback.  The list counts only where it is a JSON array of strings,
/// as it is stored.
pub open spec fn default_model_spec(configured: Seq<char>, models_json: Seq<char>) -> Seq<char> {
    if configured.len() > 0 {
        configured
    } else {
        match parse_json(models_json) {
            Option::Some(JsonVal::Arr(vals)) => if all_strings(vals) && vals.len() > 0 {
                vals[0]->Str_0
            } else {
                "gpt-4o-mini"@
            },
            _ => "gpt-4o-mini"@,
        }
    }
}

/// Choose the model per the configured default and model list.
pub fn default_model_choice(configured: &str, models_json: &str) -> (r: String)
    ensures
        r@ == default_model_spec(configured@, models_json@),
{
    if configured.unicode_len() > 0 {
        return String::from_str(configured);
    }
    let mj = chars_of(models_json);
    match crate::json::parse_json_text(&mj) {
        Option::Some(JsonValue::Arr(vals)) => {
            proof {
                lemma_deep_list_index(vals@);
            }
            let all_str = all_strings_exec(&vals);
            if all_str && vals.len() > 0 {
                match &vals[0] {
                    JsonValue::Str(s) => string_from_chars(s),
                    _ => String::from_str("gpt-4o-mini"),
                }
            } else {
                String::from_str("gpt-4o-mini")
            }
        },
        _ => String::from_str("gpt-4o-mini"),
    }
}

/// Whether every element of the executable array is a string.
fn all_strings_exec(vals: &Vec<JsonValue>) -> (r: bool)
    ensures
        r == all_strings(deep_list(vals@)),
{
    proof {
        lemma_deep_list_index(vals@);
    }
    let ghost l = deep_list(vals@);
    let mut k: usize = 0;
    while k < vals.len()
        invariant
            0 <= k <= vals.len(),
            l == deep_list(vals@),
            l.len() == vals@.len(),
            forall|m: int| 0 <= m < vals@.len() ==> l[m] == deep(vals@[m]),
            forall|m: int| 0 <= m < k ==> l[m] is Str,
        decreases vals@.len() - k,
    {
        match &vals[k] {
            JsonValue::Str(_) => {
                proof {
                    assert(l[k as int] is Str);
                }
            },
            JsonValue::Null => {
                proof {
                    assert(!(l[k as int] is Str));
                }
                return false;
            },
            JsonValue::Bool(_) => {
                proof {
                    assert(!(l[k as int] is Str));
                }
                return false;
            },
            JsonValue::Num(_) => {
                proof {
                    assert(!(l[k as int] is Str));
                }
                return false;
            },
            JsonValue::Arr(_) => {
                proof {
                    assert(!(l[k as int] is Str));
                }
                return false;
            },
            JsonValue::Obj(_) => {
                proof {
                    assert(!(l[k as int] is Str));
                }
                return false;
            },
        }
        k = k + 1;
    }
    true
}

/// Digit runs read as digits position by position.
proof fn lemma_digits_end_all(t: Seq<char>, i: int)
    requires
        0 <= i <= t.len(),
        digits_end(t, i) == t.len(),
    ensures
        forall|m: int| i <= m < t.len() ==> '0' <= t[m] && t[m] <= '9',
    decreases t.len() - i,
{
    if i < t.len() {
        if '0' <= t[i] && t[i] <= '9' {
            lemma_digits_end_all(t, i + 1);
        }
    }
}

} // verus!
