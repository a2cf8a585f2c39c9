//! Prompt assembly and outbound request bodies.
//!
//! The narrative-analysis prompt gathers the current record's stored
//! item lists, the abnormal readings of recent history, and the last
//! suggestion; chat keeps a short context window in time order.  The
//! request bodies sent to the completion service are rendered here over
//! the JSON model, so their shape is part of the checked logic.

use vstd::prelude::*;
use crate::extract::{OcrParsedItem, Reading};
use crate::json::{
    deep, deep_list, deep_pairs, lemma_deep_list_index, lemma_deep_pairs_index, render_val,
    render_value, JsonVal, JsonValue,
};
use crate::text::{chars_of, string_from_chars, trim_chars, trim_spec};

verus! {

/// One abnormal reading, as shown on the timeline and in prompts.
pub struct AbnormalItem {
    pub project_name: String,
    pub name: String,
    pub value: String,
    pub unit: String,
    pub reference_range: String,
}

/// The mathematical content of an abnormal item.
pub ghost struct AbnormalView {
    pub project_name: Seq<char>,
    pub name: Seq<char>,
    pub value: Seq<char>,
    pub unit: Seq<char>,
    pub reference_range: Seq<char>,
}

impl View for AbnormalItem {
    type V = AbnormalView;

    open spec fn view(&self) -> AbnormalView {
        AbnormalView {
            project_name: self.project_name@,
            name: self.name@,
            value: self.value@,
            unit: self.unit@,
            reference_range: self.reference_range@,
        }
    }
}

impl DeepView for AbnormalItem {
    type V = AbnormalView;

    open spec fn deep_view(&self) -> AbnormalView {
        self.view()
    }
}

/// The abnormal readings of one stored item list, in order.
pub open spec fn abnormal_items_spec(items: Seq<Reading>, pname: Seq<char>) -> Seq<AbnormalView>
    decreases items.len(),
{
    if items.len() == 0 {
        Seq::empty()
    } else {
        let rest = abnormal_items_spec(items.drop_first(), pname);
        if items[0].is_abnormal {
            seq![
                AbnormalView {
                    project_name: pname,
                    name: items[0].name,
                    value: items[0].value,
                    unit: items[0].unit,
                    reference_range: items[0].reference_range,
                },
            ] + rest
        } else {
            rest
        }
    }
}

/// Keep the abnormal readings of an item list.
pub fn abnormal_items(items: &Vec<OcrParsedItem>, project_name: &str) -> (r: Vec<AbnormalItem>)
    ensures
        r.deep_view() == abnormal_items_spec(items.deep_view(), project_name@),
{
    let ghost full = items.deep_view();
    let mut out: Vec<AbnormalItem> = Vec::new();
    let mut k: usize = 0;
    proof {
        assert(full.skip(0) =~= full);
        assert(out.deep_view() + abnormal_items_spec(full, project_name@) =~= abnormal_items_spec(
            full,
            project_name@,
        ));
    }
    while k < items.len()
        invariant
            0 <= k <= items.len(),
            full == items.deep_view(),
            full.len() == items@.len(),
            forall|m: int| 0 <= m < items@.len() ==> full[m] == items@[m]@,
            abnormal_items_spec(full, project_name@) == out.deep_view() + abnormal_items_spec(
                full.skip(k as int),
                project_name@,
            ),
        decreases items@.len() - k,
    {
        let ghost tail = full.skip(k as int);
        proof {
            assert(tail[0] == full[k as int]);
            assert(tail.drop_first() =~= full.skip(k + 1 as int));
        }
        let item = &items[k];
        if item.is_abnormal {
            let a = AbnormalItem {
                project_name: String::from_str(project_name),
                name: item.name.clone(),
                value: item.value.clone(),
                unit: item.unit.clone(),
                reference_range: item.reference_range.clone(),
            };
            let ghost out_old = out.deep_view();
            out.push(a);
            proof {
                assert(out.deep_view() =~= out_old.push(a@));
                assert(out_old + (seq![a@] + abnormal_items_spec(
                    full.skip(k + 1 as int),
                    project_name@,
                )) =~= out.deep_view() + abnormal_items_spec(
                    full.skip(k + 1 as int),
                    project_name@,
                ));
            }
        }
        k = k + 1;
    }
    proof {
        assert(full.skip(full.len() as int) =~= Seq::<Reading>::empty());
        assert(out.deep_view() + Seq::<AbnormalView>::empty() =~= out.deep_view());
    }
    out
}

/// The prompt line of one abnormal reading.
pub open spec fn abnormal_line_spec(a: AbnormalView) -> Seq<char> {
    "- ["@ + a.project_name + "] "@ + a.name + ": "@ + a.value + " "@ + a.unit + " (参考: "@
        + a.reference_range + ")"@
}

/// Write the prompt line of one abnormal reading.
pub fn abnormal_line(a: &AbnormalItem) -> (r: String)
    ensures
        r@ == abnormal_line_spec(a@),
{
    let mut s = String::new();
    s.append("- [");
    s.append(a.project_name.as_str());
    s.append("] ");
    s.append(a.name.as_str());
    s.append(": ");
    s.append(a.value.as_str());
    s.append(" ");
    s.append(a.unit.as_str());
    s.append(" (参考: ");
    s.append(a.reference_range.as_str());
    s.append(")");
    proof {
        assert(s@ =~= abnormal_line_spec(a@));
    }
    s
}

/// Texts joined with a separator between them.
pub open spec fn join_sep(parts: Seq<Seq<char>>, sep: Seq<char>) -> Seq<char>
    decreases parts.len(),
{
    if parts.len() == 0 {
        Seq::empty()
    } else if parts.len() == 1 {
        parts[0]
    } else {
        parts[0] + sep + join_sep(parts.drop_first(), sep)
    }
}

/// Join the texts from `idx` on with the separator.
fn join_from(parts: &Vec<String>, sep: &str, idx: usize) -> (r: String)
    requires
        idx < parts.len(),
    ensures
        r@ == join_sep(parts.deep_view().skip(idx as int), sep@),
    decreases parts.len() - idx,
{
    let ghost l = parts.deep_view().skip(idx as int);
    proof {
        assert(l.len() == parts@.len() - idx);
        assert(l[0] == parts@[idx as int]@);
    }
    let mut s = String::new();
    s.append(parts[idx].as_str());
    if idx + 1 < parts.len() {
        s.append(sep);
        let rest = join_from(parts, sep, idx + 1);
        s.append(rest.as_str());
        proof {
            assert(l.drop_first() =~= parts.deep_view().skip(idx + 1 as int));
            assert(s@ =~= join_sep(l, sep@));
        }
    } else {
        proof {
            assert(l.len() == 1);
            assert(s@ =~= join_sep(l, sep@));
        }
    }
    s
}

/// Join texts with a separator; empty input joins to the empty text.
pub fn join_with(parts: &Vec<String>, sep: &str) -> (r: String)
    ensures
        r@ == join_sep(parts.deep_view(), sep@),
{
    if parts.len() == 0 {
        proof {
            assert(parts.deep_view() =~= Seq::<Seq<char>>::empty());
        }
        String::new()
    } else {
        let r = join_from(parts, sep, 0);
        proof {
            assert(parts.deep_view().skip(0) =~= parts.deep_view());
        }
        r
    }
}

/// The history block of one earlier record: nothing without abnormal
/// lines, else a dated heading over the lines.
pub open spec fn history_part_spec(date: Seq<char>, lines: Seq<Seq<char>>) -> Option<Seq<char>> {
    if lines.len() == 0 {
        Option::None
    } else {
        Option::Some("### 日期: "@ + date + "\n"@ + join_sep(lines, "\n"@))
    }
}

/// Write the history block of one earlier record.
pub fn history_part(date: &str, lines: &Vec<String>) -> (r: Option<String>)
    ensures
        (match (r, history_part_spec(date@, lines.deep_view())) {
            (Option::Some(s), Option::Some(t)) => s@ == t,
            (Option::None, Option::None) => true,
            _ => false,
        }),
{
    if lines.len() == 0 {
        proof {
            assert(lines.deep_view() =~= Seq::<Seq<char>>::empty());
        }
        None
    } else {
        let joined = join_with(lines, "\n");
        let mut s = String::new();
        s.append("### 日期: ");
        s.append(date);
        s.append("\n");
        s.append(joined.as_str());
        proof {
            assert(s@ =~= "### 日期: "@ + date@ + "\n"@ + join_sep(lines.deep_view(), "\n"@));
        }
        Some(s)
    }
}

/// One current section of the analysis prompt: a project heading and the
/// stored item list text of its extraction result.
pub struct PromptSection {
    pub project_name: String,
    pub parsed_items: String,
}

/// The mathematical content of a section.
pub ghost struct SectionView {
    pub project_name: Seq<char>,
    pub parsed_items: Seq<char>,
}

impl View for PromptSection {
    type V = SectionView;

    open spec fn view(&self) -> SectionView {
        SectionView { project_name: self.project_name@, parsed_items: self.parsed_items@ }
    }
}

impl DeepView for PromptSection {
    type V = SectionView;

    open spec fn deep_view(&self) -> SectionView {
        self.view()
    }
}

/// The text of the current sections, one heading and one item list each.
pub open spec fn sections_text(sections: Seq<SectionView>) -> Seq<char>
    decreases sections.len(),
{
    if sections.len() == 0 {
        Seq::empty()
    } else {
        "### "@ + sections[0].project_name + "\n"@ + sections[0].parsed_items + "\n"@
            + sections_text(sections.drop_first())
    }
}

/// The data part of the analysis prompt.
pub open spec fn prompt_data_spec(
    date: Seq<char>,
    sections: Seq<SectionView>,
    history_parts: Seq<Seq<char>>,
    last_suggestion: Option<Seq<char>>,
) -> Seq<char> {
    let head = "## 1. 本次检查结果（检查日期: "@ + date + "）\n"@ + sections_text(sections);
    let hist = if history_parts.len() == 0 {
        Seq::<char>::empty()
    } else {
        "\n## 2. 近期历史异常记录（仅供参考对比）\n"@ + join_sep(history_parts, "\n"@)
    };
    let sugg = (match last_suggestion {
        Option::Some(s) => if trim_spec(s).len() > 0 {
            "\n## 3. 上次 AI 分析建议（仅供参考）\n"@ + s + "\n"@
        } else {
            Seq::<char>::empty()
        },
        Option::None => Seq::<char>::empty(),
    });
    head + hist + sugg
}

/// The whole analysis prompt: the template, a blank line, the data.
pub open spec fn analysis_prompt_spec(
    template: Seq<char>,
    date: Seq<char>,
    sections: Seq<SectionView>,
    history_parts: Seq<Seq<char>>,
    last_suggestion: Option<Seq<char>>,
) -> Seq<char> {
    template + "\n\n"@ + prompt_data_spec(date, sections, history_parts, last_suggestion)
}

/// Write the text of the current sections from `idx` on.
fn sections_from(sections: &Vec<PromptSection>, idx: usize) -> (r: String)
    requires
        idx <= sections.len(),
    ensures
        r@ == sections_text(sections.deep_view().skip(idx as int)),
    decreases sections.len() - idx,
{
    let ghost l = sections.deep_view().skip(idx as int);
    if idx == sections.len() {
        proof {
            assert(l =~= Seq::<SectionView>::empty());
        }
        return String::new();
    }
    proof {
        assert(l[0] == sections@[idx as int]@);
    }
    let mut s = String::new();
    s.append("### ");
    s.append(sections[idx].project_name.as_str());
    s.append("\n");
    s.append(sections[idx].parsed_items.as_str());
    s.append("\n");
    let rest = sections_from(sections, idx + 1);
    s.append(rest.as_str());
    proof {
        assert(l.drop_first() =~= sections.deep_view().skip(idx + 1 as int));
        assert(s@ =~= sections_text(l));
    }
    s
}

/// Assemble the analysis prompt.
pub fn analysis_prompt(
    template: &str,
    date: &str,
    sections: &Vec<PromptSection>,
    history_parts: &Vec<String>,
    last_suggestion: &Option<String>,
) -> (r: String)
    ensures
        r@ == analysis_prompt_spec(
            template@,
            date@,
            sections.deep_view(),
            history_parts.deep_view(),
            (match last_suggestion {
                Option::Some(s) => Option::Some(s@),
                Option::None => Option::None,
            }),
        ),
{
    let mut s = String::new();
    s.append(template);
    s.append("\n\n");
    s.append("## 1. 本次检查结果（检查日期: ");
    s.append(date);
    s.append("）\n");
    let body = sections_from(sections, 0);
    s.append(body.as_str());
    proof {
        assert(sections.deep_view().skip(0) =~= sections.deep_view());
    }
    if history_parts.len() > 0 {
        s.append("\n## 2. 近期历史异常记录（仅供参考对比）\n");
        let joined = join_with(history_parts, "\n");
        s.append(joined.as_str());
    } else {
        proof {
            assert(history_parts.deep_view().len() == 0);
        }
    }
    match last_suggestion {
        Option::Some(sug) => {
            let sc = chars_of(sug.as_str());
            let t = trim_chars(&sc);
            if t.len() > 0 {
                s.append("\n## 3. 上次 AI 分析建议（仅供参考）\n");
                s.append(sug.as_str());
                s.append("\n");
            }
        },
        Option::None => {},
    }
    proof {
        assert(s@ =~= analysis_prompt_spec(
            template@,
            date@,
            sections.deep_view(),
            history_parts.deep_view(),
            (match last_suggestion {
                Option::Some(sg) => Option::Some(sg@),
                Option::None => Option::None,
            }),
        ));
    }
    s
}

/// One turn of a conversation with the completion service.
pub struct ChatTurn {
    pub role: String,
    pub content: String,
}

/// The mathematical content of a turn.
pub ghost struct TurnView {
    pub role: Seq<char>,
    pub content: Seq<char>,
}

impl View for ChatTurn {
    type V = TurnView;

    open spec fn view(&self) -> TurnView {
        TurnView { role: self.role@, content: self.content@ }
    }
}

impl DeepView for ChatTurn {
    type V = TurnView;

    open spec fn deep_view(&self) -> TurnView {
        self.view()
    }
}

/// The chat context window in time order: the persisted log hands the
/// newest turns first, the conversation wants them oldest first.
pub fn context_in_time_order(newest_first: Vec<ChatTurn>) -> (r: Vec<ChatTurn>)
    ensures
        r.deep_view() == newest_first.deep_view().reverse(),
{
    let ghost full = newest_first.deep_view();
    let mut out: Vec<ChatTurn> = Vec::new();
    let mut k: usize = newest_first.len();
    while k > 0
        invariant
            0 <= k <= newest_first.len(),
            full == newest_first.deep_view(),
            full.len() == newest_first@.len(),
            out.deep_view().len() == full.len() - k,
            forall|m: int|
                0 <= m < full.len() - k ==> out.deep_view()[m] == full[full.len() - 1 - m],
        decreases k,
    {
        let t = &newest_first[k - 1];
        let copied = ChatTurn { role: t.role.clone(), content: t.content.clone() };
        let ghost out_old = out.deep_view();
        out.push(copied);
        proof {
            assert(out.deep_view() =~= out_old.push(full[k - 1]));
        }
        k = k - 1;
    }
    proof {
        assert(out.deep_view() =~= full.reverse());
    }
    out
}

/// The message objects of a conversation.
pub open spec fn turns_jval(turns: Seq<TurnView>) -> Seq<JsonVal> {
    Seq::new(
        turns.len(),
        |i: int|
            JsonVal::Obj(
                seq![("role"@, JsonVal::Str(turns[i].role)), (
                    "content"@,
                    JsonVal::Str(turns[i].content),
                )],
            ),
    )
}

/// The body of a chat-style completion request: the model, the turns,
/// the streaming flag where streaming is asked for, and the token cap
/// written as a number.
pub open spec fn completion_request_spec(
    model: Seq<char>,
    turns: Seq<TurnView>,
    stream: bool,
    max_tokens: Seq<char>,
) -> Seq<char> {
    let base = seq![
        ("model"@, JsonVal::Str(model)),
        ("messages"@, JsonVal::Arr(turns_jval(turns))),
    ];
    let tail = if stream {
        seq![("stream"@, JsonVal::Bool(true)), ("max_tokens"@, JsonVal::Num(max_tokens))]
    } else {
        seq![("max_tokens"@, JsonVal::Num(max_tokens))]
    };
    render_val(JsonVal::Obj(base + tail))
}

/// Render the body of a chat-style completion request.
pub fn completion_request(model: &str, turns: &Vec<ChatTurn>, stream: bool, max_tokens: &str) -> (r:
    String)
    ensures
        r@ == completion_request_spec(model@, turns.deep_view(), stream, max_tokens@),
{
    let mut msgs: Vec<JsonValue> = Vec::new();
    let ghost tv = turns.deep_view();
    let mut k: usize = 0;
    while k < turns.len()
        invariant
            0 <= k <= turns.len(),
            tv == turns.deep_view(),
            tv.len() == turns@.len(),
            forall|m: int| 0 <= m < turns@.len() ==> tv[m] == turns@[m]@,
            msgs@.len() == k,
            forall|m: int| 0 <= m < k ==> deep(msgs@[m]) == turns_jval(tv)[m],
        decreases turns@.len() - k,
    {
        let t = &turns[k];
        let v_role = JsonValue::Str(chars_of(t.role.as_str()));
        let v_content = JsonValue::Str(chars_of(t.content.as_str()));
        let mut pairs: Vec<(Vec<char>, JsonValue)> = Vec::new();
        pairs.push((chars_of("role"), v_role));
        pairs.push((chars_of("content"), v_content));
        let ghost pv = pairs@;
        let obj = JsonValue::Obj(pairs);
        proof {
            lemma_deep_pairs_index(pv);
            assert(deep_pairs(pv) =~= seq![("role"@, JsonVal::Str(tv[k as int].role)), (
                "content"@,
                JsonVal::Str(tv[k as int].content),
            )]);
            assert(deep(obj) == turns_jval(tv)[k as int]);
        }
        msgs.push(obj);
        k = k + 1;
    }
    let ghost mv = msgs@;
    let messages = JsonValue::Arr(msgs);
    proof {
        lemma_deep_list_index(mv);
        assert(deep_list(mv) =~= turns_jval(tv));
        assert(deep(messages) == JsonVal::Arr(turns_jval(tv)));
    }
    let mut pairs: Vec<(Vec<char>, JsonValue)> = Vec::new();
    pairs.push((chars_of("model"), JsonValue::Str(chars_of(model))));
    pairs.push((chars_of("messages"), messages));
    if stream {
        pairs.push((chars_of("stream"), JsonValue::Bool(true)));
    }
    pairs.push((chars_of("max_tokens"), JsonValue::Num(chars_of(max_tokens))));
    let ghost pv = pairs@;
    let body = JsonValue::Obj(pairs);
    proof {
        lemma_deep_pairs_index(pv);
        let base = seq![("model"@, JsonVal::Str(model@)), (
            "messages"@,
            JsonVal::Arr(turns_jval(tv)),
        )];
        if stream {
            assert(deep_pairs(pv) =~= base + seq![("stream"@, JsonVal::Bool(true)), (
                "max_tokens"@,
                JsonVal::Num(max_tokens@),
            )]);
        } else {
            assert(deep_pairs(pv) =~= base + seq![("max_tokens"@, JsonVal::Num(max_tokens@))]);
        }
    }
    let rendered = render_value(&body);
    string_from_chars(&rendered)
}

/// The body of a vision extraction request: one user turn whose content
/// carries the instruction text and the inline image.
pub open spec fn vision_request_spec(
    model: Seq<char>,
    prompt: Seq<char>,
    image_url: Seq<char>,
    max_tokens: Seq<char>,
) -> Seq<char> {
    let content = JsonVal::Arr(
        seq![
            JsonVal::Obj(
                seq![("type"@, JsonVal::Str("text"@)), ("text"@, JsonVal::Str(prompt))],
            ),
            JsonVal::Obj(
                seq![("type"@, JsonVal::Str("image_url"@)), (
                    "image_url"@,
                    JsonVal::Obj(seq![("url"@, JsonVal::Str(image_url))]),
                )],
            ),
        ],
    );
    let message = JsonVal::Obj(
        seq![("role"@, JsonVal::Str("user"@)), ("content"@, content)],
    );
    render_val(
        JsonVal::Obj(
            seq![
                ("model"@, JsonVal::Str(model)),
                ("messages"@, JsonVal::Arr(seq![message])),
                ("max_tokens"@, JsonVal::Num(max_tokens)),
            ],
        ),
    )
}

/// Render the body of a vision extraction request.
pub fn vision_request(model: &str, prompt: &str, image_url: &str, max_tokens: &str) -> (r: String)
    ensures
        r@ == vision_request_spec(model@, prompt@, image_url@, max_tokens@),
{
    let mut text_pairs: Vec<(Vec<char>, JsonValue)> = Vec::new();
    text_pairs.push((chars_of("type"), JsonValue::Str(chars_of("text"))));
    text_pairs.push((chars_of("text"), JsonValue::Str(chars_of(prompt))));
    let ghost tpv = text_pairs@;
    let text_obj = JsonValue::Obj(text_pairs);
    proof {
        lemma_deep_pairs_index(tpv);
        assert(deep_pairs(tpv) =~= seq![("type"@, JsonVal::Str("text"@)), (
            "text"@,
            JsonVal::Str(prompt@),
        )]);
    }
    let mut url_pairs: Vec<(Vec<char>, JsonValue)> = Vec::new();
    url_pairs.push((chars_of("url"), JsonValue::Str(chars_of(image_url))));
    let ghost upv = url_pairs@;
    let url_obj = JsonValue::Obj(url_pairs);
    proof {
        lemma_deep_pairs_index(upv);
        assert(deep_pairs(upv) =~= seq![("url"@, JsonVal::Str(image_url@))]);
    }
    let mut img_pairs: Vec<(Vec<char>, JsonValue)> = Vec::new();
    img_pairs.push((chars_of("type"), JsonValue::Str(chars_of("image_url"))));
    img_pairs.push((chars_of("image_url"), url_obj));
    let ghost ipv = img_pairs@;
    let img_obj = JsonValue::Obj(img_pairs);
    proof {
        lemma_deep_pairs_index(ipv);
        assert(deep_pairs(ipv) =~= seq![("type"@, JsonVal::Str("image_url"@)), (
            "image_url"@,
            JsonVal::Obj(seq![("url"@, JsonVal::Str(image_url@))]),
        )]);
    }
    let mut content_items: Vec<JsonValue> = Vec::new();
    content_items.push(text_obj);
    content_items.push(img_obj);
    let ghost civ = content_items@;
    let content = JsonValue::Arr(content_items);
    proof {
        lemma_deep_list_index(civ);
        assert(deep_list(civ) =~= seq![
            JsonVal::Obj(
                seq![("type"@, JsonVal::Str("text"@)), ("text"@, JsonVal::Str(prompt@))],
            ),
            JsonVal::Obj(
                seq![("type"@, JsonVal::Str("image_url"@)), (
                    "image_url"@,
                    JsonVal::Obj(seq![("url"@, JsonVal::Str(image_url@))]),
                )],
            ),
        ]);
    }
    let mut msg_pairs: Vec<(Vec<char>, JsonValue)> = Vec::new();
    msg_pairs.push((chars_of("role"), JsonValue::Str(chars_of("user"))));
    msg_pairs.push((chars_of("content"), content));
    let ghost mpv = msg_pairs@;
    let message = JsonValue::Obj(msg_pairs);
    proof {
        lemma_deep_pairs_index(mpv);
    }
    let mut msgs: Vec<JsonValue> = Vec::new();
    msgs.push(message);
    let ghost mv = msgs@;
    let messages = JsonValue::Arr(msgs);
    proof {
        lemma_deep_list_index(mv);
    }
    let mut pairs: Vec<(Vec<char>, JsonValue)> = Vec::new();
    pairs.push((chars_of("model"), JsonValue::Str(chars_of(model))));
    pairs.push((chars_of("messages"), messages));
    pairs.push((chars_of("max_tokens"), JsonValue::Num(chars_of(max_tokens))));
    let ghost pv = pairs@;
    let body = JsonValue::Obj(pairs);
    proof {
        lemma_deep_pairs_index(pv);
        let spec_message = JsonVal::Obj(
            seq![("role"@, JsonVal::Str("user"@)), (
                "content"@,
                JsonVal::Arr(
                    seq![
                        JsonVal::Obj(
                            seq![("type"@, JsonVal::Str("text"@)), (
                                "text"@,
                                JsonVal::Str(prompt@),
                            )],
                        ),
                        JsonVal::Obj(
                            seq![("type"@, JsonVal::Str("image_url"@)), (
                                "image_url"@,
                                JsonVal::Obj(seq![("url"@, JsonVal::Str(image_url@))]),
                            )],
                        ),
                    ],
                ),
            )],
        );
        assert(deep(message) == spec_message) by {
            assert(deep_pairs(mpv) =~= spec_message->Obj_0);
        }
        assert(deep_list(mv) =~= seq![spec_message]);
        assert(deep_pairs(pv) =~= seq![
            ("model"@, JsonVal::Str(model@)),
            ("messages"@, JsonVal::Arr(seq![spec_message])),
            ("max_tokens"@, JsonVal::Num(max_tokens@)),
        ]);
    }
    let rendered = render_value(&body);
    string_from_chars(&rendered)
}

} // verus!
