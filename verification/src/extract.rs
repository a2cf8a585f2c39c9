//! The response extractor.
//!
//! A model reply should be a JSON array of readings, but often is not:
//! it may sit inside a markdown fence, use localized field names, encode
//! numbers as numbers or strings, and write the abnormal flag a dozen
//! ways.  The extractor runs a deterministic cascade of fallbacks and
//! never fails — at worst it returns no readings.

use vstd::prelude::*;
use crate::json::{
    parse_json, parse_json_text, obj_lookup, deep, deep_list, deep_pairs, lemma_deep_list_index,
    lemma_deep_pairs_index, JsonVal, JsonValue,
};
use crate::text::{
    chars_of, contains_char, eq_chars, lower_of, lower_str, starts_with_chars, string_from_chars,
    sub_chars, trim_chars, trim_spec,
};

verus! {

/// One extracted reading, before catalog matching.
pub struct OcrParsedItem {
    pub name: String,
    pub value: String,
    pub unit: String,
    pub reference_range: String,
    pub is_abnormal: bool,
}

/// The mathematical content of a reading.
pub ghost struct Reading {
    pub name: Seq<char>,
    pub value: Seq<char>,
    pub unit: Seq<char>,
    pub reference_range: Seq<char>,
    pub is_abnormal: bool,
}

impl View for OcrParsedItem {
    type V = Reading;

    open spec fn view(&self) -> Reading {
        Reading {
            name: self.name@,
            value: self.value@,
            unit: self.unit@,
            reference_range: self.reference_range@,
            is_abnormal: self.is_abnormal,
        }
    }
}

impl DeepView for OcrParsedItem {
    type V = Reading;

    open spec fn deep_view(&self) -> Reading {
        self.view()
    }
}

/// How many members carry this key.
pub open spec fn count_key(pairs: Seq<(Seq<char>, JsonVal)>, key: Seq<char>) -> int
    decreases pairs.len(),
{
    if pairs.len() == 0 {
        0
    } else {
        (if pairs.last().0 == key {
            1int
        } else {
            0int
        }) + count_key(pairs.drop_last(), key)
    }
}

/// The string bound to `key`, if its last binding is a string.
pub open spec fn str_field(pairs: Seq<(Seq<char>, JsonVal)>, key: Seq<char>) -> Option<Seq<char>> {
    match obj_lookup(pairs, key) {
        Option::Some(JsonVal::Str(s)) => Option::Some(s),
        _ => Option::None,
    }
}

/// The reading an object denotes under the strict shape: each of the five
/// fields exactly once, the four texts as strings, the flag as a boolean;
/// unknown keys are ignored.
pub open spec fn strict_item(pairs: Seq<(Seq<char>, JsonVal)>) -> Option<Reading> {
    if count_key(pairs, "name"@) == 1 && count_key(pairs, "value"@) == 1 && count_key(
        pairs,
        "unit"@,
    ) == 1 && count_key(pairs, "reference_range"@) == 1 && count_key(pairs, "is_abnormal"@) == 1 {
        match (
            str_field(pairs, "name"@),
            str_field(pairs, "value"@),
            str_field(pairs, "unit"@),
            str_field(pairs, "reference_range"@),
            obj_lookup(pairs, "is_abnormal"@),
        ) {
            (
                Option::Some(name),
                Option::Some(value),
                Option::Some(unit),
                Option::Some(reference_range),
                Option::Some(JsonVal::Bool(b)),
            ) => Option::Some(
                Reading { name, value, unit, reference_range, is_abnormal: b },
            ),
            _ => Option::None,
        }
    } else {
        Option::None
    }
}

/// The readings of an array whose every element has the strict shape.
pub open spec fn strict_items(vals: Seq<JsonVal>) -> Option<Seq<Reading>>
    decreases vals.len(),
{
    if vals.len() == 0 {
        Option::Some(Seq::empty())
    } else {
        match vals[0] {
            JsonVal::Obj(pairs) => match (strict_item(pairs), strict_items(vals.drop_first())) {
                (Option::Some(r), Option::Some(rest)) => Option::Some(seq![r] + rest),
                _ => Option::None,
            },
            _ => Option::None,
        }
    }
}

/// Strict parse of a whole text: a JSON array of strict-shaped objects.
pub open spec fn strict_parse(s: Seq<char>) -> Option<Seq<Reading>> {
    match parse_json(s) {
        Option::Some(JsonVal::Arr(vals)) => strict_items(vals),
        _ => Option::None,
    }
}

/// How many members of the executable object carry this key.
fn count_key_exec(pairs: &Vec<(Vec<char>, JsonValue)>, key: &Vec<char>) -> (r: usize)
    ensures
        r as int == count_key(deep_pairs(pairs@), key@),
{
    proof {
        lemma_deep_pairs_index(pairs@);
    }
    let ghost full = deep_pairs(pairs@);
    let mut idx: usize = pairs.len();
    let mut n: usize = 0;
    proof {
        assert(full.subrange(0, full.len() as int) =~= full);
    }
    while idx > 0
        invariant
            0 <= idx <= pairs.len(),
            full == deep_pairs(pairs@),
            full.len() == pairs@.len(),
            forall|m: int| 0 <= m < pairs@.len() ==> full[m] == (pairs@[m].0@, deep(pairs@[m].1)),
            n <= pairs@.len() - idx,
            count_key(full, key@) == n + count_key(full.subrange(0, idx as int), key@),
        decreases idx,
    {
        proof {
            assert(full.subrange(0, idx as int).last() == full[idx - 1]);
            assert(full.subrange(0, idx as int).drop_last() =~= full.subrange(0, idx - 1 as int));
        }
        if eq_chars(&pairs[idx - 1].0, key) {
            n = n + 1;
        }
        idx = idx - 1;
    }
    proof {
        assert(full.subrange(0, 0) =~= Seq::<(Seq<char>, JsonVal)>::empty());
    }
    n
}

/// The reading of one executable object under the strict shape.
fn strict_item_exec(pairs: &Vec<(Vec<char>, JsonValue)>) -> (r: Option<OcrParsedItem>)
    ensures
        (match r {
            Option::Some(item) => strict_item(deep_pairs(pairs@)) == Option::Some(item@),
            Option::None => strict_item(deep_pairs(pairs@)) is None,
        }),
{
    let k_name = chars_of("name");
    let k_value = chars_of("value");
    let k_unit = chars_of("unit");
    let k_range = chars_of("reference_range");
    let k_flag = chars_of("is_abnormal");
    if !(count_key_exec(pairs, &k_name) == 1 && count_key_exec(pairs, &k_value) == 1
        && count_key_exec(pairs, &k_unit) == 1 && count_key_exec(pairs, &k_range) == 1
        && count_key_exec(pairs, &k_flag) == 1) {
        return None;
    }
    let name = match crate::json::obj_get(pairs, &k_name) {
        Option::Some(JsonValue::Str(s)) => s,
        _ => {
            return None;
        },
    };
    let value = match crate::json::obj_get(pairs, &k_value) {
        Option::Some(JsonValue::Str(s)) => s,
        _ => {
            return None;
        },
    };
    let unit = match crate::json::obj_get(pairs, &k_unit) {
        Option::Some(JsonValue::Str(s)) => s,
        _ => {
            return None;
        },
    };
    let reference_range = match crate::json::obj_get(pairs, &k_range) {
        Option::Some(JsonValue::Str(s)) => s,
        _ => {
            return None;
        },
    };
    let is_abnormal = match crate::json::obj_get(pairs, &k_flag) {
        Option::Some(JsonValue::Bool(b)) => *b,
        _ => {
            return None;
        },
    };
    Some(
        OcrParsedItem {
            name: string_from_chars(name),
            value: string_from_chars(value),
            unit: string_from_chars(unit),
            reference_range: string_from_chars(reference_range),
            is_abnormal,
        },
    )
}

/// The readings of an executable array under the strict shape.
fn strict_items_exec(vals: &Vec<JsonValue>) -> (r: Option<Vec<OcrParsedItem>>)
    ensures
        (match r {
            Option::Some(items) => strict_items(deep_list(vals@)) == Option::Some(
                items.deep_view(),
            ),
            Option::None => strict_items(deep_list(vals@)) is None,
        }),
{
    proof {
        lemma_deep_list_index(vals@);
    }
    let ghost full = deep_list(vals@);
    let mut out: Vec<OcrParsedItem> = Vec::new();
    let mut k: usize = 0;
    proof {
        assert(full.skip(0) =~= full);
        assert(out.deep_view() + Seq::<Reading>::empty() =~= out.deep_view());
    }
    while k < vals.len()
        invariant
            0 <= k <= vals.len(),
            full == deep_list(vals@),
            full.len() == vals@.len(),
            forall|m: int| 0 <= m < vals@.len() ==> full[m] == deep(vals@[m]),
            out.deep_view().len() == k,
            (match strict_items(full.skip(k as int)) {
                Option::Some(rest) => strict_items(full) == Option::Some(out.deep_view() + rest),
                Option::None => strict_items(full) is None,
            }),
        decreases vals@.len() - k,
    {
        let ghost tail = full.skip(k as int);
        proof {
            assert(tail.len() > 0);
            assert(tail[0] == full[k as int]);
            assert(tail.drop_first() =~= full.skip(k + 1 as int));
        }
        let item = match &vals[k] {
            JsonValue::Obj(pairs) => {
                match strict_item_exec(pairs) {
                    Option::Some(item) => item,
                    Option::None => {
                        return None;
                    },
                }
            },
            _ => {
                return None;
            },
        };
        let ghost out_old = out.deep_view();
        out.push(item);
        proof {
            assert(out.deep_view() =~= out_old.push(item@));
            match strict_items(full.skip(k + 1 as int)) {
                Option::Some(rest2) => {
                    assert(strict_items(tail) == Option::Some(seq![item@] + rest2));
                    assert(out_old + (seq![item@] + rest2) =~= out.deep_view() + rest2);
                },
                Option::None => {
                    assert(strict_items(tail) is None);
                },
            }
        }
        k = k + 1;
    }
    proof {
        assert(full.skip(full.len() as int) =~= Seq::<JsonVal>::empty());
        assert(out.deep_view() + Seq::<Reading>::empty() =~= out.deep_view());
    }
    Some(out)
}

/// The value of the first of two keys that is present at all.
pub open spec fn first2(pairs: Seq<(Seq<char>, JsonVal)>, k1: Seq<char>, k2: Seq<char>) -> Option<
    JsonVal,
> {
    match obj_lookup(pairs, k1) {
        Option::Some(v) => Option::Some(v),
        Option::None => obj_lookup(pairs, k2),
    }
}

/// The value of the first of five keys that is present at all.
pub open spec fn first5(
    pairs: Seq<(Seq<char>, JsonVal)>,
    k1: Seq<char>,
    k2: Seq<char>,
    k3: Seq<char>,
    k4: Seq<char>,
    k5: Seq<char>,
) -> Option<JsonVal> {
    match obj_lookup(pairs, k1) {
        Option::Some(v) => Option::Some(v),
        Option::None => match obj_lookup(pairs, k2) {
            Option::Some(v) => Option::Some(v),
            Option::None => match obj_lookup(pairs, k3) {
                Option::Some(v) => Option::Some(v),
                Option::None => first2(pairs, k4, k5),
            },
        },
    }
}

/// A string element is taken as it is; anything else joins as empty.
pub open spec fn elem_str(v: JsonVal) -> Seq<char> {
    match v {
        JsonVal::Str(s) => s,
        _ => Seq::empty(),
    }
}

/// Array elements joined with `-`.
pub open spec fn join_dash(l: Seq<JsonVal>) -> Seq<char>
    decreases l.len(),
{
    if l.len() == 0 {
        Seq::empty()
    } else if l.len() == 1 {
        elem_str(l[0])
    } else {
        elem_str(l[0]) + seq!['-'] + join_dash(l.drop_first())
    }
}

/// Whether a textual abnormal flag counts as abnormal: the trimmed,
/// lowercased text is one of the known positive words, or carries an
/// arrow or plus mark.
pub open spec fn abnormal_text(s: Seq<char>) -> bool {
    let t = lower_of(trim_spec(s));
    t == "true"@ || t == "yes"@ || t == "1"@ || t == "异常"@ || t == "是"@ || t == "high"@ || t
        == "low"@ || t.contains('↑') || t.contains('↓') || t.contains('+')
}

/// The reading a permissively-read object denotes: aliased keys in two
/// languages, numbers accepted where the strict shape wants strings,
/// a tolerant abnormal flag; anything missing defaults to empty or false.
pub open spec fn permissive_item(v: JsonVal) -> Reading {
    match v {
        JsonVal::Obj(pairs) => Reading {
            name: (match first2(pairs, "name"@, "指标名称"@) {
                Option::Some(JsonVal::Str(s)) => s,
                _ => Seq::empty(),
            }),
            value: (match first2(pairs, "value"@, "数值"@) {
                Option::Some(JsonVal::Str(s)) => s,
                Option::Some(JsonVal::Num(t)) => t,
                _ => Seq::empty(),
            }),
            unit: (match first2(pairs, "unit"@, "单位"@) {
                Option::Some(JsonVal::Str(s)) => s,
                _ => Seq::empty(),
            }),
            reference_range: (match first5(
                pairs,
                "reference_range"@,
                "参考范围"@,
                "range"@,
                "参考值"@,
                "reference"@,
            ) {
                Option::Some(JsonVal::Str(s)) => s,
                Option::Some(JsonVal::Num(t)) => t,
                Option::Some(JsonVal::Arr(l)) => join_dash(l),
                _ => Seq::empty(),
            }),
            is_abnormal: (match first5(
                pairs,
                "is_abnormal"@,
                "是否异常"@,
                "abnormal"@,
                "status"@,
                "状态"@,
            ) {
                Option::Some(JsonVal::Bool(b)) => b,
                Option::Some(JsonVal::Str(s)) => abnormal_text(s),
                _ => false,
            }),
        },
        _ => Reading {
            name: Seq::empty(),
            value: Seq::empty(),
            unit: Seq::empty(),
            reference_range: Seq::empty(),
            is_abnormal: false,
        },
    }
}

/// Permissive mapping of every element of an array.
pub open spec fn permissive_items(vals: Seq<JsonVal>) -> Seq<Reading> {
    Seq::new(vals.len(), |i: int| permissive_item(vals[i]))
}

/// First occurrence of `c` at or after `i`.
pub open spec fn find_first(s: Seq<char>, c: char, i: int) -> Option<int>
    decreases s.len() - i,
{
    if !(0 <= i < s.len()) {
        Option::None
    } else if s[i] == c {
        Option::Some(i)
    } else {
        find_first(s, c, i + 1)
    }
}

/// Last occurrence of `c` before `j`.
pub open spec fn find_last(s: Seq<char>, c: char, j: int) -> Option<int>
    decreases j,
{
    if !(0 < j <= s.len()) {
        Option::None
    } else if s[j - 1] == c {
        Option::Some(j - 1)
    } else {
        find_last(s, c, j - 1)
    }
}

/// The fence interior: the trimmed text between a leading markdown fence
/// and a trailing one, where both are present.
pub open spec fn fence_stripped(t: Seq<char>) -> Option<Seq<char>> {
    if t.len() >= "```json"@.len() && t.subrange(0, "```json"@.len() as int) == "```json"@ {
        let rest = t.skip("```json"@.len() as int);
        if rest.len() >= "```"@.len() && rest.subrange(
            rest.len() - "```"@.len(),
            rest.len() as int,
        ) == "```"@ {
            Option::Some(trim_spec(rest.take(rest.len() - "```"@.len())))
        } else {
            Option::None
        }
    } else if t.len() >= "```"@.len() && t.subrange(0, "```"@.len() as int) == "```"@ {
        let rest = t.skip("```"@.len() as int);
        if rest.len() >= "```"@.len() && rest.subrange(
            rest.len() - "```"@.len(),
            rest.len() as int,
        ) == "```"@ {
            Option::Some(trim_spec(rest.take(rest.len() - "```"@.len())))
        } else {
            Option::None
        }
    } else {
        Option::None
    }
}

/// The bracket fallback: the span from the first `[` to the last `]`,
/// parsed strictly if possible, else permissively; no usable span or no
/// parse at all yields no readings.
pub open spec fn bracket_step(u: Seq<char>) -> Seq<Reading> {
    match (find_first(u, '[', 0), find_last(u, ']', u.len() as int)) {
        (Option::Some(i), Option::Some(j)) => if i <= j {
            let sub = u.subrange(i, j + 1);
            match strict_parse(sub) {
                Option::Some(items) => items,
                Option::None => match parse_json(sub) {
                    Option::Some(JsonVal::Arr(vals)) => permissive_items(vals),
                    _ => Seq::empty(),
                },
            }
        } else {
            Seq::empty()
        },
        _ => Seq::empty(),
    }
}

/// The whole extraction cascade.
pub open spec fn extract_spec(s: Seq<char>) -> Seq<Reading> {
    match strict_parse(s) {
        Option::Some(items) => items,
        Option::None => {
            let t = trim_spec(s);
            match fence_stripped(t) {
                Option::Some(u) => match strict_parse(u) {
                    Option::Some(items) => items,
                    Option::None => bracket_step(u),
                },
                Option::None => bracket_step(t),
            }
        },
    }
}

/// Strict parse of a whole character text.
pub fn strict_parse_exec(v: &Vec<char>) -> (r: Option<Vec<OcrParsedItem>>)
    ensures
        (match r {
            Option::Some(items) => strict_parse(v@) == Option::Some(items.deep_view()),
            Option::None => strict_parse(v@) is None,
        }),
{
    match parse_json_text(v) {
        Option::Some(JsonValue::Arr(vals)) => strict_items_exec(&vals),
        _ => None,
    }
}

/// Decide a textual abnormal flag.
fn abnormal_text_exec(s: &Vec<char>) -> (r: bool)
    ensures
        r == abnormal_text(s@),
{
    let tr = trim_chars(s);
    let st = string_from_chars(&tr);
    let lo = lower_str(st.as_str());
    let t = chars_of(lo.as_str());
    let w_true = chars_of("true");
    let w_yes = chars_of("yes");
    let w_one = chars_of("1");
    let w_abn = chars_of("异常");
    let w_shi = chars_of("是");
    let w_high = chars_of("high");
    let w_low = chars_of("low");
    eq_chars(&t, &w_true) || eq_chars(&t, &w_yes) || eq_chars(&t, &w_one) || eq_chars(&t, &w_abn)
        || eq_chars(&t, &w_shi) || eq_chars(&t, &w_high) || eq_chars(&t, &w_low) || contains_char(
        &t,
        '↑',
    ) || contains_char(&t, '↓') || contains_char(&t, '+')
}

/// Join array elements with `-`, string elements as they are.
fn join_dash_from(items: &Vec<JsonValue>, idx: usize) -> (r: Vec<char>)
    requires
        idx < items.len(),
    ensures
        r@ == join_dash(deep_list(items@).skip(idx as int)),
    decreases items@.len() - idx,
{
    let ghost l = deep_list(items@).skip(idx as int);
    proof {
        lemma_deep_list_index(items@);
        assert(l.len() == items@.len() - idx);
        assert(l[0] == deep(items@[idx as int]));
    }
    let mut r: Vec<char> = match &items[idx] {
        JsonValue::Str(s) => sub_chars(s, 0, s.len()),
        _ => Vec::new(),
    };
    proof {
        assert(r@ == elem_str(l[0]));
    }
    if idx + 1 < items.len() {
        r.push('-');
        let rest = join_dash_from(items, idx + 1);
        crate::json::push_all(&mut r, &rest);
        proof {
            assert(l.drop_first() =~= deep_list(items@).skip(idx + 1 as int));
            assert(r@ =~= join_dash(l));
        }
    } else {
        proof {
            assert(l.len() == 1);
        }
    }
    r
}

/// Permissive reading of one value.
fn permissive_item_exec(v: &JsonValue) -> (r: OcrParsedItem)
    ensures
        r@ == permissive_item(v@),
{
    match v {
        JsonValue::Obj(pairs) => {
            let name = {
                let got = match crate::json::obj_get(pairs, &chars_of("name")) {
                    Option::Some(x) => Option::Some(x),
                    Option::None => crate::json::obj_get(pairs, &chars_of("指标名称")),
                };
                match got {
                    Option::Some(JsonValue::Str(s)) => string_from_chars(s),
                    _ => String::new(),
                }
            };
            let value = {
                let got = match crate::json::obj_get(pairs, &chars_of("value")) {
                    Option::Some(x) => Option::Some(x),
                    Option::None => crate::json::obj_get(pairs, &chars_of("数值")),
                };
                match got {
                    Option::Some(JsonValue::Str(s)) => string_from_chars(s),
                    Option::Some(JsonValue::Num(t)) => string_from_chars(t),
                    _ => String::new(),
                }
            };
            let unit = {
                let got = match crate::json::obj_get(pairs, &chars_of("unit")) {
                    Option::Some(x) => Option::Some(x),
                    Option::None => crate::json::obj_get(pairs, &chars_of("单位")),
                };
                match got {
                    Option::Some(JsonValue::Str(s)) => string_from_chars(s),
                    _ => String::new(),
                }
            };
            let reference_range = {
                let got = match crate::json::obj_get(pairs, &chars_of("reference_range")) {
                    Option::Some(x) => Option::Some(x),
                    Option::None => match crate::json::obj_get(pairs, &chars_of("参考范围")) {
                        Option::Some(x) => Option::Some(x),
                        Option::None => match crate::json::obj_get(pairs, &chars_of("range")) {
                            Option::Some(x) => Option::Some(x),
                            Option::None => match crate::json::obj_get(
                                pairs,
                                &chars_of("参考值"),
                            ) {
                                Option::Some(x) => Option::Some(x),
                                Option::None => crate::json::obj_get(pairs, &chars_of("reference")),
                            },
                        },
                    },
                };
                match got {
                    Option::Some(JsonValue::Str(s)) => string_from_chars(s),
                    Option::Some(JsonValue::Num(t)) => string_from_chars(t),
                    Option::Some(JsonValue::Arr(l)) => {
                        if l.len() == 0 {
                            proof {
                                assert(deep_list(l@).skip(0) =~= Seq::<JsonVal>::empty());
                                assert(deep_list(l@) =~= Seq::<JsonVal>::empty());
                            }
                            String::new()
                        } else {
                            let joined = join_dash_from(l, 0);
                            proof {
                                assert(deep_list(l@).skip(0) =~= deep_list(l@));
                            }
                            string_from_chars(&joined)
                        }
                    },
                    _ => String::new(),
                }
            };
            let is_abnormal = {
                let got = match crate::json::obj_get(pairs, &chars_of("is_abnormal")) {
                    Option::Some(x) => Option::Some(x),
                    Option::None => match crate::json::obj_get(pairs, &chars_of("是否异常")) {
                        Option::Some(x) => Option::Some(x),
                        Option::None => match crate::json::obj_get(pairs, &chars_of("abnormal")) {
                            Option::Some(x) => Option::Some(x),
                            Option::None => match crate::json::obj_get(pairs, &chars_of("status")) {
                                Option::Some(x) => Option::Some(x),
                                Option::None => crate::json::obj_get(pairs, &chars_of("状态")),
                            },
                        },
                    },
                };
                match got {
                    Option::Some(JsonValue::Bool(b)) => *b,
                    Option::Some(JsonValue::Str(s)) => abnormal_text_exec(s),
                    _ => false,
                }
            };
            OcrParsedItem { name, value, unit, reference_range, is_abnormal }
        },
        _ => OcrParsedItem {
            name: String::new(),
            value: String::new(),
            unit: String::new(),
            reference_range: String::new(),
            is_abnormal: false,
        },
    }
}

/// Permissive reading of every element of an array.
fn permissive_items_exec(vals: &Vec<JsonValue>) -> (r: Vec<OcrParsedItem>)
    ensures
        r.deep_view() == permissive_items(deep_list(vals@)),
{
    proof {
        lemma_deep_list_index(vals@);
    }
    let ghost full = deep_list(vals@);
    let mut out: Vec<OcrParsedItem> = Vec::new();
    let mut k: usize = 0;
    while k < vals.len()
        invariant
            0 <= k <= vals.len(),
            full == deep_list(vals@),
            full.len() == vals@.len(),
            forall|m: int| 0 <= m < vals@.len() ==> full[m] == deep(vals@[m]),
            out.deep_view().len() == k,
            forall|m: int| 0 <= m < k ==> out.deep_view()[m] == permissive_item(full[m]),
        decreases vals@.len() - k,
    {
        let ghost out_old = out.deep_view();
        let item = permissive_item_exec(&vals[k]);
        out.push(item);
        proof {
            assert(out.deep_view() =~= out_old.push(item@));
        }
        k = k + 1;
    }
    proof {
        assert(out.deep_view() =~= permissive_items(full));
    }
    out
}

/// First occurrence of `c` in `v` at or after `i`.
pub fn find_first_exec(v: &Vec<char>, c: char, i: usize) -> (r: Option<usize>)
    requires
        i <= v.len(),
    ensures
        (match r {
            Option::Some(p) => find_first(v@, c, i as int) == Option::Some(p as int) && i <= p
                < v@.len(),
            Option::None => find_first(v@, c, i as int) is None,
        }),
{
    let mut k: usize = i;
    while k < v.len() && v[k] != c
        invariant
            i <= k <= v.len(),
            find_first(v@, c, i as int) == find_first(v@, c, k as int),
        decreases v@.len() - k,
    {
        k = k + 1;
    }
    if k < v.len() {
        Some(k)
    } else {
        None
    }
}

/// Last occurrence of `c` in `v` before `j`.
pub fn find_last_exec(v: &Vec<char>, c: char, j: usize) -> (r: Option<usize>)
    requires
        j <= v.len(),
    ensures
        (match r {
            Option::Some(p) => find_last(v@, c, j as int) == Option::Some(p as int) && p < j,
            Option::None => find_last(v@, c, j as int) is None,
        }),
{
    let mut k: usize = j;
    while k > 0 && v[k - 1] != c
        invariant
            0 <= k <= j <= v.len(),
            find_last(v@, c, j as int) == find_last(v@, c, k as int),
        decreases k,
    {
        k = k - 1;
    }
    if k > 0 {
        Some(k - 1)
    } else {
        None
    }
}

/// The bracket fallback on a character text.
fn bracket_exec(u: &Vec<char>) -> (r: Vec<OcrParsedItem>)
    ensures
        r.deep_view() == bracket_step(u@),
{
    let first = find_first_exec(u, '[', 0);
    let last = find_last_exec(u, ']', u.len());
    match (first, last) {
        (Option::Some(i), Option::Some(j)) => {
            if i <= j {
                let sub = sub_chars(u, i, j + 1);
                match strict_parse_exec(&sub) {
                    Option::Some(items) => items,
                    Option::None => {
                        match parse_json_text(&sub) {
                            Option::Some(JsonValue::Arr(vals)) => permissive_items_exec(&vals),
                            _ => Vec::new(),
                        }
                    },
                }
            } else {
                Vec::new()
            }
        },
        _ => Vec::new(),
    }
}

/// Extract the readings from a raw model reply.
///
/// The cascade: a strict parse of the whole text; failing that, a strict
/// parse of a markdown fence's trimmed interior; failing that, the span
/// from the first `[` to the last `]`, strictly and then permissively.
/// Nothing usable gives the empty list.
pub fn extract_json_array(content: &str) -> (r: Vec<OcrParsedItem>)
    ensures
        r.deep_view() == extract_spec(content@),
{
    let v = chars_of(content);
    if let Option::Some(items) = strict_parse_exec(&v) {
        return items;
    }
    let t = trim_chars(&v);
    let fj = chars_of("```json");
    let f3 = chars_of("```");
    let stripped: Option<Vec<char>> = if starts_with_chars(&t, &fj) {
        let rest = sub_chars(&t, fj.len(), t.len());
        proof {
            assert(rest@ =~= t@.skip("```json"@.len() as int));
        }
        if crate::text::ends_with_chars(&rest, &f3) {
            let inner = sub_chars(&rest, 0, rest.len() - f3.len());
            proof {
                assert(inner@ =~= rest@.take(rest@.len() - "```"@.len()));
            }
            Option::Some(trim_chars(&inner))
        } else {
            Option::None
        }
    } else if starts_with_chars(&t, &f3) {
        let rest = sub_chars(&t, f3.len(), t.len());
        proof {
            assert(rest@ =~= t@.skip("```"@.len() as int));
        }
        if crate::text::ends_with_chars(&rest, &f3) {
            let inner = sub_chars(&rest, 0, rest.len() - f3.len());
            proof {
                assert(inner@ =~= rest@.take(rest@.len() - "```"@.len()));
            }
            Option::Some(trim_chars(&inner))
        } else {
            Option::None
        }
    } else {
        Option::None
    };
    match stripped {
        Option::Some(u) => {
            if let Option::Some(items) = strict_parse_exec(&u) {
                return items;
            }
            bracket_exec(&u)
        },
        Option::None => bracket_exec(&t),
    }
}

/// A text that is a well-formed JSON array of strict-shaped readings is
/// extracted exactly as written: the cascade's first step already
/// returns those readings, unchanged and in order.
pub proof fn lemma_strict_text_extracts_exactly(s: Seq<char>, items: Seq<Reading>)
    requires
        strict_parse(s) == Option::Some(items),
    ensures
        extract_spec(s) == items,
{
}

/// Trimming a trimmed text changes nothing.
pub proof fn lemma_trim_idempotent(x: Seq<char>)
    ensures
        trim_spec(trim_spec(x)) == trim_spec(x),
{
    crate::text::lemma_ws_prefix_end_bounds(x, 0);
    crate::text::lemma_ws_suffix_start_bounds(x, x.len() as int);
    let a = crate::text::ws_prefix_end(x, 0);
    let b = crate::text::ws_suffix_start(x, x.len() as int);
    let y = trim_spec(x);
    if y.len() == 0 {
        assert(crate::text::ws_prefix_end(y, 0) == 0);
        assert(crate::text::ws_suffix_start(y, 0) == 0);
        assert(trim_spec(y) =~= y);
    } else {
        assert(a < b);
        assert(y[0] == x[a] && !crate::text::is_ws(y[0]));
        assert(y.last() == x[b - 1] && !crate::text::is_ws(y.last()));
        assert(crate::text::ws_prefix_end(y, 0) == 0);
        assert(crate::text::ws_suffix_start(y, y.len() as int) == y.len());
        assert(trim_spec(y) =~= y);
    }
}

/// A text whose trimmed form does not open with a JSON value cannot be
/// parsed: in particular one that opens with a backtick.
proof fn lemma_backtick_blocks_parse(s: Seq<char>)
    requires
        trim_spec(s).len() > 0,
        trim_spec(s)[0] == '`',
    ensures
        parse_json(s) is None,
        strict_parse(s) is None,
{
    crate::text::lemma_ws_prefix_end_bounds(s, 0);
    crate::text::lemma_ws_suffix_start_bounds(s, s.len() as int);
    crate::json::lemma_jws_end_bounds(s, 0);
    let a = crate::text::ws_prefix_end(s, 0);
    let b = crate::text::ws_suffix_start(s, s.len() as int);
    let i = crate::json::jws_end(s, 0);
    assert(a < b <= s.len());
    assert(s[a] == '`');
    assert(i <= a) by {
        if i > a {
            assert(crate::json::is_jws(s[a]));
            assert(crate::text::is_ws(s[a]));
        }
    }
    assert(i < s.len());
    if i == a {
        assert(s[i] == '`');
        assert(crate::json::parse_value(s, i, crate::json::NESTING_CAP as int) is None);
    } else {
        assert(crate::text::is_ws(s[i]) && !crate::json::is_jws(s[i]));
        assert(crate::json::parse_value(s, i, crate::json::NESTING_CAP as int) is None);
    }
}

/// An input wrapped in a markdown fence extracts exactly as its fenced
/// interior does on its own: stripping the fence and parsing the
/// interior is the same as handing the interior in directly.  The one
/// exception is an interior that is itself fence-shaped — extraction
/// strips one fence only — so that shape is left out here.
pub proof fn lemma_fence_transparent(s: Seq<char>, u: Seq<char>)
    requires
        fence_stripped(trim_spec(s)) == Option::Some(u),
        fence_stripped(u) is None,
    ensures
        extract_spec(s) == extract_spec(u),
{
    let t = trim_spec(s);
    reveal_strlit("```json");
    reveal_strlit("```");
    assert(t.len() > 0 && t[0] == '`') by {
        if t.len() >= "```json"@.len() && t.subrange(0, "```json"@.len() as int) == "```json"@ {
            assert(t.subrange(0, 7)[0] == t[0]);
        } else {
            assert(t.subrange(0, 3)[0] == t[0]);
        }
    }
    lemma_backtick_blocks_parse(s);
    assert(trim_spec(u) == u) by {
        if t.len() >= "```json"@.len() && t.subrange(0, "```json"@.len() as int) == "```json"@ {
            let rest = t.skip("```json"@.len() as int);
            assert(u == trim_spec(rest.take(rest.len() - "```"@.len())));
            lemma_trim_idempotent(rest.take(rest.len() - "```"@.len()));
        } else {
            let rest = t.skip("```"@.len() as int);
            assert(u == trim_spec(rest.take(rest.len() - "```"@.len())));
            lemma_trim_idempotent(rest.take(rest.len() - "```"@.len()));
        }
    }
    match strict_parse(u) {
        Option::Some(items) => {
            assert(extract_spec(s) == items);
            assert(extract_spec(u) == items);
        },
        Option::None => {
            assert(extract_spec(s) == bracket_step(u));
            assert(extract_spec(u) == bracket_step(u));
        },
    }
}

/// An object that binds the localized alias keys reads as the same
/// reading as one that binds the canonical keys to the same values,
/// whatever else either object carries.
pub proof fn lemma_alias_keys_recover_reading(
    pa: Seq<(Seq<char>, JsonVal)>,
    pc: Seq<(Seq<char>, JsonVal)>,
)
    requires
        obj_lookup(pa, "name"@) is None,
        obj_lookup(pa, "指标名称"@) == obj_lookup(pc, "name"@),
        obj_lookup(pc, "name"@) is Some,
        obj_lookup(pa, "value"@) is None,
        obj_lookup(pa, "数值"@) == obj_lookup(pc, "value"@),
        obj_lookup(pc, "value"@) is Some,
        obj_lookup(pa, "unit"@) is None,
        obj_lookup(pa, "单位"@) == obj_lookup(pc, "unit"@),
        obj_lookup(pc, "unit"@) is Some,
        obj_lookup(pa, "reference_range"@) is None,
        obj_lookup(pa, "参考范围"@) == obj_lookup(pc, "reference_range"@),
        obj_lookup(pc, "reference_range"@) is Some,
        obj_lookup(pa, "is_abnormal"@) is None,
        obj_lookup(pa, "是否异常"@) == obj_lookup(pc, "is_abnormal"@),
        obj_lookup(pc, "is_abnormal"@) is Some,
    ensures
        permissive_item(JsonVal::Obj(pa)) == permissive_item(JsonVal::Obj(pc)),
{
}

} // verus!
