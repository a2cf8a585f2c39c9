//! The indicator reconciler.
//!
//! Each extracted reading is matched against the catalog of indicators of
//! its project; the first match under the fuzzy rule yields one
//! catalog-linked value draft.  Unmatched readings yield nothing — they
//! stay visible in the stored item list but are absent from the time
//! series.  Reconciliation is a pure function, so regenerating the value
//! set for unchanged input gives an identical set.

use vstd::prelude::*;
use crate::extract::{OcrParsedItem, Reading};
use crate::json::{deep, deep_list, jget, parse_json, parse_json_text, JsonVal, JsonValue,
    lemma_deep_list_index};
use crate::matching::{fuzzy_match_spec, name_fuzzy_match};
use crate::text::{chars_of, eq_chars, float_text_ok, is_float_text, string_from_chars, sub_chars};

verus! {

/// A catalog entry: a named measurement type scoped to a project.
pub struct Indicator {
    pub id: String,
    pub project_id: String,
    pub name: String,
    pub unit: String,
    pub reference_range: String,
    pub sort_order: i32,
    pub is_core: bool,
    pub created_at: String,
}

/// The mathematical content of a catalog entry.
pub ghost struct IndicatorView {
    pub id: Seq<char>,
    pub project_id: Seq<char>,
    pub name: Seq<char>,
    pub unit: Seq<char>,
    pub reference_range: Seq<char>,
    pub sort_order: int,
    pub is_core: bool,
    pub created_at: Seq<char>,
}

impl View for Indicator {
    type V = IndicatorView;

    open spec fn view(&self) -> IndicatorView {
        IndicatorView {
            id: self.id@,
            project_id: self.project_id@,
            name: self.name@,
            unit: self.unit@,
            reference_range: self.reference_range@,
            sort_order: self.sort_order as int,
            is_core: self.is_core,
            created_at: self.created_at@,
        }
    }
}

impl DeepView for Indicator {
    type V = IndicatorView;

    open spec fn deep_view(&self) -> IndicatorView {
        self.view()
    }
}

/// One point of the time series, as the reconciler produces it: the
/// catalog link and the value.  Whether the text parses as a 64-bit
/// float decides if a numeric value is stored beside the raw text.
pub struct IndicatorValueDraft {
    pub indicator_id: String,
    pub value_text: String,
    pub value_is_numeric: bool,
    pub is_abnormal: bool,
}

/// The mathematical content of a value draft.
pub ghost struct DraftView {
    pub indicator_id: Seq<char>,
    pub value_text: Seq<char>,
    pub value_is_numeric: bool,
    pub is_abnormal: bool,
}

impl View for IndicatorValueDraft {
    type V = DraftView;

    open spec fn view(&self) -> DraftView {
        DraftView {
            indicator_id: self.indicator_id@,
            value_text: self.value_text@,
            value_is_numeric: self.value_is_numeric,
            is_abnormal: self.is_abnormal,
        }
    }
}

impl DeepView for IndicatorValueDraft {
    type V = DraftView;

    open spec fn deep_view(&self) -> DraftView {
        self.view()
    }
}

/// The first catalog entry of the project that the reading name matches.
pub open spec fn catalog_match(
    catalog: Seq<IndicatorView>,
    project_id: Seq<char>,
    name: Seq<char>,
) -> Option<IndicatorView>
    decreases catalog.len(),
{
    if catalog.len() == 0 {
        Option::None
    } else if catalog[0].project_id == project_id && fuzzy_match_spec(catalog[0].name, name) {
        Option::Some(catalog[0])
    } else {
        catalog_match(catalog.drop_first(), project_id, name)
    }
}

/// The draft a matched reading produces.
pub open spec fn draft_of(item: Reading, ind: IndicatorView) -> DraftView {
    DraftView {
        indicator_id: ind.id,
        value_text: item.value,
        value_is_numeric: is_float_text(item.value),
        is_abnormal: item.is_abnormal,
    }
}

/// The value set one item list produces against one catalog: one draft
/// per matched reading, in reading order; unmatched readings produce
/// nothing.
pub open spec fn reconcile_spec(
    items: Seq<Reading>,
    catalog: Seq<IndicatorView>,
    project_id: Seq<char>,
) -> Seq<DraftView>
    decreases items.len(),
{
    if items.len() == 0 {
        Seq::empty()
    } else {
        let rest = reconcile_spec(items.drop_first(), catalog, project_id);
        match catalog_match(catalog, project_id, items[0].name) {
            Option::Some(ind) => seq![draft_of(items[0], ind)] + rest,
            Option::None => rest,
        }
    }
}

/// The first catalog entry of the project matching the name.
fn catalog_match_exec<'a>(catalog: &'a Vec<Indicator>, project_id: &str, name: &str) -> (r: Option<
    &'a Indicator,
>)
    ensures
        (match r {
            Option::Some(ind) => catalog_match(catalog.deep_view(), project_id@, name@)
                == Option::Some(ind@),
            Option::None => catalog_match(catalog.deep_view(), project_id@, name@) is None,
        }),
{
    let ghost full = catalog.deep_view();
    let mut k: usize = 0;
    proof {
        assert(full.skip(0) =~= full);
    }
    while k < catalog.len()
        invariant
            0 <= k <= catalog.len(),
            full == catalog.deep_view(),
            full.len() == catalog@.len(),
            forall|m: int| 0 <= m < catalog@.len() ==> full[m] == catalog@[m]@,
            catalog_match(full, project_id@, name@) == catalog_match(
                full.skip(k as int),
                project_id@,
                name@,
            ),
        decreases catalog@.len() - k,
    {
        let ghost tail = full.skip(k as int);
        proof {
            assert(tail[0] == full[k as int]);
            assert(tail.drop_first() =~= full.skip(k + 1 as int));
        }
        let ind = &catalog[k];
        let pid_eq = {
            let a = chars_of(ind.project_id.as_str());
            let b = chars_of(project_id);
            crate::text::eq_chars(&a, &b)
        };
        if pid_eq && name_fuzzy_match(ind.name.as_str(), name) {
            return Some(ind);
        }
        k = k + 1;
    }
    proof {
        assert(full.skip(full.len() as int) =~= Seq::<IndicatorView>::empty());
    }
    None
}

/// Reconcile an item list against the catalog of one project.
pub fn reconcile(items: &Vec<OcrParsedItem>, catalog: &Vec<Indicator>, project_id: &str) -> (r:
    Vec<IndicatorValueDraft>)
    ensures
        r.deep_view() == reconcile_spec(items.deep_view(), catalog.deep_view(), project_id@),
{
    let ghost full = items.deep_view();
    let mut out: Vec<IndicatorValueDraft> = Vec::new();
    let mut k: usize = 0;
    proof {
        assert(full.skip(0) =~= full);
        assert(out.deep_view() + reconcile_spec(full, catalog.deep_view(), project_id@)
            =~= reconcile_spec(full, catalog.deep_view(), project_id@));
    }
    while k < items.len()
        invariant
            0 <= k <= items.len(),
            full == items.deep_view(),
            full.len() == items@.len(),
            forall|m: int| 0 <= m < items@.len() ==> full[m] == items@[m]@,
            reconcile_spec(full, catalog.deep_view(), project_id@) == out.deep_view()
                + reconcile_spec(full.skip(k as int), catalog.deep_view(), project_id@),
        decreases items@.len() - k,
    {
        let ghost tail = full.skip(k as int);
        proof {
            assert(tail[0] == full[k as int]);
            assert(tail.drop_first() =~= full.skip(k + 1 as int));
        }
        let item = &items[k];
        match catalog_match_exec(catalog, project_id, item.name.as_str()) {
            Option::Some(ind) => {
                let vc = chars_of(item.value.as_str());
                let numeric = float_text_ok(&vc);
                let draft = IndicatorValueDraft {
                    indicator_id: ind.id.clone(),
                    value_text: item.value.clone(),
                    value_is_numeric: numeric,
                    is_abnormal: item.is_abnormal,
                };
                let ghost out_old = out.deep_view();
                out.push(draft);
                proof {
                    assert(out.deep_view() =~= out_old.push(draft@));
                    assert(draft@ == draft_of(tail[0], ind@));
                    assert(out_old + (seq![draft_of(tail[0], ind@)] + reconcile_spec(
                        full.skip(k + 1 as int),
                        catalog.deep_view(),
                        project_id@,
                    )) =~= out.deep_view() + reconcile_spec(
                        full.skip(k + 1 as int),
                        catalog.deep_view(),
                        project_id@,
                    ));
                }
            },
            Option::None => {
            },
        }
        k = k + 1;
    }
    proof {
        assert(full.skip(full.len() as int) =~= Seq::<Reading>::empty());
        assert(out.deep_view() + Seq::<DraftView>::empty() =~= out.deep_view());
    }
    out
}

/// The text with its space characters removed, as the quick-add path
/// compares names.
pub open spec fn drop_spaces(s: Seq<char>) -> Seq<char>
    decreases s.len(),
{
    if s.len() == 0 {
        Seq::empty()
    } else if s[0] == ' ' {
        drop_spaces(s.drop_first())
    } else {
        seq![s[0]] + drop_spaces(s.drop_first())
    }
}

/// Remove the space characters of a text.
fn drop_spaces_exec(v: &Vec<char>) -> (r: Vec<char>)
    ensures
        r@ == drop_spaces(v@),
{
    let mut r: Vec<char> = Vec::new();
    let mut k: usize = 0;
    proof {
        assert(v@.skip(0) =~= v@);
        assert(r@ + drop_spaces(v@) =~= drop_spaces(v@));
    }
    while k < v.len()
        invariant
            0 <= k <= v.len(),
            drop_spaces(v@) == r@ + drop_spaces(v@.skip(k as int)),
        decreases v@.len() - k,
    {
        let ghost tail = v@.skip(k as int);
        proof {
            assert(tail[0] == v@[k as int]);
            assert(tail.drop_first() =~= v@.skip(k + 1 as int));
        }
        let c = v[k];
        if c != ' ' {
            let ghost r_old = r@;
            r.push(c);
            proof {
                assert(r_old + (seq![c] + drop_spaces(v@.skip(k + 1 as int))) =~= r@ + drop_spaces(
                    v@.skip(k + 1 as int),
                ));
            }
        }
        k = k + 1;
    }
    proof {
        assert(r@ + drop_spaces(v@.skip(v@.len() as int)) =~= r@);
    }
    r
}

/// One historical value recovered for a freshly added indicator.
pub struct BackfillValue {
    pub value_text: String,
    pub value_is_numeric: bool,
    pub is_abnormal: bool,
}

/// The mathematical content of a recovered value.
pub ghost struct BackfillView {
    pub value_text: Seq<char>,
    pub value_is_numeric: bool,
    pub is_abnormal: bool,
}

impl View for BackfillValue {
    type V = BackfillView;

    open spec fn view(&self) -> BackfillView {
        BackfillView {
            value_text: self.value_text@,
            value_is_numeric: self.value_is_numeric,
            is_abnormal: self.is_abnormal,
        }
    }
}

impl DeepView for BackfillValue {
    type V = BackfillView;

    open spec fn deep_view(&self) -> BackfillView {
        self.view()
    }
}

/// The name an item of a stored list carries, where it is a string.
pub open spec fn item_name_of(v: JsonVal) -> Seq<char> {
    match jget(v, "name"@) {
        Option::Some(JsonVal::Str(s)) => s,
        _ => Seq::empty(),
    }
}

/// The value text an item carries: a string as it is, a number as its
/// token, anything else as empty.
pub open spec fn item_value_of(v: JsonVal) -> Seq<char> {
    match jget(v, "value"@) {
        Option::Some(JsonVal::Str(s)) => s,
        Option::Some(JsonVal::Num(t)) => t,
        _ => Seq::empty(),
    }
}

/// The abnormal flag an item carries, where it is a boolean.
pub open spec fn item_flag_of(v: JsonVal) -> bool {
    match jget(v, "is_abnormal"@) {
        Option::Some(JsonVal::Bool(b)) => b,
        _ => false,
    }
}

/// The values the quick-add path recovers from one stored item list:
/// one per item whose space-stripped name equals the space-stripped
/// target name.
pub open spec fn backfill_spec(vals: Seq<JsonVal>, target: Seq<char>) -> Seq<BackfillView>
    decreases vals.len(),
{
    if vals.len() == 0 {
        Seq::empty()
    } else {
        let rest = backfill_spec(vals.drop_first(), target);
        if drop_spaces(item_name_of(vals[0])) == drop_spaces(target) {
            seq![
                BackfillView {
                    value_text: item_value_of(vals[0]),
                    value_is_numeric: is_float_text(item_value_of(vals[0])),
                    is_abnormal: item_flag_of(vals[0]),
                },
            ] + rest
        } else {
            rest
        }
    }
}

/// What backfilling recovers from a stored item list text: nothing
/// where the text is not a JSON array.
pub open spec fn backfill_of_text(s: Seq<char>, target: Seq<char>) -> Seq<BackfillView> {
    match parse_json(s) {
        Option::Some(JsonVal::Arr(vals)) => backfill_spec(vals, target),
        _ => Seq::empty(),
    }
}

/// Recover historical values for a freshly added indicator from one
/// stored item list.
pub fn backfill_matches(parsed_items_json: &str, indicator_name: &str) -> (r: Vec<BackfillValue>)
    ensures
        r.deep_view() == backfill_of_text(parsed_items_json@, indicator_name@),
{
    let jc = chars_of(parsed_items_json);
    let vals = match parse_json_text(&jc) {
        Option::Some(JsonValue::Arr(vals)) => vals,
        _ => {
            let out: Vec<BackfillValue> = Vec::new();
            proof {
                assert(out.deep_view() =~= Seq::<BackfillView>::empty());
            }
            return out;
        },
    };
    proof {
        lemma_deep_list_index(vals@);
    }
    let ghost full = deep_list(vals@);
    let tn = chars_of(indicator_name);
    let target_stripped = drop_spaces_exec(&tn);
    let mut out: Vec<BackfillValue> = Vec::new();
    let mut k: usize = 0;
    proof {
        assert(full.skip(0) =~= full);
        assert(out.deep_view() + backfill_spec(full, indicator_name@) =~= backfill_spec(
            full,
            indicator_name@,
        ));
    }
    while k < vals.len()
        invariant
            0 <= k <= vals.len(),
            full == deep_list(vals@),
            full.len() == vals@.len(),
            forall|m: int| 0 <= m < vals@.len() ==> full[m] == deep(vals@[m]),
            target_stripped@ == drop_spaces(indicator_name@),
            backfill_spec(full, indicator_name@) == out.deep_view() + backfill_spec(
                full.skip(k as int),
                indicator_name@,
            ),
        decreases vals@.len() - k,
    {
        let ghost tail = full.skip(k as int);
        proof {
            assert(tail[0] == full[k as int]);
            assert(tail.drop_first() =~= full.skip(k + 1 as int));
        }
        let k_name = chars_of("name");
        let name = match crate::json::value_get(&vals[k], &k_name) {
            Option::Some(JsonValue::Str(s)) => sub_chars(s, 0, s.len()),
            _ => Vec::new(),
        };
        proof {
            assert(name@ == item_name_of(tail[0]));
        }
        let name_stripped = drop_spaces_exec(&name);
        if eq_chars(&name_stripped, &target_stripped) {
            let k_value = chars_of("value");
            let value = match crate::json::value_get(&vals[k], &k_value) {
                Option::Some(JsonValue::Str(s)) => sub_chars(s, 0, s.len()),
                Option::Some(JsonValue::Num(t)) => sub_chars(t, 0, t.len()),
                _ => Vec::new(),
            };
            proof {
                assert(value@ == item_value_of(tail[0]));
            }
            let k_flag = chars_of("is_abnormal");
            let flag = match crate::json::value_get(&vals[k], &k_flag) {
                Option::Some(JsonValue::Bool(b)) => *b,
                _ => false,
            };
            let numeric = float_text_ok(&value);
            let b = BackfillValue {
                value_text: string_from_chars(&value),
                value_is_numeric: numeric,
                is_abnormal: flag,
            };
            let ghost out_old = out.deep_view();
            out.push(b);
            proof {
                assert(out.deep_view() =~= out_old.push(b@));
                assert(out_old + (seq![b@] + backfill_spec(full.skip(k + 1 as int), indicator_name@))
                    =~= out.deep_view() + backfill_spec(full.skip(k + 1 as int), indicator_name@));
            }
        }
        k = k + 1;
    }
    proof {
        assert(full.skip(full.len() as int) =~= Seq::<JsonVal>::empty());
        assert(out.deep_view() + Seq::<BackfillView>::empty() =~= out.deep_view());
    }
    out
}

} // verus!
