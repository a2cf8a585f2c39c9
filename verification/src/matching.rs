//! Fuzzy matching of reading names against catalog indicator names.
//!
//! Both names are trimmed and lowercased; they match on equality, on
//! containment either way, and failing that on equality or containment
//! of their parenthesis-stripped forms, so that `血糖` finds the catalog
//! entry `血糖(空腹)`.

use vstd::prelude::*;
use crate::text::{
    chars_of, contains_chars, contains_seq, eq_chars, lower_of, lower_str, string_from_chars,
    trim_chars, trim_spec,
};

verus! {

/// What is left of `s[i..]` when parenthesized spans are removed: an
/// opening mark (ASCII or full-width) raises the depth, a closing one
/// lowers it, and only characters seen at depth zero are kept.
pub open spec fn strip_parens_spec(s: Seq<char>, i: int, depth: int) -> Seq<char>
    decreases s.len() - i,
{
    if !(0 <= i < s.len()) {
        Seq::empty()
    } else {
        let c = s[i];
        if c == '(' || c == '（' {
            strip_parens_spec(s, i + 1, depth + 1)
        } else if c == ')' || c == '）' {
            strip_parens_spec(s, i + 1, depth - 1)
        } else if depth == 0 {
            seq![c] + strip_parens_spec(s, i + 1, depth)
        } else {
            strip_parens_spec(s, i + 1, depth)
        }
    }
}

/// The parenthesis-stripped, re-trimmed form of a name.
pub open spec fn stripped_form(s: Seq<char>) -> Seq<char> {
    trim_spec(strip_parens_spec(s, 0, 0))
}

/// The normal form under which names are compared.
pub open spec fn norm_of(s: Seq<char>) -> Seq<char> {
    lower_of(trim_spec(s))
}

/// The name-equivalence rule linking a reading name to an indicator name.
pub open spec fn fuzzy_match_spec(a0: Seq<char>, b0: Seq<char>) -> bool {
    let a = norm_of(a0);
    let b = norm_of(b0);
    a == b || contains_seq(a, b) || contains_seq(b, a) || {
        let a2 = stripped_form(a);
        let b2 = stripped_form(b);
        a2 == b2 || contains_seq(a2, b2) || contains_seq(b2, a2)
    }
}

/// Remove parenthesized spans from a name.
fn strip_parens(v: &Vec<char>) -> (r: Vec<char>)
    ensures
        r@ == strip_parens_spec(v@, 0, 0),
{
    let mut r: Vec<char> = Vec::new();
    let mut i: usize = 0;
    let mut depth: i128 = 0;
    while i < v.len()
        invariant
            0 <= i <= v.len(),
            -(i as int) <= depth as int <= i as int,
            strip_parens_spec(v@, 0, 0) == r@ + strip_parens_spec(v@, i as int, depth as int),
        decreases v@.len() - i,
    {
        let c = v[i];
        if c == '(' || c == '（' {
            depth = depth + 1;
        } else if c == ')' || c == '）' {
            depth = depth - 1;
        } else if depth == 0 {
            let ghost r_old = r@;
            r.push(c);
            proof {
                assert(r_old + (seq![c] + strip_parens_spec(v@, i + 1, depth as int)) =~= r@
                    + strip_parens_spec(v@, i + 1, depth as int));
            }
        }
        i = i + 1;
    }
    proof {
        assert(r@ + strip_parens_spec(v@, i as int, depth as int) =~= r@);
    }
    r
}

/// The normal form of a name, as characters.
fn normalize(s: &str) -> (r: Vec<char>)
    ensures
        r@ == norm_of(s@),
{
    let v = chars_of(s);
    let t = trim_chars(&v);
    let ts = string_from_chars(&t);
    let lo = lower_str(ts.as_str());
    chars_of(lo.as_str())
}

/// The parenthesis-stripped, re-trimmed form, as characters.
fn stripped(v: &Vec<char>) -> (r: Vec<char>)
    ensures
        r@ == stripped_form(v@),
{
    let sp = strip_parens(v);
    trim_chars(&sp)
}

/// Whether a reading name names the given catalog indicator.
pub fn name_fuzzy_match(indicator_name: &str, ocr_name: &str) -> (r: bool)
    ensures
        r == fuzzy_match_spec(indicator_name@, ocr_name@),
{
    let a = normalize(indicator_name);
    let b = normalize(ocr_name);
    if eq_chars(&a, &b) {
        return true;
    }
    if contains_chars(&a, &b) || contains_chars(&b, &a) {
        return true;
    }
    let a2 = stripped(&a);
    let b2 = stripped(&b);
    eq_chars(&a2, &b2) || contains_chars(&a2, &b2) || contains_chars(&b2, &a2)
}

} // verus!
