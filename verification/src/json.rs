//! A JSON value model with a verified parser and renderer.
//!
//! Model replies, stored item lists and outbound request bodies are all
//! JSON text; this module gives the engine one checked account of that
//! format.  A number keeps the token text it was written with, so the
//! model needs no floating-point values; an object keeps its members in
//! writing order, and a lookup takes the last binding of a key, as a map
//! built by insertion would.  Parsing enforces a nesting cap so that a
//! hostile reply cannot exhaust the stack.

use vstd::prelude::*;
use crate::text::{digits_end, eq_chars, scan_digits, sub_chars};

verus! {

broadcast use vstd::utf8::char_u32_cast;

/// How deep containers may nest before a parse is refused.
pub const NESTING_CAP: usize = 128;

/// The mathematical JSON value.
#[verifier::ext_equal]
pub enum JsonVal {
    Null,
    Bool(bool),
    Num(Seq<char>),
    Str(Seq<char>),
    Arr(Seq<JsonVal>),
    Obj(Seq<(Seq<char>, JsonVal)>),
}

/// The executable JSON value.
pub enum JsonValue {
    Null,
    Bool(bool),
    Num(Vec<char>),
    Str(Vec<char>),
    Arr(Vec<JsonValue>),
    Obj(Vec<(Vec<char>, JsonValue)>),
}

/// The model of an executable value.
pub open spec fn deep(v: JsonValue) -> JsonVal
    decreases v, 0int,
{
    match v {
        JsonValue::Null => JsonVal::Null,
        JsonValue::Bool(b) => JsonVal::Bool(b),
        JsonValue::Num(t) => JsonVal::Num(t@),
        JsonValue::Str(t) => JsonVal::Str(t@),
        JsonValue::Arr(items) => JsonVal::Arr(deep_list(items@)),
        JsonValue::Obj(pairs) => JsonVal::Obj(deep_pairs(pairs@)),
    }
}

/// The model of a list of executable values, element by element.
pub open spec fn deep_list(l: Seq<JsonValue>) -> Seq<JsonVal>
    decreases l, 1int,
{
    if l.len() == 0 {
        Seq::empty()
    } else {
        seq![deep(l[0])] + deep_list(l.drop_first())
    }
}

/// The model of a list of executable members.
pub open spec fn deep_pairs(l: Seq<(Vec<char>, JsonValue)>) -> Seq<(Seq<char>, JsonVal)>
    decreases l, 1int,
{
    if l.len() == 0 {
        Seq::empty()
    } else {
        seq![(l[0].0@, deep(l[0].1))] + deep_pairs(l.drop_first())
    }
}

/// The model list indexes element by element.
pub proof fn lemma_deep_list_index(l: Seq<JsonValue>)
    ensures
        deep_list(l).len() == l.len(),
        forall|i: int| 0 <= i < l.len() ==> deep_list(l)[i] == deep(l[i]),
    decreases l.len(),
{
    if l.len() > 0 {
        lemma_deep_list_index(l.drop_first());
    }
}

/// The model member list indexes element by element.
pub proof fn lemma_deep_pairs_index(l: Seq<(Vec<char>, JsonValue)>)
    ensures
        deep_pairs(l).len() == l.len(),
        forall|i: int|
            0 <= i < l.len() ==> deep_pairs(l)[i] == (l[i].0@, deep(l[i].1)),
    decreases l.len(),
{
    if l.len() > 0 {
        lemma_deep_pairs_index(l.drop_first());
    }
}

impl View for JsonValue {
    type V = JsonVal;

    open spec fn view(&self) -> JsonVal {
        deep(*self)
    }
}

/// JSON's own whitespace: space, tab, line feed, carriage return.
pub open spec fn is_jws(c: char) -> bool {
    c == ' ' || c == '\t' || c == '\n' || c == '\r'
}

/// First index at or after `i` that is not JSON whitespace.
pub open spec fn jws_end(s: Seq<char>, i: int) -> int
    decreases s.len() - i,
{
    if 0 <= i < s.len() && is_jws(s[i]) {
        jws_end(s, i + 1)
    } else {
        i
    }
}

/// JSON whitespace skipping stays in bounds, skips only JSON whitespace,
/// and stops at none.
pub proof fn lemma_jws_end_bounds(s: Seq<char>, i: int)
    requires
        0 <= i <= s.len(),
    ensures
        i <= jws_end(s, i) <= s.len(),
        forall|k: int| i <= k < jws_end(s, i) ==> is_jws(s[k]),
        jws_end(s, i) < s.len() ==> !is_jws(s[jws_end(s, i)]),
    decreases s.len() - i,
{
    if 0 <= i < s.len() && is_jws(s[i]) {
        lemma_jws_end_bounds(s, i + 1);
    }
}

/// Value of a hexadecimal digit, or -1.
pub open spec fn hex_v(c: char) -> int {
    let n = c as u32;
    if 0x30 <= n && n <= 0x39 {
        n - 0x30
    } else if 0x61 <= n && n <= 0x66 {
        n - 0x57
    } else if 0x41 <= n && n <= 0x46 {
        n - 0x37
    } else {
        -1
    }
}

/// Value of the four hexadecimal digits at `i`, or -1.
pub open spec fn hex4(s: Seq<char>, i: int) -> int {
    if 0 <= i && i + 4 <= s.len() && hex_v(s[i]) >= 0 && hex_v(s[i + 1]) >= 0 && hex_v(s[i + 2])
        >= 0 && hex_v(s[i + 3]) >= 0 {
        hex_v(s[i]) * 0x1000 + hex_v(s[i + 1]) * 0x100 + hex_v(s[i + 2]) * 0x10 + hex_v(s[i + 3])
    } else {
        -1
    }
}

/// Decode one escape beginning at `i`, the position after the backslash.
/// Yields the decoded character and the next position.
pub open spec fn esc_scan(s: Seq<char>, i: int) -> Option<(char, int)> {
    if !(0 <= i < s.len()) {
        Option::None
    } else {
        let c = s[i];
        if c == '"' {
            Option::Some(('"', i + 1))
        } else if c == '\\' {
            Option::Some(('\\', i + 1))
        } else if c == '/' {
            Option::Some(('/', i + 1))
        } else if c == 'b' {
            Option::Some(('\u{8}', i + 1))
        } else if c == 'f' {
            Option::Some(('\u{c}', i + 1))
        } else if c == 'n' {
            Option::Some(('\n', i + 1))
        } else if c == 'r' {
            Option::Some(('\r', i + 1))
        } else if c == 't' {
            Option::Some(('\t', i + 1))
        } else if c == 'u' {
            let h = hex4(s, i + 1);
            if h < 0 {
                Option::None
            } else if 0xD800 <= h && h <= 0xDBFF {
                // a high surrogate must pair with a following low one
                if i + 11 <= s.len() && s[i + 5] == '\\' && s[i + 6] == 'u' {
                    let l = hex4(s, i + 7);
                    if 0xDC00 <= l && l <= 0xDFFF {
                        let code = 0x10000 + (h - 0xD800) * 0x400 + (l - 0xDC00);
                        Option::Some(((code as u32) as char, i + 11))
                    } else {
                        Option::None
                    }
                } else {
                    Option::None
                }
            } else if 0xDC00 <= h && h <= 0xDFFF {
                Option::None
            } else {
                Option::Some((((h as u32) as char), i + 5))
            }
        } else {
            Option::None
        }
    }
}

/// Scan string content from `i` (just after the opening quote) up to the
/// closing quote.  Yields the decoded content and the position after the
/// closing quote.
pub open spec fn str_scan(s: Seq<char>, i: int) -> Option<(Seq<char>, int)>
    decreases s.len() - i,
{
    if !(0 <= i < s.len()) {
        Option::None
    } else {
        let c = s[i];
        if c == '"' {
            Option::Some((Seq::empty(), i + 1))
        } else if c == '\\' {
            match esc_scan(s, i + 1) {
                Option::None => Option::None,
                Option::Some((e, j)) => if i + 1 < j <= s.len() {
                    match str_scan(s, j) {
                        Option::None => Option::None,
                        Option::Some((rest, k)) => Option::Some((seq![e] + rest, k)),
                    }
                } else {
                    Option::None
                },
            }
        } else if (c as u32) < 0x20 {
            Option::None
        } else {
            match str_scan(s, i + 1) {
                Option::None => Option::None,
                Option::Some((rest, k)) => Option::Some((seq![c] + rest, k)),
            }
        }
    }
}

/// End of the number token starting at `i`, or `None` where no number of
/// the JSON grammar starts there.
pub open spec fn num_scan(s: Seq<char>, i: int) -> Option<int> {
    if !(0 <= i < s.len()) {
        Option::None
    } else {
        let j = if s[i] == '-' {
            i + 1
        } else {
            i
        };
        let jint = if j < s.len() && s[j] == '0' {
            j + 1
        } else {
            digits_end(s, j)
        };
        if jint == j {
            Option::None
        } else {
            let fend = if jint < s.len() && s[jint] == '.' {
                digits_end(s, jint + 1)
            } else {
                jint
            };
            if jint < s.len() && s[jint] == '.' && fend == jint + 1 {
                Option::None
            } else {
                if fend < s.len() && (s[fend] == 'e' || s[fend] == 'E') {
                    let g = if fend + 1 < s.len() && (s[fend + 1] == '+' || s[fend + 1] == '-') {
                        fend + 2
                    } else {
                        fend + 1
                    };
                    let h = digits_end(s, g);
                    if h == g {
                        Option::None
                    } else {
                        Option::Some(h)
                    }
                } else {
                    Option::Some(fend)
                }
            }
        }
    }
}

/// Parse one value at `i`; `depth` is the remaining nesting budget.
/// Yields the value and the position just after it.
pub open spec fn parse_value(s: Seq<char>, i: int, depth: int) -> Option<(JsonVal, int)>
    decreases s.len() - i, 0int,
{
    if !(0 <= i < s.len()) {
        Option::None
    } else {
        let c = s[i];
        if c == 'n' {
            if i + 4 <= s.len() && s[i + 1] == 'u' && s[i + 2] == 'l' && s[i + 3] == 'l' {
                Option::Some((JsonVal::Null, i + 4))
            } else {
                Option::None
            }
        } else if c == 't' {
            if i + 4 <= s.len() && s[i + 1] == 'r' && s[i + 2] == 'u' && s[i + 3] == 'e' {
                Option::Some((JsonVal::Bool(true), i + 4))
            } else {
                Option::None
            }
        } else if c == 'f' {
            if i + 5 <= s.len() && s[i + 1] == 'a' && s[i + 2] == 'l' && s[i + 3] == 's' && s[i
                + 4] == 'e' {
                Option::Some((JsonVal::Bool(false), i + 5))
            } else {
                Option::None
            }
        } else if c == '"' {
            match str_scan(s, i + 1) {
                Option::None => Option::None,
                Option::Some((t, j)) => Option::Some((JsonVal::Str(t), j)),
            }
        } else if c == '-' || ('0' <= c && c <= '9') {
            match num_scan(s, i) {
                Option::None => Option::None,
                Option::Some(e) => Option::Some((JsonVal::Num(s.subrange(i, e)), e)),
            }
        } else if c == '[' {
            if depth <= 0 {
                Option::None
            } else {
                let j = jws_end(s, i + 1);
                if i < j <= s.len() {
                    if j < s.len() && s[j] == ']' {
                        Option::Some((JsonVal::Arr(Seq::empty()), j + 1))
                    } else {
                        match parse_elems(s, j, depth - 1) {
                            Option::None => Option::None,
                            Option::Some((items, k)) => Option::Some((JsonVal::Arr(items), k)),
                        }
                    }
                } else {
                    Option::None
                }
            }
        } else if c == '{' {
            if depth <= 0 {
                Option::None
            } else {
                let j = jws_end(s, i + 1);
                if i < j <= s.len() {
                    if j < s.len() && s[j] == '}' {
                        Option::Some((JsonVal::Obj(Seq::empty()), j + 1))
                    } else {
                        match parse_members(s, j, depth - 1) {
                            Option::None => Option::None,
                            Option::Some((pairs, k)) => Option::Some((JsonVal::Obj(pairs), k)),
                        }
                    }
                } else {
                    Option::None
                }
            }
        } else {
            Option::None
        }
    }
}

/// Parse the elements of an array from the first element at `i` up to and
/// including the closing bracket.
pub open spec fn parse_elems(s: Seq<char>, i: int, depth: int) -> Option<(Seq<JsonVal>, int)>
    decreases s.len() - i, 1int,
{
    match parse_value(s, i, depth) {
        Option::None => Option::None,
        Option::Some((v, j)) => if i < j <= s.len() {
            let k = jws_end(s, j);
            if j <= k <= s.len() {
                if k < s.len() && s[k] == ',' {
                    let m = jws_end(s, k + 1);
                    if i < m <= s.len() {
                        match parse_elems(s, m, depth) {
                            Option::None => Option::None,
                            Option::Some((rest, e)) => Option::Some((seq![v] + rest, e)),
                        }
                    } else {
                        Option::None
                    }
                } else if k < s.len() && s[k] == ']' {
                    Option::Some((seq![v], k + 1))
                } else {
                    Option::None
                }
            } else {
                Option::None
            }
        } else {
            Option::None
        },
    }
}

/// Parse the members of an object from the first key at `i` up to and
/// including the closing brace.
pub open spec fn parse_members(s: Seq<char>, i: int, depth: int) -> Option<
    (Seq<(Seq<char>, JsonVal)>, int),
>
    decreases s.len() - i, 1int,
{
    if !(0 <= i < s.len() && s[i] == '"') {
        Option::None
    } else {
        match str_scan(s, i + 1) {
            Option::None => Option::None,
            Option::Some((key, j)) => if i < j <= s.len() {
                let p = jws_end(s, j);
                if j <= p <= s.len() && p < s.len() && s[p] == ':' {
                    let q = jws_end(s, p + 1);
                    if i < q <= s.len() {
                        match parse_value(s, q, depth) {
                            Option::None => Option::None,
                            Option::Some((v, r)) => if q < r <= s.len() {
                                let k = jws_end(s, r);
                                if k < s.len() && s[k] == ',' {
                                    let m = jws_end(s, k + 1);
                                    if i < m <= s.len() {
                                        match parse_members(s, m, depth) {
                                            Option::None => Option::None,
                                            Option::Some((rest, e)) => Option::Some(
                                                (seq![(key, v)] + rest, e),
                                            ),
                                        }
                                    } else {
                                        Option::None
                                    }
                                } else if k < s.len() && s[k] == '}' {
                                    Option::Some((seq![(key, v)], k + 1))
                                } else {
                                    Option::None
                                }
                            } else {
                                Option::None
                            },
                        }
                    } else {
                        Option::None
                    }
                } else {
                    Option::None
                }
            } else {
                Option::None
            },
        }
    }
}

/// Parse a whole text as one JSON value: leading and trailing JSON
/// whitespace is allowed, nothing else may follow.
pub open spec fn parse_json(s: Seq<char>) -> Option<JsonVal> {
    let i = jws_end(s, 0);
    if 0 <= i <= s.len() {
        match parse_value(s, i, NESTING_CAP as int) {
            Option::None => Option::None,
            Option::Some((v, j)) => if jws_end(s, j) == s.len() {
                Option::Some(v)
            } else {
                Option::None
            },
        }
    } else {
        Option::None
    }
}

/// The last binding of `key` among the members, as a map built by
/// insertion would hold it.
pub open spec fn obj_lookup(pairs: Seq<(Seq<char>, JsonVal)>, key: Seq<char>) -> Option<JsonVal>
    decreases pairs.len(),
{
    if pairs.len() == 0 {
        Option::None
    } else if pairs.last().0 == key {
        Option::Some(pairs.last().1)
    } else {
        obj_lookup(pairs.drop_last(), key)
    }
}

/// Member lookup on an object value; `None` on any other value.
pub open spec fn jget(v: JsonVal, key: Seq<char>) -> Option<JsonVal> {
    match v {
        JsonVal::Obj(pairs) => obj_lookup(pairs, key),
        _ => Option::None,
    }
}

/// A hexadecimal digit character for a value below 16, lowercase.
pub open spec fn hex_lo(n: int) -> char {
    if n == 0 {
        '0'
    } else if n == 1 {
        '1'
    } else if n == 2 {
        '2'
    } else if n == 3 {
        '3'
    } else if n == 4 {
        '4'
    } else if n == 5 {
        '5'
    } else if n == 6 {
        '6'
    } else if n == 7 {
        '7'
    } else if n == 8 {
        '8'
    } else if n == 9 {
        '9'
    } else if n == 10 {
        'a'
    } else if n == 11 {
        'b'
    } else if n == 12 {
        'c'
    } else if n == 13 {
        'd'
    } else if n == 14 {
        'e'
    } else {
        'f'
    }
}

/// How one character is written inside a rendered JSON string: itself,
/// a short escape, or a `\u00..` escape for the other control characters.
pub open spec fn esc_char(c: char) -> Seq<char> {
    if c == '"' {
        seq!['\\', '"']
    } else if c == '\\' {
        seq!['\\', '\\']
    } else if c == '\u{8}' {
        seq!['\\', 'b']
    } else if c == '\u{c}' {
        seq!['\\', 'f']
    } else if c == '\n' {
        seq!['\\', 'n']
    } else if c == '\r' {
        seq!['\\', 'r']
    } else if c == '\t' {
        seq!['\\', 't']
    } else if (c as u32) < 0x20 {
        seq!['\\', 'u', '0', '0', hex_lo(c as u32 as int / 16), hex_lo(c as u32 as int % 16)]
    } else {
        seq![c]
    }
}

/// The rendered body of a JSON string, character by character.
pub open spec fn render_string_body(s: Seq<char>) -> Seq<char>
    decreases s.len(),
{
    if s.len() == 0 {
        Seq::empty()
    } else {
        esc_char(s[0]) + render_string_body(s.drop_first())
    }
}

/// A rendered JSON string: quoted, escaped body.
pub open spec fn render_string(s: Seq<char>) -> Seq<char> {
    seq!['"'] + render_string_body(s) + seq!['"']
}

/// A rendered JSON value, in the compact form without extra whitespace.
pub open spec fn render_val(v: JsonVal) -> Seq<char>
    decreases v, 0int,
{
    match v {
        JsonVal::Null => seq!['n', 'u', 'l', 'l'],
        JsonVal::Bool(b) => if b {
            seq!['t', 'r', 'u', 'e']
        } else {
            seq!['f', 'a', 'l', 's', 'e']
        },
        JsonVal::Num(t) => t,
        JsonVal::Str(s) => render_string(s),
        JsonVal::Arr(items) => seq!['['] + render_items(items) + seq![']'],
        JsonVal::Obj(pairs) => seq!['{'] + render_members(pairs) + seq!['}'],
    }
}

/// Rendered array elements, comma separated.
pub open spec fn render_items(l: Seq<JsonVal>) -> Seq<char>
    decreases l, 1int,
{
    if l.len() == 0 {
        Seq::empty()
    } else if l.len() == 1 {
        render_val(l[0])
    } else {
        render_val(l[0]) + seq![','] + render_items(l.drop_first())
    }
}

/// Rendered object members, comma separated, `key:value` each.
pub open spec fn render_members(l: Seq<(Seq<char>, JsonVal)>) -> Seq<char>
    decreases l, 1int,
{
    if l.len() == 0 {
        Seq::empty()
    } else {
        let one = render_string(l[0].0) + seq![':'] + render_val(l[0].1);
        if l.len() == 1 {
            one
        } else {
            one + seq![','] + render_members(l.drop_first())
        }
    }
}

/// Append the characters of `src` to `dst`.
pub fn push_all(dst: &mut Vec<char>, src: &Vec<char>)
    ensures
        final(dst)@ == old(dst)@ + src@,
{
    let mut k: usize = 0;
    while k < src.len()
        invariant
            0 <= k <= src.len(),
            dst@ == old(dst)@ + src@.subrange(0, k as int),
        decreases src@.len() - k,
    {
        dst.push(src[k]);
        proof {
            assert(old(dst)@ + src@.subrange(0, k + 1 as int) =~= (old(dst)@ + src@.subrange(
                0,
                k as int,
            )).push(src@[k as int]));
        }
        k = k + 1;
    }
    proof {
        assert(src@.subrange(0, src@.len() as int) =~= src@);
    }
}

/// Append the rendering of one string character to `dst`.
fn esc_push(dst: &mut Vec<char>, c: char)
    ensures
        final(dst)@ == old(dst)@ + esc_char(c),
{
    let ghost base = dst@;
    if c == '"' {
        dst.push('\\');
        dst.push('"');
    } else if c == '\\' {
        dst.push('\\');
        dst.push('\\');
    } else if c == '\u{8}' {
        dst.push('\\');
        dst.push('b');
    } else if c == '\u{c}' {
        dst.push('\\');
        dst.push('f');
    } else if c == '\n' {
        dst.push('\\');
        dst.push('n');
    } else if c == '\r' {
        dst.push('\\');
        dst.push('r');
    } else if c == '\t' {
        dst.push('\\');
        dst.push('t');
    } else if (c as u32) < 0x20 {
        let n = c as u32;
        let hi = n / 16;
        let lo = n % 16;
        let hic = if hi == 0 {
            '0'
        } else {
            '1'
        };
        dst.push('\\');
        dst.push('u');
        dst.push('0');
        dst.push('0');
        dst.push(hic);
        let loc: char = match lo {
            0 => '0',
            1 => '1',
            2 => '2',
            3 => '3',
            4 => '4',
            5 => '5',
            6 => '6',
            7 => '7',
            8 => '8',
            9 => '9',
            10 => 'a',
            11 => 'b',
            12 => 'c',
            13 => 'd',
            14 => 'e',
            _ => 'f',
        };
        dst.push(loc);
        proof {
            assert(hic == hex_lo(n as int / 16));
            assert(loc == hex_lo(n as int % 16));
        }
    } else {
        dst.push(c);
    }
    proof {
        assert(dst@ =~= base + esc_char(c));
    }
}

/// Append the rendering of a whole JSON string (quotes included).
fn render_string_push(dst: &mut Vec<char>, s: &Vec<char>)
    ensures
        final(dst)@ == old(dst)@ + render_string(s@),
{
    let ghost base = dst@;
    dst.push('"');
    let mut k: usize = 0;
    let ghost mut done: Seq<char> = Seq::empty();
    proof {
        assert(s@.skip(0) =~= s@);
        assert(Seq::<char>::empty() + render_string_body(s@) =~= render_string_body(s@));
    }
    while k < s.len()
        invariant
            0 <= k <= s.len(),
            dst@ == base + seq!['"'] + done,
            done + render_string_body(s@.skip(k as int)) == render_string_body(s@),
        decreases s@.len() - k,
    {
        let ghost tail = s@.skip(k as int);
        proof {
            assert(tail.len() > 0);
            assert(tail[0] == s@[k as int]);
            assert(tail.drop_first() =~= s@.skip(k + 1 as int));
            assert(render_string_body(tail) == esc_char(s@[k as int]) + render_string_body(
                s@.skip(k + 1 as int),
            ));
        }
        esc_push(dst, s[k]);
        proof {
            let c = s@[k as int];
            assert((done + esc_char(c)) + render_string_body(s@.skip(k + 1 as int)) =~= done + (
            esc_char(c) + render_string_body(s@.skip(k + 1 as int))));
            done = done + esc_char(c);
            assert(dst@ =~= base + seq!['"'] + done);
        }
        k = k + 1;
    }
    proof {
        assert(render_string_body(s@.skip(s@.len() as int)) =~= Seq::<char>::empty());
        assert(done =~= done + render_string_body(s@.skip(s@.len() as int)));
    }
    dst.push('"');
    proof {
        assert(dst@ =~= base + render_string(s@));
    }
}

/// Skip JSON whitespace from `i`.
fn jws_skip(v: &Vec<char>, i: usize) -> (r: usize)
    requires
        i <= v@.len(),
    ensures
        r as int == jws_end(v@, i as int),
        i <= r <= v@.len(),
{
    let mut k: usize = i;
    while k < v.len() && (v[k] == ' ' || v[k] == '\t' || v[k] == '\n' || v[k] == '\r')
        invariant
            i <= k <= v.len(),
            jws_end(v@, i as int) == jws_end(v@, k as int),
        decreases v@.len() - k,
    {
        k = k + 1;
    }
    k
}

/// Value of a hexadecimal digit character, or -1.
fn hex_digit(c: char) -> (r: i32)
    ensures
        r as int == hex_v(c),
{
    let n = c as u32;
    if 0x30 <= n && n <= 0x39 {
        (n - 0x30) as i32
    } else if 0x61 <= n && n <= 0x66 {
        (n - 0x57) as i32
    } else if 0x41 <= n && n <= 0x46 {
        (n - 0x37) as i32
    } else {
        -1
    }
}

/// Value of the four hexadecimal digits at `i`, or -1.
fn hex4_at(v: &Vec<char>, i: usize) -> (r: i32)
    requires
        i <= v@.len(),
    ensures
        r as int == hex4(v@, i as int),
        -1 <= r < 0x10000,
{
    if v.len() - i < 4 {
        return -1;
    }
    let a = hex_digit(v[i]);
    let b = hex_digit(v[i + 1]);
    let c = hex_digit(v[i + 2]);
    let d = hex_digit(v[i + 3]);
    if a < 0 || b < 0 || c < 0 || d < 0 {
        return -1;
    }
    a * 0x1000 + b * 0x100 + c * 0x10 + d
}

/// A character from its Unicode scalar value.
///
/// Relies on `char::from_u32`: for every value below the surrogate range
/// or between it and the highest code point it returns the character with
/// that value.
#[verifier::external_body]
fn char_from_u32(n: u32) -> (c: char)
    requires
        n < 0xD800 || (0xE000 <= n && n <= 0x10FFFF),
    ensures
        c as u32 == n,
{
    char::from_u32(n).unwrap()
}

/// Decode one escape at `i`, the position after the backslash.
fn esc_decode(v: &Vec<char>, i: usize) -> (r: Option<(char, usize)>)
    requires
        i <= v@.len(),
    ensures
        (match r {
            Option::Some((c, j)) => esc_scan(v@, i as int) == Option::Some((c, j as int)) && i < j
                <= v@.len(),
            Option::None => esc_scan(v@, i as int) is None,
        }),
{
    if i >= v.len() {
        return None;
    }
    let c = v[i];
    if c == '"' || c == '\\' || c == '/' {
        Some((c, i + 1))
    } else if c == 'b' {
        Some(('\u{8}', i + 1))
    } else if c == 'f' {
        Some(('\u{c}', i + 1))
    } else if c == 'n' {
        Some(('\n', i + 1))
    } else if c == 'r' {
        Some(('\r', i + 1))
    } else if c == 't' {
        Some(('\t', i + 1))
    } else if c == 'u' {
        let h = hex4_at(v, i + 1);
        if h < 0 {
            None
        } else if 0xD800 <= h && h <= 0xDBFF {
            if v.len() - i >= 11 && v[i + 5] == '\\' && v[i + 6] == 'u' {
                let l = hex4_at(v, i + 7);
                if 0xDC00 <= l && l <= 0xDFFF {
                    let code: u32 = 0x10000 + (h as u32 - 0xD800) * 0x400 + (l as u32 - 0xDC00);
                    let ch = char_from_u32(code);
                    Some((ch, i + 11))
                } else {
                    None
                }
            } else {
                None
            }
        } else if 0xDC00 <= h && h <= 0xDFFF {
            None
        } else {
            let ch = char_from_u32(h as u32);
            Some((ch, i + 5))
        }
    } else {
        None
    }
}

/// Scan string content from `i` up to the closing quote.
fn str_scan_at(v: &Vec<char>, i: usize) -> (r: Option<(Vec<char>, usize)>)
    requires
        i <= v@.len(),
    ensures
        (match r {
            Option::Some((t, j)) => str_scan(v@, i as int) == Option::Some((t@, j as int)) && i < j
                <= v@.len(),
            Option::None => str_scan(v@, i as int) is None,
        }),
{
    let mut acc: Vec<char> = Vec::new();
    let mut cur: usize = i;
    proof {
        match str_scan(v@, i as int) {
            Option::Some((t, j)) => {
                assert(Seq::<char>::empty() + t =~= t);
            },
            Option::None => {},
        }
    }
    loop
        invariant
            i <= cur <= v@.len(),
            (match str_scan(v@, cur as int) {
                Option::Some((t, j)) => str_scan(v@, i as int) == Option::Some((acc@ + t, j)),
                Option::None => str_scan(v@, i as int) is None,
            }),
        decreases v@.len() - cur,
    {
        if cur >= v.len() {
            return None;
        }
        let c = v[cur];
        if c == '"' {
            proof {
                assert(acc@ + Seq::<char>::empty() =~= acc@);
            }
            return Some((acc, cur + 1));
        }
        if c == '\\' {
            match esc_decode(v, cur + 1) {
                None => {
                    return None;
                },
                Some((e, j)) => {
                    let ghost acc_old = acc@;
                    acc.push(e);
                    proof {
                        match str_scan(v@, j as int) {
                            Option::Some((t2, k2)) => {
                                assert(str_scan(v@, cur as int) == Option::Some(
                                    (seq![e] + t2, k2),
                                ));
                                assert(acc_old + (seq![e] + t2) =~= acc@ + t2);
                            },
                            Option::None => {
                                assert(str_scan(v@, cur as int) is None);
                            },
                        }
                    }
                    cur = j;
                },
            }
        } else if (c as u32) < 0x20 {
            return None;
        } else {
            let ghost acc_old = acc@;
            acc.push(c);
            proof {
                match str_scan(v@, cur + 1 as int) {
                    Option::Some((t2, k2)) => {
                        assert(str_scan(v@, cur as int) == Option::Some((seq![c] + t2, k2)));
                        assert(acc_old + (seq![c] + t2) =~= acc@ + t2);
                    },
                    Option::None => {
                        assert(str_scan(v@, cur as int) is None);
                    },
                }
            }
            cur = cur + 1;
        }
    }
}

/// End of the number token starting at `i`.
fn num_end(v: &Vec<char>, i: usize) -> (r: Option<usize>)
    requires
        i <= v@.len(),
    ensures
        (match r {
            Option::Some(e) => num_scan(v@, i as int) == Option::Some(e as int) && i < e
                <= v@.len(),
            Option::None => num_scan(v@, i as int) is None,
        }),
{
    if i >= v.len() {
        return None;
    }
    let j: usize = if v[i] == '-' {
        i + 1
    } else {
        i
    };
    let jint: usize = if j < v.len() && v[j] == '0' {
        j + 1
    } else {
        scan_digits(v, j)
    };
    if jint == j {
        return None;
    }
    let fend: usize = if jint < v.len() && v[jint] == '.' {
        scan_digits(v, jint + 1)
    } else {
        jint
    };
    if jint < v.len() && v[jint] == '.' && fend == jint + 1 {
        return None;
    }
    if fend < v.len() && (v[fend] == 'e' || v[fend] == 'E') {
        let g: usize = if fend + 1 < v.len() && (v[fend + 1] == '+' || v[fend + 1] == '-') {
            fend + 2
        } else {
            fend + 1
        };
        let h = scan_digits(v, g);
        if h == g {
            None
        } else {
            Some(h)
        }
    } else {
        Some(fend)
    }
}

/// Parse one value at `i` with the given nesting budget.
fn parse_value_at(v: &Vec<char>, i: usize, depth: usize) -> (r: Option<(JsonValue, usize)>)
    requires
        i <= v@.len(),
    ensures
        (match r {
            Option::Some((jv, j)) => parse_value(v@, i as int, depth as int) == Option::Some(
                (jv@, j as int),
            ) && i < j <= v@.len(),
            Option::None => parse_value(v@, i as int, depth as int) is None,
        }),
    decreases v@.len() - i, 0int,
{
    if i >= v.len() {
        return None;
    }
    let c = v[i];
    if c == 'n' {
        if v.len() - i >= 4 && v[i + 1] == 'u' && v[i + 2] == 'l' && v[i + 3] == 'l' {
            Some((JsonValue::Null, i + 4))
        } else {
            None
        }
    } else if c == 't' {
        if v.len() - i >= 4 && v[i + 1] == 'r' && v[i + 2] == 'u' && v[i + 3] == 'e' {
            Some((JsonValue::Bool(true), i + 4))
        } else {
            None
        }
    } else if c == 'f' {
        if v.len() - i >= 5 && v[i + 1] == 'a' && v[i + 2] == 'l' && v[i + 3] == 's' && v[i + 4]
            == 'e' {
            Some((JsonValue::Bool(false), i + 5))
        } else {
            None
        }
    } else if c == '"' {
        match str_scan_at(v, i + 1) {
            None => None,
            Some((t, j)) => Some((JsonValue::Str(t), j)),
        }
    } else if c == '-' || ('0' <= c && c <= '9') {
        match num_end(v, i) {
            None => None,
            Some(e) => {
                let tok = sub_chars(v, i, e);
                Some((JsonValue::Num(tok), e))
            },
        }
    } else if c == '[' {
        if depth == 0 {
            return None;
        }
        let j = jws_skip(v, i + 1);
        if j < v.len() && v[j] == ']' {
            let items: Vec<JsonValue> = Vec::new();
            proof {
                assert(deep_list(items@) =~= Seq::<JsonVal>::empty());
            }
            Some((JsonValue::Arr(items), j + 1))
        } else {
            match parse_elems_at(v, j, depth - 1) {
                None => None,
                Some((items, k)) => Some((JsonValue::Arr(items), k)),
            }
        }
    } else if c == '{' {
        if depth == 0 {
            return None;
        }
        let j = jws_skip(v, i + 1);
        if j < v.len() && v[j] == '}' {
            let pairs: Vec<(Vec<char>, JsonValue)> = Vec::new();
            proof {
                assert(deep_pairs(pairs@) =~= Seq::<(Seq<char>, JsonVal)>::empty());
            }
            Some((JsonValue::Obj(pairs), j + 1))
        } else {
            match parse_members_at(v, j, depth - 1) {
                None => None,
                Some((pairs, k)) => Some((JsonValue::Obj(pairs), k)),
            }
        }
    } else {
        None
    }
}

/// Parse array elements from `i` up to the closing bracket.
fn parse_elems_at(v: &Vec<char>, i: usize, depth: usize) -> (r: Option<(Vec<JsonValue>, usize)>)
    requires
        i <= v@.len(),
    ensures
        (match r {
            Option::Some((items, k)) => parse_elems(v@, i as int, depth as int) == Option::Some(
                (deep_list(items@), k as int),
            ) && i < k <= v@.len(),
            Option::None => parse_elems(v@, i as int, depth as int) is None,
        }),
    decreases v@.len() - i, 1int,
{
    match parse_value_at(v, i, depth) {
        None => None,
        Some((val, j)) => {
            let k = jws_skip(v, j);
            if k < v.len() && v[k] == ',' {
                let m = jws_skip(v, k + 1);
                match parse_elems_at(v, m, depth) {
                    None => None,
                    Some((rest, e)) => {
                        let ghost rest_view = rest@;
                        let mut items = rest;
                        items.insert(0, val);
                        proof {
                            assert(items@.drop_first() =~= rest_view);
                            assert(deep_list(items@) =~= seq![deep(val)] + deep_list(rest_view));
                        }
                        Some((items, e))
                    },
                }
            } else if k < v.len() && v[k] == ']' {
                let mut items: Vec<JsonValue> = Vec::new();
                items.push(val);
                proof {
                    assert(items@.drop_first() =~= Seq::<JsonValue>::empty());
                    assert(deep_list(Seq::<JsonValue>::empty()) =~= Seq::<JsonVal>::empty());
                    assert(items@[0] == val);
                    assert(deep_list(items@) =~= seq![deep(val)]);
                }
                Some((items, k + 1))
            } else {
                None
            }
        },
    }
}

/// Parse object members from `i` up to the closing brace.
fn parse_members_at(v: &Vec<char>, i: usize, depth: usize) -> (r: Option<
    (Vec<(Vec<char>, JsonValue)>, usize),
>)
    requires
        i <= v@.len(),
    ensures
        (match r {
            Option::Some((pairs, k)) => parse_members(v@, i as int, depth as int) == Option::Some(
                (deep_pairs(pairs@), k as int),
            ) && i < k <= v@.len(),
            Option::None => parse_members(v@, i as int, depth as int) is None,
        }),
    decreases v@.len() - i, 1int,
{
    if !(i < v.len() && v[i] == '"') {
        return None;
    }
    match str_scan_at(v, i + 1) {
        None => None,
        Some((key, j)) => {
            let p = jws_skip(v, j);
            if p < v.len() && v[p] == ':' {
                let q = jws_skip(v, p + 1);
                match parse_value_at(v, q, depth) {
                    None => None,
                    Some((val, r0)) => {
                        let k = jws_skip(v, r0);
                        if k < v.len() && v[k] == ',' {
                            let m = jws_skip(v, k + 1);
                            match parse_members_at(v, m, depth) {
                                None => None,
                                Some((rest, e)) => {
                                    let ghost rest_view = rest@;
                                    let ghost kv = (key@, val@);
                                    let mut pairs = rest;
                                    pairs.insert(0, (key, val));
                                    proof {
                                        assert(pairs@.drop_first() =~= rest_view);
                                        assert(deep_pairs(pairs@) =~= seq![kv] + deep_pairs(
                                            rest_view,
                                        ));
                                    }
                                    Some((pairs, e))
                                },
                            }
                        } else if k < v.len() && v[k] == '}' {
                            let ghost kv = (key@, val@);
                            let mut pairs: Vec<(Vec<char>, JsonValue)> = Vec::new();
                            pairs.push((key, val));
                            proof {
                                assert(pairs@.drop_first() =~= Seq::<(Vec<char>, JsonValue)>::empty());
                                assert(deep_pairs(Seq::<(Vec<char>, JsonValue)>::empty()) =~= Seq::<
                                    (Seq<char>, JsonVal),
                                >::empty());
                                assert(pairs@[0].0 == key && pairs@[0].1 == val);
                                assert(deep_pairs(pairs@) =~= seq![kv]);
                            }
                            Some((pairs, k + 1))
                        } else {
                            None
                        }
                    },
                }
            } else {
                None
            }
        },
    }
}

/// Parse a whole text as one JSON value.
pub fn parse_json_text(v: &Vec<char>) -> (r: Option<JsonValue>)
    ensures
        (match r {
            Option::Some(jv) => parse_json(v@) == Option::Some(jv@),
            Option::None => parse_json(v@) is None,
        }),
{
    let i = jws_skip(v, 0);
    match parse_value_at(v, i, NESTING_CAP) {
        None => None,
        Some((jv, j)) => {
            let k = jws_skip(v, j);
            if k == v.len() {
                Some(jv)
            } else {
                None
            }
        },
    }
}

/// The last binding of `key` among the executable members.
pub fn obj_get<'a>(pairs: &'a Vec<(Vec<char>, JsonValue)>, key: &Vec<char>) -> (r: Option<
    &'a JsonValue,
>)
    ensures
        (match r {
            Option::Some(jv) => obj_lookup(deep_pairs(pairs@), key@) == Option::Some(jv@),
            Option::None => obj_lookup(deep_pairs(pairs@), key@) is None,
        }),
{
    proof {
        lemma_deep_pairs_index(pairs@);
    }
    let ghost full = deep_pairs(pairs@);
    proof {
        assert(full.subrange(0, full.len() as int) =~= full);
    }
    let mut idx: usize = pairs.len();
    while idx > 0
        invariant
            0 <= idx <= pairs.len(),
            full == deep_pairs(pairs@),
            full.len() == pairs@.len(),
            forall|m: int| 0 <= m < pairs@.len() ==> full[m] == (pairs@[m].0@, deep(pairs@[m].1)),
            obj_lookup(full, key@) == obj_lookup(full.subrange(0, idx as int), key@),
        decreases idx,
    {
        if eq_chars(&pairs[idx - 1].0, key) {
            proof {
                assert(full.subrange(0, idx as int).last() == full[idx - 1]);
            }
            return Some(&pairs[idx - 1].1);
        }
        proof {
            assert(full.subrange(0, idx as int).last() == full[idx - 1]);
            assert(full.subrange(0, idx as int).drop_last() =~= full.subrange(0, idx - 1 as int));
        }
        idx = idx - 1;
    }
    proof {
        assert(full.subrange(0, 0) =~= Seq::<(Seq<char>, JsonVal)>::empty());
    }
    None
}

/// Render a value as compact JSON text.
pub fn render_value(v: &JsonValue) -> (r: Vec<char>)
    ensures
        r@ == render_val(v@),
    decreases v, 0int,
{
    match v {
        JsonValue::Null => {
            let mut r: Vec<char> = Vec::new();
            r.push('n');
            r.push('u');
            r.push('l');
            r.push('l');
            proof {
                assert(r@ =~= render_val(v@));
            }
            r
        },
        JsonValue::Bool(b) => {
            let mut r: Vec<char> = Vec::new();
            if *b {
                r.push('t');
                r.push('r');
                r.push('u');
                r.push('e');
            } else {
                r.push('f');
                r.push('a');
                r.push('l');
                r.push('s');
                r.push('e');
            }
            proof {
                assert(r@ =~= render_val(v@));
            }
            r
        },
        JsonValue::Num(t) => {
            let mut r: Vec<char> = Vec::new();
            push_all(&mut r, t);
            proof {
                assert(r@ =~= render_val(v@));
            }
            r
        },
        JsonValue::Str(s) => {
            let mut r: Vec<char> = Vec::new();
            render_string_push(&mut r, s);
            proof {
                assert(r@ =~= render_val(v@));
            }
            r
        },
        JsonValue::Arr(items) => {
            let mut r: Vec<char> = Vec::new();
            r.push('[');
            if items.len() > 0 {
                let body = render_items_from(items, 0);
                push_all(&mut r, &body);
                proof {
                    assert(deep_list(items@).skip(0) =~= deep_list(items@));
                }
            } else {
                proof {
                    assert(deep_list(items@) =~= Seq::<JsonVal>::empty());
                }
            }
            r.push(']');
            proof {
                assert(r@ =~= seq!['['] + render_items(deep_list(items@)) + seq![']']);
            }
            r
        },
        JsonValue::Obj(pairs) => {
            let mut r: Vec<char> = Vec::new();
            r.push('{');
            if pairs.len() > 0 {
                let body = render_members_from(pairs, 0);
                push_all(&mut r, &body);
                proof {
                    assert(deep_pairs(pairs@).skip(0) =~= deep_pairs(pairs@));
                }
            } else {
                proof {
                    assert(deep_pairs(pairs@) =~= Seq::<(Seq<char>, JsonVal)>::empty());
                }
            }
            r.push('}');
            proof {
                assert(r@ =~= seq!['{'] + render_members(deep_pairs(pairs@)) + seq!['}']);
            }
            r
        },
    }
}

/// Render the elements from `idx` on, comma separated.
fn render_items_from(items: &Vec<JsonValue>, idx: usize) -> (r: Vec<char>)
    requires
        idx < items.len(),
    ensures
        r@ == render_items(deep_list(items@).skip(idx as int)),
    decreases items, items@.len() - idx,
{
    let ghost l = deep_list(items@).skip(idx as int);
    proof {
        lemma_deep_list_index(items@);
        assert(l.len() == items@.len() - idx);
        assert(l[0] == deep(items@[idx as int]));
    }
    let mut r = render_value(&items[idx]);
    if idx + 1 < items.len() {
        r.push(',');
        let rest = render_items_from(items, idx + 1);
        push_all(&mut r, &rest);
        proof {
            assert(l.drop_first() =~= deep_list(items@).skip(idx + 1 as int));
            assert(r@ =~= render_items(l));
        }
    } else {
        proof {
            assert(l.len() == 1);
            assert(r@ =~= render_items(l));
        }
    }
    r
}

/// Render the members from `idx` on, comma separated.
fn render_members_from(pairs: &Vec<(Vec<char>, JsonValue)>, idx: usize) -> (r: Vec<char>)
    requires
        idx < pairs.len(),
    ensures
        r@ == render_members(deep_pairs(pairs@).skip(idx as int)),
    decreases pairs, pairs@.len() - idx,
{
    let ghost l = deep_pairs(pairs@).skip(idx as int);
    proof {
        lemma_deep_pairs_index(pairs@);
        assert(l.len() == pairs@.len() - idx);
        assert(l[0] == (pairs@[idx as int].0@, deep(pairs@[idx as int].1)));
    }
    let mut r: Vec<char> = Vec::new();
    render_string_push(&mut r, &pairs[idx].0);
    r.push(':');
    let val = render_value(&pairs[idx].1);
    push_all(&mut r, &val);
    if idx + 1 < pairs.len() {
        r.push(',');
        let rest = render_members_from(pairs, idx + 1);
        push_all(&mut r, &rest);
        proof {
            assert(l.drop_first() =~= deep_pairs(pairs@).skip(idx + 1 as int));
            assert(r@ =~= render_members(l));
        }
    } else {
        proof {
            assert(l.len() == 1);
            assert(r@ =~= render_members(l));
        }
    }
    r
}

/// Member lookup on an executable value; `None` on any other value.
pub fn value_get<'a>(v: &'a JsonValue, key: &Vec<char>) -> (r: Option<&'a JsonValue>)
    ensures
        (match r {
            Option::Some(jv) => jget(v@, key@) == Option::Some(jv@),
            Option::None => jget(v@, key@) is None,
        }),
{
    match v {
        JsonValue::Obj(pairs) => obj_get(pairs, key),
        _ => None,
    }
}

} // verus!
