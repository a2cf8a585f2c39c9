//! Character-level text utilities.
//!
//! The engine works on `Vec<char>` so that every comparison and scan is
//! verified; this module holds the whitespace model, trimming, substring
//! search, the documented grammar of 64-bit float texts, and the few
//! trusted bridges to `std` string routines whose behaviour is not worth
//! restating (Unicode case folding, lossy UTF-8 decoding).

use vstd::prelude::*;

verus! {

/// The Unicode `White_Space` code points, the set `char::is_whitespace`
/// is documented to test.
pub open spec fn is_ws(c: char) -> bool {
    let n = c as u32;
    (0x09 <= n && n <= 0x0D) || n == 0x20 || n == 0x85 || n == 0xA0 || n == 0x1680 || (0x2000
        <= n && n <= 0x200A) || n == 0x2028 || n == 0x2029 || n == 0x202F || n == 0x205F || n
        == 0x3000
}

/// Whitespace test over the spec set above.
pub fn is_ws_char(c: char) -> (r: bool)
    ensures
        r == is_ws(c),
{
    let n = c as u32;
    (0x09 <= n && n <= 0x0D) || n == 0x20 || n == 0x85 || n == 0xA0 || n == 0x1680 || (0x2000
        <= n && n <= 0x200A) || n == 0x2028 || n == 0x2029 || n == 0x202F || n == 0x205F || n
        == 0x3000
}

/// First index at or after `i` whose character is not whitespace.
pub open spec fn ws_prefix_end(s: Seq<char>, i: int) -> int
    decreases s.len() - i,
{
    if 0 <= i < s.len() && is_ws(s[i]) {
        ws_prefix_end(s, i + 1)
    } else {
        i
    }
}

/// Last index at or before `j` such that every character from there to `j`
/// is whitespace.
pub open spec fn ws_suffix_start(s: Seq<char>, j: int) -> int
    decreases j,
{
    if 0 < j <= s.len() && is_ws(s[j - 1]) {
        ws_suffix_start(s, j - 1)
    } else {
        j
    }
}

/// What `trim` leaves: the interior once leading and trailing whitespace
/// is removed.
pub open spec fn trim_spec(s: Seq<char>) -> Seq<char> {
    let a = ws_prefix_end(s, 0);
    let b = ws_suffix_start(s, s.len() as int);
    if a <= b {
        s.subrange(a, b)
    } else {
        Seq::empty()
    }
}

pub proof fn lemma_ws_prefix_end_bounds(s: Seq<char>, i: int)
    requires
        0 <= i <= s.len(),
    ensures
        i <= ws_prefix_end(s, i) <= s.len(),
        forall|k: int| i <= k < ws_prefix_end(s, i) ==> is_ws(s[k]),
        ws_prefix_end(s, i) < s.len() ==> !is_ws(s[ws_prefix_end(s, i)]),
    decreases s.len() - i,
{
    if 0 <= i < s.len() && is_ws(s[i]) {
        lemma_ws_prefix_end_bounds(s, i + 1);
    }
}

pub proof fn lemma_ws_suffix_start_bounds(s: Seq<char>, j: int)
    requires
        0 <= j <= s.len(),
    ensures
        0 <= ws_suffix_start(s, j) <= j,
        forall|k: int| ws_suffix_start(s, j) <= k < j ==> is_ws(s[k]),
        ws_suffix_start(s, j) > 0 ==> !is_ws(s[ws_suffix_start(s, j) - 1]),
    decreases j,
{
    if 0 < j <= s.len() && is_ws(s[j - 1]) {
        lemma_ws_suffix_start_bounds(s, j - 1);
    }
}

/// Remove leading and trailing whitespace.
pub fn trim_chars(v: &Vec<char>) -> (r: Vec<char>)
    ensures
        r@ == trim_spec(v@),
{
    let ghost s = v@;
    let mut a: usize = 0;
    while a < v.len() && is_ws_char(v[a])
        invariant
            0 <= a <= v.len(),
            s == v@,
            ws_prefix_end(s, 0) == ws_prefix_end(s, a as int),
        decreases v.len() - a,
    {
        a = a + 1;
    }
    let mut b: usize = v.len();
    while b > a && is_ws_char(v[b - 1])
        invariant
            a <= b <= v.len(),
            s == v@,
            ws_suffix_start(s, s.len() as int) == ws_suffix_start(s, b as int),
        decreases b,
    {
        b = b - 1;
    }
    let mut r: Vec<char> = Vec::new();
    let mut k: usize = a;
    while k < b
        invariant
            a <= k <= b <= v.len(),
            s == v@,
            r@ == s.subrange(a as int, k as int),
        decreases b - k,
    {
        r.push(v[k]);
        proof {
            assert(r@ == s.subrange(a as int, k + 1 as int)) by {
                assert(s.subrange(a as int, k + 1 as int) == s.subrange(a as int, k as int).push(
                    s[k as int],
                ));
            }
        }
        k = k + 1;
    }
    proof {
        let pe = ws_prefix_end(s, 0);
        let ss = ws_suffix_start(s, s.len() as int);
        assert(pe == a as int);
        if b > a {
            assert(!is_ws(s[b - 1]));
            assert(ws_suffix_start(s, b as int) == b as int);
            assert(r@ =~= trim_spec(s));
        } else {
            assert(r@.len() == 0);
            lemma_ws_suffix_start_bounds(s, b as int);
            assert(ss <= a as int);
            assert(r@ =~= trim_spec(s));
        }
    }
    r
}

/// `b` occurs in `a` as a contiguous run starting at `i`.
pub open spec fn occurs_at(a: Seq<char>, b: Seq<char>, i: int) -> bool {
    0 <= i && i + b.len() <= a.len() && a.subrange(i, i + b.len()) == b
}

/// `b` occurs somewhere in `a` (every string contains the empty one).
pub open spec fn contains_seq(a: Seq<char>, b: Seq<char>) -> bool {
    exists|i: int| occurs_at(a, b, i)
}

/// Whether `b` occurs in `a` starting at `i`.
fn matches_at(a: &Vec<char>, b: &Vec<char>, i: usize) -> (r: bool)
    requires
        i + b@.len() <= a@.len(),
    ensures
        r == occurs_at(a@, b@, i as int),
{
    let mut k: usize = 0;
    while k < b.len()
        invariant
            0 <= k <= b.len(),
            i + b.len() <= a.len(),
            forall|m: int| 0 <= m < k ==> a@[i + m] == b@[m],
        decreases b@.len() - k,
    {
        if a[i + k] != b[k] {
            assert(a@.subrange(i as int, i + b@.len()) != b@) by {
                assert(a@.subrange(i as int, i + b@.len())[k as int] == a@[i + k]);
            }
            return false;
        }
        k = k + 1;
    }
    proof {
        assert(a@.subrange(i as int, i + b@.len()) =~= b@);
    }
    true
}

/// Substring search: does `b` occur anywhere in `a`?
pub fn contains_chars(a: &Vec<char>, b: &Vec<char>) -> (r: bool)
    ensures
        r == contains_seq(a@, b@),
{
    if b.len() > a.len() {
        assert(!contains_seq(a@, b@));
        return false;
    }
    if b.len() == 0 {
        assert(occurs_at(a@, b@, 0)) by {
            assert(a@.subrange(0, 0) =~= b@);
        }
        return true;
    }
    let mut i: usize = 0;
    while i <= a.len() - b.len()
        invariant
            1 <= b.len() <= a.len(),
            0 <= i <= a.len() - b.len() + 1,
            forall|m: int| 0 <= m < i ==> !occurs_at(a@, b@, m),
        decreases a@.len() - b@.len() - i + 1,
    {
        if matches_at(a, b, i) {
            return true;
        }
        i = i + 1;
    }
    proof {
        assert forall|m: int| occurs_at(a@, b@, m) implies false by {
            assert(0 <= m <= a@.len() - b@.len());
        }
    }
    false
}

/// Whether the character `c` occurs in `v`.
pub fn contains_char(v: &Vec<char>, c: char) -> (r: bool)
    ensures
        r == v@.contains(c),
{
    let mut k: usize = 0;
    while k < v.len()
        invariant
            0 <= k <= v.len(),
            forall|m: int| 0 <= m < k ==> v@[m] != c,
        decreases v@.len() - k,
    {
        if v[k] == c {
            return true;
        }
        k = k + 1;
    }
    false
}

/// Character-sequence equality of two vectors.
pub fn eq_chars(a: &Vec<char>, b: &Vec<char>) -> (r: bool)
    ensures
        r == (a@ == b@),
{
    if a.len() != b.len() {
        return false;
    }
    let mut k: usize = 0;
    while k < a.len()
        invariant
            a@.len() == b@.len(),
            0 <= k <= a@.len(),
            forall|m: int| 0 <= m < k ==> a@[m] == b@[m],
        decreases a@.len() - k,
    {
        if a[k] != b[k] {
            return false;
        }
        k = k + 1;
    }
    proof {
        assert(a@ =~= b@);
    }
    true
}

/// Whether `v` starts with prefix `p`.
pub fn starts_with_chars(v: &Vec<char>, p: &Vec<char>) -> (r: bool)
    ensures
        r == (p@.len() <= v@.len() && v@.subrange(0, p@.len() as int) == p@),
{
    if p.len() > v.len() {
        return false;
    }
    matches_at(v, p, 0)
}

/// Whether `v` ends with suffix `p`.
pub fn ends_with_chars(v: &Vec<char>, p: &Vec<char>) -> (r: bool)
    ensures
        r == (p@.len() <= v@.len() && v@.subrange(v@.len() - p@.len(), v@.len() as int) == p@),
{
    if p.len() > v.len() {
        return false;
    }
    matches_at(v, p, v.len() - p.len())
}

/// The characters of a string slice, one element per `char`.
///
/// Relies on `str::chars`: it yields exactly the characters of the slice,
/// which is the view Verus gives the slice.
#[verifier::external_body]
pub fn chars_of(s: &str) -> (r: Vec<char>)
    ensures
        r@ == s@,
{
    s.chars().collect()
}

/// A `String` holding exactly the given characters.
///
/// Relies on `FromIterator<char> for String`: collecting characters builds
/// the string of those characters in order.
#[verifier::external_body]
pub fn string_from_chars(v: &Vec<char>) -> (r: String)
    ensures
        r@ == v@,
{
    v.iter().collect()
}

/// What `str::to_lowercase` returns: a function of the characters alone.
pub uninterp spec fn lower_of(s: Seq<char>) -> Seq<char>;

/// Unicode-aware lowercasing.
///
/// Relies on `str::to_lowercase`: the result depends on the characters of
/// the input alone.
#[verifier::external_body]
pub fn lower_str(s: &str) -> (r: String)
    ensures
        r@ == lower_of(s@),
{
    s.to_lowercase()
}

/// What lossy UTF-8 decoding yields for a byte sequence.
pub uninterp spec fn utf8_lossy_of(b: Seq<u8>) -> Seq<char>;

/// Decode bytes as UTF-8, replacing invalid sequences.
///
/// Relies on `String::from_utf8_lossy`: the result depends on the bytes
/// alone.
#[verifier::external_body]
pub fn utf8_lossy(b: &Vec<u8>) -> (r: String)
    ensures
        r@ == utf8_lossy_of(b@),
{
    String::from_utf8_lossy(b).into_owned()
}

/// First index at or after `i` whose character is not an ASCII digit.
pub open spec fn digits_end(s: Seq<char>, i: int) -> int
    decreases s.len() - i,
{
    if 0 <= i < s.len() && '0' <= s[i] && s[i] <= '9' {
        digits_end(s, i + 1)
    } else {
        i
    }
}

/// Case-insensitive match of `t` against an ASCII lowercase word `w`.
pub open spec fn matches_word_ci(t: Seq<char>, w: Seq<char>) -> bool {
    t.len() == w.len() && forall|i: int|
        0 <= i < t.len() ==> t[i] == w[i] || t[i] as u32 == w[i] as u32 - 32
}

/// The exponent production of the float grammar, covering `s[i..]`.
pub open spec fn is_exp_from(s: Seq<char>, i: int) -> bool {
    let j = if i + 1 < s.len() && (s[i + 1] == '+' || s[i + 1] == '-') {
        i + 2
    } else {
        i + 1
    };
    0 <= i < s.len() && (s[i] == 'e' || s[i] == 'E') && digits_end(s, j) == s.len() && j
        < s.len()
}

/// The number production: digits, an optional point with optional digits
/// and an optional exponent; or a point with digits and an optional
/// exponent.
pub open spec fn is_number_text(t: Seq<char>) -> bool {
    let d1 = digits_end(t, 0);
    if d1 > 0 {
        let p = if d1 < t.len() && t[d1] == '.' {
            digits_end(t, d1 + 1)
        } else {
            d1
        };
        p == t.len() || is_exp_from(t, p)
    } else {
        t.len() >= 2 && t[0] == '.' && {
            let p = digits_end(t, 1);
            p > 1 && (p == t.len() || is_exp_from(t, p))
        }
    }
}

/// Whether a text parses as a 64-bit float, following the grammar the
/// standard library documents for that conversion: an optional sign, then
/// one of the words `inf`, `infinity`, `nan` in any case, or a number.
pub open spec fn is_float_text(s: Seq<char>) -> bool {
    let t = if s.len() > 0 && (s[0] == '+' || s[0] == '-') {
        s.skip(1)
    } else {
        s
    };
    matches_word_ci(t, "inf"@) || matches_word_ci(t, "infinity"@) || matches_word_ci(t, "nan"@)
        || is_number_text(t)
}

/// Whether `v[i..]` matches the lowercase ASCII word `w` case-insensitively.
fn word_ci_from(v: &Vec<char>, i: usize, w: &Vec<char>) -> (r: bool)
    requires
        i <= v@.len(),
    ensures
        r == matches_word_ci(v@.skip(i as int), w@),
{
    if v.len() - i != w.len() {
        return false;
    }
    let mut k: usize = 0;
    while k < w.len()
        invariant
            i + w.len() == v.len(),
            0 <= k <= w.len(),
            forall|m: int|
                0 <= m < k ==> v@.skip(i as int)[m] == w@[m] || v@.skip(i as int)[m] as u32
                    == w@[m] as u32 - 32,
        decreases w@.len() - k,
    {
        let c = v[i + k];
        let wc = w[k];
        let wcu = wc as u32;
        if !(c == wc || (wcu >= 32 && c as u32 == wcu - 32)) {
            assert(v@.skip(i as int)[k as int] == c);
            return false;
        }
        assert(v@.skip(i as int)[k as int] == c);
        k = k + 1;
    }
    true
}

/// Copy of `v[a..b]`.
pub fn sub_chars(v: &Vec<char>, a: usize, b: usize) -> (r: Vec<char>)
    requires
        a <= b <= v@.len(),
    ensures
        r@ == v@.subrange(a as int, b as int),
{
    let mut r: Vec<char> = Vec::new();
    let mut k: usize = a;
    while k < b
        invariant
            a <= k <= b <= v.len(),
            r@ == v@.subrange(a as int, k as int),
        decreases b - k,
    {
        r.push(v[k]);
        proof {
            assert(v@.subrange(a as int, k + 1 as int) == v@.subrange(a as int, k as int).push(
                v@[k as int],
            ));
        }
        k = k + 1;
    }
    r
}

/// First index at or after `i` in `v` that is not an ASCII digit.
pub fn scan_digits(v: &Vec<char>, i: usize) -> (r: usize)
    requires
        i <= v@.len(),
    ensures
        r == digits_end(v@, i as int),
        i <= r <= v@.len(),
    decreases v@.len() - i,
{
    let mut k: usize = i;
    while k < v.len() && '0' <= v[k] && v[k] <= '9'
        invariant
            i <= k <= v@.len(),
            digits_end(v@, i as int) == digits_end(v@, k as int),
        decreases v@.len() - k,
    {
        k = k + 1;
    }
    k
}

/// Whether `v[i..]` is an exponent production reaching the end.
fn exp_from(v: &Vec<char>, i: usize) -> (r: bool)
    requires
        i <= v@.len(),
    ensures
        r == is_exp_from(v@, i as int),
{
    if i >= v.len() || !(v[i] == 'e' || v[i] == 'E') {
        return false;
    }
    let j: usize = if i + 1 < v.len() && (v[i + 1] == '+' || v[i + 1] == '-') {
        i + 2
    } else {
        i + 1
    };
    let e = scan_digits(v, j);
    e == v.len() && j < v.len()
}

/// Decide the float grammar for the whole text.
pub fn float_text_ok(v: &Vec<char>) -> (r: bool)
    ensures
        r == is_float_text(v@),
{
    let start: usize = if v.len() > 0 && (v[0] == '+' || v[0] == '-') {
        1
    } else {
        0
    };
    let ghost t = if start == 1 {
        v@.skip(1)
    } else {
        v@
    };
    assert(t == v@.skip(start as int));
    let inf: Vec<char> = vec!['i', 'n', 'f'];
    let infinity: Vec<char> = vec!['i', 'n', 'f', 'i', 'n', 'i', 't', 'y'];
    let nan: Vec<char> = vec!['n', 'a', 'n'];
    proof {
        reveal_strlit("inf");
        reveal_strlit("infinity");
        reveal_strlit("nan");
        assert(inf@ =~= "inf"@);
        assert(infinity@ =~= "infinity"@);
        assert(nan@ =~= "nan"@);
    }
    if word_ci_from(v, start, &inf) || word_ci_from(v, start, &infinity) || word_ci_from(
        v,
        start,
        &nan,
    ) {
        return true;
    }
    // number production, decided on the suffix after the sign
    let d1 = scan_digits(v, start);
    let ghost di1 = digits_end(t, 0);
    proof {
        lemma_digits_end_skip(v@, start as int, start as int);
        assert(di1 + start == d1 as int);
    }
    if d1 > start {
        let p: usize = if d1 < v.len() && v[d1] == '.' {
            scan_digits(v, d1 + 1)
        } else {
            d1
        };
        proof {
            if d1 < v.len() && v@[d1 as int] == '.' {
                lemma_digits_end_skip(v@, start as int, d1 + 1 as int);
            }
        }
        if p == v.len() {
            return true;
        }
        let r = exp_from(v, p);
        proof {
            lemma_exp_from_skip(v@, start as int, p as int);
        }
        r
    } else {
        if v.len() - start >= 2 && v[start] == '.' {
            let p = scan_digits(v, start + 1);
            proof {
                lemma_digits_end_skip(v@, start as int, start + 1 as int);
            }
            if p > start + 1 {
                if p == v.len() {
                    return true;
                }
                let r = exp_from(v, p);
                proof {
                    lemma_exp_from_skip(v@, start as int, p as int);
                }
                r
            } else {
                false
            }
        } else {
            false
        }
    }
}

/// Digit scanning commutes with dropping a prefix.
pub proof fn lemma_digits_end_skip(s: Seq<char>, a: int, i: int)
    requires
        0 <= a <= i <= s.len(),
    ensures
        digits_end(s.skip(a), i - a) == digits_end(s, i) - a,
    decreases s.len() - i,
{
    if i < s.len() && '0' <= s[i] && s[i] <= '9' {
        lemma_digits_end_skip(s, a, i + 1);
    }
}

/// The exponent test commutes with dropping a prefix.
proof fn lemma_exp_from_skip(s: Seq<char>, a: int, i: int)
    requires
        0 <= a <= i <= s.len(),
    ensures
        is_exp_from(s.skip(a), i - a) == is_exp_from(s, i),
{
    if i < s.len() && (s[i] == 'e' || s[i] == 'E') {
        if i + 1 < s.len() && (s[i + 1] == '+' || s[i + 1] == '-') {
            lemma_digits_end_skip(s, a, i + 2);
        } else {
            lemma_digits_end_skip(s, a, i + 1);
        }
    }
}

} // verus!
