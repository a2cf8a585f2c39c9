//! The streaming completion reader.
//!
//! The completion service streams its reply as a line-oriented event
//! protocol over a byte stream.  Bytes arrive in arbitrary chunks; the
//! reader buffers them, takes every complete line off the front, decodes
//! each lossily, and keeps the content fragments found under the event
//! payload's `choices[0].delta.content` path.  Blank lines, the final
//! terminator line, and lines that do not parse are skipped — this is
//! best-effort streaming, not protocol validation.  Whatever was
//! accumulated survives a broken stream: the caller flushes the reader
//! whenever reading ends.

use vstd::prelude::*;
use crate::json::{jget, parse_json, parse_json_text, JsonVal, JsonValue, lemma_deep_list_index};
use crate::text::{
    chars_of, eq_chars, starts_with_chars, string_from_chars, sub_chars, trim_chars, trim_spec,
    utf8_lossy, utf8_lossy_of,
};

verus! {

/// The content fragment carried by one event payload, at
/// `choices[0].delta.content`.
pub open spec fn delta_content(v: JsonVal) -> Option<Seq<char>> {
    match jget(v, "choices"@) {
        Option::Some(JsonVal::Arr(cs)) => if cs.len() > 0 {
            match jget(cs[0], "delta"@) {
                Option::Some(d) => match jget(d, "content"@) {
                    Option::Some(JsonVal::Str(s)) => Option::Some(s),
                    _ => Option::None,
                },
                Option::None => Option::None,
            }
        } else {
            Option::None
        },
        _ => Option::None,
    }
}

/// The fragment one protocol line contributes: the line is decoded
/// lossily and trimmed; blank lines, the terminator, lines without the
/// event prefix, unparsable payloads and payloads without a content
/// fragment contribute nothing.
pub open spec fn line_content(line: Seq<u8>) -> Option<Seq<char>> {
    let t = trim_spec(utf8_lossy_of(line));
    if t.len() == 0 {
        Option::None
    } else if t == "data: [DONE]"@ {
        Option::None
    } else if t.len() >= "data: "@.len() && t.subrange(0, "data: "@.len() as int) == "data: "@ {
        match parse_json(t.skip("data: "@.len() as int)) {
            Option::Some(v) => delta_content(v),
            Option::None => Option::None,
        }
    } else {
        Option::None
    }
}

/// Position of the first line feed, if any.
pub open spec fn find_lf(b: Seq<u8>, i: int) -> Option<int>
    decreases b.len() - i,
{
    if !(0 <= i < b.len()) {
        Option::None
    } else if b[i] == 10u8 {
        Option::Some(i)
    } else {
        find_lf(b, i + 1)
    }
}

/// The fragments contributed by every complete line of the buffer.
pub open spec fn frags_of(b: Seq<u8>) -> Seq<Seq<char>>
    decreases b.len(),
{
    match find_lf(b, 0) {
        Option::None => Seq::empty(),
        Option::Some(i) => if 0 <= i < b.len() {
            let head = (match line_content(b.subrange(0, i)) {
                Option::Some(f) => seq![f],
                Option::None => Seq::<Seq<char>>::empty(),
            });
            head + frags_of(b.skip(i + 1))
        } else {
            Seq::empty()
        },
    }
}

/// What stays buffered: the bytes after the last line feed.
pub open spec fn rem_of(b: Seq<u8>) -> Seq<u8>
    decreases b.len(),
{
    match find_lf(b, 0) {
        Option::None => b,
        Option::Some(i) => if 0 <= i < b.len() {
            rem_of(b.skip(i + 1))
        } else {
            b
        },
    }
}

/// All fragments joined, in order.
pub open spec fn concat_frags(fs: Seq<Seq<char>>) -> Seq<char>
    decreases fs.len(),
{
    if fs.len() == 0 {
        Seq::empty()
    } else {
        fs[0] + concat_frags(fs.drop_first())
    }
}

/// The reader: buffered partial line and accumulated content.
pub struct StreamReader {
    buf: Vec<u8>,
    acc: Vec<char>,
}

/// Copy of `v[a..b]` of a byte vector.
fn sub_bytes(v: &Vec<u8>, a: usize, b: usize) -> (r: Vec<u8>)
    requires
        a <= b <= v@.len(),
    ensures
        r@ == v@.subrange(a as int, b as int),
{
    let mut r: Vec<u8> = Vec::new();
    let mut k: usize = a;
    while k < b
        invariant
            a <= k <= b <= v.len(),
            r@ == v@.subrange(a as int, k as int),
        decreases b - k,
    {
        r.push(v[k]);
        proof {
            assert(v@.subrange(a as int, k + 1 as int) == v@.subrange(a as int, k as int).push(
                v@[k as int],
            ));
        }
        k = k + 1;
    }
    r
}

/// First line feed at or after `i`.
fn find_lf_exec(v: &Vec<u8>, i: usize) -> (r: Option<usize>)
    requires
        i <= v.len(),
    ensures
        (match r {
            Option::Some(p) => find_lf(v@, i as int) == Option::Some(p as int) && i <= p
                < v@.len(),
            Option::None => find_lf(v@, i as int) is None,
        }),
{
    let mut k: usize = i;
    while k < v.len() && v[k] != 10u8
        invariant
            i <= k <= v.len(),
            find_lf(v@, i as int) == find_lf(v@, k as int),
        decreases v@.len() - k,
    {
        k = k + 1;
    }
    if k < v.len() {
        Some(k)
    } else {
        None
    }
}

/// The fragment of one event payload value.
fn delta_content_exec(v: &JsonValue) -> (r: Option<Vec<char>>)
    ensures
        (match r {
            Option::Some(f) => delta_content(v@) == Option::Some(f@),
            Option::None => delta_content(v@) is None,
        }),
{
    let k_choices = chars_of("choices");
    match crate::json::value_get(v, &k_choices) {
        Option::Some(JsonValue::Arr(cs)) => {
            if cs.len() > 0 {
                proof {
                    lemma_deep_list_index(cs@);
                }
                let k_delta = chars_of("delta");
                match crate::json::value_get(&cs[0], &k_delta) {
                    Option::Some(d) => {
                        let k_content = chars_of("content");
                        match crate::json::value_get(d, &k_content) {
                            Option::Some(JsonValue::Str(s)) => Option::Some(
                                sub_chars(s, 0, s.len()),
                            ),
                            _ => Option::None,
                        }
                    },
                    Option::None => Option::None,
                }
            } else {
                Option::None
            }
        },
        _ => Option::None,
    }
}

/// The fragment one complete line contributes.
fn line_content_exec(line: &Vec<u8>) -> (r: Option<Vec<char>>)
    ensures
        (match r {
            Option::Some(f) => line_content(line@) == Option::Some(f@),
            Option::None => line_content(line@) is None,
        }),
{
    let decoded = utf8_lossy(line);
    let dc = chars_of(decoded.as_str());
    let t = trim_chars(&dc);
    if t.len() == 0 {
        return None;
    }
    let done = chars_of("data: [DONE]");
    if eq_chars(&t, &done) {
        return None;
    }
    let prefix = chars_of("data: ");
    if starts_with_chars(&t, &prefix) {
        let body = sub_chars(&t, prefix.len(), t.len());
        proof {
            assert(body@ =~= t@.skip("data: "@.len() as int));
        }
        match parse_json_text(&body) {
            Option::Some(v) => delta_content_exec(&v),
            Option::None => None,
        }
    } else {
        None
    }
}

impl StreamReader {
    /// A fresh reader: nothing buffered, nothing accumulated.
    pub fn new() -> (r: StreamReader)
        ensures
            r.buffered() == Seq::<u8>::empty(),
            r.accumulated() == Seq::<char>::empty(),
    {
        StreamReader { buf: Vec::new(), acc: Vec::new() }
    }

    /// The bytes of the pending partial line.
    pub closed spec fn buffered(self) -> Seq<u8> {
        self.buf@
    }

    /// The content accumulated so far.
    pub closed spec fn accumulated(self) -> Seq<char> {
        self.acc@
    }

    /// Feed one chunk: every complete line now in the buffer is consumed,
    /// its fragments are returned in order and appended to the
    /// accumulated content, and the trailing partial line stays buffered.
    pub fn push_chunk(&mut self, chunk: &Vec<u8>) -> (fragments: Vec<String>)
        ensures
            fragments.deep_view() == frags_of(old(self).buffered() + chunk@),
            final(self).buffered() == rem_of(old(self).buffered() + chunk@),
            final(self).accumulated() == old(self).accumulated() + concat_frags(
                frags_of(old(self).buffered() + chunk@),
            ),
    {
        let ghost b0 = self.buf@ + chunk@;
        let mut k: usize = 0;
        while k < chunk.len()
            invariant
                0 <= k <= chunk.len(),
                b0 == old(self).buf@ + chunk@,
                self.acc@ == old(self).acc@,
                self.buf@ == old(self).buf@ + chunk@.subrange(0, k as int),
            decreases chunk@.len() - k,
        {
            self.buf.push(chunk[k]);
            proof {
                assert(old(self).buf@ + chunk@.subrange(0, k + 1 as int) =~= (old(self).buf@
                    + chunk@.subrange(0, k as int)).push(chunk@[k as int]));
            }
            k = k + 1;
        }
        proof {
            assert(self.buf@ =~= b0);
        }
        let mut fragments: Vec<String> = Vec::new();
        let ghost acc0 = self.acc@;
        proof {
            assert(fragments.deep_view() + frags_of(self.buf@) =~= frags_of(b0));
            assert(acc0 + concat_frags(fragments.deep_view()) =~= acc0);
        }
        loop
            invariant
                b0 == old(self).buf@ + chunk@,
                acc0 == old(self).acc@,
                frags_of(b0) == fragments.deep_view() + frags_of(self.buf@),
                rem_of(b0) == rem_of(self.buf@),
                self.acc@ == acc0 + concat_frags(fragments.deep_view()),
            decreases self.buf@.len(),
        {
            let lf = find_lf_exec(&self.buf, 0);
            match lf {
                Option::None => {
                    proof {
                        assert(frags_of(self.buf@) =~= Seq::<Seq<char>>::empty());
                        assert(fragments.deep_view() + Seq::<Seq<char>>::empty()
                            =~= fragments.deep_view());
                    }
                    return fragments;
                },
                Option::Some(i) => {
                    let ghost bufv = self.buf@;
                    let blen = self.buf.len();
                    let line = sub_bytes(&self.buf, 0, i);
                    let rest = sub_bytes(&self.buf, i + 1, blen);
                    proof {
                        assert(rest@ == bufv.skip(i + 1 as int)) by {
                            assert(bufv.subrange(i + 1 as int, bufv.len() as int) =~= bufv.skip(
                                i + 1 as int,
                            ));
                        }
                    }
                    self.buf = rest;
                    let got = line_content_exec(&line);
                    match got {
                        Option::Some(f) => {
                            crate::json::push_all(&mut self.acc, &f);
                            let s = string_from_chars(&f);
                            let ghost frags_old = fragments.deep_view();
                            fragments.push(s);
                            proof {
                                assert(fragments.deep_view() =~= frags_old.push(f@));
                                lemma_concat_push(frags_old, f@);
                                assert(frags_of(bufv) == seq![f@] + frags_of(self.buf@));
                                assert(frags_old + (seq![f@] + frags_of(self.buf@))
                                    =~= fragments.deep_view() + frags_of(self.buf@));
                                assert(frags_old.push(f@) =~= frags_old + seq![f@]);
                            }
                        },
                        Option::None => {
                            proof {
                                assert(frags_of(bufv) == frags_of(self.buf@)) by {
                                    assert(Seq::<Seq<char>>::empty() + frags_of(self.buf@)
                                        =~= frags_of(self.buf@));
                                }
                            }
                        },
                    }
                },
            }
        }
    }

    /// The accumulated content, as the durable result to persist.
    pub fn finish(&self) -> (r: String)
        ensures
            r@ == self.accumulated(),
    {
        string_from_chars(&self.acc)
    }
}

/// Joining distributes over appending one fragment.
proof fn lemma_concat_push(fs: Seq<Seq<char>>, f: Seq<char>)
    ensures
        concat_frags(fs.push(f)) == concat_frags(fs) + f,
    decreases fs.len(),
{
    if fs.len() == 0 {
        assert(fs.push(f)[0] == f);
        assert(fs.push(f).drop_first() =~= Seq::<Seq<char>>::empty());
        assert(concat_frags(Seq::<Seq<char>>::empty()) == Seq::<char>::empty());
        assert(f + Seq::<char>::empty() =~= f);
        assert(Seq::<char>::empty() + f =~= f);
    } else {
        assert(fs.push(f)[0] == fs[0]);
        assert(fs.push(f).drop_first() =~= fs.drop_first().push(f));
        lemma_concat_push(fs.drop_first(), f);
        assert(fs[0] + (concat_frags(fs.drop_first()) + f) =~= (fs[0] + concat_frags(
            fs.drop_first(),
        )) + f);
    }
}

} // verus!
