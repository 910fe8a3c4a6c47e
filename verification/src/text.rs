//! Text lines of the wire format: UTF-8, ended by a line feed, with trailing
//! white space dropped when a line is read.

use vstd::prelude::*;
use vstd::string::StrSliceExecFns;
use vstd::string::StringSliceAdditionalSpecFns;
use vstd::utf8::{
    decode_utf8, decode_utf8_encode_utf8, encode_scalar, encode_utf8, encode_utf8_decode_utf8,
    has_width_1_encoding, valid_utf8,
};

verus! {

/// The byte that ends a line on the wire.
pub const LINE_FEED: u8 = 0x0A;

/// The code points with the Unicode property `White_Space`.
pub open spec fn white_space(c: char) -> bool {
    let v = c as u32;
    ||| 0x09 <= v <= 0x0D
    ||| v == 0x20
    ||| v == 0x85
    ||| v == 0xA0
    ||| v == 0x1680
    ||| 0x2000 <= v <= 0x200A
    ||| v == 0x2028
    ||| v == 0x2029
    ||| v == 0x202F
    ||| v == 0x205F
    ||| v == 0x3000
}

/// Length of `s` once its trailing white space is dropped.
pub open spec fn trimmed_len(s: Seq<char>) -> nat
    decreases s.len(),
{
    if s.len() == 0 {
        0
    } else if white_space(s.last()) {
        trimmed_len(s.drop_last())
    } else {
        s.len()
    }
}

/// `s` without its trailing white space.
pub open spec fn trimmed(s: Seq<char>) -> Seq<char> {
    s.take(trimmed_len(s) as int)
}

/// A text that a reader of the wire format can hand out: it holds no line feed
/// and does not end in white space.
pub open spec fn is_line_text(s: Seq<char>) -> bool {
    &&& !s.contains('\n')
    &&& s.len() > 0 ==> !white_space(s.last())
}

proof fn lemma_trimmed_len_bound(s: Seq<char>)
    ensures
        trimmed_len(s) <= s.len(),
        trimmed_len(s) > 0 ==> !white_space(s[trimmed_len(s) - 1]),
        forall|i: int| trimmed_len(s) <= i < s.len() ==> white_space(s[i]),
    decreases s.len(),
{
    if s.len() > 0 && white_space(s.last()) {
        let front = s.drop_last();
        lemma_trimmed_len_bound(front);
        assert forall|i: int| trimmed_len(s) <= i < s.len() implies white_space(s[i]) by {
            if i < front.len() {
                assert(front[i] == s[i]);
            }
        }
    }
}

/// Text that does not end in white space is left as it is.
pub proof fn lemma_trimmed_fixed(s: Seq<char>)
    requires
        s.len() > 0 ==> !white_space(s.last()),
    ensures
        trimmed(s) == s,
{
    assert(s.take(s.len() as int) =~= s);
}

/// Trimming never leaves trailing white space, and adds no line feed.
pub proof fn lemma_trimmed_is_line_text(s: Seq<char>)
    requires
        !s.contains('\n'),
    ensures
        is_line_text(trimmed(s)),
{
    lemma_trimmed_len_bound(s);
    let t = trimmed(s);
    if t.contains('\n') {
        let i = choose|i: int| 0 <= i < t.len() && t[i] == '\n';
        assert(s[i] == '\n');
        assert(s.contains('\n'));
    }
}

proof fn lemma_marked_bytes(x: u8)
    by (bit_vector)
    ensures
        0x80u8 | x >= 0x80u8,
        0xC0u8 | x >= 0x80u8,
        0xE0u8 | x >= 0x80u8,
        0xF0u8 | x >= 0x80u8,
{
}

proof fn lemma_seven_bits(v: u32)
    by (bit_vector)
    requires
        v <= 0x7F,
    ensures
        v & 0x7F == v,
{
}

proof fn lemma_scalar_line_feed(c: char)
    ensures
        encode_scalar(c as u32).contains(LINE_FEED) <==> c == '\n',
{
    let v = c as u32;
    let bytes = encode_scalar(v);
    if has_width_1_encoding(v) {
        lemma_seven_bits(v);
        assert(bytes[0] == v);
        if c == '\n' {
            assert(bytes[0] == LINE_FEED);
        }
    } else {
        lemma_marked_bytes(((v >> 6) & 0x1F) as u8);
        lemma_marked_bytes(((v >> 12) & 0x0F) as u8);
        lemma_marked_bytes(((v >> 18) & 0x7) as u8);
        lemma_marked_bytes((v & 0x3F) as u8);
        lemma_marked_bytes(((v >> 6) & 0x3F) as u8);
        lemma_marked_bytes(((v >> 12) & 0x3F) as u8);
        assert(forall|i: int| 0 <= i < bytes.len() ==> bytes[i] >= 0x80);
    }
}

/// The encoding of a text holds the line-feed byte exactly when the text holds
/// the line-feed character.
pub proof fn lemma_encoded_line_feed(s: Seq<char>)
    ensures
        encode_utf8(s).contains(LINE_FEED) <==> s.contains('\n'),
    decreases s.len(),
{
    if s.len() > 0 {
        let head = encode_scalar(s[0] as u32);
        let tail = encode_utf8(s.drop_first());
        lemma_scalar_line_feed(s[0]);
        lemma_encoded_line_feed(s.drop_first());
        if s.contains('\n') {
            let i = choose|i: int| 0 <= i < s.len() && s[i] == '\n';
            if i == 0 {
                let j = choose|j: int| 0 <= j < head.len() && head[j] == LINE_FEED;
                assert((head + tail)[j] == LINE_FEED);
            } else {
                assert(s.drop_first()[i - 1] == '\n');
                let j = choose|j: int| 0 <= j < tail.len() && tail[j] == LINE_FEED;
                assert((head + tail)[head.len() + j] == LINE_FEED);
            }
        }
        if encode_utf8(s).contains(LINE_FEED) {
            let j = choose|j: int| 0 <= j < (head + tail).len() && (head + tail)[j] == LINE_FEED;
            if j < head.len() {
                assert(head[j] == LINE_FEED);
                assert(s[0] == '\n');
            } else {
                assert(tail[j - head.len()] == LINE_FEED);
                let i = choose|i: int| 0 <= i < s.drop_first().len() && s.drop_first()[i] == '\n';
                assert(s[i + 1] == '\n');
            }
        }
    }
}

/// Bytes that are UTF-8 and hold no line-feed byte decode to a text without a
/// line-feed character.
pub proof fn lemma_decoded_line_feed(bytes: Seq<u8>)
    requires
        valid_utf8(bytes),
    ensures
        decode_utf8(bytes).contains('\n') <==> bytes.contains(LINE_FEED),
{
    decode_utf8_encode_utf8(bytes);
    lemma_encoded_line_feed(decode_utf8(bytes));
}

#[verifier::external_type_specification]
#[verifier::external_body]
pub struct ExUtf8Error(core::str::Utf8Error);

/// `core::str::from_utf8` accepts exactly the byte runs that are UTF-8, and the
/// string it gives back is made of the very bytes it was given.
pub assume_specification[ core::str::from_utf8 ](v: &[u8]) -> (text: Result<
    &str,
    core::str::Utf8Error,
>)
    ensures
        text is Ok <==> valid_utf8(v@),
        text matches Ok(s) ==> s.spec_bytes() == v@,
;

/// Whether `c` has the Unicode property `White_Space`.
pub fn is_whitespace(c: char) -> (yes: bool)
    ensures
        yes == white_space(c),
{
    let v: u32 = c as u32;
    (0x09 <= v && v <= 0x0D) || v == 0x20 || v == 0x85 || v == 0xA0 || v == 0x1680 || (0x2000 <= v
        && v <= 0x200A) || v == 0x2028 || v == 0x2029 || v == 0x202F || v == 0x205F || v == 0x3000
}

/// Copies `text` without its trailing white space.
pub fn trim_end(text: &str) -> (line: String)
    ensures
        line@ == trimmed(text@),
{
    let total: usize = text.unicode_len();
    let mut keep: usize = 0;
    let mut position: usize = 0;
    for ch in it: text.chars()
        invariant
            it.seq() == text@,
            total == text@.len(),
            position == it.index(),
            keep == trimmed_len(text@.take(position as int)),
            keep <= position,
    {
        proof {
            let seen = text@.take(position as int);
            let next = text@.take(position + 1);
            assert(next.drop_last() =~= seen);
            assert(next.last() == ch);
        }
        position += 1;
        if !is_whitespace(ch) {
            keep = position;
        }
    }
    proof {
        assert(text@.take(position as int) =~= text@);
    }
    text.substring_char(0, keep).to_owned()
}

/// Whether two texts hold the same characters.
pub fn same_text(left: &str, right: &str) -> (same: bool)
    ensures
        same == (left@ == right@),
{
    let a = left.as_bytes();
    let b = right.as_bytes();
    proof {
        encode_utf8_decode_utf8(left@);
        encode_utf8_decode_utf8(right@);
    }
    if a.len() != b.len() {
        return false;
    }
    let mut i: usize = 0;
    while i < a.len()
        invariant
            i <= a@.len(),
            a@.len() == b@.len(),
            a@ == encode_utf8(left@),
            b@ == encode_utf8(right@),
            forall|k: int| 0 <= k < i ==> a@[k] == b@[k],
        decreases a@.len() - i,
    {
        if a[i] != b[i] {
            return false;
        }
        i += 1;
    }
    assert(a@ =~= b@);
    true
}

} // verus!
