//! Low-level work on string slices: reading the characters out of a slice and
//! cutting a slice at its first line feed without copying it.
//!
//! A slice is stored as UTF-8 bytes while its view is a sequence of
//! characters. The cut is made on the bytes; the lemmas here carry what is
//! known of the bytes over to the characters.

use vstd::prelude::*;
use vstd::std_specs::iter::IteratorSpec;
use vstd::string::StringSliceAdditionalSpecFns;
use vstd::utf8::*;

verus! {

/// The byte that encodes a line feed.
pub const LINE_FEED: u8 = 0x0A;

/// A line feed among the characters shows as a line-feed byte in the encoding.
pub proof fn lemma_line_feed_is_encoded(chars: Seq<char>)
    requires
        chars.contains('\n'),
    ensures
        encode_utf8(chars).contains(LINE_FEED),
    decreases chars.len(),
{
    let i = choose|i: int| 0 <= i < chars.len() && chars[i] == '\n';
    let head = encode_scalar(chars[0] as u32);
    let tail = encode_utf8(chars.drop_first());
    assert(encode_utf8(chars) == head + tail);
    if i == 0 {
        let c = chars[0] as u32;
        assert(c == 0x0A);
        assert(has_width_1_encoding(c) && leading_byte_width_1(c) == 0x0Au8) by (bit_vector)
            requires
                c == 0x0A,
        ;
        assert(head[0] == LINE_FEED);
        assert((head + tail)[0] == LINE_FEED);
    } else {
        assert(chars.drop_first()[i - 1] == '\n');
        lemma_line_feed_is_encoded(chars.drop_first());
        let j = choose|j: int| 0 <= j < tail.len() && tail[j] == LINE_FEED;
        assert((head + tail)[head.len() + j] == LINE_FEED);
    }
}

/// Valid UTF-8 that begins with a line-feed byte decodes to a line feed
/// followed by the decoding of the remaining bytes, and its second byte
/// starts a character.
pub proof fn lemma_leading_line_feed(bytes: Seq<u8>)
    requires
        valid_utf8(bytes),
        bytes.len() > 0,
        bytes[0] == LINE_FEED,
    ensures
        is_char_boundary(bytes, 1),
        decode_utf8(bytes) == seq!['\n'] + decode_utf8(bytes.subrange(1, bytes.len() as int)),
{
    let b = bytes[0];
    assert(is_leading_byte_width_1(b) && codepoint_width_1(b) == 0x0Au32) by (bit_vector)
        requires
            b == 0x0Au8,
    ;
    assert(length_of_first_scalar(bytes) == 1);
    assert(pop_first_scalar(bytes) == bytes.subrange(1, bytes.len() as int));
    reveal_with_fuel(is_char_boundary, 2);
    assert(decode_first_scalar(bytes) == 0x0Au32);
    assert(0x0Au32 as char == '\n');
}

/// The characters of `s`, in order.
pub fn chars_of(s: &str) -> (out: Vec<char>)
    ensures
        out@ == s@,
{
    let mut out: Vec<char> = Vec::new();
    for c in it: s.chars()
        invariant
            out@ == it.seq().take(it.index()),
            it.seq() == s@,
    {
        out.push(c);
    }
    out
}

/// Cuts `s` at its first line feed. The first part is the text before that
/// line feed; the second is the text after it, or `None` where `s` holds no
/// line feed. Both parts are views into `s`.
pub fn split_at_line_feed<'a>(s: &'a str) -> (parts: (&'a str, Option<&'a str>))
    ensures
        !parts.0@.contains('\n'),
        match parts.1 {
            Some(rest) => s@ == parts.0@ + seq!['\n'] + rest@,
            None => s@ == parts.0@,
        },
{
    broadcast use {encode_utf8_valid_utf8, encode_utf8_decode_utf8};

    let bytes = s.as_bytes();
    let n = bytes.len();
    let mut i: usize = 0;
    while i < n && bytes[i] != LINE_FEED
        invariant
            i <= n,
            n == bytes@.len(),
            forall|j: int| 0 <= j < i ==> bytes@[j] != LINE_FEED,
        decreases n - i,
    {
        i += 1;
    }
    if i == n {
        proof {
            if s@.contains('\n') {
                lemma_line_feed_is_encoded(s@);
            }
        }
        (s, None)
    } else {
        proof {
            is_char_boundary_iff_not_is_continuation_byte(bytes@, i as int);
            let b = bytes@[i as int];
            assert(!is_continuation_byte(b)) by (bit_vector)
                requires
                    b == 0x0Au8,
            ;
            valid_utf8_split(bytes@, i as int);
            decode_utf8_split(bytes@, i as int);
        }
        let (head, tail) = s.split_at(i);
        proof {
            lemma_leading_line_feed(tail.spec_bytes());
        }
        let (_, rest) = tail.split_at(1);
        proof {
            let after = bytes@.subrange(i as int, n as int);
            assert(head@ == decode_utf8(bytes@.subrange(0, i as int)));
            assert(tail@ == decode_utf8(after));
            assert(rest@ == decode_utf8(after.subrange(1, after.len() as int)));
            assert(s@ =~= head@ + seq!['\n'] + rest@);
            if head@.contains('\n') {
                lemma_line_feed_is_encoded(head@);
            }
        }
        (head, Some(rest))
    }
}

} // verus!
