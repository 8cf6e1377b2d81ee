//! Strings as sequences of Unicode scalar values.
//!
//! Every other module reasons about text through `Seq<char>`. This module
//! holds the few places where that model meets the byte-oriented `String`
//! of the standard library: the UTF-8 width of a scalar value, byte offsets
//! of character prefixes, and conversions between `String` and `Vec<char>`.

use vstd::prelude::*;
use vstd::utf8::encode_scalar;
use vstd::utf8::encode_utf8;
use vstd::utf8::encode_utf8_first_scalar;
use vstd::utf8::encode_utf8_valid_utf8;
use vstd::utf8::is_char_boundary;
use vstd::utf8::pop_first_scalar;

verus! {

/// Number of bytes that the first `n` scalar values of `text` occupy in UTF-8.
/// For `n` beyond the end this is the length of the whole encoding.
pub open spec fn prefix_bytes(text: Seq<char>, n: int) -> nat {
    encode_utf8(text.take(clamp_index(n, text.len() as int))).len()
}

/// `pos` forced into `[0, len]`.
pub open spec fn clamp_index(pos: int, len: int) -> int {
    if pos < 0 {
        0
    } else if pos > len {
        len
    } else {
        pos
    }
}

/// Appending one scalar value appends exactly its encoding.
pub proof fn lemma_encode_push(text: Seq<char>, c: char)
    ensures
        encode_utf8(text.push(c)) == encode_utf8(text) + encode_scalar(c as u32),
    decreases text.len(),
{
    if text.len() == 0 {
        assert(text.push(c).drop_first() =~= text);
        assert(encode_utf8(text) =~= Seq::<u8>::empty());
        assert(encode_utf8(text.push(c)) =~= encode_scalar(c as u32) + encode_utf8(text));
    } else {
        lemma_encode_push(text.drop_first(), c);
        assert(text.push(c).drop_first() =~= text.drop_first().push(c));
        assert(text.push(c)[0] == text[0]);
    }
}

/// The encoding of a concatenation is the concatenation of the encodings.
pub proof fn lemma_encode_concat(a: Seq<char>, b: Seq<char>)
    ensures
        encode_utf8(a + b) == encode_utf8(a) + encode_utf8(b),
    decreases b.len(),
{
    if b.len() == 0 {
        assert(a + b =~= a);
        assert(encode_utf8(b) =~= Seq::<u8>::empty());
        assert(encode_utf8(a) + encode_utf8(b) =~= encode_utf8(a));
    } else {
        let c = b.last();
        lemma_encode_concat(a, b.drop_last());
        lemma_encode_push(a + b.drop_last(), c);
        lemma_encode_push(b.drop_last(), c);
        assert((a + b.drop_last()).push(c) =~= a + b);
        assert(b.drop_last().push(c) =~= b);
        assert(encode_utf8(a + b) =~= encode_utf8(a) + encode_utf8(b));
    }
}

/// A prefix never needs more bytes than the whole text.
pub proof fn lemma_prefix_bytes_bounded(text: Seq<char>, n: int)
    ensures
        prefix_bytes(text, n) <= encode_utf8(text).len(),
{
    let k = clamp_index(n, text.len() as int);
    lemma_encode_concat(text.take(k), text.skip(k));
    assert(text.take(k) + text.skip(k) =~= text);
}

/// The offset at which a prefix of whole characters ends is a character
/// boundary of the encoded text.
pub proof fn lemma_prefix_is_boundary(text: Seq<char>, n: int)
    ensures
        is_char_boundary(encode_utf8(text), prefix_bytes(text, n) as int),
    decreases text.len(),
{
    let k = clamp_index(n, text.len() as int);
    let bytes = encode_utf8(text);
    encode_utf8_valid_utf8(text);
    if k == 0 {
        assert(text.take(0) =~= Seq::<char>::empty());
    } else {
        let rest = text.drop_first();
        encode_utf8_first_scalar(text);
        lemma_prefix_bytes_bounded(text, n);
        assert(pop_first_scalar(bytes) =~= encode_utf8(rest));
        assert(text.take(k) =~= seq![text[0]] + rest.take(k - 1));
        lemma_encode_concat(seq![text[0]], rest.take(k - 1));
        assert(encode_utf8(seq![text[0]]) =~= encode_scalar(text[0] as u32)) by {
            assert(seq![text[0]].drop_first() =~= Seq::<char>::empty());
            assert(encode_utf8(Seq::<char>::empty()) =~= Seq::<u8>::empty());
        }
        lemma_prefix_is_boundary(rest, k - 1);
        assert(prefix_bytes(text, n) == encode_scalar(text[0] as u32).len() + prefix_bytes(
            rest,
            k - 1,
        ));
    }
}

/// Splitting the encoded text at the end of its first `k` characters and
/// putting the encoding of `c` in between encodes the text with `c` inserted
/// at index `k`.
pub proof fn lemma_encode_insert(text: Seq<char>, k: int, c: char)
    requires
        0 <= k <= text.len(),
    ensures
        encode_utf8(text.insert(k, c)) == encode_utf8(text).subrange(
            0,
            prefix_bytes(text, k) as int,
        ) + encode_scalar(c as u32) + encode_utf8(text).subrange(
            prefix_bytes(text, k) as int,
            encode_utf8(text).len() as int,
        ),
{
    let head = text.take(k);
    let tail = text.skip(k);
    lemma_encode_concat(head, tail);
    assert(head + tail =~= text);
    lemma_encode_push(head, c);
    lemma_encode_concat(head.push(c), tail);
    assert(head.push(c) + tail =~= text.insert(k, c));
    let bytes = encode_utf8(text);
    let at = encode_utf8(head).len() as int;
    assert(bytes.subrange(0, at) =~= encode_utf8(head));
    assert(bytes.subrange(at, bytes.len() as int) =~= encode_utf8(tail));
}

/// `char::len_utf8`: the number of bytes that `c` takes in UTF-8, which is
/// the length of its encoding and lies between one and four.
#[verifier::external_body]
pub(crate) fn utf8_width(c: char) -> (n: usize)
    ensures
        n == encode_scalar(c as u32).len(),
        1 <= n <= 4,
{
    c.len_utf8()
}

/// `String::push`: appends one scalar value to the end of the string.
#[verifier::external_body]
pub(crate) fn push_char(s: &mut String, c: char)
    ensures
        final(s)@ == old(s)@.push(c),
{
    s.push(c)
}

/// `String::insert`: puts the encoding of `c` at byte offset `at` and moves
/// the bytes from there on behind it. The standard library panics unless `at`
/// lies on a character boundary of the string.
#[verifier::external_body]
pub(crate) fn insert_at_byte(s: &mut String, at: usize, c: char)
    requires
        at <= encode_utf8(old(s)@).len(),
        is_char_boundary(encode_utf8(old(s)@), at as int),
    ensures
        encode_utf8(final(s)@) == encode_utf8(old(s)@).subrange(0, at as int) + encode_scalar(
            c as u32,
        ) + encode_utf8(old(s)@).subrange(at as int, encode_utf8(old(s)@).len() as int),
{
    s.insert(at, c)
}

/// Byte offset in `s` at which its first `n` characters end; the length of
/// `s` in bytes when it has fewer than `n` characters.
pub fn byte_offset(s: &str, n: usize) -> (offset: usize)
    ensures
        offset == prefix_bytes(s@, n as int),
{
    let mut offset: usize = 0;
    let mut seen: usize = 0;
    let total: usize = s.as_bytes().len();
    for c in it: s.chars()
        invariant
            it.seq() == s@,
            total == encode_utf8(s@).len(),
            seen == clamp_index(n as int, it.index() as int),
            offset == encode_utf8(s@.take(seen as int)).len(),
    {
        if seen < n {
            proof {
                lemma_encode_push(s@.take(seen as int), c);
                assert(s@.take(seen as int).push(c) =~= s@.take(seen as int + 1));
                lemma_prefix_bytes_bounded(s@, seen as int + 1);
            }
            offset = offset + utf8_width(c);
            seen = seen + 1;
        }
    }
    offset
}

/// The scalar values of `s`, in order.
pub fn chars_of(s: &str) -> (chars: Vec<char>)
    ensures
        chars@ == s@,
{
    let mut chars: Vec<char> = Vec::new();
    for c in it: s.chars()
        invariant
            it.seq() == s@,
            chars@ == s@.take(it.index() as int),
    {
        proof {
            assert(s@.take(it.index() as int).push(c) =~= s@.take(it.index() as int + 1));
        }
        chars.push(c);
    }
    proof {
        assert(s@.take(s@.len() as int) =~= s@);
    }
    chars
}

/// The string that holds exactly `chars`.
pub fn string_of(chars: &Vec<char>) -> (s: String)
    ensures
        s@ == chars@,
{
    let mut s = String::new();
    let mut i: usize = 0;
    while i < chars.len()
        invariant
            i <= chars.len(),
            s@ == chars@.take(i as int),
        decreases chars.len() - i,
    {
        proof {
            assert(chars@.take(i as int).push(chars@[i as int]) =~= chars@.take(i as int + 1));
        }
        push_char(&mut s, chars[i]);
        i = i + 1;
    }
    proof {
        assert(chars@.take(chars@.len() as int) =~= chars@);
    }
    s
}

} // verus!
