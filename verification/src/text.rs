//! Character positions and byte offsets in UTF-8 text.
//!
//! A line of text is modelled as a sequence of characters. Storage is
//! addressed by byte offset, so this module relates the two: which offsets
//! are character boundaries, which character starts at a boundary, and how
//! text is cut and joined at boundaries.

use vstd::prelude::*;
use vstd::utf8::*;

verus! {

/// Number of bytes in the UTF-8 encoding of `s`.
pub open spec fn byte_len(s: Seq<char>) -> nat {
    encode_utf8(s).len()
}

/// Byte offset at which the character with index `k` starts; for
/// `k == s.len()` the offset of the end of the text.
pub open spec fn offset_of(s: Seq<char>, k: int) -> nat {
    byte_len(s.take(k))
}

/// The byte offset `at` is a character boundary of `s`.
pub open spec fn on_boundary(s: Seq<char>, at: int) -> bool {
    exists|k: int| 0 <= k <= s.len() && #[trigger] offset_of(s, k) == at
}

/// Index of the character that starts at the boundary `at`.
pub open spec fn index_of(s: Seq<char>, at: int) -> int {
    choose|k: int| 0 <= k <= s.len() && #[trigger] offset_of(s, k) == at
}

/// Encoding distributes over concatenation.
pub proof fn lemma_encode_concat(a: Seq<char>, b: Seq<char>)
    ensures
        encode_utf8(a + b) == encode_utf8(a) + encode_utf8(b),
    decreases a.len(),
{
    if a.len() == 0 {
        assert(a + b =~= b);
        assert(encode_utf8(a) + encode_utf8(b) =~= encode_utf8(b));
    } else {
        assert((a + b).drop_first() =~= a.drop_first() + b);
        lemma_encode_concat(a.drop_first(), b);
        assert(encode_utf8(a + b) =~= encode_utf8(a) + encode_utf8(b));
    }
}

/// Two texts with the same encoding are the same text.
pub proof fn lemma_encode_injective(a: Seq<char>, b: Seq<char>)
    requires
        encode_utf8(a) == encode_utf8(b),
    ensures
        a == b,
{
    encode_utf8_decode_utf8(a);
    encode_utf8_decode_utf8(b);
}

/// A single character takes between one and four bytes.
pub proof fn lemma_char_width(c: char)
    ensures
        1 <= encode_scalar(c as u32).len() <= 4,
        encode_utf8(seq![c]) == encode_scalar(c as u32),
{
    assert(seq![c].drop_first() =~= Seq::<char>::empty());
    assert(encode_utf8(Seq::<char>::empty()) =~= Seq::<u8>::empty());
    assert(seq![c][0] == c);
    assert(encode_utf8(seq![c]) =~= encode_scalar(c as u32));
}

/// The next boundary lies one character's width further on.
pub proof fn lemma_offset_step(s: Seq<char>, k: int)
    requires
        0 <= k < s.len(),
    ensures
        offset_of(s, k + 1) == offset_of(s, k) + encode_scalar(s[k] as u32).len(),
        offset_of(s, k) < offset_of(s, k + 1) <= offset_of(s, k) + 4,
{
    assert(s.take(k + 1) =~= s.take(k) + seq![s[k]]);
    lemma_encode_concat(s.take(k), seq![s[k]]);
    lemma_char_width(s[k]);
}

/// Offsets grow strictly with the character index, from zero up to the
/// length of the encoding.
pub proof fn lemma_offset_monotone(s: Seq<char>, j: int, k: int)
    requires
        0 <= j <= k <= s.len(),
    ensures
        offset_of(s, j) + (k - j) <= offset_of(s, k),
        offset_of(s, 0) == 0,
        offset_of(s, s.len() as int) == byte_len(s),
        offset_of(s, k) <= byte_len(s),
    decreases s.len() - j,
{
    assert(s.take(0) =~= Seq::<char>::empty());
    assert(s.take(s.len() as int) =~= s);
    if j < k {
        lemma_offset_step(s, j);
        lemma_offset_monotone(s, j + 1, k);
    }
    if k < s.len() {
        lemma_offset_step(s, k);
        lemma_offset_monotone(s, k + 1, s.len() as int);
    }
}

/// The character index of a boundary is determined by its offset.
pub proof fn lemma_index_of(s: Seq<char>, k: int)
    requires
        0 <= k <= s.len(),
    ensures
        on_boundary(s, offset_of(s, k) as int),
        index_of(s, offset_of(s, k) as int) == k,
{
    let at = offset_of(s, k) as int;
    let j = index_of(s, at);
    assert(0 <= j <= s.len() && offset_of(s, j) == at);
    if j < k {
        lemma_offset_monotone(s, j, k);
    } else if k < j {
        lemma_offset_monotone(s, k, j);
    }
}

/// What is known of the index that belongs to a boundary.
pub proof fn lemma_boundary_index(s: Seq<char>, at: int)
    requires
        on_boundary(s, at),
    ensures
        0 <= index_of(s, at) <= s.len(),
        offset_of(s, index_of(s, at)) == at,
        0 <= at <= byte_len(s),
{
    let k = index_of(s, at);
    lemma_offset_monotone(s, 0, k);
}

/// Cutting the encoding at a boundary gives the encodings of the two parts.
pub proof fn lemma_split_bytes(s: Seq<char>, k: int)
    requires
        0 <= k <= s.len(),
    ensures
        encode_utf8(s).subrange(0, offset_of(s, k) as int) == encode_utf8(s.take(k)),
        encode_utf8(s).subrange(offset_of(s, k) as int, byte_len(s) as int) == encode_utf8(
            s.skip(k),
        ),
{
    assert(s =~= s.take(k) + s.skip(k));
    lemma_encode_concat(s.take(k), s.skip(k));
    let a = encode_utf8(s.take(k));
    let b = encode_utf8(s.skip(k));
    assert((a + b).subrange(0, a.len() as int) =~= a);
    assert((a + b).subrange(a.len() as int, (a + b).len() as int) =~= b);
}

/// Offsets in the text that is left when the first `i` characters are
/// dropped.
pub proof fn lemma_offset_skip(s: Seq<char>, i: int, j: int)
    requires
        0 <= i <= j <= s.len(),
    ensures
        offset_of(s.skip(i), j - i) == offset_of(s, j) - offset_of(s, i),
{
    assert(s.take(j) =~= s.take(i) + s.skip(i).take(j - i));
    lemma_encode_concat(s.take(i), s.skip(i).take(j - i));
}

/// The boundaries of the encoding are exactly the offsets at which a
/// character of the text starts, and the end of the text.
pub proof fn lemma_boundary_iff(s: Seq<char>, at: int)
    ensures
        is_char_boundary(encode_utf8(s), at) <==> on_boundary(s, at),
    decreases s.len(),
{
    let bytes = encode_utf8(s);
    encode_utf8_valid_utf8(s);
    lemma_offset_monotone(s, 0, 0);
    if at == 0 {
        assert(offset_of(s, 0) == at);
    } else if at < 0 || bytes.len() < at {
        if on_boundary(s, at) {
            lemma_boundary_index(s, at);
        }
    } else {
        assert(s.len() > 0);
        let rest = s.drop_first();
        encode_utf8_first_scalar(s);
        let w = length_of_first_scalar(bytes);
        lemma_char_width(s[0]);
        assert(pop_first_scalar(bytes) =~= encode_utf8(rest));
        lemma_boundary_iff(rest, at - w);
        assert(offset_of(s, 1) == w) by {
            lemma_offset_step(s, 0);
        }
        if on_boundary(rest, at - w) {
            let k = index_of(rest, at - w);
            lemma_boundary_index(rest, at - w);
            assert(rest =~= s.skip(1));
            lemma_offset_skip(s, 1, k + 1);
            assert(offset_of(s, k + 1) == at);
        }
        if on_boundary(s, at) {
            let k = index_of(s, at);
            lemma_boundary_index(s, at);
            assert(k >= 1);
            assert(rest =~= s.skip(1));
            lemma_offset_skip(s, 1, k);
            assert(offset_of(rest, k - 1) == at - w);
        }
    }
}

/// A character takes one byte exactly when it is an ASCII character.
proof fn lemma_ascii_width(c: char)
    ensures
        '\0' <= c,
        encode_scalar(c as u32).len() == 1 <==> c <= '\u{7f}',
{
    char_is_scalar(c);
}

/// A text takes at least one byte for each character, and exactly one for
/// each when all its characters are ASCII, and only then.
pub proof fn lemma_byte_len_ascii(s: Seq<char>)
    ensures
        byte_len(s) >= s.len(),
        byte_len(s) == s.len() <==> is_ascii_chars(s),
    decreases s.len(),
{
    if s.len() > 0 {
        let init = s.drop_last();
        let c = s.last();
        assert(s =~= init + seq![c]);
        lemma_encode_concat(init, seq![c]);
        lemma_char_width(c);
        lemma_ascii_width(c);
        lemma_byte_len_ascii(init);
        if is_ascii_chars(s) {
            assert forall|i: int| 0 <= i < init.len() implies '\0' <= #[trigger] init[i]
                <= '\u{7f}' by {
                assert(init[i] == s[i]);
            }
            assert('\0' <= s[s.len() - 1] <= '\u{7f}');
        }
        if is_ascii_chars(init) && c <= '\u{7f}' {
            assert forall|i: int| 0 <= i < s.len() implies '\0' <= #[trigger] s[i] <= '\u{7f}' by {
                if i < init.len() {
                    assert(s[i] == init[i]);
                }
            }
        }
    }
}

/// Whether a character is a space shows in the first byte of its encoding.
proof fn lemma_space_scalar(c: char)
    ensures
        encode_scalar(c as u32).len() >= 1,
        (encode_scalar(c as u32)[0] == 0x20u8) <==> c == ' ',
{
    let v = c as u32;
    char_is_scalar(c);
    if has_width_1_encoding(v) {
        assert(((v & 0x7F) as u8 == 0x20u8) <==> v == 0x20u32) by (bit_vector)
            requires
                v <= 0x7F,
        ;
    } else if has_width_2_encoding(v) {
        assert((0xC0u8 | ((v >> 6) & 0x1F) as u8) != 0x20u8) by (bit_vector);
    } else if has_width_3_encoding(v) {
        assert((0xE0u8 | ((v >> 12) & 0x0F) as u8) != 0x20u8) by (bit_vector);
    } else {
        assert((0xF0u8 | ((v >> 18) & 0x7) as u8) != 0x20u8) by (bit_vector);
    }
    assert(' ' as u32 == 0x20u32);
}

/// The byte at the boundary of character `k` is the space byte exactly when
/// that character is a space.
pub proof fn lemma_space_byte(s: Seq<char>, k: int)
    requires
        0 <= k < s.len(),
    ensures
        offset_of(s, k) < byte_len(s),
        (encode_utf8(s)[offset_of(s, k) as int] == 0x20u8) <==> s[k] == ' ',
{
    let tail = s.skip(k);
    lemma_split_bytes(s, k);
    lemma_offset_step(s, k);
    lemma_offset_monotone(s, k + 1, s.len() as int);
    lemma_space_scalar(s[k]);
    assert(tail[0] == s[k]);
    assert(encode_utf8(tail) == encode_scalar(tail[0] as u32) + encode_utf8(tail.drop_first()));
    assert(encode_utf8(s).subrange(offset_of(s, k) as int, byte_len(s) as int)[0] == encode_utf8(
        s,
    )[offset_of(s, k) as int]);
}

/// Number of bytes that `s` takes.
pub(crate) fn text_len(s: &str) -> (n: usize)
    ensures
        n == byte_len(s@),
{
    s.as_bytes().len()
}

/// Cuts `s` in two at the boundary `at`.
pub(crate) fn split_text<'a>(s: &'a str, at: usize) -> (parts: (&'a str, &'a str))
    requires
        on_boundary(s@, at as int),
    ensures
        parts.0@ == s@.take(index_of(s@, at as int)),
        parts.1@ == s@.skip(index_of(s@, at as int)),
{
    let ghost k = index_of(s@, at as int);
    proof {
        lemma_boundary_iff(s@, at as int);
        lemma_boundary_index(s@, at as int);
        lemma_split_bytes(s@, k);
    }
    let parts = s.split_at(at);
    proof {
        lemma_encode_injective(parts.0@, s@.take(k));
        lemma_encode_injective(parts.1@, s@.skip(k));
    }
    parts
}

/// Number of characters that stand before the boundary `at`.
pub(crate) fn chars_before(s: &str, at: usize) -> (k: usize)
    requires
        on_boundary(s@, at as int),
    ensures
        k == index_of(s@, at as int),
{
    proof {
        lemma_boundary_index(s@, at as int);
    }
    let parts = split_text(s, at);
    parts.0.unicode_len()
}

/// The boundary one character before the boundary `at`.
pub(crate) fn prev_boundary(s: &str, at: usize) -> (p: usize)
    requires
        on_boundary(s@, at as int),
        at > 0,
    ensures
        index_of(s@, at as int) > 0,
        p == offset_of(s@, index_of(s@, at as int) - 1),
        p < at,
{
    let ghost k = index_of(s@, at as int);
    proof {
        lemma_boundary_index(s@, at as int);
        lemma_offset_monotone(s@, 0, 0);
        lemma_offset_step(s@, k - 1);
    }
    let mut p: usize = at - 1;
    while !s.is_char_boundary(p)
        invariant
            0 < k <= s@.len(),
            at == offset_of(s@, k),
            offset_of(s@, k - 1) <= p < at,
        decreases p,
    {
        proof {
            lemma_boundary_iff(s@, p as int);
            lemma_index_of(s@, k - 1);
        }
        p = p - 1;
    }
    proof {
        lemma_boundary_iff(s@, p as int);
        lemma_boundary_index(s@, p as int);
        let j = index_of(s@, p as int);
        if j < k - 1 {
            lemma_offset_monotone(s@, j, k - 1);
        } else if j > k - 1 {
            lemma_offset_monotone(s@, k, j);
        }
    }
    p
}

/// The boundary one character after the boundary `at`.
pub(crate) fn next_boundary(s: &str, at: usize) -> (n: usize)
    requires
        on_boundary(s@, at as int),
        at < byte_len(s@),
    ensures
        index_of(s@, at as int) < s@.len(),
        n == offset_of(s@, index_of(s@, at as int) + 1),
        at < n <= byte_len(s@),
{
    let ghost k = index_of(s@, at as int);
    proof {
        lemma_boundary_index(s@, at as int);
        lemma_offset_monotone(s@, k, k);
        lemma_offset_step(s@, k);
        lemma_offset_monotone(s@, k + 1, k + 1);
    }
    let len = text_len(s);
    let mut n: usize = at + 1;
    while !s.is_char_boundary(n)
        invariant
            0 <= k < s@.len(),
            at == offset_of(s@, k),
            at < n <= offset_of(s@, k + 1) <= len,
        decreases offset_of(s@, k + 1) - n,
    {
        proof {
            lemma_boundary_iff(s@, n as int);
            lemma_index_of(s@, k + 1);
        }
        n = n + 1;
    }
    proof {
        lemma_boundary_iff(s@, n as int);
        lemma_boundary_index(s@, n as int);
        let j = index_of(s@, n as int);
        if j < k + 1 {
            lemma_offset_monotone(s@, j, k);
        } else if j > k + 1 {
            lemma_offset_monotone(s@, k + 1, j);
        }
    }
    n
}

/// Whether the character that starts at the boundary `at` is a space.
pub(crate) fn space_at(s: &str, at: usize) -> (b: bool)
    requires
        on_boundary(s@, at as int),
        at < byte_len(s@),
    ensures
        index_of(s@, at as int) < s@.len(),
        b == (s@[index_of(s@, at as int)] == ' '),
{
    proof {
        lemma_boundary_index(s@, at as int);
        let k = index_of(s@, at as int);
        lemma_offset_monotone(s@, k, k);
        lemma_space_byte(s@, k);
    }
    let bytes = s.as_bytes();
    bytes[at] == 0x20u8
}

/// `String::push`: the character is added at the end of the text.
#[verifier::external_body]
pub(crate) fn push_char(s: &mut String, c: char)
    ensures
        final(s)@ == old(s)@.push(c),
{
    s.push(c)
}

/// Puts `c` into `s` so that it starts at the boundary `at`.
pub(crate) fn insert_at(s: &mut String, at: usize, c: char)
    requires
        on_boundary(old(s)@, at as int),
    ensures
        final(s)@ == old(s)@.insert(index_of(old(s)@, at as int), c),
{
    proof {
        lemma_boundary_index(s@, at as int);
    }
    let parts = split_text(s.as_str(), at);
    let mut out = parts.0.to_owned();
    push_char(&mut out, c);
    out.append(parts.1);
    *s = out;
}

/// Takes out of `s` the characters between the boundaries `from` and `to`.
pub(crate) fn remove_span(s: &mut String, from: usize, to: usize)
    requires
        on_boundary(old(s)@, from as int),
        on_boundary(old(s)@, to as int),
        from <= to,
    ensures
        final(s)@ == old(s)@.take(index_of(old(s)@, from as int)) + old(s)@.skip(
            index_of(old(s)@, to as int),
        ),
{
    let ghost text = s@;
    let ghost i = index_of(text, from as int);
    let ghost j = index_of(text, to as int);
    proof {
        lemma_boundary_index(text, from as int);
        lemma_boundary_index(text, to as int);
        if j < i {
            lemma_offset_monotone(text, j, i);
        }
        lemma_offset_skip(text, i, j);
        lemma_index_of(text.skip(i), j - i);
        assert(text.skip(i).skip(j - i) =~= text.skip(j));
    }
    let parts = split_text(s.as_str(), from);
    let rest = split_text(parts.1, to - from);
    let mut out = parts.0.to_owned();
    out.append(rest.1);
    *s = out;
}

} // verus!
