//! Texts as sequences of characters: comparing them and joining them.
use vstd::prelude::*;
use vstd::string::*;
use vstd::utf8::*;

verus! {

/// The characters of each text of a sequence.
pub open spec fn texts_of(items: Seq<String>) -> Seq<Seq<char>> {
    items.map_values(|s: String| s@)
}

/// The first `n` parts, joined.
pub open spec fn joined_prefix(parts: Seq<Seq<char>>, n: nat) -> Seq<char>
    decreases n,
{
    if n == 0 {
        Seq::empty()
    } else {
        joined_prefix(parts, (n - 1) as nat) + parts[n - 1]
    }
}

/// All parts, joined.
pub open spec fn joined(parts: Seq<Seq<char>>) -> Seq<char> {
    joined_prefix(parts, parts.len())
}

/// Joining one part more appends it.
pub proof fn lemma_joined_push(parts: Seq<Seq<char>>, part: Seq<char>)
    ensures
        joined(parts.push(part)) == joined(parts) + part,
{
    lemma_joined_prefix_agrees(parts.push(part), parts, parts.len());
}

/// The joined prefix depends on the first `n` parts only.
pub proof fn lemma_joined_prefix_agrees(a: Seq<Seq<char>>, b: Seq<Seq<char>>, n: nat)
    requires
        n <= a.len(),
        n <= b.len(),
        forall|i: int| 0 <= i < n ==> a[i] == b[i],
    ensures
        joined_prefix(a, n) == joined_prefix(b, n),
    decreases n,
{
    if n > 0 {
        lemma_joined_prefix_agrees(a, b, (n - 1) as nat);
    }
}

/// The UTF-8 encoding of two texts joined is their encodings joined. So the
/// byte at which a character starts is found by encoding what stands before
/// it.
pub proof fn lemma_encoding_of_concat(a: Seq<char>, b: Seq<char>)
    ensures
        encode_utf8(a + b) == encode_utf8(a) + encode_utf8(b),
    decreases a.len(),
{
    if a.len() == 0 {
        assert(a + b =~= b);
        assert(encode_utf8(a) + encode_utf8(b) =~= encode_utf8(b));
    } else {
        assert((a + b).drop_first() =~= a.drop_first() + b);
        lemma_encoding_of_concat(a.drop_first(), b);
        assert((a + b)[0] == a[0]);
        assert(encode_utf8(a + b) =~= encode_utf8(a) + encode_utf8(b));
    }
}

/// The number of bytes that the first `n` characters of a text take in
/// UTF-8: the byte at which the character with index `n` starts.
pub open spec fn byte_offset(text: Seq<char>, n: int) -> int {
    encode_utf8(text.subrange(0, n)).len() as int
}

/// The number of bytes of a UTF-8 encoded character, read off its first
/// byte.
pub open spec fn leading_width(byte: u8) -> int {
    if is_leading_byte_width_1(byte) {
        1
    } else if is_leading_byte_width_2(byte) {
        2
    } else if is_leading_byte_width_3(byte) {
        3
    } else {
        4
    }
}

/// The encoding of a text starts with the encoding of its first character.
pub proof fn lemma_encoding_of_first(text: Seq<char>)
    requires
        text.len() > 0,
    ensures
        byte_offset(text, 1) == leading_width(encode_utf8(text)[0]),
        1 <= byte_offset(text, 1) <= encode_utf8(text).len(),
        pop_first_scalar(encode_utf8(text)) == encode_utf8(text.drop_first()),
        length_of_first_scalar(encode_utf8(text)) == byte_offset(text, 1),
{
    let first = text.subrange(0, 1);
    assert(text =~= first + text.drop_first());
    lemma_encoding_of_concat(first, text.drop_first());
    encode_utf8_first_scalar(text);
    encode_utf8_first_scalar(first);
    assert(first.drop_first() =~= Seq::<char>::empty());
    assert(encode_utf8(first) =~= encode_scalar(first[0] as u32));
    assert(pop_first_scalar(encode_utf8(text)) =~= encode_utf8(text.drop_first()));
}

/// The character with index `n` starts where the characters before it end,
/// and its first byte tells where the next one starts.
pub proof fn lemma_byte_offset_step(text: Seq<char>, n: int)
    requires
        0 <= n < text.len(),
    ensures
        0 <= byte_offset(text, n) < encode_utf8(text).len(),
        byte_offset(text, n + 1) == byte_offset(text, n) + leading_width(
            encode_utf8(text)[byte_offset(text, n)],
        ),
        byte_offset(text, n + 1) <= encode_utf8(text).len(),
{
    let before = text.subrange(0, n);
    let rest = text.subrange(n, text.len() as int);
    assert(text =~= before + rest);
    lemma_encoding_of_concat(before, rest);
    lemma_encoding_of_first(rest);
    let first = rest.subrange(0, 1);
    assert(text.subrange(0, n + 1) =~= before + first);
    lemma_encoding_of_concat(before, first);
    assert(encode_utf8(text)[byte_offset(text, n)] == encode_utf8(rest)[0]);
}

/// The whole text ends where its encoding ends, and no character before.
pub proof fn lemma_byte_offset_of_end(text: Seq<char>, n: int)
    requires
        0 <= n <= text.len(),
    ensures
        n <= byte_offset(text, n) <= encode_utf8(text).len(),
        byte_offset(text, n) == encode_utf8(text).len() <==> n == text.len(),
    decreases n,
{
    if n == 0 {
        assert(text.subrange(0, 0) =~= Seq::<char>::empty());
        if text.len() > 0 {
            lemma_byte_offset_step(text, 0);
        }
    } else {
        lemma_byte_offset_of_end(text, n - 1);
        lemma_byte_offset_step(text, n - 1);
        if n < text.len() {
            lemma_byte_offset_step(text, n);
        } else {
            assert(text.subrange(0, n) =~= text);
        }
    }
}

/// Every character starts at a character boundary of the encoding.
pub proof fn lemma_byte_offset_is_boundary(text: Seq<char>, n: int)
    requires
        0 <= n <= text.len(),
    ensures
        is_char_boundary(encode_utf8(text), byte_offset(text, n)),
    decreases n,
{
    encode_utf8_valid_utf8(text);
    if n == 0 {
        assert(text.subrange(0, 0) =~= Seq::<char>::empty());
    } else {
        let tail = text.drop_first();
        lemma_encoding_of_first(text);
        lemma_byte_offset_is_boundary(tail, n - 1);
        let first = text.subrange(0, 1);
        assert(text.subrange(0, n) =~= first + tail.subrange(0, n - 1));
        lemma_encoding_of_concat(first, tail.subrange(0, n - 1));
        lemma_byte_offset_of_end(text, n);
        assert(byte_offset(text, n) == byte_offset(text, 1) + byte_offset(tail, n - 1));
    }
}

/// Converts a length in characters into a length in bytes: scans up to `n`
/// characters from the start of `text` and sums the widths of their
/// encodings. Gives the number of characters scanned, which is `n` or, if
/// the text is shorter, the length of the text, and the number of bytes
/// they take.
pub fn char_to_byte_len(text: &str, n: usize) -> (r: (usize, usize))
    ensures
        r.0 <= n,
        r.0 <= text@.len(),
        r.0 == n || r.0 == text@.len(),
        r.1 == byte_offset(text@, r.0 as int),
        r.1 <= text.spec_bytes().len(),
{
    let bytes = text.as_bytes();
    let mut count: usize = 0;
    let mut pos: usize = 0;
    proof {
        lemma_byte_offset_of_end(text@, 0);
    }
    while count < n && pos < bytes.len()
        invariant
            bytes@ == encode_utf8(text@),
            count <= n,
            count <= text@.len(),
            count <= pos <= bytes@.len(),
            pos == byte_offset(text@, count as int),
        decreases bytes.len() - pos,
    {
        proof {
            lemma_byte_offset_of_end(text@, count as int);
            lemma_byte_offset_step(text@, count as int);
        }
        let first = bytes[pos];
        let width: usize = if first <= 0x7f {
            1
        } else if 0xc0 <= first && first <= 0xdf {
            2
        } else if 0xe0 <= first && first <= 0xef {
            3
        } else {
            4
        };
        pos += width;
        count += 1;
    }
    proof {
        lemma_byte_offset_of_end(text@, count as int);
    }
    (count, pos)
}

/// Splits a text behind its first `n` characters, or at its end if it has
/// fewer.
pub fn split_at_char(text: &str, n: usize) -> (r: (&str, &str))
    ensures
        n <= text@.len() ==> r.0@ == text@.subrange(0, n as int) && r.1@ == text@.subrange(
            n as int,
            text@.len() as int,
        ),
        n > text@.len() ==> r.0@ == text@ && r.1@.len() == 0,
{
    let (count, pos) = char_to_byte_len(text, n);
    let ghost head = text@.subrange(0, count as int);
    let ghost tail = text@.subrange(count as int, text@.len() as int);
    proof {
        lemma_byte_offset_is_boundary(text@, count as int);
        assert(text@ =~= head + tail);
        lemma_encoding_of_concat(head, tail);
    }
    let (front, back) = text.split_at(pos);
    proof {
        assert(front.spec_bytes() =~= encode_utf8(head));
        assert(back.spec_bytes() =~= encode_utf8(tail));
        encode_utf8_decode_utf8(front@);
        encode_utf8_decode_utf8(back@);
        encode_utf8_decode_utf8(head);
        encode_utf8_decode_utf8(tail);
        if n > text@.len() {
            assert(head =~= text@);
        }
    }
    (front, back)
}

/// The number of characters of a text.
pub fn char_count(text: &str) -> (r: usize)
    ensures
        r == text@.len(),
{
    let (count, pos) = char_to_byte_len(text, usize::MAX);
    let size = text.as_bytes().len();
    proof {
        lemma_byte_offset_of_end(text@, count as int);
        assert(count <= pos <= size);
    }
    count
}

/// The characters of a text from index `from` up to index `to`; both are cut
/// at the end of the text, and `to` is raised to `from` where it is less.
pub fn char_slice(text: &str, from: usize, to: usize) -> (r: &str)
    ensures
        from <= to <= text@.len() ==> r@ == text@.subrange(from as int, to as int),
        from <= text@.len() < to ==> r@ == text@.subrange(from as int, text@.len() as int),
        from > to || from > text@.len() ==> r@.len() == 0,
{
    let (_, rest) = split_at_char(text, from);
    let len = if to >= from {
        to - from
    } else {
        0
    };
    let (part, _) = split_at_char(rest, len);
    proof {
        if from <= text@.len() {
            let tail = text@.subrange(from as int, text@.len() as int);
            if to >= from && to <= text@.len() {
                assert(tail.subrange(0, to - from) =~= text@.subrange(from as int, to as int));
            }
        }
    }
    part
}

/// Whether two texts hold the same characters.
pub fn text_eq(a: &str, b: &str) -> (r: bool)
    ensures
        r == (a@ == b@),
{
    let x = a.as_bytes();
    let y = b.as_bytes();
    proof {
        encode_utf8_decode_utf8(a@);
        encode_utf8_decode_utf8(b@);
    }
    if x.len() != y.len() {
        return false;
    }
    let mut i: usize = 0;
    while i < x.len()
        invariant
            x@ == a.spec_bytes(),
            y@ == b.spec_bytes(),
            x@.len() == y@.len(),
            0 <= i <= x@.len(),
            forall|j: int| 0 <= j < i ==> x@[j] == y@[j],
        decreases x.len() - i,
    {
        if x[i] != y[i] {
            return false;
        }
        i += 1;
    }
    assert(x@ =~= y@);
    true
}

} // verus!
