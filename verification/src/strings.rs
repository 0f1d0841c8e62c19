//! Texts as sequences of characters, and their heads as bytes.

use vstd::prelude::*;
use vstd::utf8::{
    char_is_scalar,
    encode_utf8,
    encode_utf8_decode_utf8,
    encode_utf8_first_scalar,
    encode_utf8_valid_utf8,
    is_ascii_chars_encode_utf8,
    is_char_boundary,
    pop_first_scalar,
};

verus! {

/// The text begins with `count` characters of ASCII.
pub open spec fn ascii_head(text: Seq<char>, count: int) -> bool {
    text.len() >= count && forall|i: int| 0 <= i < count ==> #[trigger] text[i] <= '\u{7f}'
}

/// The characters of a text.
pub(crate) fn characters(text: &str) -> (r: Vec<char>)
    ensures
        r@ == text@,
{
    let mut r: Vec<char> = Vec::new();
    for c in iter: text.chars()
        invariant
            iter.seq() == text@,
            r@ == iter.seq().take(iter.index() as int),
    {
        r.push(c);
    }
    r
}

/// Whether characters spell a word.
pub(crate) fn spells(chars: &Vec<char>, word: &str) -> (r: bool)
    ensures
        r == (chars@ == word@),
{
    let mut i: usize = 0;
    for c in iter: word.chars()
        invariant
            iter.seq() == word@,
            i == iter.index(),
            i <= chars@.len(),
            forall|k: int| 0 <= k < i ==> chars@[k] == word@[k],
    {
        if i >= chars.len() || chars[i] != c {
            return false;
        }
        i += 1;
    }
    if i == chars.len() {
        assert(chars@ =~= word@);
        true
    } else {
        false
    }
}

/// A character compares as its code does.
proof fn lemma_char_code(c: char)
    ensures
        '\0' <= c,
        (c <= '\u{7f}') == (c as u32 <= 0x7f),
        c as u8 == (c as u32) as u8,
{
}

/// The first byte of a character's encoding is the character where that is
/// ASCII, and is no ASCII where the character is none.
proof fn lemma_first_byte(c: u32)
    by (bit_vector)
    ensures
        c <= 0x7f ==> (c & 0x7f) as u8 == c as u8 && c as u8 == c,
        (0xC0u8 | ((c >> 6) & 0x1F) as u8) >= 0x80,
        (0xE0u8 | ((c >> 12) & 0x0F) as u8) >= 0x80,
        (0xF0u8 | ((c >> 18) & 0x7) as u8) >= 0x80,
{
}

/// A text begins with ASCII just where its encoding begins with as many
/// bytes of ASCII; these bytes are then the characters, and the encoding
/// splits behind them as the text does.
proof fn lemma_ascii_head(text: Seq<char>, count: nat)
    ensures
        ascii_head(text, count as int) <==> (encode_utf8(text).len() >= count && forall|i: int|
            0 <= i < count ==> #[trigger] encode_utf8(text)[i] < 128),
        ascii_head(text, count as int) ==> {
            &&& forall|i: int| 0 <= i < count ==> #[trigger] encode_utf8(text)[i] == text[i] as u8
            &&& is_char_boundary(encode_utf8(text), count as int)
            &&& encode_utf8(text).subrange(count as int, encode_utf8(text).len() as int)
                == encode_utf8(text.skip(count as int))
            &&& encode_utf8(text).subrange(0, count as int) == encode_utf8(text.take(count as int))
        },
    decreases count,
{
    let bytes = encode_utf8(text);
    encode_utf8_valid_utf8(text);
    if count == 0 {
        assert(bytes.subrange(0, bytes.len() as int) =~= bytes);
        assert(text.skip(0) =~= text);
        assert(text.take(0) =~= Seq::<char>::empty());
        assert(bytes.subrange(0, 0) =~= encode_utf8(Seq::<char>::empty()));
    } else if text.len() == 0 {
    } else {
        let c = text[0];
        let rest = text.drop_first();
        let tail = encode_utf8(rest);
        char_is_scalar(c);
        lemma_char_code(c);
        lemma_first_byte(c as u32);
        lemma_ascii_head(rest, (count - 1) as nat);
        encode_utf8_first_scalar(text);
        assert(bytes =~= vstd::utf8::encode_scalar(c as u32) + tail);
        if c <= '\u{7f}' {
            assert(vstd::utf8::has_width_1_encoding(c as u32));
            assert(c as u8 == (c as u32) as u8);
            assert(vstd::utf8::encode_scalar(c as u32) =~= seq![c as u8]);
            assert(bytes =~= seq![c as u8] + tail);
            assert(bytes[0] == c as u8);
            assert forall|i: int| 1 <= i < bytes.len() implies bytes[i] == tail[i - 1] by {}
            assert(ascii_head(text, count as int) <==> ascii_head(rest, count - 1)) by {
                if ascii_head(text, count as int) {
                    assert forall|i: int| 0 <= i < count - 1 implies #[trigger] rest[i]
                        <= '\u{7f}' by {
                        assert(rest[i] == text[i + 1]);
                    }
                }
                if ascii_head(rest, count - 1) {
                    assert forall|i: int| 0 <= i < count implies #[trigger] text[i]
                        <= '\u{7f}' by {
                        if i > 0 {
                            assert(text[i] == rest[i - 1]);
                        }
                    }
                }
            }
            assert((bytes.len() >= count && forall|i: int|
                0 <= i < count ==> #[trigger] bytes[i] < 128) <==> (tail.len() >= count - 1
                && forall|i: int| 0 <= i < count - 1 ==> #[trigger] tail[i] < 128)) by {
                if tail.len() >= count - 1 && forall|i: int|
                    0 <= i < count - 1 ==> #[trigger] tail[i] < 128 {
                    assert forall|i: int| 0 <= i < count implies #[trigger] bytes[i] < 128 by {
                        if i > 0 {
                            assert(bytes[i] == tail[i - 1]);
                        }
                    }
                }
                if bytes.len() >= count && forall|i: int|
                    0 <= i < count ==> #[trigger] bytes[i] < 128 {
                    assert forall|i: int| 0 <= i < count - 1 implies #[trigger] tail[i]
                        < 128 by {
                        assert(tail[i] == bytes[i + 1]);
                    }
                }
            }
            if ascii_head(text, count as int) {
                assert forall|i: int| 0 <= i < count implies #[trigger] bytes[i] == text[i] as u8 by {
                    if i > 0 {
                        assert(bytes[i] == tail[i - 1]);
                        assert(text[i] == rest[i - 1]);
                    }
                }
                assert(pop_first_scalar(bytes) =~= tail);
                assert(is_char_boundary(bytes, count as int));
                assert(text.skip(count as int) =~= rest.skip(count - 1));
                assert(bytes.subrange(count as int, bytes.len() as int) =~= tail.subrange(
                    count - 1,
                    tail.len() as int,
                ));
                let head = text.take(count as int);
                assert(head.drop_first() =~= rest.take(count - 1));
                assert(head[0] == c);
                assert(bytes.subrange(0, count as int) =~= seq![c as u8] + tail.subrange(
                    0,
                    count - 1,
                ));
                assert(encode_utf8(head) =~= seq![c as u8] + encode_utf8(head.drop_first()));
            }
        } else {
            assert(!vstd::utf8::has_width_1_encoding(c as u32));
            assert(bytes[0] == vstd::utf8::encode_scalar(c as u32)[0]);
            assert(bytes[0] >= 0x80);
            assert(!(text[0] <= '\u{7f}'));
        }
    }
}

/// Parts a text behind its first `count` characters, where these are ASCII.
pub(crate) fn split_ascii<'a>(input: &'a str, count: usize) -> (r: Option<(&'a str, &'a str)>)
    ensures
        match r {
            Some((head, rest)) => {
                &&& ascii_head(input@, count as int)
                &&& head@ == input@.take(count as int)
                &&& rest@ == input@.skip(count as int)
            },
            None => !ascii_head(input@, count as int),
        },
{
    let bytes = input.as_bytes();
    proof {
        lemma_ascii_head(input@, count as nat);
    }
    if bytes.len() < count {
        return None;
    }
    let mut i: usize = 0;
    while i < count
        invariant
            i <= count <= bytes@.len(),
            bytes@ == encode_utf8(input@),
            forall|k: int| 0 <= k < i ==> #[trigger] bytes@[k] < 128,
        decreases count - i,
    {
        if bytes[i] >= 128 {
            proof {
                lemma_ascii_head(input@, count as nat);
                assert(!(encode_utf8(input@)[i as int] < 128));
            }
            return None;
        }
        i += 1;
    }
    let (head, rest) = input.split_at(count);
    proof {
        encode_utf8_decode_utf8(head@);
        encode_utf8_decode_utf8(rest@);
        encode_utf8_decode_utf8(input@.take(count as int));
        encode_utf8_decode_utf8(input@.skip(count as int));
    }
    Some((head, rest))
}

/// The byte that stands for a character of ASCII.
pub(crate) fn ascii_code(c: char) -> (byte: u8)
    requires
        c <= '\u{7f}',
    ensures
        byte == c as u8,
        byte < 128,
{
    proof {
        lemma_char_code(c);
    }
    c as u8
}

/// Characters of ASCII that have the same byte are the same.
pub(crate) proof fn lemma_same_code(a: char, b: char)
    requires
        a <= '\u{7f}',
        b <= '\u{7f}',
        a as u8 == b as u8,
    ensures
        a == b,
{
    lemma_char_code(a);
    lemma_char_code(b);
    vstd::utf8::char_u32_cast(a, a as u32);
    vstd::utf8::char_u32_cast(b, b as u32);
}

/// The bytes of a text of ASCII, which are its characters.
pub(crate) fn ascii_bytes<'a>(text: &'a str) -> (bytes: &'a [u8])
    requires
        ascii_head(text@, text@.len() as int),
    ensures
        bytes@.len() == text@.len(),
        forall|i: int| 0 <= i < text@.len() ==> #[trigger] bytes@[i] == text@[i] as u8,
{
    proof {
        assert forall|i: int| 0 <= i < text@.len() implies '\0' <= #[trigger] text@[i]
            <= '\u{7f}' by {
            lemma_char_code(text@[i]);
        }
        is_ascii_chars_encode_utf8(text@);
    }
    text.as_bytes()
}

} // verus!
