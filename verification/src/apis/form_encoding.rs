//! The `application/x-www-form-urlencoded` byte serializer, stated as a
//! specification, with the laws that follow from it.

use vstd::prelude::*;
use vstd::utf8::{encode_utf8, encode_utf8_decode_utf8};

verus! {

/// Bytes that the serializer copies through as the ASCII character they are:
/// `*`, `-`, `.`, `_`, ASCII digits and ASCII letters.
pub open spec fn byte_unchanged(b: u8) -> bool {
    ||| b == 42
    ||| b == 45
    ||| b == 46
    ||| (48 <= b && b <= 57)
    ||| (65 <= b && b <= 90)
    ||| b == 95
    ||| (97 <= b && b <= 122)
}

/// The upper-case hexadecimal digit for `d` (which is below 16).
pub open spec fn hex_digit_upper(d: int) -> char {
    if d < 10 {
        (48 + d) as char
    } else {
        (55 + d) as char
    }
}

/// What one input byte becomes: itself, `+` for a space, or `%XX`.
pub open spec fn encode_byte(b: u8) -> Seq<char> {
    if byte_unchanged(b) {
        seq![b as char]
    } else if b == 32 {
        seq!['+']
    } else {
        seq!['%', hex_digit_upper(b as int / 16), hex_digit_upper(b as int % 16)]
    }
}

/// The form-urlencoded serialization of a byte sequence: the encodings of
/// its bytes, one after the other.
pub open spec fn form_urlencoded(bytes: Seq<u8>) -> Seq<char>
    decreases bytes.len(),
{
    if bytes.len() == 0 {
        Seq::empty()
    } else {
        encode_byte(bytes[0]) + form_urlencoded(bytes.drop_first())
    }
}

/// Characters that can appear in a serialization: the unchanged set, `+`,
/// `%` and the upper-case hexadecimal digits.
pub open spec fn is_form_safe_char(c: char) -> bool {
    ||| c == '*'
    ||| c == '-'
    ||| c == '.'
    ||| c == '_'
    ||| c == '+'
    ||| c == '%'
    ||| ('0' <= c && c <= '9')
    ||| ('A' <= c && c <= 'Z')
    ||| ('a' <= c && c <= 'z')
}

/// Characters that the serializer leaves as they are (as ASCII bytes).
pub open spec fn is_unreserved_char(c: char) -> bool {
    ||| c == '*'
    ||| c == '-'
    ||| c == '.'
    ||| c == '_'
    ||| ('0' <= c && c <= '9')
    ||| ('A' <= c && c <= 'Z')
    ||| ('a' <= c && c <= 'z')
}

/// The value of an upper-case hexadecimal digit.
pub open spec fn hex_value(c: char) -> int {
    if '0' <= c && c <= '9' {
        c as int - 48
    } else {
        c as int - 55
    }
}

/// Reads a form-urlencoded serialization back into bytes: `+` is a space,
/// `%XX` the byte with hexadecimal value `XX`, any other character its own
/// code.
pub open spec fn form_urldecoded(s: Seq<char>) -> Seq<u8>
    decreases s.len(),
{
    if s.len() == 0 {
        Seq::empty()
    } else if s[0] == '+' {
        seq![32u8] + form_urldecoded(s.drop_first())
    } else if s[0] == '%' && s.len() >= 3 {
        seq![(hex_value(s[1]) * 16 + hex_value(s[2])) as u8] + form_urldecoded(s.skip(3))
    } else {
        seq![s[0] as u8] + form_urldecoded(s.drop_first())
    }
}

proof fn lemma_form_urlencoded_concat(a: Seq<u8>, b: Seq<u8>)
    ensures
        form_urlencoded(a + b) == form_urlencoded(a) + form_urlencoded(b),
    decreases a.len(),
{
    if a.len() == 0 {
        assert(a + b =~= b);
        assert(form_urlencoded(a) + form_urlencoded(b) =~= form_urlencoded(b));
    } else {
        assert((a + b).drop_first() =~= a.drop_first() + b);
        lemma_form_urlencoded_concat(a.drop_first(), b);
        assert(form_urlencoded(a + b) =~= encode_byte(a[0]) + (form_urlencoded(a.drop_first())
            + form_urlencoded(b)));
    }
}

proof fn lemma_encode_utf8_concat(a: Seq<char>, b: Seq<char>)
    ensures
        encode_utf8(a + b) == encode_utf8(a) + encode_utf8(b),
    decreases a.len(),
{
    if a.len() == 0 {
        assert(a + b =~= b);
        assert(encode_utf8(a) + encode_utf8(b) =~= encode_utf8(b));
    } else {
        assert((a + b).drop_first() =~= a.drop_first() + b);
        lemma_encode_utf8_concat(a.drop_first(), b);
        assert(encode_utf8(a + b) =~= encode_scalar_of(a[0]) + (encode_utf8(a.drop_first())
            + encode_utf8(b)));
    }
}

spec fn encode_scalar_of(c: char) -> Seq<u8> {
    vstd::utf8::encode_scalar(c as u32)
}

/// Urlencoding distributes over concatenation: the encoding of `a` followed
/// by `b` is the encoding of `a` followed by the encoding of `b`.
pub proof fn law_urlencode_concat(a: Seq<char>, b: Seq<char>)
    ensures
        form_urlencoded(encode_utf8(a + b)) == form_urlencoded(encode_utf8(a)) + form_urlencoded(
            encode_utf8(b),
        ),
{
    lemma_encode_utf8_concat(a, b);
    lemma_form_urlencoded_concat(encode_utf8(a), encode_utf8(b));
}

proof fn lemma_form_urlencoded_alphabet(bytes: Seq<u8>)
    ensures
        forall|i: int|
            0 <= i < form_urlencoded(bytes).len() ==> is_form_safe_char(
                #[trigger] form_urlencoded(bytes)[i],
            ),
    decreases bytes.len(),
{
    if bytes.len() > 0 {
        lemma_form_urlencoded_alphabet(bytes.drop_first());
        let head = encode_byte(bytes[0]);
        let tail = form_urlencoded(bytes.drop_first());
        assert forall|i: int| 0 <= i < head.len() implies is_form_safe_char(#[trigger] head[i]) by {
        }
        assert forall|i: int|
            0 <= i < form_urlencoded(bytes).len() implies is_form_safe_char(
            #[trigger] form_urlencoded(bytes)[i],
        ) by {
            if i < head.len() {
                assert(form_urlencoded(bytes)[i] == head[i]);
            } else {
                assert(form_urlencoded(bytes)[i] == tail[i - head.len()]);
            }
        }
    }
}

/// Every character of an encoding is URL-safe: an unreserved character,
/// `+`, `%` or an upper-case hexadecimal digit.
pub proof fn law_urlencode_alphabet(s: Seq<char>)
    ensures
        forall|i: int|
            0 <= i < form_urlencoded(encode_utf8(s)).len() ==> is_form_safe_char(
                #[trigger] form_urlencoded(encode_utf8(s))[i],
            ),
{
    lemma_form_urlencoded_alphabet(encode_utf8(s));
}

/// A string made only of unreserved characters is its own encoding.
pub proof fn law_urlencode_unreserved(s: Seq<char>)
    requires
        forall|i: int| 0 <= i < s.len() ==> is_unreserved_char(#[trigger] s[i]),
    ensures
        form_urlencoded(encode_utf8(s)) == s,
    decreases s.len(),
{
    if s.len() > 0 {
        let rest = s.drop_first();
        assert forall|i: int| 0 <= i < rest.len() implies is_unreserved_char(#[trigger] rest[i]) by {
            assert(rest[i] == s[i + 1]);
        }
        law_urlencode_unreserved(rest);
        assert(is_unreserved_char(s[0]));
        let b = s[0] as u8;
        let c0 = s[0] as u32;
        assert(c0 <= 0x7f);
        assert(c0 as u8 == vstd::utf8::leading_byte_width_1(c0)) by (bit_vector)
            requires
                c0 <= 0x7f,
        ;
        assert(b == c0 as u8);
        assert(encode_scalar_of(s[0]) == seq![b]);
        assert(encode_utf8(s) == seq![b] + encode_utf8(rest));
        assert(seq![b].drop_first() =~= Seq::<u8>::empty());
        lemma_form_urlencoded_concat(seq![b], encode_utf8(rest));
        assert(form_urlencoded(Seq::<u8>::empty()) == Seq::<char>::empty());
        assert(form_urlencoded(seq![b]) =~= encode_byte(b));
        assert(byte_unchanged(b));
        assert(b as char == s[0]);
        assert(s =~= seq![s[0]] + rest);
    }
}

proof fn lemma_form_urldecoded_roundtrip(bytes: Seq<u8>)
    ensures
        form_urldecoded(form_urlencoded(bytes)) == bytes,
    decreases bytes.len(),
{
    if bytes.len() > 0 {
        let b = bytes[0];
        let rest = form_urlencoded(bytes.drop_first());
        lemma_form_urldecoded_roundtrip(bytes.drop_first());
        let e = form_urlencoded(bytes);
        assert(e == encode_byte(b) + rest);
        if byte_unchanged(b) {
            assert(e.drop_first() =~= rest);
        } else if b == 32 {
            assert(e.drop_first() =~= rest);
        } else {
            assert(e.skip(3) =~= rest);
            let hi = b as int / 16;
            let lo = b as int % 16;
            assert(hex_value(hex_digit_upper(hi)) == hi);
            assert(hex_value(hex_digit_upper(lo)) == lo);
        }
        assert(bytes =~= seq![b] + bytes.drop_first());
    }
}

/// Urlencoding loses nothing: two strings with the same encoding are the
/// same string.
pub proof fn law_urlencode_injective(a: Seq<char>, b: Seq<char>)
    requires
        form_urlencoded(encode_utf8(a)) == form_urlencoded(encode_utf8(b)),
    ensures
        a == b,
{
    lemma_form_urldecoded_roundtrip(encode_utf8(a));
    lemma_form_urldecoded_roundtrip(encode_utf8(b));
    encode_utf8_decode_utf8(a);
    encode_utf8_decode_utf8(b);
}

/// A space is encoded as `+`.
pub proof fn law_urlencode_space()
    ensures
        form_urlencoded(seq![32u8]) == seq!['+'],
{
    assert(seq![32u8].drop_first() =~= Seq::<u8>::empty());
    assert(form_urlencoded(Seq::<u8>::empty()) == Seq::<char>::empty());
    assert(form_urlencoded(seq![32u8]) =~= seq!['+']);
}

/// Any other byte outside the unreserved set is encoded as `%` followed by
/// its value in two upper-case hexadecimal digits.
pub proof fn law_urlencode_percent(b: u8)
    requires
        !is_unreserved_char(b as char),
        b != 32,
    ensures
        form_urlencoded(seq![b]) == seq![
            '%',
            "0123456789ABCDEF"@[b as int / 16],
            "0123456789ABCDEF"@[b as int % 16],
        ],
{
    reveal_strlit("0123456789ABCDEF");
    assert(!byte_unchanged(b));
    assert(seq![b].drop_first() =~= Seq::<u8>::empty());
    assert(form_urlencoded(Seq::<u8>::empty()) == Seq::<char>::empty());
    assert(form_urlencoded(seq![b]) =~= encode_byte(b));
    let hi = b as int / 16;
    let lo = b as int % 16;
    assert(hex_digit_upper(hi) == "0123456789ABCDEF"@[hi]);
    assert(hex_digit_upper(lo) == "0123456789ABCDEF"@[lo]);
}

} // verus!
