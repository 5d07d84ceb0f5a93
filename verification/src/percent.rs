//! Percent-encoding of the bytes of a path or query component.

use vstd::prelude::*;

verus! {

/// The bytes that are written as they are: ASCII letters, digits, and
/// `-`, `.`, `_`, `~`.
pub open spec fn is_unreserved(b: u8) -> bool {
    ||| 0x41 <= b <= 0x5a
    ||| 0x61 <= b <= 0x7a
    ||| 0x30 <= b <= 0x39
    ||| b == 0x2d
    ||| b == 0x2e
    ||| b == 0x5f
    ||| b == 0x7e
}

/// The upper-case hexadecimal digit for a value below 16.
pub open spec fn hex_digit(n: u8) -> u8 {
    if n < 10 {
        (0x30 + n) as u8
    } else {
        (0x37 + n) as u8
    }
}

/// The value of a hexadecimal digit of either case, if the byte is one.
pub open spec fn hex_value(c: u8) -> Option<u8> {
    if 0x30 <= c <= 0x39 {
        Some((c - 0x30) as u8)
    } else if 0x41 <= c <= 0x46 {
        Some((c - 0x37) as u8)
    } else if 0x61 <= c <= 0x66 {
        Some((c - 0x57) as u8)
    } else {
        None
    }
}

/// How one byte is written: itself, or `%` and two hexadecimal digits.
pub open spec fn encode_byte(b: u8) -> Seq<u8> {
    if is_unreserved(b) {
        seq![b]
    } else {
        seq![0x25u8, hex_digit(b / 16), hex_digit(b % 16)]
    }
}

/// The percent-encoding of a byte string.
pub open spec fn percent_encode(input: Seq<u8>) -> Seq<u8>
    decreases input.len(),
{
    if input.len() == 0 {
        Seq::empty()
    } else {
        encode_byte(input[0]) + percent_encode(input.skip(1))
    }
}

/// Whether the text begins with `%` and two hexadecimal digits.
pub open spec fn starts_with_escape(text: Seq<u8>) -> bool {
    &&& text.len() >= 3
    &&& text[0] == 0x25
    &&& hex_value(text[1]) is Some
    &&& hex_value(text[2]) is Some
}

/// The byte string that a percent-encoded text stands for. A `%` that is not
/// followed by two hexadecimal digits stands for itself.
pub open spec fn percent_decode(text: Seq<u8>) -> Seq<u8>
    decreases text.len(),
{
    if text.len() == 0 {
        Seq::empty()
    } else if starts_with_escape(text) {
        seq![(hex_value(text[1])->0 * 16 + hex_value(text[2])->0) as u8] + percent_decode(
            text.skip(3),
        )
    } else {
        seq![text[0]] + percent_decode(text.skip(1))
    }
}

/// Whether a byte can occur in a percent-encoded text.
pub open spec fn is_encoded_byte(b: u8) -> bool {
    is_unreserved(b) || b == 0x25
}

/// Decoding undoes encoding.
pub proof fn lemma_decode_encode(input: Seq<u8>)
    ensures
        percent_decode(percent_encode(input)) == input,
    decreases input.len(),
{
    if input.len() > 0 {
        let b = input[0];
        let rest = percent_encode(input.skip(1));
        let text = percent_encode(input);
        lemma_decode_encode(input.skip(1));
        if is_unreserved(b) {
            assert(text.skip(1) =~= rest);
            assert(!starts_with_escape(text));
        } else {
            assert(text.skip(3) =~= rest);
            assert(text[1] == hex_digit(b / 16));
            assert(text[2] == hex_digit(b % 16));
            assert(hex_value(hex_digit(b / 16)) == Some(b / 16));
            assert(hex_value(hex_digit(b % 16)) == Some(b % 16));
            assert(starts_with_escape(text));
            assert(((b / 16) * 16 + b % 16) as u8 == b);
        }
        assert(percent_decode(text) =~= seq![b] + input.skip(1));
        assert(seq![b] + input.skip(1) =~= input);
    }
}

/// An encoded text holds only unreserved bytes and `%`, and is empty only
/// for an empty input.
pub proof fn lemma_encode_bytes(input: Seq<u8>)
    ensures
        forall|i: int|
            0 <= i < percent_encode(input).len() ==> is_encoded_byte(
                #[trigger] percent_encode(input)[i],
            ),
        input.len() > 0 ==> percent_encode(input).len() > 0,
    decreases input.len(),
{
    if input.len() > 0 {
        lemma_encode_bytes(input.skip(1));
        let head = encode_byte(input[0]);
        let tail = percent_encode(input.skip(1));
        assert forall|i: int| 0 <= i < percent_encode(input).len() implies is_encoded_byte(
            #[trigger] percent_encode(input)[i],
        ) by {
            let b = input[0];
            assert(b / 16 < 16 && b % 16 < 16);
            if i < head.len() {
                assert(percent_encode(input)[i] == head[i]);
            } else {
                assert(percent_encode(input)[i] == tail[i - head.len()]);
            }
        }
    }
}

fn hex_digit_of(n: u8) -> (d: u8)
    requires
        n < 16,
    ensures
        d == hex_digit(n),
{
    if n < 10 {
        0x30 + n
    } else {
        0x37 + n
    }
}

fn hex_value_of(c: u8) -> (v: Option<u8>)
    ensures
        v == hex_value(c),
        v is Some ==> v->0 < 16,
{
    if 0x30 <= c && c <= 0x39 {
        Some(c - 0x30)
    } else if 0x41 <= c && c <= 0x46 {
        Some(c - 0x37)
    } else if 0x61 <= c && c <= 0x66 {
        Some(c - 0x57)
    } else {
        None
    }
}

fn unreserved(b: u8) -> (r: bool)
    ensures
        r == is_unreserved(b),
{
    (0x41 <= b && b <= 0x5a) || (0x61 <= b && b <= 0x7a) || (0x30 <= b && b <= 0x39) || b == 0x2d
        || b == 0x2e || b == 0x5f || b == 0x7e
}

/// Percent-encodes a byte string.
pub fn encode(input: &[u8]) -> (text: Vec<u8>)
    ensures
        text@ == percent_encode(input@),
{
    let mut text: Vec<u8> = Vec::new();
    let mut i: usize = 0;
    assert(text@ + percent_encode(input@.skip(0)) =~= percent_encode(input@)) by {
        assert(input@.skip(0) =~= input@);
    }
    while i < input.len()
        invariant
            0 <= i <= input.len(),
            text@ + percent_encode(input@.skip(i as int)) == percent_encode(input@),
        decreases input.len() - i,
    {
        let b: u8 = input[i];
        proof {
            let rest = input@.skip(i as int);
            assert(rest[0] == b);
            assert(rest.skip(1) =~= input@.skip(i + 1));
            assert((text@ + encode_byte(b)) + percent_encode(input@.skip(i + 1)) =~= text@
                + percent_encode(rest));
        }
        let ghost before = text@;
        if unreserved(b) {
            text.push(b);
            assert(text@ =~= before + encode_byte(b));
        } else {
            text.push(0x25);
            text.push(hex_digit_of(b / 16));
            text.push(hex_digit_of(b % 16));
            assert(text@ =~= before + encode_byte(b));
        }
        i += 1;
    }
    assert(input@.skip(i as int) =~= Seq::<u8>::empty());
    assert(text@ + Seq::<u8>::empty() =~= text@);
    text
}

/// Decodes a percent-encoded text.
pub fn decode(text: &[u8]) -> (bytes: Vec<u8>)
    ensures
        bytes@ == percent_decode(text@),
{
    let mut bytes: Vec<u8> = Vec::new();
    let mut i: usize = 0;
    assert(bytes@ + percent_decode(text@.skip(0)) =~= percent_decode(text@)) by {
        assert(text@.skip(0) =~= text@);
    }
    while i < text.len()
        invariant
            0 <= i <= text.len(),
            bytes@ + percent_decode(text@.skip(i as int)) == percent_decode(text@),
        decreases text.len() - i,
    {
        let ghost rest = text@.skip(i as int);
        let ghost before = bytes@;
        let mut step: usize = 1;
        let mut value: u8 = text[i];
        if text[i] == 0x25 && text.len() - i >= 3 {
            match (hex_value_of(text[i + 1]), hex_value_of(text[i + 2])) {
                (Some(hi), Some(lo)) => {
                    value = hi * 16 + lo;
                    step = 3;
                },
                _ => {},
            }
        }
        proof {
            assert(rest.len() == text.len() - i);
            assert(rest[0] == text@[i as int]);
            if rest.len() >= 3 {
                assert(rest[1] == text@[i + 1]);
                assert(rest[2] == text@[i + 2]);
            }
            assert(rest.skip(step as int) =~= text@.skip(i + step));
            assert(percent_decode(rest) == seq![value] + percent_decode(rest.skip(step as int)));
            assert((before + seq![value]) + percent_decode(text@.skip(i + step)) =~= before
                + percent_decode(rest));
        }
        bytes.push(value);
        assert(bytes@ =~= before + seq![value]);
        i += step;
    }
    assert(text@.skip(i as int) =~= Seq::<u8>::empty());
    assert(bytes@ + Seq::<u8>::empty() =~= bytes@);
    bytes
}

} // verus!
