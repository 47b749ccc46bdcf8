use vstd::prelude::*;
use vstd::utf8::is_ascii_chars;

verus! {

/// The lowercase hexadecimal digit of a value below sixteen.
pub open spec fn hex_digit(nibble: int) -> char {
    if nibble == 0 {
        '0'
    } else if nibble == 1 {
        '1'
    } else if nibble == 2 {
        '2'
    } else if nibble == 3 {
        '3'
    } else if nibble == 4 {
        '4'
    } else if nibble == 5 {
        '5'
    } else if nibble == 6 {
        '6'
    } else if nibble == 7 {
        '7'
    } else if nibble == 8 {
        '8'
    } else if nibble == 9 {
        '9'
    } else if nibble == 10 {
        'a'
    } else if nibble == 11 {
        'b'
    } else if nibble == 12 {
        'c'
    } else if nibble == 13 {
        'd'
    } else if nibble == 14 {
        'e'
    } else {
        'f'
    }
}

/// Whether a character is one of `0`..`9`, `a`..`f`.
pub open spec fn is_lower_hex(c: char) -> bool {
    ('0' <= c && c <= '9') || ('a' <= c && c <= 'f')
}

/// The lowercase hexadecimal text of a byte string: two digits per byte, the
/// high half first.
pub open spec fn hex_lower(bytes: Seq<u8>) -> Seq<char> {
    Seq::new(
        2 * bytes.len(),
        |i: int|
            if i % 2 == 0 {
                hex_digit(bytes[i / 2] as int / 16)
            } else {
                hex_digit(bytes[i / 2] as int % 16)
            },
    )
}

/// Calls `hex::encode`. The contract is the crate's documented behaviour: each
/// byte becomes two characters of `0123456789abcdef`, the one for the upper
/// four bits before the one for the lower four.
#[verifier::external_body]
pub(crate) fn hex_encode(data: &[u8]) -> (text: String)
    ensures
        text@ == hex_lower(data@),
{
    hex::encode(data)
}

/// Hexadecimal text has two characters per byte, all of them lowercase
/// hexadecimal digits, and so all of them ASCII.
pub proof fn lemma_hex_lower_shape(bytes: Seq<u8>)
    ensures
        hex_lower(bytes).len() == 2 * bytes.len(),
        forall|i: int| 0 <= i < 2 * bytes.len() ==> is_lower_hex(#[trigger] hex_lower(bytes)[i]),
        vstd::utf8::is_ascii_chars(hex_lower(bytes)),
{
    assert forall|i: int| 0 <= i < 2 * bytes.len() implies is_lower_hex(
        #[trigger] hex_lower(bytes)[i],
    ) by {
        let b = bytes[i / 2] as int;
        assert(0 <= b / 16 < 16 && 0 <= b % 16 < 16);
    }
}

/// Two byte strings with the same hexadecimal text are the same.
pub proof fn lemma_hex_lower_injective(a: Seq<u8>, b: Seq<u8>)
    requires
        hex_lower(a) == hex_lower(b),
    ensures
        a == b,
{
    assert(hex_lower(a).len() == 2 * a.len());
    assert(hex_lower(b).len() == 2 * b.len());
    assert forall|i: int| 0 <= i < a.len() implies a[i] == b[i] by {
        let x = a[i] as int;
        let y = b[i] as int;
        assert(hex_lower(a)[2 * i] == hex_digit(x / 16));
        assert(hex_lower(b)[2 * i] == hex_digit(y / 16));
        assert(hex_lower(a)[2 * i + 1] == hex_digit(x % 16));
        assert(hex_lower(b)[2 * i + 1] == hex_digit(y % 16));
        assert(0 <= x / 16 < 16 && 0 <= y / 16 < 16);
        assert(0 <= x % 16 < 16 && 0 <= y % 16 < 16);
        assert(x / 16 == y / 16);
        assert(x % 16 == y % 16);
    }
    assert(a =~= b);
}

/// The hexadecimal text of two byte strings joined is their texts joined.
pub proof fn lemma_hex_lower_concat(a: Seq<u8>, b: Seq<u8>)
    ensures
        hex_lower(a + b) == hex_lower(a) + hex_lower(b),
{
    assert(hex_lower(a + b) =~= hex_lower(a) + hex_lower(b)) by {
        assert forall|i: int| 0 <= i < 2 * (a.len() + b.len()) implies hex_lower(a + b)[i] == (
        hex_lower(a) + hex_lower(b))[i] by {
            if i < 2 * a.len() {
                assert((a + b)[i / 2] == a[i / 2]);
            } else {
                assert((a + b)[i / 2] == b[(i - 2 * a.len()) / 2]);
                assert(i % 2 == (i - 2 * a.len()) % 2);
            }
        }
    }
}

/// The value of a lowercase hexadecimal digit given as its ASCII code.
fn nibble_of(code: u8) -> (out: Option<u8>)
    ensures
        match out {
            Some(nibble) => nibble < 16 && hex_digit(nibble as int) == code as char,
            None => !is_lower_hex(code as char),
        },
{
    if 0x30 <= code && code <= 0x39 {
        Some(code - 0x30)
    } else if 0x61 <= code && code <= 0x66 {
        Some(code - 0x61 + 10)
    } else {
        None
    }
}

/// Reads lowercase hexadecimal text back into bytes. It gives the bytes
/// whose text this is, and `None` where it is the text of no byte string:
/// where its length is odd or a character is no lowercase hexadecimal digit.
pub fn hex_decode(text: &str) -> (out: Option<Vec<u8>>)
    ensures
        match out {
            Some(bytes) => text@ == hex_lower(bytes@),
            None => forall|bytes: Seq<u8>| text@ != hex_lower(bytes),
        },
{
    broadcast use vstd::string::is_ascii_spec_bytes;

    if !text.is_ascii() {
        assert forall|bytes: Seq<u8>| text@ != hex_lower(bytes) by {
            lemma_hex_lower_shape(bytes);
        }
        return None;
    }
    let codes = text.as_bytes();
    assert(codes@.len() == text@.len());
    let len = codes.len();
    if len % 2 != 0 {
        assert forall|bytes: Seq<u8>| text@ != hex_lower(bytes) by {
            lemma_hex_lower_shape(bytes);
        }
        return None;
    }
    let mut bytes: Vec<u8> = Vec::new();
    let mut at: usize = 0;
    while at < len
        invariant
            at <= len,
            at % 2 == 0,
            len % 2 == 0,
            len == codes@.len(),
            len == text@.len(),
            is_ascii_chars(text@),
            forall|i: int| 0 <= i < len ==> text@[i] as u8 == #[trigger] codes@[i],
            bytes@.len() * 2 == at,
            forall|i: int| 0 <= i < at ==> text@[i] == #[trigger] hex_lower(bytes@)[i],
        decreases len - at,
    {
        let high = nibble_of(codes[at]);
        let low = nibble_of(codes[at + 1]);
        assert(text@[at as int] == codes@[at as int] as char);
        assert(text@[at + 1] == codes@[at + 1] as char);
        match (high, low) {
            (Some(high), Some(low)) => {
                let ghost before = bytes@;
                bytes.push(high * 16 + low);
                assert forall|i: int| 0 <= i < at + 2 implies text@[i] == #[trigger] hex_lower(
                    bytes@,
                )[i] by {
                    if i < at {
                        assert(bytes@[i / 2] == before[i / 2]);
                        assert(hex_lower(before)[i] == hex_lower(bytes@)[i]);
                    } else {
                        assert(bytes@[i / 2] == high * 16 + low);
                    }
                }
                at = at + 2;
            },
            _ => {
                assert forall|other: Seq<u8>| text@ != hex_lower(other) by {
                    lemma_hex_lower_shape(other);
                    if text@ == hex_lower(other) {
                        assert(is_lower_hex(hex_lower(other)[at as int]));
                        assert(is_lower_hex(hex_lower(other)[at + 1]));
                    }
                }
                return None;
            },
        }
    }
    assert(text@ =~= hex_lower(bytes@));
    Some(bytes)
}

} // verus!
