//! The encoding of a remote path as a request parameter: the UTF-8 bytes of
//! the path in standard base64, with padding.

use base64::Engine;
use vstd::prelude::*;
use vstd::string::StringSliceAdditionalSpecFns;
use vstd::utf8::decode_utf8;
use vstd::utf8::encode_utf8;
use vstd::utf8::encode_utf8_decode_utf8;
use vstd::utf8::encode_utf8_valid_utf8;
use vstd::utf8::valid_utf8;

verus! {

/// The character that stands for the six-bit value `v` in the standard
/// base64 alphabet: `A`-`Z`, `a`-`z`, `0`-`9`, `+`, `/`.
pub open spec fn base64_digit(v: int) -> char
    recommends
        0 <= v < 64,
{
    if v < 26 {
        ((65 + v) as u8) as char
    } else if v < 52 {
        ((97 + (v - 26)) as u8) as char
    } else if v < 62 {
        ((48 + (v - 52)) as u8) as char
    } else if v == 62 {
        '+'
    } else {
        '/'
    }
}

/// The six-bit value that `c` stands for, if `c` is in the alphabet.
pub open spec fn base64_value(c: char) -> Option<int> {
    let n = c as u32 as int;
    if 65 <= n <= 90 {
        Some(n - 65)
    } else if 97 <= n <= 122 {
        Some(n - 97 + 26)
    } else if 48 <= n <= 57 {
        Some(n - 48 + 52)
    } else if c == '+' {
        Some(62)
    } else if c == '/' {
        Some(63)
    } else {
        None
    }
}

/// The four digits that hold the twenty-four bits of three bytes.
pub open spec fn base64_group(b0: int, b1: int, b2: int) -> Seq<char> {
    seq![
        base64_digit(b0 / 4),
        base64_digit((b0 % 4) * 16 + b1 / 16),
        base64_digit((b1 % 16) * 4 + b2 / 64),
        base64_digit(b2 % 64),
    ]
}

/// Standard base64 of `bytes`: each group of three bytes becomes four
/// digits, and a last group of one or two bytes is filled up with zero bits
/// and closed with `=`.
pub open spec fn base64_encode(bytes: Seq<u8>) -> Seq<char>
    decreases bytes.len(),
{
    if bytes.len() == 0 {
        Seq::empty()
    } else if bytes.len() == 1 {
        base64_group(bytes[0] as int, 0, 0).take(2) + seq!['=', '=']
    } else if bytes.len() == 2 {
        base64_group(bytes[0] as int, bytes[1] as int, 0).take(3) + seq!['=']
    } else {
        base64_group(bytes[0] as int, bytes[1] as int, bytes[2] as int) + base64_encode(
            bytes.skip(3),
        )
    }
}

/// The bytes that `text` is the standard base64 of, if there are any.
pub open spec fn base64_decode(text: Seq<char>) -> Option<Seq<u8>>
    decreases text.len(),
{
    if text.len() == 0 {
        Some(Seq::empty())
    } else if text.len() < 4 {
        None
    } else {
        let last = text.len() == 4;
        match (base64_value(text[0]), base64_value(text[1])) {
            (Some(v0), Some(v1)) => {
                let b0 = (v0 * 4 + v1 / 16) as u8;
                if last && text[2] == '=' && text[3] == '=' {
                    if v1 % 16 == 0 {
                        Some(seq![b0])
                    } else {
                        None
                    }
                } else {
                    match base64_value(text[2]) {
                        Some(v2) => {
                            let b1 = ((v1 % 16) * 16 + v2 / 4) as u8;
                            if last && text[3] == '=' {
                                if v2 % 4 == 0 {
                                    Some(seq![b0, b1])
                                } else {
                                    None
                                }
                            } else {
                                match (base64_value(text[3]), base64_decode(text.skip(4))) {
                                    (Some(v3), Some(rest)) => {
                                        let b2 = ((v2 % 4) * 64 + v3) as u8;
                                        Some(seq![b0, b1, b2] + rest)
                                    },
                                    _ => None,
                                }
                            }
                        },
                        None => None,
                    }
                }
            },
            _ => None,
        }
    }
}

/// A digit stands for the value it was made from.
pub proof fn lemma_base64_digit_value(v: int)
    requires
        0 <= v < 64,
    ensures
        base64_value(base64_digit(v)) == Some(v),
        base64_digit(v) != '=',
{
}

/// Decoding undoes encoding: no two byte strings share a base64 text.
pub proof fn lemma_base64_round_trip(bytes: Seq<u8>)
    ensures
        base64_decode(base64_encode(bytes)) == Some(bytes),
    decreases bytes.len(),
{
    let text = base64_encode(bytes);
    if bytes.len() == 0 {
    } else if bytes.len() == 1 {
        lemma_base64_digit_value(bytes[0] as int / 4);
        lemma_base64_digit_value((bytes[0] as int % 4) * 16);
        assert(base64_decode(text).unwrap() =~= bytes);
    } else if bytes.len() == 2 {
        lemma_base64_digit_value(bytes[0] as int / 4);
        lemma_base64_digit_value((bytes[0] as int % 4) * 16 + bytes[1] as int / 16);
        lemma_base64_digit_value((bytes[1] as int % 16) * 4);
        assert(base64_decode(text).unwrap() =~= bytes);
    } else {
        let rest = bytes.skip(3);
        lemma_base64_round_trip(rest);
        lemma_base64_digit_value(bytes[0] as int / 4);
        lemma_base64_digit_value((bytes[0] as int % 4) * 16 + bytes[1] as int / 16);
        lemma_base64_digit_value((bytes[1] as int % 16) * 4 + bytes[2] as int / 64);
        lemma_base64_digit_value(bytes[2] as int % 64);
        assert(text.skip(4) =~= base64_encode(rest));
        assert(seq![bytes[0], bytes[1], bytes[2]] + rest =~= bytes);
    }
}

/// The longest byte string whose base64 text still has a length that fits
/// in `usize`.
pub const MAX_ENCODABLE_BYTES: usize = usize::MAX / 4 * 3;

/// `base64::Engine::encode` of `base64::engine::general_purpose::STANDARD`:
/// the standard alphabet of RFC 4648 with `=` padding, which is what
/// `base64_encode` writes out. The call panics where the length of the text
/// overflows `usize`; the bound on `bytes` keeps clear of that.
#[verifier::external_body]
fn base64_standard(bytes: &[u8]) -> (text: String)
    requires
        bytes@.len() <= MAX_ENCODABLE_BYTES,
    ensures
        text@ == base64_encode(bytes@),
{
    base64::engine::general_purpose::STANDARD.encode(bytes)
}

/// The value of the `path` parameter that names `path` in a read request.
pub open spec fn path_param_text(path: Seq<char>) -> Seq<char> {
    base64_encode(encode_utf8(path))
}

/// The path that a `path` parameter names, if it names one.
pub open spec fn param_path(param: Seq<char>) -> Option<Seq<char>> {
    match base64_decode(param) {
        Some(bytes) => if valid_utf8(bytes) {
            Some(decode_utf8(bytes))
        } else {
            None
        },
        None => None,
    }
}

/// Encodes `path` for the `path` parameter of a read request: the exact
/// UTF-8 bytes of the path, in standard base64 with padding. `None` only for
/// a path so long that its encoding could not be held in memory.
pub fn path_param(path: &str) -> (param: Option<String>)
    ensures
        param is Some <==> encode_utf8(path@).len() <= MAX_ENCODABLE_BYTES,
        param matches Some(text) ==> text@ == path_param_text(path@),
{
    let bytes = path.as_bytes();
    if bytes.len() <= MAX_ENCODABLE_BYTES {
        Some(base64_standard(bytes))
    } else {
        None
    }
}

/// Path encoding loses nothing: whatever the path holds, spaces and
/// non-ASCII characters included, decoding its parameter gives the path
/// back.
pub proof fn lemma_path_param_round_trip(path: Seq<char>)
    ensures
        base64_decode(path_param_text(path)) == Some(encode_utf8(path)),
        param_path(path_param_text(path)) == Some(path),
{
    lemma_base64_round_trip(encode_utf8(path));
    encode_utf8_valid_utf8(path);
    encode_utf8_decode_utf8(path);
}

} // verus!
