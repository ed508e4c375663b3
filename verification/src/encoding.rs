//! Base64 text.

use vstd::prelude::*;

verus! {

/// The character of the standard Base64 alphabet for a six-bit value.
pub open spec fn base64_char(v: int) -> char {
    if v < 26 {
        (0x41 + v) as char
    } else if v < 52 {
        (0x61 + (v - 26)) as char
    } else if v < 62 {
        (0x30 + (v - 52)) as char
    } else if v == 62 {
        '+'
    } else {
        '/'
    }
}

/// The standard Base64 text of some bytes, with padding.
pub open spec fn base64_text(bytes: Seq<u8>) -> Seq<char>
    decreases bytes.len(),
{
    if bytes.len() == 0 {
        Seq::empty()
    } else if bytes.len() == 1 {
        let a = bytes[0] as int;
        seq![base64_char(a / 4), base64_char(a % 4 * 16), '=', '=']
    } else if bytes.len() == 2 {
        let a = bytes[0] as int;
        let b = bytes[1] as int;
        seq![base64_char(a / 4), base64_char(a % 4 * 16 + b / 16), base64_char(b % 16 * 4), '=']
    } else {
        let a = bytes[0] as int;
        let b = bytes[1] as int;
        let c = bytes[2] as int;
        seq![
            base64_char(a / 4),
            base64_char(a % 4 * 16 + b / 16),
            base64_char(b % 16 * 4 + c / 64),
            base64_char(c % 64),
        ] + base64_text(bytes.skip(3))
    }
}

proof fn lemma_base64_char_injective(a: int, b: int)
    requires
        0 <= a < 64,
        0 <= b < 64,
        base64_char(a) == base64_char(b),
    ensures
        a == b,
{
}

proof fn lemma_base64_char_no_padding(a: int)
    requires
        0 <= a < 64,
    ensures
        base64_char(a) != '=',
{
}

/// The first group of the text determines the first bytes.
proof fn lemma_first_group(x: Seq<u8>, y: Seq<u8>)
    requires
        base64_text(x) == base64_text(y),
    ensures
        x.len() == 0 <==> y.len() == 0,
        x.len() == 1 <==> y.len() == 1,
        x.len() == 2 <==> y.len() == 2,
        x.len() >= 1 ==> x[0] == y[0],
        x.len() >= 2 ==> x[1] == y[1],
        x.len() >= 3 ==> x[2] == y[2],
{
    let t = base64_text(x);
    if x.len() > 0 && y.len() > 0 {
        let (a, b, c) = (x[0] as int, x[1] as int, x[2] as int);
        let (d, e, f) = (y[0] as int, y[1] as int, y[2] as int);
        assert(t[0] == base64_char(a / 4));
        assert(base64_text(y)[0] == base64_char(d / 4));
        lemma_base64_char_injective(a / 4, d / 4);
        if x.len() >= 2 {
            assert(t[1] == base64_char(a % 4 * 16 + b / 16));
            lemma_base64_char_no_padding(b % 16 * 4);
        }
        if y.len() >= 2 {
            assert(base64_text(y)[1] == base64_char(d % 4 * 16 + e / 16));
            lemma_base64_char_no_padding(e % 16 * 4);
        }
        if x.len() >= 3 {
            lemma_base64_char_no_padding(b % 16 * 4 + c / 64);
            lemma_base64_char_no_padding(c % 64);
            assert(t[2] == base64_char(b % 16 * 4 + c / 64));
            assert(t[3] == base64_char(c % 64));
        }
        if y.len() >= 3 {
            lemma_base64_char_no_padding(e % 16 * 4 + f / 64);
            lemma_base64_char_no_padding(f % 64);
            assert(t[2] == base64_char(e % 16 * 4 + f / 64));
            assert(t[3] == base64_char(f % 64));
        }
        if x.len() == 1 {
            assert(t[2] == '=');
        }
        if y.len() == 1 {
            assert(t[2] == '=');
        }
        if x.len() == 1 {
            lemma_base64_char_injective(a % 4 * 16, d % 4 * 16);
        } else {
            lemma_base64_char_injective(a % 4 * 16 + b / 16, d % 4 * 16 + e / 16);
            if x.len() == 2 {
                lemma_base64_char_injective(b % 16 * 4, e % 16 * 4);
            } else {
                lemma_base64_char_injective(b % 16 * 4 + c / 64, e % 16 * 4 + f / 64);
                lemma_base64_char_injective(c % 64, f % 64);
            }
        }
    } else if x.len() > 0 {
        assert(t.len() >= 4);
    } else if y.len() > 0 {
        assert(base64_text(y).len() >= 4);
    }
}

/// A Base64 text is the text of one byte string only.
pub proof fn base64_text_is_injective(x: Seq<u8>, y: Seq<u8>)
    requires
        base64_text(x) == base64_text(y),
    ensures
        x == y,
    decreases x.len(),
{
    lemma_first_group(x, y);
    if x.len() >= 3 {
        let rx = base64_text(x.skip(3));
        let ry = base64_text(y.skip(3));
        assert(rx =~= base64_text(x).skip(4));
        assert(ry =~= base64_text(y).skip(4));
        base64_text_is_injective(x.skip(3), y.skip(3));
        assert(x =~= seq![x[0], x[1], x[2]] + x.skip(3));
        assert(y =~= seq![y[0], y[1], y[2]] + y.skip(3));
    } else {
        assert(x =~= y);
    }
}

/// The bytes that a padded standard Base64 text stands for, if it is one.
pub open spec fn base64_bytes(text: Seq<char>) -> Option<Seq<u8>> {
    if exists|bytes: Seq<u8>| #[trigger] base64_text(bytes) == text {
        Some(choose|bytes: Seq<u8>| #[trigger] base64_text(bytes) == text)
    } else {
        None
    }
}

/// Decoding the Base64 text of some bytes gives the bytes back.
pub proof fn base64_decodes_back(bytes: Seq<u8>)
    ensures
        base64_bytes(base64_text(bytes)) == Some(bytes),
{
    let found = choose|b: Seq<u8>| #[trigger] base64_text(b) == base64_text(bytes);
    assert(base64_text(bytes) == base64_text(bytes));
    base64_text_is_injective(found, bytes);
}

/// The decoding error of `base64`, of which nothing is claimed.
#[verifier::external_type_specification]
#[verifier::external_body]
pub struct ExBase64DecodeError(base64::DecodeError);

/// `Engine::decode` of `base64` with the engine `STANDARD`: a text is decoded
/// exactly when it is the padded standard Base64 text of some bytes, with
/// nothing before, between or behind its groups, and gives those bytes. The
/// engine takes no text with missing or superfluous padding and none whose
/// last group has unused bits that are not zero.
#[verifier::external_body]
pub(crate) fn decode_base64(text: &str) -> (r: Result<Vec<u8>, base64::DecodeError>)
    ensures
        r matches Ok(bytes) ==> base64_text(bytes@) == text@,
        r is Err ==> forall|bytes: Seq<u8>| #[trigger] base64_text(bytes) != text@,
{
    base64::Engine::decode(&base64::engine::general_purpose::STANDARD, text)
}

/// `Engine::encode` of `base64` with the engine `STANDARD`: the padded
/// standard Base64 text of the bytes.
#[verifier::external_body]
pub(crate) fn encode_base64(bytes: &Vec<u8>) -> (r: String)
    ensures
        r@ == base64_text(bytes@),
{
    base64::Engine::encode(&base64::engine::general_purpose::STANDARD, bytes)
}

} // verus!
