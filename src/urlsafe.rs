//! URL-safe Base64 without padding (RFC 4648, section 5).
use vstd::prelude::*;
use base64::Engine;
use crate::errors::B64Error;

verus! {

/// The character that stands for the six-bit value `x` in the URL-safe alphabet.
pub open spec fn sextet_char(x: int) -> char {
    if x < 26 {
        (x + 65) as char
    } else if x < 52 {
        (x + 71) as char
    } else if x < 62 {
        (x - 4) as char
    } else if x == 62 {
        '-'
    } else {
        '_'
    }
}

/// Whether `c` belongs to the URL-safe Base64 alphabet.
pub open spec fn is_url_safe_char(c: char) -> bool {
    ('A' <= c <= 'Z') || ('a' <= c <= 'z') || ('0' <= c <= '9') || c == '-' || c == '_'
}

pub open spec fn all_url_safe(s: Seq<char>) -> bool {
    forall|i: int| 0 <= i < s.len() ==> is_url_safe_char(#[trigger] s[i])
}

/// Unpadded URL-safe Base64 of `b`: each group of three bytes becomes four
/// characters, a last group of two bytes three, a last single byte two.
pub open spec fn encode_spec(b: Seq<u8>) -> Seq<char>
    decreases b.len(),
{
    if b.len() == 0 {
        seq![]
    } else if b.len() == 1 {
        let x0 = b[0] as int;
        seq![sextet_char(x0 / 4), sextet_char((x0 % 4) * 16)]
    } else if b.len() == 2 {
        let x0 = b[0] as int;
        let x1 = b[1] as int;
        seq![sextet_char(x0 / 4), sextet_char((x0 % 4) * 16 + x1 / 16), sextet_char((x1 % 16) * 4)]
    } else {
        let x0 = b[0] as int;
        let x1 = b[1] as int;
        let x2 = b[2] as int;
        seq![
            sextet_char(x0 / 4),
            sextet_char((x0 % 4) * 16 + x1 / 16),
            sextet_char((x1 % 16) * 4 + x2 / 64),
            sextet_char(x2 % 64),
        ] + encode_spec(b.subrange(3, b.len() as int))
    }
}

/// Length of the unpadded encoding of `n` bytes.
pub open spec fn encoded_len(n: nat) -> nat {
    4 * (n / 3) + if n % 3 == 0 {
        0
    } else {
        n % 3 + 1
    }
}

/// Whether `s` is the encoding of some byte sequence.
pub open spec fn is_encoding(s: Seq<char>) -> bool {
    exists|b: Seq<u8>| encode_spec(b) == s
}

/// What decoding `s` yields: a character outside the alphabet is an invalid
/// encoding; text in the alphabet decodes to the bytes whose encoding it is,
/// or fails when there are none.
pub open spec fn decode_spec(s: Seq<char>) -> Result<Seq<u8>, B64Error> {
    if !all_url_safe(s) {
        Err(B64Error::InvalidEncoding)
    } else if is_encoding(s) {
        Ok(choose|b: Seq<u8>| encode_spec(b) == s)
    } else {
        Err(B64Error::DecodeError)
    }
}

proof fn lemma_sextet_char_injective(x: int, y: int)
    requires
        0 <= x < 64,
        0 <= y < 64,
        sextet_char(x) == sextet_char(y),
    ensures
        x == y,
{
}

proof fn lemma_sextet_char_url_safe(x: int)
    requires
        0 <= x < 64,
    ensures
        is_url_safe_char(sextet_char(x)),
{
}

proof fn lemma_split_unique(h1: int, l1: int, h2: int, l2: int, k: int)
    requires
        0 <= l1 < k,
        0 <= l2 < k,
        h1 * k + l1 == h2 * k + l2,
    ensures
        h1 == h2,
        l1 == l2,
{
    assert(h1 == h2) by (nonlinear_arith)
        requires
            0 <= l1 < k,
            0 <= l2 < k,
            h1 * k + l1 == h2 * k + l2,
    ;
}

/// A byte is fixed by its quotient and remainder.
proof fn lemma_byte_parts(x: int, y: int, k: int)
    requires
        k > 0,
        x / k == y / k,
        x % k == y % k,
    ensures
        x == y,
{
    vstd::arithmetic::div_mod::lemma_fundamental_div_mod(x, k);
    vstd::arithmetic::div_mod::lemma_fundamental_div_mod(y, k);
}

/// The encoding of `n` bytes has `encoded_len(n)` characters.
pub proof fn lemma_encode_len(b: Seq<u8>)
    ensures
        encode_spec(b).len() == encoded_len(b.len()),
    decreases b.len(),
{
    if b.len() >= 3 {
        lemma_encode_len(b.subrange(3, b.len() as int));
    }
}

/// Every character of an encoding lies in the URL-safe alphabet.
pub proof fn lemma_encode_url_safe(b: Seq<u8>)
    ensures
        all_url_safe(encode_spec(b)),
    decreases b.len(),
{
    if b.len() == 0 {
    } else if b.len() == 1 {
        let x0 = b[0] as int;
        lemma_sextet_char_url_safe(x0 / 4);
        lemma_sextet_char_url_safe((x0 % 4) * 16);
    } else if b.len() == 2 {
        let x0 = b[0] as int;
        let x1 = b[1] as int;
        lemma_sextet_char_url_safe(x0 / 4);
        lemma_sextet_char_url_safe((x0 % 4) * 16 + x1 / 16);
        lemma_sextet_char_url_safe((x1 % 16) * 4);
    } else {
        let x0 = b[0] as int;
        let x1 = b[1] as int;
        let x2 = b[2] as int;
        lemma_sextet_char_url_safe(x0 / 4);
        lemma_sextet_char_url_safe((x0 % 4) * 16 + x1 / 16);
        lemma_sextet_char_url_safe((x1 % 16) * 4 + x2 / 64);
        lemma_sextet_char_url_safe(x2 % 64);
        let rest = b.subrange(3, b.len() as int);
        lemma_encode_url_safe(rest);
        let e = encode_spec(b);
        assert forall|i: int| 0 <= i < e.len() implies is_url_safe_char(#[trigger] e[i]) by {
            if i >= 4 {
                assert(e[i] == encode_spec(rest)[i - 4]);
            }
        }
    }
}

/// Two byte sequences with the same encoding are equal.
pub proof fn lemma_encode_injective(a: Seq<u8>, b: Seq<u8>)
    requires
        encode_spec(a) == encode_spec(b),
    ensures
        a == b,
    decreases a.len(),
{
    let ea = encode_spec(a);
    let eb = encode_spec(b);
    lemma_encode_len(a);
    lemma_encode_len(b);
    if a.len() >= 3 && b.len() >= 3 {
        let x0 = a[0] as int;
        let x1 = a[1] as int;
        let x2 = a[2] as int;
        let y0 = b[0] as int;
        let y1 = b[1] as int;
        let y2 = b[2] as int;
        let ra = a.subrange(3, a.len() as int);
        let rb = b.subrange(3, b.len() as int);
        let ha = seq![
            sextet_char(x0 / 4),
            sextet_char((x0 % 4) * 16 + x1 / 16),
            sextet_char((x1 % 16) * 4 + x2 / 64),
            sextet_char(x2 % 64),
        ];
        let hb = seq![
            sextet_char(y0 / 4),
            sextet_char((y0 % 4) * 16 + y1 / 16),
            sextet_char((y1 % 16) * 4 + y2 / 64),
            sextet_char(y2 % 64),
        ];
        assert(ea == ha + encode_spec(ra));
        assert(eb == hb + encode_spec(rb));
        assert(ha[0] == ea[0] && ha[1] == ea[1] && ha[2] == ea[2] && ha[3] == ea[3]);
        assert(hb[0] == eb[0] && hb[1] == eb[1] && hb[2] == eb[2] && hb[3] == eb[3]);
        lemma_sextet_char_injective(x0 / 4, y0 / 4);
        lemma_sextet_char_injective((x0 % 4) * 16 + x1 / 16, (y0 % 4) * 16 + y1 / 16);
        lemma_sextet_char_injective((x1 % 16) * 4 + x2 / 64, (y1 % 16) * 4 + y2 / 64);
        lemma_sextet_char_injective(x2 % 64, y2 % 64);
        lemma_split_unique(x0 % 4, x1 / 16, y0 % 4, y1 / 16, 16);
        lemma_split_unique(x1 % 16, x2 / 64, y1 % 16, y2 / 64, 4);
        lemma_byte_parts(x0, y0, 4);
        lemma_byte_parts(x1, y1, 16);
        lemma_byte_parts(x2, y2, 64);
        assert(encode_spec(ra) =~= ea.subrange(4, ea.len() as int));
        assert(encode_spec(rb) =~= eb.subrange(4, eb.len() as int));
        lemma_encode_injective(ra, rb);
        assert forall|i: int| 3 <= i < a.len() implies a[i] == b[i] by {
            assert(a[i] == ra[i - 3] && b[i] == rb[i - 3]);
        }
        assert(a =~= b);
    } else {
        assert(a.len() == b.len());
        if a.len() == 1 {
            let x0 = a[0] as int;
            let y0 = b[0] as int;
            assert(ea[0] == eb[0] && ea[1] == eb[1]);
            lemma_sextet_char_injective(x0 / 4, y0 / 4);
            lemma_sextet_char_injective((x0 % 4) * 16, (y0 % 4) * 16);
            lemma_byte_parts(x0, y0, 4);
        } else if a.len() == 2 {
            let x0 = a[0] as int;
            let x1 = a[1] as int;
            let y0 = b[0] as int;
            let y1 = b[1] as int;
            assert(ea[0] == eb[0] && ea[1] == eb[1] && ea[2] == eb[2]);
            lemma_sextet_char_injective(x0 / 4, y0 / 4);
            lemma_sextet_char_injective((x0 % 4) * 16 + x1 / 16, (y0 % 4) * 16 + y1 / 16);
            lemma_sextet_char_injective((x1 % 16) * 4, (y1 % 16) * 4);
            lemma_split_unique(x0 % 4, x1 / 16, y0 % 4, y1 / 16, 16);
            lemma_byte_parts(x0, y0, 4);
            lemma_byte_parts(x1, y1, 16);
        }
        assert(a =~= b);
    }
}

/// Decoding the encoding of `b` gives back `b`.
pub proof fn lemma_round_trip(b: Seq<u8>)
    ensures
        decode_spec(encode_spec(b)) == Ok::<Seq<u8>, B64Error>(b),
{
    let s = encode_spec(b);
    lemma_encode_url_safe(b);
    assert(is_encoding(s));
    let c = choose|c: Seq<u8>| encode_spec(c) == s;
    lemma_encode_injective(c, b);
}

/// Text that holds `+` or `/`, the two characters by which standard Base64
/// differs from the URL-safe alphabet, is refused as an invalid encoding.
pub proof fn lemma_rejects_standard_alphabet(s: Seq<char>, i: int)
    requires
        0 <= i < s.len(),
        s[i] == '+' || s[i] == '/',
    ensures
        decode_spec(s) == Err::<Seq<u8>, B64Error>(B64Error::InvalidEncoding),
{
    assert(!is_url_safe_char(s[i]));
}

#[verifier::external_type_specification]
#[verifier::external_body]
pub struct ExDecodeError(base64::DecodeError);

/// Relies on `Engine::encode` of base64's `URL_SAFE_NO_PAD` engine: the
/// URL-safe alphabet, and no padding.
#[verifier::external_body]
fn b64_encode(bytes: &[u8]) -> (r: String)
    ensures
        r@ == encode_spec(bytes@),
{
    base64::engine::general_purpose::URL_SAFE_NO_PAD.encode(bytes)
}

/// Relies on `Engine::decode` of base64's `URL_SAFE_NO_PAD` engine, which
/// refuses padding, a length of one more than a multiple of four, and set
/// trailing bits: it accepts exactly the canonical unpadded encodings, and
/// gives back the bytes encoded.
#[verifier::external_body]
fn b64_decode(s: &str) -> (r: Result<Vec<u8>, base64::DecodeError>)
    ensures
        r is Ok <==> is_encoding(s@),
        r matches Ok(v) ==> encode_spec(v@) == s@,
{
    base64::engine::general_purpose::URL_SAFE_NO_PAD.decode(s)
}

/// Whether the byte `b`, read as a character, is in the URL-safe alphabet.
fn is_url_safe_byte(b: u8) -> (r: bool)
    ensures
        r == is_url_safe_char(b as char),
{
    (65 <= b && b <= 90) || (97 <= b && b <= 122) || (48 <= b && b <= 57) || b == 45 || b == 95
}

/// Encodes `bytes` in unpadded URL-safe Base64.
pub fn encode_url_safe(bytes: &[u8]) -> (r: String)
    ensures
        r@ == encode_spec(bytes@),
        r@.len() == encoded_len(bytes@.len()),
        all_url_safe(r@),
{
    proof {
        lemma_encode_len(bytes@);
        lemma_encode_url_safe(bytes@);
    }
    b64_encode(bytes)
}

/// Decodes unpadded URL-safe Base64: `InvalidEncoding` for a character
/// outside the alphabet, `DecodeError` for text that encodes no bytes.
pub fn decode_url_safe(s: &str) -> (r: Result<Vec<u8>, B64Error>)
    ensures
        match r {
            Ok(v) => decode_spec(s@) == Ok::<Seq<u8>, B64Error>(v@),
            Err(e) => decode_spec(s@) == Err::<Seq<u8>, B64Error>(e),
        },
{
    if !s.is_ascii() {
        proof {
            let i = choose|i: int| 0 <= i < s@.len() && !('\0' <= #[trigger] s@[i] <= '\u{7f}');
            assert(!is_url_safe_char(s@[i]));
        }
        return Err(B64Error::InvalidEncoding);
    }
    let bytes = s.as_bytes();
    proof {
        broadcast use vstd::string::is_ascii_spec_bytes;
        assert(bytes@.len() == s@.len());
    }
    let mut i: usize = 0;
    while i < bytes.len()
        invariant
            bytes@ == Seq::new(s@.len(), |j: int| s@[j] as u8),
            vstd::string::is_ascii(s),
            i <= bytes@.len(),
            forall|j: int| 0 <= j < i ==> is_url_safe_char(#[trigger] s@[j]),
        decreases bytes@.len() - i,
    {
        let b = bytes[i];
        assert(b as char == s@[i as int]);
        if !is_url_safe_byte(b) {
            return Err(B64Error::InvalidEncoding);
        }
        i = i + 1;
    }
    match b64_decode(s) {
        Ok(v) => {
            proof {
                let c = choose|c: Seq<u8>| encode_spec(c) == s@;
                lemma_encode_injective(c, v@);
            }
            Ok(v)
        },
        Err(_) => Err(B64Error::DecodeError),
    }
}

} // verus!
