//! Random strings over the unreserved URL characters `[A-Za-z0-9-._~]`.
use vstd::prelude::*;
use crate::consts::{CV_MAX_SIZE, CV_MIN_SIZE};
use crate::errors::CodeVerfierError;

verus! {

/// Number of characters in the unreserved alphabet.
pub const ALPHABET_SIZE: u8 = 66;

/// Random bytes below this bound are kept, the others dropped, so that each
/// kept byte picks a character of the alphabet with equal chance.
pub const SAMPLE_BOUND: u8 = 198;

/// The ASCII code of the character at index `x` of the unreserved alphabet.
pub open spec fn unreserved_byte(x: int) -> u8 {
    if x < 26 {
        (x + 65) as u8
    } else if x < 52 {
        (x + 71) as u8
    } else if x < 62 {
        (x - 4) as u8
    } else if x == 62 {
        45u8
    } else if x == 63 {
        46u8
    } else if x == 64 {
        95u8
    } else {
        126u8
    }
}

/// Whether `c` is an unreserved URL character.
pub open spec fn is_unreserved_char(c: char) -> bool {
    ('A' <= c <= 'Z') || ('a' <= c <= 'z') || ('0' <= c <= '9') || c == '-' || c == '.'
        || c == '_' || c == '~'
}

/// The characters that the random bytes `bytes` pick, in order: a byte below
/// `SAMPLE_BOUND` picks the character at its remainder by `ALPHABET_SIZE`.
pub open spec fn sampled(bytes: Seq<u8>) -> Seq<u8>
    decreases bytes.len(),
{
    if bytes.len() == 0 {
        seq![]
    } else {
        let prev = sampled(bytes.drop_last());
        let b = bytes.last();
        if b < SAMPLE_BOUND {
            prev.push(unreserved_byte(b as int % ALPHABET_SIZE as int))
        } else {
            prev
        }
    }
}

/// The first `n` items of `s`, or all of them where there are fewer.
pub open spec fn capped(s: Seq<u8>, n: int) -> Seq<u8> {
    if s.len() <= n {
        s
    } else {
        s.take(n)
    }
}

/// How many more items a sequence of length `len` can take before it holds `size`.
pub open spec fn room(len: int, size: int) -> int {
    if len < size {
        size - len
    } else {
        0
    }
}

proof fn lemma_unreserved_byte(x: int)
    requires
        0 <= x < ALPHABET_SIZE,
    ensures
        unreserved_byte(x) < 128,
        is_unreserved_char(unreserved_byte(x) as char),
{
}

/// Every byte that random bytes pick is an ASCII unreserved character.
pub proof fn lemma_sampled_unreserved(bytes: Seq<u8>)
    ensures
        forall|i: int|
            0 <= i < sampled(bytes).len() ==> #[trigger] sampled(bytes)[i] < 128
                && is_unreserved_char(sampled(bytes)[i] as char),
    decreases bytes.len(),
{
    if bytes.len() > 0 {
        let prev = sampled(bytes.drop_last());
        lemma_sampled_unreserved(bytes.drop_last());
        lemma_unreserved_byte(bytes.last() as int % ALPHABET_SIZE as int);
        assert forall|i: int| 0 <= i < sampled(bytes).len() implies #[trigger] sampled(bytes)[i]
            < 128 && is_unreserved_char(sampled(bytes)[i] as char) by {
            if i < prev.len() {
                assert(sampled(bytes)[i] == prev[i]);
            }
        }
    }
}

/// The ASCII code of the character at index `x` of the unreserved alphabet.
fn unreserved_ascii(x: u8) -> (r: u8)
    requires
        x < ALPHABET_SIZE,
    ensures
        r == unreserved_byte(x as int),
{
    if x < 26 {
        x + 65
    } else if x < 52 {
        x + 71
    } else if x < 62 {
        x - 4
    } else if x == 62 {
        45
    } else if x == 63 {
        46
    } else if x == 64 {
        95
    } else {
        126
    }
}

/// Appends to `token` the characters that `random` picks, as ASCII codes,
/// until `token` holds `size` of them or `random` runs out.
pub fn sample_unreserved(token: &mut Vec<u8>, random: &[u8], size: usize)
    ensures
        final(token)@ == old(token)@ + capped(
            sampled(random@),
            room(old(token)@.len() as int, size as int),
        ),
{
    let ghost start = old(token)@;
    let ghost n = room(start.len() as int, size as int);
    let mut i: usize = 0;
    assert(random@.take(0) =~= Seq::<u8>::empty());
    assert(start + capped(sampled(random@.take(0)), n) =~= start);
    while i < random.len()
        invariant
            i <= random@.len(),
            n == room(start.len() as int, size as int),
            token@ == start + capped(sampled(random@.take(i as int)), n),
        decreases random@.len() - i,
    {
        let b = random[i];
        let ghost prev = sampled(random@.take(i as int));
        assert(random@.take(i + 1).drop_last() =~= random@.take(i as int));
        assert(random@.take(i + 1).last() == b);
        if b < SAMPLE_BOUND {
            let c = unreserved_ascii(b % ALPHABET_SIZE);
            assert(sampled(random@.take(i + 1)) == prev.push(c));
            if token.len() < size {
                token.push(c);
                assert(token@ =~= start + capped(prev.push(c), n));
            } else {
                assert(capped(prev.push(c), n) =~= capped(prev, n));
            }
        } else {
            assert(sampled(random@.take(i + 1)) == prev);
        }
        i = i + 1;
    }
    assert(random@.take(i as int) =~= random@);
}

#[verifier::external_type_specification]
#[verifier::external_body]
pub struct ExRandomError(getrandom::Error);

#[verifier::external_type_specification]
#[verifier::external_body]
pub struct ExFromUtf8Error(std::string::FromUtf8Error);

/// Rounds of random bytes that `urlsafe_token` draws at most.
pub const MAX_DRAWS: usize = 32;

/// Whether every byte of `v` is an ASCII code.
pub open spec fn all_ascii(v: Seq<u8>) -> bool {
    forall|i: int| 0 <= i < v.len() ==> #[trigger] v[i] < 128
}

/// The characters whose ASCII codes `v` holds.
pub open spec fn ascii_chars(v: Seq<u8>) -> Seq<char> {
    v.map_values(|b: u8| b as char)
}

/// Relies on `getrandom::getrandom`: on success every byte of the buffer
/// comes from the operating system's secure random source.
#[verifier::external_body]
fn random_bytes(n: usize) -> (r: Result<Vec<u8>, getrandom::Error>)
    ensures
        r matches Ok(v) ==> v@.len() == n,
{
    let mut buf = vec![0u8; n];
    match getrandom::getrandom(&mut buf) {
        Ok(()) => Ok(buf),
        Err(e) => Err(e),
    }
}

/// Relies on `String::from_utf8`: ASCII bytes are valid UTF-8, one
/// character per byte.
#[verifier::external_body]
fn string_from_utf8(v: Vec<u8>) -> (r: Result<String, std::string::FromUtf8Error>)
    requires
        all_ascii(v@),
    ensures
        r is Ok,
        r matches Ok(s) ==> s@ == ascii_chars(v@),
{
    String::from_utf8(v)
}

/// A string of `size` characters drawn uniformly and independently from the
/// unreserved alphabet with the operating system's secure random source.
/// A size outside `CV_MIN_SIZE..=CV_MAX_SIZE` fails before any randomness
/// is drawn.
pub fn urlsafe_token(size: usize) -> (r: Result<String, CodeVerfierError>)
    ensures
        size < CV_MIN_SIZE <==> r == Err::<String, CodeVerfierError>(CodeVerfierError::TooSmall),
        size > CV_MAX_SIZE <==> r == Err::<String, CodeVerfierError>(CodeVerfierError::TooBig),
        CV_MIN_SIZE <= size <= CV_MAX_SIZE ==> (r is Ok || r == Err::<String, CodeVerfierError>(
            CodeVerfierError::RandomSourceFailed,
        )),
        r matches Ok(t) ==> t@.len() == size && forall|i: int|
            0 <= i < t@.len() ==> is_unreserved_char(#[trigger] t@[i]),
{
    if size < CV_MIN_SIZE {
        return Err(CodeVerfierError::TooSmall);
    }
    if size > CV_MAX_SIZE {
        return Err(CodeVerfierError::TooBig);
    }
    let mut token: Vec<u8> = Vec::new();
    let mut draws: usize = 0;
    while token.len() < size && draws < MAX_DRAWS
        invariant
            CV_MIN_SIZE <= size <= CV_MAX_SIZE,
            token@.len() <= size,
            forall|i: int|
                0 <= i < token@.len() ==> #[trigger] token@[i] < 128 && is_unreserved_char(
                    token@[i] as char,
                ),
        decreases MAX_DRAWS - draws,
    {
        let want = 2 * (size - token.len());
        let random = match random_bytes(want) {
            Ok(v) => v,
            Err(_) => {
                return Err(CodeVerfierError::RandomSourceFailed);
            },
        };
        let ghost before = token@;
        sample_unreserved(&mut token, random.as_slice(), size);
        proof {
            lemma_sampled_unreserved(random@);
            let added = capped(sampled(random@), room(before.len() as int, size as int));
            assert forall|i: int| 0 <= i < token@.len() implies #[trigger] token@[i] < 128
                && is_unreserved_char(token@[i] as char) by {
                if i >= before.len() {
                    assert(token@[i] == added[i - before.len()]);
                    assert(added[i - before.len()] == sampled(random@)[i - before.len()]);
                }
            }
        }
        draws = draws + 1;
    }
    finish_token(token, size)
}

/// Turns the ASCII codes drawn for a token into its string: the token is
/// complete when it holds exactly `size` characters, and otherwise the
/// random draws did not deliver enough.
pub fn finish_token(token: Vec<u8>, size: usize) -> (r: Result<String, CodeVerfierError>)
    requires
        all_ascii(token@),
    ensures
        token@.len() == size ==> (r matches Ok(t) && t@ == ascii_chars(token@)),
        token@.len() != size ==> r == Err::<String, CodeVerfierError>(
            CodeVerfierError::RandomSourceFailed,
        ),
{
    if token.len() != size {
        return Err(CodeVerfierError::RandomSourceFailed);
    }
    match string_from_utf8(token) {
        Ok(s) => Ok(s),
        Err(_) => Err(CodeVerfierError::RandomSourceFailed),
    }
}

} // verus!
