use vstd::prelude::*;
use base64::Engine;
use rand::RngCore;

verus! {

/// Number of random bytes behind each secret.
pub const SECRET_BYTES: usize = 32;

/// Length of the unpadded base64 text of `n` bytes.
pub open spec fn b64_unpadded_len(n: nat) -> nat {
    4 * (n / 3) + if n % 3 == 0 { 0nat } else { (n % 3 + 1) as nat }
}

/// The characters of the URL-safe base64 alphabet.
pub open spec fn is_url_safe_char(c: char) -> bool {
    ('A' <= c && c <= 'Z') || ('a' <= c && c <= 'z') || ('0' <= c && c <= '9') || c == '-' || c
        == '_'
}

/// The character of a six-bit value in the URL-safe base64 alphabet
/// `A-Z a-z 0-9 - _`.
pub open spec fn b64_char(v: int) -> char {
    if v < 26 {
        (('A' as u8) + v) as char
    } else if v < 52 {
        (('a' as u8) + (v - 26)) as char
    } else if v < 62 {
        (('0' as u8) + (v - 52)) as char
    } else if v == 62 {
        '-'
    } else {
        '_'
    }
}

/// The unpadded URL-safe base64 text of a byte sequence: each group of three
/// bytes gives four characters of six bits each, most significant first; a
/// trailing group of one or two bytes gives two or three characters, its last
/// one filled with zero bits.
pub open spec fn url_safe_b64(b: Seq<u8>) -> Seq<char>
    decreases b.len(),
{
    if b.len() == 0 {
        Seq::empty()
    } else {
        let x = b[0] as int;
        let y = if b.len() > 1 { b[1] as int } else { 0 };
        let z = if b.len() > 2 { b[2] as int } else { 0 };
        let group = seq![
            b64_char(x / 4),
            b64_char((x % 4) * 16 + y / 16),
            b64_char((y % 16) * 4 + z / 64),
            b64_char(z % 64),
        ];
        if b.len() < 3 {
            group.subrange(0, b.len() as int + 1)
        } else {
            group + url_safe_b64(b.subrange(3, b.len() as int))
        }
    }
}

/// A text that can stand in a URL or a header as it is.
pub open spec fn is_url_safe_text(s: Seq<char>) -> bool {
    forall|i: int| 0 <= i < s.len() ==> #[trigger] is_url_safe_char(s[i])
}

/// The shape of every generated secret.
pub open spec fn is_secret_text(s: Seq<char>) -> bool {
    s.len() == b64_unpadded_len(SECRET_BYTES as nat) && is_url_safe_text(s)
}

#[verifier::external_type_specification]
#[verifier::external_body]
pub struct ExRandError(rand::Error);

/// Why a secret could not be produced.
#[derive(Clone, Copy, Debug, PartialEq, Eq, Structural)]
pub enum SecretError {
    /// The operating system's random source failed.
    RandomSourceUnavailable,
}

/// Relies on rand's `OsRng::try_fill_bytes`: overwrites the buffer in place from the
/// operating system's secure random source, keeping its length, or reports the failure.
#[verifier::external_body]
fn fill_from_os(buf: &mut Vec<u8>) -> (r: Result<(), rand::Error>)
    ensures
        final(buf)@.len() == old(buf)@.len(),
{
    rand::rngs::OsRng.try_fill_bytes(buf.as_mut_slice())
}

/// Relies on base64's `URL_SAFE_NO_PAD.encode`: the unpadded encoding of RFC 4648
/// over the URL-safe alphabet `A-Z a-z 0-9 - _`, four characters per three bytes
/// and two or three for a trailing group of one or two bytes.
#[verifier::external_body]
fn encode_url_safe(bytes: &Vec<u8>) -> (r: String)
    requires
        bytes@.len() <= usize::MAX / 2,
    ensures
        r@ == url_safe_b64(bytes@),
        r@.len() == b64_unpadded_len(bytes@.len()),
        is_url_safe_text(r@),
{
    base64::engine::general_purpose::URL_SAFE_NO_PAD.encode(bytes)
}

/// Draws a fresh secret: 32 bytes from the operating system's secure random
/// source, as 43 characters of unpadded URL-safe base64. A failing random source
/// is an error; there is no fallback.
pub fn generate_secret() -> (r: Result<String, SecretError>)
    ensures
        r is Ok ==> is_secret_text(r->Ok_0@),
        r is Ok ==> exists|b: Seq<u8>| b.len() == SECRET_BYTES && r->Ok_0@ == url_safe_b64(b),
{
    let mut buf: Vec<u8> = Vec::new();
    let mut i: usize = 0;
    while i < SECRET_BYTES
        invariant
            i <= SECRET_BYTES,
            buf@.len() == i,
        decreases SECRET_BYTES - i,
    {
        buf.push(0u8);
        i = i + 1;
    }
    match fill_from_os(&mut buf) {
        Ok(()) => {
            let s = encode_url_safe(&buf);
            Ok(s)
        },
        Err(_) => Err(SecretError::RandomSourceUnavailable),
    }
}

} // verus!
