use vstd::prelude::*;
use sha2::Digest;

verus! {

/// SHA-256 digest of the UTF-8 encoding of a text.
pub uninterp spec fn sha256_utf8(text: Seq<char>) -> Seq<u8>;

/// Relies on sha2's `Sha256::digest`: the 32-byte digest of the text's UTF-8 bytes.
#[verifier::external_body]
fn sha256_digest(text: &str) -> (r: Vec<u8>)
    ensures
        r@ == sha256_utf8(text@),
        r@.len() == 32,
{
    sha2::Sha256::digest(text.as_bytes()).to_vec()
}

/// The lower-case hexadecimal digit of a value below 16.
pub open spec fn hex_char(n: u8) -> char {
    if n < 10 {
        (('0' as u8) + n) as char
    } else {
        (('a' as u8) + (n - 10)) as char
    }
}

/// Two lower-case hexadecimal digits per byte, most significant first.
pub open spec fn hex_of(bytes: Seq<u8>) -> Seq<char>
    decreases bytes.len(),
{
    if bytes.len() == 0 {
        Seq::empty()
    } else {
        let last = bytes.last();
        hex_of(bytes.drop_last()) + seq![hex_char(last / 16), hex_char(last % 16)]
    }
}

fn hex_digit(n: u8) -> (r: &'static str)
    requires
        n < 16,
    ensures
        r@ == seq![hex_char(n)],
{
    proof {
        reveal_strlit("0");
        reveal_strlit("1");
        reveal_strlit("2");
        reveal_strlit("3");
        reveal_strlit("4");
        reveal_strlit("5");
        reveal_strlit("6");
        reveal_strlit("7");
        reveal_strlit("8");
        reveal_strlit("9");
        reveal_strlit("a");
        reveal_strlit("b");
        reveal_strlit("c");
        reveal_strlit("d");
        reveal_strlit("e");
        reveal_strlit("f");
    }
    let r = match n {
        0 => "0",
        1 => "1",
        2 => "2",
        3 => "3",
        4 => "4",
        5 => "5",
        6 => "6",
        7 => "7",
        8 => "8",
        9 => "9",
        10 => "a",
        11 => "b",
        12 => "c",
        13 => "d",
        14 => "e",
        _ => "f",
    };
    assert(r@ =~= seq![hex_char(n)]);
    r
}

/// Appends the lower-case hexadecimal text of `bytes` to `out`.
pub fn push_hex(out: &mut String, bytes: &Vec<u8>)
    ensures
        final(out)@ == old(out)@ + hex_of(bytes@),
{
    let mut i: usize = 0;
    while i < bytes.len()
        invariant
            i <= bytes@.len(),
            out@ == old(out)@ + hex_of(bytes@.subrange(0, i as int)),
        decreases bytes@.len() - i,
    {
        let b = bytes[i];
        out.append(hex_digit(b / 16));
        out.append(hex_digit(b % 16));
        proof {
            let next = bytes@.subrange(0, i + 1);
            assert(next.drop_last() =~= bytes@.subrange(0, i as int));
            assert(next.last() == b);
        }
        i = i + 1;
        assert(out@ =~= old(out)@ + hex_of(bytes@.subrange(0, i as int)));
    }
    assert(bytes@.subrange(0, bytes@.len() as int) =~= bytes@);
}

/// The primary key of a record: a digest of the redemption credential, never
/// the credential itself.
pub open spec fn record_key_of(token_a: Seq<char>) -> Seq<char> {
    "token:"@ + hex_of(sha256_utf8(token_a))
}

/// The key of the pointer that finds a record from its revealed value.
pub open spec fn index_key_of(token_b: Seq<char>) -> Seq<char> {
    "tokenidx:"@ + token_b
}

/// The key of a client's request counter.
pub open spec fn counter_key_of(client: Seq<char>) -> Seq<char> {
    "ratelimit:"@ + client
}

/// The primary key of the record redeemed by `token_a`.
pub fn record_key(token_a: &str) -> (r: String)
    ensures
        r@ == record_key_of(token_a@),
{
    let digest = sha256_digest(token_a);
    let mut k = String::from_str("token:");
    push_hex(&mut k, &digest);
    k
}

/// The index key of the record that reveals `token_b`.
pub fn index_key(token_b: &str) -> (r: String)
    ensures
        r@ == index_key_of(token_b@),
{
    let mut k = String::from_str("tokenidx:");
    k.append(token_b);
    k
}

/// The counter key of a client identity.
pub fn counter_key(client: &str) -> (r: String)
    ensures
        r@ == counter_key_of(client@),
{
    let mut k = String::from_str("ratelimit:");
    k.append(client);
    k
}

} // verus!
