//! Hashing of passwords before they leave the client.
use vstd::prelude::*;
use vstd::string::*;
use vstd::utf8::encode_utf8;

verus! {

/// The SHA3-256 digest of `data`.
pub uninterp spec fn sha3_256(data: Seq<u8>) -> Seq<u8>;

/// Computes the SHA3-256 digest of `data` with `sha3::Sha3_256` (through
/// `Digest::digest`). The digest is the named result, and it is 32 bytes
/// long, the output size of `Sha3_256`.
#[verifier::external_body]
fn sha3_256_digest(data: &[u8]) -> (res: Vec<u8>)
    ensures
        res@ == sha3_256(data@),
        res@.len() == 32,
{
    <sha3::Sha3_256 as sha3::Digest>::digest(data).to_vec()
}

/// The lower-case hexadecimal digit for `n < 16`.
pub open spec fn hex_digit(n: u8) -> char {
    if n < 10 {
        ('0' as u8 + n) as char
    } else {
        ('a' as u8 + (n - 10)) as char
    }
}

/// Each byte as two lower-case hexadecimal digits, as `format!("{:02x}")`
/// writes it.
pub open spec fn hex_lower(bytes: Seq<u8>) -> Seq<char>
    decreases bytes.len(),
{
    if bytes.len() == 0 {
        Seq::<char>::empty()
    } else {
        hex_lower(bytes.drop_last()) + seq![hex_digit(bytes.last() / 16), hex_digit(bytes.last() % 16)]
    }
}

pub proof fn lemma_hex_lower_len(bytes: Seq<u8>)
    ensures
        hex_lower(bytes).len() == 2 * bytes.len(),
    decreases bytes.len(),
{
    if bytes.len() > 0 {
        lemma_hex_lower_len(bytes.drop_last());
    }
}

fn hex_digit_str(n: u8) -> (res: &'static str)
    requires
        n < 16,
    ensures
        res@ == seq![hex_digit(n)],
{
    proof {
        reveal_strlit("0");
        reveal_strlit("1");
        reveal_strlit("2");
        reveal_strlit("3");
        reveal_strlit("4");
        reveal_strlit("5");
        reveal_strlit("6");
        reveal_strlit("7");
        reveal_strlit("8");
        reveal_strlit("9");
        reveal_strlit("a");
        reveal_strlit("b");
        reveal_strlit("c");
        reveal_strlit("d");
        reveal_strlit("e");
        reveal_strlit("f");
    }
    let res = if n == 0 {
        "0"
    } else if n == 1 {
        "1"
    } else if n == 2 {
        "2"
    } else if n == 3 {
        "3"
    } else if n == 4 {
        "4"
    } else if n == 5 {
        "5"
    } else if n == 6 {
        "6"
    } else if n == 7 {
        "7"
    } else if n == 8 {
        "8"
    } else if n == 9 {
        "9"
    } else if n == 10 {
        "a"
    } else if n == 11 {
        "b"
    } else if n == 12 {
        "c"
    } else if n == 13 {
        "d"
    } else if n == 14 {
        "e"
    } else {
        "f"
    };
    assert(res@ =~= seq![hex_digit(n)]);
    res
}

/// Lower-case hexadecimal text of `bytes`.
pub fn to_hex_lower(bytes: &[u8]) -> (res: String)
    ensures
        res@ == hex_lower(bytes@),
{
    let mut res = String::new();
    let n = bytes.len();
    for i in 0..n
        invariant
            n == bytes@.len(),
            res@ == hex_lower(bytes@.subrange(0, i as int)),
    {
        let b = bytes[i];
        res.append(hex_digit_str(b / 16));
        res.append(hex_digit_str(b % 16));
        assert(bytes@.subrange(0, i + 1).drop_last() =~= bytes@.subrange(0, i as int));
    }
    assert(bytes@.subrange(0, n as int) =~= bytes@);
    res
}

/// The form in which a password is sent to the server: the SHA3-256 digest
/// of its UTF-8 bytes, in lower-case hexadecimal.
pub open spec fn password_hash_spec(password: Seq<char>) -> Seq<char> {
    hex_lower(sha3_256(encode_utf8(password)))
}

/// Hashes a password as the client sends it.
pub fn hash_password(password: &str) -> (res: String)
    ensures
        res@ == password_hash_spec(password@),
        res@.len() == 64,
{
    let digest = sha3_256_digest(password.as_bytes());
    proof {
        lemma_hex_lower_len(digest@);
    }
    to_hex_lower(digest.as_slice())
}

} // verus!
