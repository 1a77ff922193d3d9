use vstd::prelude::*;
use md5::Digest;
use md5::Md5;

verus! {

/// The MD5 digest of a text's UTF-8 bytes.
pub uninterp spec fn md5_digest(text: Seq<char>) -> Seq<u8>;

/// The lower-case hexadecimal digit for a value below sixteen.
pub open spec fn hex_digit(n: int) -> char {
    if n == 0 {
        '0'
    } else if n == 1 {
        '1'
    } else if n == 2 {
        '2'
    } else if n == 3 {
        '3'
    } else if n == 4 {
        '4'
    } else if n == 5 {
        '5'
    } else if n == 6 {
        '6'
    } else if n == 7 {
        '7'
    } else if n == 8 {
        '8'
    } else if n == 9 {
        '9'
    } else if n == 10 {
        'a'
    } else if n == 11 {
        'b'
    } else if n == 12 {
        'c'
    } else if n == 13 {
        'd'
    } else if n == 14 {
        'e'
    } else {
        'f'
    }
}

/// Bytes written as hexadecimal text: two lower-case digits for each byte,
/// the high half first.
pub open spec fn hex_text(bytes: Seq<u8>) -> Seq<char> {
    Seq::new(
        2 * bytes.len(),
        |i: int|
            hex_digit(
                if i % 2 == 0 {
                    bytes[i / 2] as int / 16
                } else {
                    bytes[i / 2] as int % 16
                },
            ),
    )
}

/// `Md5::new`, `update` and `finalize_reset` of the `md-5` crate, on a fresh
/// hasher: the digest of the text's bytes. It depends on the text alone.
#[verifier::external_body]
fn md5_of(text: &str) -> (digest: Vec<u8>)
    ensures
        digest@ == md5_digest(text@),
{
    let mut hasher = Md5::new();
    hasher.update(text);
    hasher.finalize_reset().to_vec()
}

/// `hex::encode`: every byte becomes two lower-case hexadecimal digits.
#[verifier::external_body]
fn hex_encode(bytes: &Vec<u8>) -> (text: String)
    ensures
        text@ == hex_text(bytes@),
{
    hex::encode(bytes)
}

/// The digest by which a change of a script is noticed: the MD5 digest of
/// the script, in hexadecimal.
pub fn content_hash(script: &str) -> (hash: String)
    ensures
        hash@ == hex_text(md5_digest(script@)),
{
    let digest = md5_of(script);
    hex_encode(&digest)
}

} // verus!
