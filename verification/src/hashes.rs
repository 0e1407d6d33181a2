//! File digests as the modpack manifests carry them (lower-case hex), and
//! the CurseForge fingerprint.
use vstd::prelude::*;
use sha1::Digest;
use crate::text::string_of;

verus! {

/// The SHA-1 digest of `data` (computed by the `sha1` crate).
pub uninterp spec fn sha1_digest_of(data: Seq<u8>) -> Seq<u8>;

/// The SHA-512 digest of `data` (computed by the `sha2` crate).
pub uninterp spec fn sha512_digest_of(data: Seq<u8>) -> Seq<u8>;

/// The 32-bit MurmurHash2 of `data` with `seed`, endianness-independent
/// (computed by the `murmur2` crate).
pub uninterp spec fn murmur2_of(data: Seq<u8>, seed: u32) -> u32;

/// `<sha1::Sha1 as Digest>::digest`. Claimed: the result is the SHA-1 digest
/// of `data`, a function of `data` alone, 20 bytes long.
#[verifier::external_body]
fn sha1_digest(data: &[u8]) -> (d: Vec<u8>)
    ensures
        d@ == sha1_digest_of(data@),
        d@.len() == 20,
{
    sha1::Sha1::digest(data).to_vec()
}

/// `<sha2::Sha512 as Digest>::digest`. Claimed: the result is the SHA-512
/// digest of `data`, a function of `data` alone, 64 bytes long.
#[verifier::external_body]
fn sha512_digest(data: &[u8]) -> (d: Vec<u8>)
    ensures
        d@ == sha512_digest_of(data@),
        d@.len() == 64,
{
    sha2::Sha512::digest(data).to_vec()
}

/// `murmur2::murmur2`. Claimed: the result is the endianness-independent
/// MurmurHash2 of `data` with `seed`, a function of the two alone.
#[verifier::external_body]
fn murmur2_hash(data: &[u8], seed: u32) -> (h: u32)
    ensures
        h == murmur2_of(data@, seed),
{
    murmur2::murmur2(data, seed)
}

/// The lower-case hex digit of `n` (`n < 16`).
pub open spec fn hex_digit(n: int) -> char {
    if n < 10 {
        (48 + n) as char
    } else {
        (87 + n) as char
    }
}

/// Lower-case hex encoding: two digits per byte, high nibble first.
pub open spec fn hex_lower(data: Seq<u8>) -> Seq<char>
    decreases data.len(),
{
    if data.len() == 0 {
        Seq::<char>::empty()
    } else {
        hex_lower(data.drop_last()) + seq![
            hex_digit(data.last() as int / 16),
            hex_digit(data.last() as int % 16),
        ]
    }
}

/// The lower-case hex digit of a nibble.
fn hex_digit_exec(n: u8) -> (c: char)
    requires
        n < 16,
    ensures
        c == hex_digit(n as int),
{
    if n < 10 {
        (48 + n) as char
    } else {
        (87 + n) as char
    }
}

/// Lower-case hex encoding (what `hex::encode` computes).
fn hex_encode(data: &[u8]) -> (s: String)
    ensures
        s@ == hex_lower(data@),
{
    let mut v: Vec<char> = Vec::new();
    let mut i: usize = 0;
    while i < data.len()
        invariant
            i <= data@.len(),
            v@ == hex_lower(data@.take(i as int)),
        decreases data@.len() - i,
    {
        let b = data[i];
        assert(data@.take(i + 1).drop_last() =~= data@.take(i as int));
        v.push(hex_digit_exec(b / 16));
        v.push(hex_digit_exec(b % 16));
        i = i + 1;
    }
    assert(data@.take(data@.len() as int) =~= data@);
    string_of(v.as_slice())
}

/// SHA-1 of `data` as lower-case hex.
pub fn sha1_hex(data: &[u8]) -> (s: String)
    ensures
        s@ == hex_lower(sha1_digest_of(data@)),
{
    let d = sha1_digest(data);
    hex_encode(d.as_slice())
}

/// SHA-512 of `data` as lower-case hex.
pub fn sha512_hex(data: &[u8]) -> (s: String)
    ensures
        s@ == hex_lower(sha512_digest_of(data@)),
{
    let d = sha512_digest(data);
    hex_encode(d.as_slice())
}

/// Bytes that the CurseForge fingerprint ignores: tab, line feed, carriage
/// return and space.
pub open spec fn is_fingerprint_whitespace(b: u8) -> bool {
    b == 0x09 || b == 0x0a || b == 0x0d || b == 0x20
}

/// The content the CurseForge fingerprint is computed on.
pub open spec fn fingerprint_content(data: Seq<u8>) -> Seq<u8> {
    data.filter(|b: u8| !is_fingerprint_whitespace(b))
}

/// The file content without the whitespace bytes the fingerprint ignores.
pub fn filter_fingerprint_whitespace(data: &[u8]) -> (r: Vec<u8>)
    ensures
        r@ == fingerprint_content(data@),
{
    let mut r: Vec<u8> = Vec::new();
    let mut i: usize = 0;
    while i < data.len()
        invariant
            i <= data@.len(),
            r@ == data@.take(i as int).filter(|b: u8| !is_fingerprint_whitespace(b)),
        decreases data@.len() - i,
    {
        let b = data[i];
        proof {
            assert(data@.take(i + 1) =~= data@.take(i as int).push(b));
            data@.take(i as int).lemma_filter_push(b, |b: u8| !is_fingerprint_whitespace(b));
        }
        if !(b == 0x09 || b == 0x0a || b == 0x0d || b == 0x20) {
            r.push(b);
        }
        i = i + 1;
    }
    assert(data@.take(data@.len() as int) =~= data@);
    r
}

/// The CurseForge fingerprint of a file's content: MurmurHash2 with seed 1
/// of the content without whitespace bytes.
pub fn curseforge_fingerprint(data: &[u8]) -> (f: u64)
    ensures
        f == murmur2_of(fingerprint_content(data@), 1) as u64,
{
    let filtered = filter_fingerprint_whitespace(data);
    murmur2_hash(filtered.as_slice(), 1) as u64
}

} // verus!
