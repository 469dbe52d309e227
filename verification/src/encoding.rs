//! Binary identifiers and their textual encodings.
//!
//! Group and key identifiers travel as lowercase hexadecimal strings; public
//! keys additionally have a human-friendly "npub" form. `hex_of` / `hex_bytes`
//! state the hexadecimal code mathematically, and the round trip
//! `hex_bytes(hex_of(b)) == b` is proved for every byte sequence.

use vstd::prelude::*;
use crate::error::{ApiError, api_error_type_name};

verus! {

/// A hexadecimal digit, either case.
pub open spec fn is_hex_digit(c: char) -> bool {
    ('0' <= c && c <= '9') || ('a' <= c && c <= 'f') || ('A' <= c && c <= 'F')
}

/// The numeric value of a hexadecimal digit.
pub open spec fn hex_char_value(c: char) -> u8 {
    if '0' <= c && c <= '9' {
        (c as u32 - '0' as u32) as u8
    } else if 'a' <= c && c <= 'f' {
        (c as u32 - 'a' as u32 + 10) as u8
    } else {
        (c as u32 - 'A' as u32 + 10) as u8
    }
}

/// The lowercase digit of a value below 16.
pub open spec fn hex_digit_char(n: u8) -> char {
    if n < 10 {
        ((n + 48) as u8) as char
    } else {
        ((n + 87) as u8) as char
    }
}

/// The lowercase hexadecimal rendering of a byte sequence: two digits per
/// byte, high nibble first.
pub open spec fn hex_of(b: Seq<u8>) -> Seq<char> {
    Seq::new(
        2 * b.len(),
        |i: int|
            if i % 2 == 0 {
                hex_digit_char(b[i / 2] / 16)
            } else {
                hex_digit_char(b[i / 2] % 16)
            },
    )
}

/// A string denotes bytes exactly when it has even length and holds only
/// hexadecimal digits.
pub open spec fn hex_valid(s: Seq<char>) -> bool {
    s.len() % 2 == 0 && forall|i: int| 0 <= i < s.len() ==> is_hex_digit(#[trigger] s[i])
}

/// The bytes a hexadecimal string denotes.
pub open spec fn hex_bytes(s: Seq<char>) -> Seq<u8> {
    Seq::new(
        s.len() / 2,
        |i: int| (hex_char_value(s[2 * i]) * 16 + hex_char_value(s[2 * i + 1])) as u8,
    )
}

/// A well-formed public key: 64 hexadecimal digits.
pub open spec fn valid_pubkey(s: Seq<char>) -> bool {
    s.len() == 64 && forall|i: int| 0 <= i < s.len() ==> is_hex_digit(#[trigger] s[i])
}

proof fn lemma_digit_value(n: u8)
    requires
        n < 16,
    ensures
        is_hex_digit(hex_digit_char(n)),
        hex_char_value(hex_digit_char(n)) == n,
        !('A' <= hex_digit_char(n) && hex_digit_char(n) <= 'Z'),
{
}

/// The hexadecimal rendering of any byte sequence is a valid lowercase
/// hexadecimal string of twice the length.
pub proof fn lemma_hex_of_valid(b: Seq<u8>)
    ensures
        hex_valid(hex_of(b)),
        hex_of(b).len() == 2 * b.len(),
{
    assert forall|i: int| 0 <= i < hex_of(b).len() implies is_hex_digit(#[trigger] hex_of(b)[i]) by {
        if i % 2 == 0 {
            lemma_digit_value(b[i / 2] / 16);
        } else {
            lemma_digit_value(b[i / 2] % 16);
        }
    }
}

/// Decoding undoes encoding: for every byte sequence, the bytes denoted by
/// its hexadecimal rendering are the sequence itself.
pub proof fn lemma_hex_round_trip(b: Seq<u8>)
    ensures
        hex_bytes(hex_of(b)) == b,
{
    let s = hex_of(b);
    assert forall|i: int| 0 <= i < b.len() implies hex_bytes(s)[i] == b[i] by {
        lemma_digit_value(b[i] / 16);
        lemma_digit_value(b[i] % 16);
        assert(s[2 * i] == hex_digit_char(b[i] / 16));
        assert(s[2 * i + 1] == hex_digit_char(b[i] % 16));
    }
    assert(hex_bytes(s) =~= b);
}

/// Relies on hex::encode: renders each byte as two lowercase hexadecimal
/// digits, high nibble first, in input order.
#[verifier::external_body]
pub(crate) fn hex_encode(data: &Vec<u8>) -> (r: String)
    ensures
        r@ == hex_of(data@),
{
    hex::encode(data.as_slice())
}

/// Relies on hex::decode: succeeds exactly on even-length strings of
/// hexadecimal digits (either case) and returns the bytes they denote.
#[verifier::external_body]
pub(crate) fn hex_decode(s: &str) -> (r: Option<Vec<u8>>)
    ensures
        r is Some <==> hex_valid(s@),
        r is Some ==> r.unwrap()@ == hex_bytes(s@),
{
    hex::decode(s).ok()
}

/// An opaque binary group identifier.
#[derive(Debug)]
pub struct GroupId {
    pub bytes: Vec<u8>,
}

impl View for GroupId {
    type V = Seq<u8>;

    open spec fn view(&self) -> Seq<u8> {
        self.bytes@
    }
}

impl Clone for GroupId {
    fn clone(&self) -> (r: Self)
        ensures
            r@ == self@,
    {
        GroupId { bytes: clone_u8_vec(&self.bytes) }
    }
}

/// Copies a byte vector element by element.
pub(crate) fn clone_u8_vec(v: &Vec<u8>) -> (r: Vec<u8>)
    ensures
        r@ == v@,
{
    let mut r: Vec<u8> = Vec::new();
    let mut i: usize = 0;
    while i < v.len()
        invariant
            i <= v.len(),
            r@ == v@.take(i as int),
        decreases v.len() - i,
    {
        r.push(v[i]);
        i += 1;
    }
    proof {
        assert(r@ =~= v@);
    }
    r
}

/// The lowercase hexadecimal rendering of a group identifier.
pub fn group_id_to_string(group_id: &GroupId) -> (r: String)
    ensures
        r@ == hex_of(group_id.bytes@),
        hex_valid(r@),
{
    proof {
        lemma_hex_of_valid(group_id.bytes@);
    }
    hex_encode(&group_id.bytes)
}

/// Parses a hexadecimal group identifier; fails on odd length or a
/// non-hexadecimal character.
pub fn group_id_from_string(group_id: &str) -> (r: Result<GroupId, ApiError>)
    ensures
        r is Ok <==> hex_valid(group_id@),
        r is Ok ==> r.unwrap().bytes@ == hex_bytes(group_id@),
        r is Err ==> api_error_type_name(r.unwrap_err()) == "NostrHex"@,
{
    match hex_decode(group_id) {
        Some(bytes) => Ok(GroupId { bytes }),
        None => Err(ApiError::NostrHex { message: "malformed hexadecimal string".to_owned() }),
    }
}

/// The "npub" rendering of a 32-byte public key; a function of the bytes
/// alone.
pub uninterp spec fn npub_of(data: Seq<u8>) -> Seq<char>;

/// The byte payload a string decodes to under the "npub" prefix, if any.
pub uninterp spec fn npub_payload(s: Seq<char>) -> Option<Seq<u8>>;

/// Relies on bech32::encode with the Bech32 checksum and the "npub" prefix:
/// the rendering depends on the bytes alone, 32 bytes always fit, and
/// bech32::decode returns the same bytes from it.
#[verifier::external_body]
fn npub_encode(data: &Vec<u8>) -> (r: Option<String>)
    ensures
        data@.len() == 32 ==> r is Some,
        r is Some ==> r.unwrap()@ == npub_of(data@),
        r is Some ==> npub_payload(npub_of(data@)) == Some(data@),
{
    match bech32::Hrp::parse("npub") {
        Ok(hrp) => bech32::encode::<bech32::Bech32>(hrp, data.as_slice()).ok(),
        Err(_) => None,
    }
}

/// Relies on bech32::decode: returns the byte payload of a well-checksummed
/// bech32 string whose human-readable prefix is "npub".
#[verifier::external_body]
fn npub_decode(s: &str) -> (r: Option<Vec<u8>>)
    ensures
        r is Some <==> npub_payload(s@) is Some,
        r is Some ==> Some(r.unwrap()@) == npub_payload(s@),
{
    match bech32::decode(s) {
        Ok((hrp, data)) => {
            if hrp.to_lowercase() == "npub" {
                Some(data)
            } else {
                None
            }
        },
        Err(_) => None,
    }
}

/// Renders a 64-digit hexadecimal public key in its "npub" form.
pub fn npub_from_hex_pubkey(hex_pubkey: &str) -> (r: Result<String, ApiError>)
    ensures
        r is Ok <==> valid_pubkey(hex_pubkey@),
        r is Ok ==> r.unwrap()@ == npub_of(hex_bytes(hex_pubkey@)),
        r is Ok ==> npub_payload(npub_of(hex_bytes(hex_pubkey@))) == Some(
            hex_bytes(hex_pubkey@),
        ),
        r is Err ==> api_error_type_name(r.unwrap_err()) == "InvalidKey"@,
{
    match hex_decode(hex_pubkey) {
        Some(bytes) => {
            if bytes.len() == 32 {
                match npub_encode(&bytes) {
                    Some(npub) => Ok(npub),
                    None => Err(ApiError::InvalidKey { message: "malformed public key".to_owned() }),
                }
            } else {
                Err(ApiError::InvalidKey { message: "malformed public key".to_owned() })
            }
        },
        None => Err(ApiError::InvalidKey { message: "malformed public key".to_owned() }),
    }
}

/// Recovers the 64-digit hexadecimal form of an "npub" public key.
pub fn hex_pubkey_from_npub(npub: &str) -> (r: Result<String, ApiError>)
    ensures
        r is Ok <==> (npub_payload(npub@) is Some && npub_payload(npub@).unwrap().len() == 32),
        r is Ok ==> r.unwrap()@ == hex_of(npub_payload(npub@).unwrap()),
        r is Ok ==> valid_pubkey(r.unwrap()@),
        r is Err ==> api_error_type_name(r.unwrap_err()) == "InvalidKey"@,
{
    match npub_decode(npub) {
        Some(bytes) => {
            if bytes.len() == 32 {
                proof {
                    lemma_hex_of_valid(bytes@);
                }
                Ok(hex_encode(&bytes))
            } else {
                Err(ApiError::InvalidKey { message: "malformed public key".to_owned() })
            }
        },
        None => Err(ApiError::InvalidKey { message: "malformed public key".to_owned() }),
    }
}

/// The value of one big-endian byte position, highest first.
pub open spec fn be_unit(i: int) -> u64 {
    if i == 0 {
        0x100000000000000
    } else if i == 1 {
        0x1000000000000
    } else if i == 2 {
        0x10000000000
    } else if i == 3 {
        0x100000000
    } else if i == 4 {
        0x1000000
    } else if i == 5 {
        0x10000
    } else if i == 6 {
        0x100
    } else {
        1
    }
}

/// The eight big-endian bytes of a 64-bit value.
pub open spec fn u64_be_bytes(n: u64) -> Seq<u8> {
    Seq::new(8, |i: int| ((n / be_unit(i)) % 256) as u8)
}

/// Renders a 64-bit value as its eight big-endian bytes.
pub(crate) fn u64_to_be_bytes(n: u64) -> (r: Vec<u8>)
    ensures
        r@ == u64_be_bytes(n),
{
    let mut r: Vec<u8> = Vec::new();
    r.push(((n / 0x100000000000000) % 256) as u8);
    r.push(((n / 0x1000000000000) % 256) as u8);
    r.push(((n / 0x10000000000) % 256) as u8);
    r.push(((n / 0x100000000) % 256) as u8);
    r.push(((n / 0x1000000) % 256) as u8);
    r.push(((n / 0x10000) % 256) as u8);
    r.push(((n / 0x100) % 256) as u8);
    r.push((n % 256) as u8);
    proof {
        assert(r@.len() == 8);
        assert(r@[0] == u64_be_bytes(n)[0]);
        assert(r@[1] == u64_be_bytes(n)[1]);
        assert(r@[2] == u64_be_bytes(n)[2]);
        assert(r@[3] == u64_be_bytes(n)[3]);
        assert(r@[4] == u64_be_bytes(n)[4]);
        assert(r@[5] == u64_be_bytes(n)[5]);
        assert(r@[6] == u64_be_bytes(n)[6]);
        assert(r@[7] == u64_be_bytes(n)[7]);
        assert(r@ =~= u64_be_bytes(n));
    }
    r
}

/// Renders a fresh 64-bit local identifier as a hexadecimal string.
pub(crate) fn local_id_string(n: u64) -> (r: String)
    ensures
        r@ == hex_of(u64_be_bytes(n)),
        hex_valid(r@),
{
    let bytes = u64_to_be_bytes(n);
    proof {
        lemma_hex_of_valid(bytes@);
    }
    hex_encode(&bytes)
}

/// Checks that a string is a well-formed public key: 64 hexadecimal digits.
pub fn check_pubkey(s: &str) -> (r: bool)
    ensures
        r == valid_pubkey(s@),
{
    let n = s.unicode_len();
    if n != 64 {
        return false;
    }
    let mut i: usize = 0;
    while i < n
        invariant
            n == s@.len(),
            i <= n,
            forall|j: int| 0 <= j < i ==> is_hex_digit(#[trigger] s@[j]),
        decreases n - i,
    {
        let c = s.get_char(i);
        let ok = ('0' <= c && c <= '9') || ('a' <= c && c <= 'f') || ('A' <= c && c <= 'F');
        if !ok {
            return false;
        }
        i += 1;
    }
    true
}

} // verus!
