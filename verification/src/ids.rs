//! The identifiers that travel as text: blob hashes, node keys, relay addresses and the digest
//! that names a gossip topic.

use vstd::prelude::*;
use vstd::string::*;
use vstd::utf8::*;

verus! {

/// The bytes of an optional identifier.
pub open spec fn id_bytes(id: Option<[u8; 32]>) -> Option<Seq<u8>> {
    match id {
        Some(bytes) => Some(bytes@),
        None => None,
    }
}

/// The lowercase hexadecimal digit of a value below sixteen.
pub open spec fn hex_digit(value: int) -> char {
    if value < 10 {
        ('0' as int + value) as char
    } else {
        ('a' as int + value - 10) as char
    }
}

/// Whether `c` is a lowercase hexadecimal digit.
pub open spec fn is_hex_digit(c: char) -> bool {
    '0' <= c <= '9' || 'a' <= c <= 'f'
}

/// The value of a lowercase hexadecimal digit.
pub open spec fn hex_value(c: char) -> int {
    if c <= '9' {
        c as int - '0' as int
    } else {
        c as int - 'a' as int + 10
    }
}

/// The lowercase hexadecimal text of `bytes`: two digits a byte, the high half first.
pub open spec fn hex_text(bytes: Seq<u8>) -> Seq<char> {
    Seq::new(
        2 * bytes.len(),
        |i: int|
            hex_digit(
                if i % 2 == 0 {
                    bytes[i / 2] as int / 16
                } else {
                    bytes[i / 2] as int % 16
                },
            ),
    )
}

/// The thirty-two bytes that a text of sixty-four lowercase hexadecimal digits stands for.
pub open spec fn hex_bytes(text: Seq<char>) -> Option<Seq<u8>> {
    if text.len() == 64 && forall|i: int| 0 <= i < 64 ==> is_hex_digit(#[trigger] text[i]) {
        Some(
            Seq::new(
                32,
                |i: int| (16 * hex_value(text[2 * i]) + hex_value(text[2 * i + 1])) as u8,
            ),
        )
    } else {
        None
    }
}

/// Whether `c` is a base32 digit: a letter, in either case, or one of `2` to `7`.
pub open spec fn is_base32_digit(c: char) -> bool {
    'A' <= c <= 'Z' || 'a' <= c <= 'z' || '2' <= c <= '7'
}

/// The value of a base32 digit.
pub open spec fn base32_value(c: char) -> int {
    if c <= '7' {
        c as int - '2' as int + 26
    } else if c <= 'Z' {
        c as int - 'A' as int
    } else {
        c as int - 'a' as int
    }
}

/// Bit `k` of a base32 text: five bits a digit, the highest first.
pub open spec fn base32_bit(text: Seq<char>, k: int) -> int {
    let value = base32_value(text[k / 5]);
    let place = k % 5;
    (if place == 0 {
        value / 16
    } else if place == 1 {
        value / 8
    } else if place == 2 {
        value / 4
    } else if place == 3 {
        value / 2
    } else {
        value
    }) % 2
}

/// Byte `i` of a base32 text: its next eight bits, the highest first.
pub open spec fn base32_byte(text: Seq<char>, i: int) -> int {
    128 * base32_bit(text, 8 * i) + 64 * base32_bit(text, 8 * i + 1) + 32 * base32_bit(
        text,
        8 * i + 2,
    ) + 16 * base32_bit(text, 8 * i + 3) + 8 * base32_bit(text, 8 * i + 4) + 4 * base32_bit(
        text,
        8 * i + 5,
    ) + 2 * base32_bit(text, 8 * i + 6) + base32_bit(text, 8 * i + 7)
}

/// The thirty-two bytes that a text of fifty-two base32 digits stands for. The four bits that are
/// left at its end are zero.
pub open spec fn base32_bytes(text: Seq<char>) -> Option<Seq<u8>> {
    if text.len() == 52 && (forall|i: int| 0 <= i < 52 ==> is_base32_digit(#[trigger] text[i]))
        && base32_value(text[51]) % 16 == 0 {
        Some(Seq::new(32, |i: int| base32_byte(text, i) as u8))
    } else {
        None
    }
}

/// The thirty-two bytes that an identifier in text stands for: a text of sixty-four bytes is
/// hexadecimal, one of fifty-two is base32, and no other length is an identifier.
pub open spec fn decoded_id(text: Seq<char>) -> Option<Seq<u8>> {
    let len = encode_utf8(text).len();
    if len == 64 {
        hex_bytes(text)
    } else if len == 52 {
        base32_bytes(text)
    } else {
        None
    }
}

/// The blob hash that `text` stands for: any identifier is one.
pub open spec fn blob_hash_of(text: Seq<char>) -> Option<Seq<u8>> {
    decoded_id(text)
}

/// Whether `text` is accepted as a node key.
pub uninterp spec fn is_key_text(text: Seq<char>) -> bool;

/// The node key that `text` stands for: the bytes of the identifier, where it is accepted as a
/// key.
pub open spec fn node_key_of(text: Seq<char>) -> Option<Seq<u8>> {
    if is_key_text(text) {
        decoded_id(text)
    } else {
        None
    }
}

/// The normal form of the relay address that `text` stands for, where it is one.
pub uninterp spec fn relay_url_of(text: Seq<char>) -> Option<Seq<char>>;

/// The BLAKE3 digest of `data`.
pub uninterp spec fn blake3_of(data: Seq<u8>) -> Seq<u8>;

/// `Hash::from_str` of `iroh_blobs`. A text of sixty-four bytes is read as lowercase
/// hexadecimal, any other as unpadded base32 in either case, which has thirty-two bytes to
/// give at the length fifty-two alone. Its length computation asserts a bound on the length
/// of the text, which the precondition keeps far away.
#[verifier::external_body]
fn outside_blob_hash(text: &str) -> (hash: Option<[u8; 32]>)
    requires
        encode_utf8(text@).len() <= 64,
    ensures
        id_bytes(hash) == decoded_id(text@),
{
    text.parse::<iroh_blobs::Hash>().ok().map(|hash| *hash.as_bytes())
}

/// `Hash::to_hex` of `iroh_blobs`: the lowercase hexadecimal text of the hash.
#[verifier::external_body]
fn outside_hash_hex(hash: &[u8; 32]) -> (text: String)
    ensures
        text@ == hex_text(hash@),
{
    iroh_blobs::Hash::from_bytes(*hash).to_hex()
}

/// `PublicKey::from_str` of `iroh`: the text is decoded as a blob hash is, and the bytes must
/// be a point of the curve; they are the bytes of the key. Nothing is said of which bytes are a
/// point. Its length computation asserts a bound on the length of the text, which the
/// precondition keeps far away.
#[verifier::external_body]
fn outside_node_key(text: &str) -> (key: Option<[u8; 32]>)
    requires
        encode_utf8(text@).len() <= 64,
    ensures
        id_bytes(key) == (if is_key_text(text@) {
            decoded_id(text@)
        } else {
            None
        }),
{
    text.parse::<iroh::PublicKey>().ok().map(|key| *key.as_bytes())
}

/// `RelayUrl::from_str` of `iroh`, and the text of the address that came out of it.
#[verifier::external_body]
fn outside_relay_url(text: &str) -> (url: Option<String>)
    ensures
        match url {
            Some(url) => relay_url_of(text@) == Some(url@),
            None => relay_url_of(text@) is None,
        },
{
    text.parse::<iroh::RelayUrl>().ok().map(|url| url.to_string())
}

/// `blake3::hash`: the digest of the bytes.
#[verifier::external_body]
fn outside_blake3(data: &[u8]) -> (digest: [u8; 32])
    ensures
        digest@ == blake3_of(data@),
{
    blake3::hash(data).into()
}

/// Reads a blob hash.
pub fn parse_blob_hash(text: &str) -> (hash: Option<[u8; 32]>)
    ensures
        id_bytes(hash) == blob_hash_of(text@),
{
    if text.as_bytes().len() > 64 {
        return None;
    }
    outside_blob_hash(text)
}

/// Writes a blob hash.
pub fn blob_hash_text(hash: &[u8; 32]) -> (text: String)
    ensures
        text@ == hex_text(hash@),
{
    outside_hash_hex(hash)
}

/// Reads a node key.
pub fn parse_node_key(text: &str) -> (key: Option<[u8; 32]>)
    ensures
        id_bytes(key) == node_key_of(text@),
{
    if text.as_bytes().len() > 64 {
        return None;
    }
    outside_node_key(text)
}

/// Reads a relay address and gives its normal form.
pub fn parse_relay_url(text: &str) -> (url: Option<String>)
    ensures
        match url {
            Some(url) => relay_url_of(text@) == Some(url@),
            None => relay_url_of(text@) is None,
        },
{
    outside_relay_url(text)
}

/// The identifier of the gossip topic called `name`.
pub fn topic_id(name: &str) -> (id: [u8; 32])
    ensures
        id@ == blake3_of(encode_utf8(name@)),
{
    outside_blake3(name.as_bytes())
}

/// The value of a hexadecimal digit, and that it is one.
proof fn lemma_hex_digit(value: int)
    requires
        0 <= value < 16,
    ensures
        is_hex_digit(hex_digit(value)),
        hex_value(hex_digit(value)) == value,
{
}

/// A hash reads back from the text that was written of it.
pub proof fn lemma_blob_hash_round_trip(hash: Seq<u8>)
    requires
        hash.len() == 32,
    ensures
        blob_hash_of(hex_text(hash)) == Some(hash),
{
    let text = hex_text(hash);
    assert forall|i: int| 0 <= i < 64 implies is_hex_digit(#[trigger] text[i]) by {
        lemma_hex_digit(
            if i % 2 == 0 {
                hash[i / 2] as int / 16
            } else {
                hash[i / 2] as int % 16
            },
        );
    }
    is_ascii_chars_encode_utf8(text);
    assert(hex_bytes(text)->0 =~= hash) by {
        assert forall|i: int| 0 <= i < 32 implies #[trigger] hex_bytes(text)->0[i] == hash[i] by {
            lemma_hex_digit(hash[i] as int / 16);
            lemma_hex_digit(hash[i] as int % 16);
            assert(text[2 * i] == hex_digit(hash[i] as int / 16));
            assert(text[2 * i + 1] == hex_digit(hash[i] as int % 16));
        }
    }
}

} // verus!
