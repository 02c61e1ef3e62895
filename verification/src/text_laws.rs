//! What holds of texts, numbers, identifiers and documents, said of their characters, bytes and
//! members.

use vstd::prelude::*;
use vstd::string::*;
use vstd::utf8::*;

use crate::ids::{base32_bit, base32_byte, base32_bytes, base32_value, is_base32_digit};
use crate::ids::{blob_hash_of, hex_bytes, hex_text, id_bytes, is_key_text, node_key_of};
use crate::ids::lemma_blob_hash_round_trip;
use crate::json::{lookup, Json, JsonTree};
use crate::text::{decimal, front_pieces, has_short_id, last_piece, last_piece_start};
use crate::text::{optional_text, replaced, short_id_text, split_on, texts};

verus! {

/// Replacing a character leaves the length and every other character.
pub proof fn replacing_is_done_character_by_character(text: Seq<char>, from: char, to: char)
    ensures
        replaced(text, from, to).len() == text.len(),
        forall|i: int|
            0 <= i < text.len() && text[i] == from ==> #[trigger] replaced(text, from, to)[i] == to,
        forall|i: int|
            0 <= i < text.len() && text[i] != from ==> #[trigger] replaced(text, from, to)[i]
                == text[i],
{
}

/// A list of strings is seen string by string, all of them and in their order.
pub proof fn lists_are_seen_whole(list: Seq<String>)
    ensures
        texts(list).len() == list.len(),
        forall|i: int| 0 <= i < list.len() ==> #[trigger] texts(list)[i] == list[i]@,
{
}

/// An optional string is seen with its text, and nothing as nothing.
pub proof fn optional_texts_are_seen(text: String, none: Option<String>)
    requires
        none is None,
    ensures
        optional_text(Some(text)) == Some(text@),
        optional_text(none) is None,
{
}

/// Optional bytes are seen as they are.
pub proof fn optional_bytes_are_seen(bytes: [u8; 32], none: Option<[u8; 32]>)
    requires
        none is None,
    ensures
        id_bytes(Some(bytes)) == Some(bytes@),
        id_bytes(none) is None,
{
}

/// The bytes of two texts together are the bytes of each.
proof fn lemma_encoding_joins(a: Seq<char>, b: Seq<char>)
    ensures
        encode_utf8(a + b) == encode_utf8(a) + encode_utf8(b),
    decreases a.len(),
{
    if a.len() == 0 {
        assert(a + b =~= b);
        assert(encode_utf8(a) =~= Seq::<u8>::empty());
    } else {
        lemma_encoding_joins(a.drop_first(), b);
        assert((a + b).drop_first() =~= a.drop_first() + b);
        assert(encode_utf8(a + b) =~= encode_utf8(a) + encode_utf8(b));
    }
}

/// A text can be shortened exactly where a character ends at its sixteenth byte, or it has no
/// more bytes; and the short form then has just those bytes.
pub proof fn short_forms_are_the_first_sixteen_bytes(text: Seq<char>)
    ensures
        encode_utf8(text).len() <= 16 ==> has_short_id(text) && short_id_text(text) == text,
        encode_utf8(text).len() > 16 ==> has_short_id(text) == is_char_boundary(
            encode_utf8(text),
            16,
        ),
        forall|front: Seq<char>, rest: Seq<char>|
            text == #[trigger] (front + rest) && encode_utf8(front).len() == 16
                ==> short_id_text(text) == front,
{
    encode_utf8_valid_utf8(text);
    if encode_utf8(text).len() <= 16 {
        is_char_boundary_start_end_of_seq(encode_utf8(text));
        assert(encode_utf8(text).subrange(0, encode_utf8(text).len() as int) =~= encode_utf8(text));
        encode_utf8_decode_utf8(text);
    }
    assert forall|front: Seq<char>, rest: Seq<char>|
        text == #[trigger] (front + rest) && encode_utf8(front).len() == 16 implies short_id_text(
        text,
    ) == front by {
        lemma_encoding_joins(front, rest);
        assert(encode_utf8(text).subrange(0, 16) =~= encode_utf8(front));
        encode_utf8_decode_utf8(front);
    }
}

/// The number that some decimal digits stand for.
pub open spec fn decimal_value(text: Seq<char>) -> int
    decreases text.len(),
{
    if text.len() == 0 {
        0
    } else {
        10 * decimal_value(text.drop_last()) + (text.last() as int - '0' as int)
    }
}

/// The decimal digits of a number stand for it, are digits, and do not begin with a zero unless
/// there is but one.
pub proof fn decimal_digits_stand_for_the_number(n: nat)
    ensures
        decimal_value(decimal(n)) == n,
        decimal(n).len() > 0,
        forall|i: int| 0 <= i < decimal(n).len() ==> '0' <= #[trigger] decimal(n)[i] <= '9',
        decimal(n).len() > 1 ==> decimal(n)[0] != '0',
    decreases n,
{
    reveal_with_fuel(decimal_value, 2);
    if n >= 10 {
        decimal_digits_stand_for_the_number(n / 10);
        assert(decimal(n).drop_last() =~= decimal(n / 10));
        if decimal(n / 10).len() == 1 {
            assert(decimal(n / 10).drop_last() =~= Seq::<char>::empty());
            assert(decimal_value(decimal(n / 10)) == decimal(n / 10)[0] as int - '0' as int);
        }
    } else {
        assert(decimal(n).drop_last() =~= Seq::<char>::empty());
    }
}

/// A text is parted after its last separator: the parts make up the text, the last has no
/// separator in it, and the first is empty or ends with one.
pub proof fn texts_are_parted_after_the_last_separator(text: Seq<char>, sep: char)
    ensures
        front_pieces(text, sep) + last_piece(text, sep) == text,
        !last_piece(text, sep).contains(sep),
        front_pieces(text, sep).len() > 0 ==> front_pieces(text, sep).last() == sep,
        0 <= last_piece_start(text, sep) <= text.len(),
    decreases text.len(),
{
    if text.len() > 0 && text.last() != sep {
        let front = text.drop_last();
        texts_are_parted_after_the_last_separator(front, sep);
        assert(front_pieces(text, sep) =~= front_pieces(front, sep));
        assert(last_piece(text, sep) =~= last_piece(front, sep).push(text.last()));
        if last_piece(text, sep).contains(sep) {
            let i = choose|i: int|
                0 <= i < last_piece(text, sep).len() && last_piece(text, sep)[i] == sep;
            assert(last_piece(front, sep)[i] == sep);
        }
    }
    assert(front_pieces(text, sep) + last_piece(text, sep) =~= text);
}

/// The member of a name is the last one called so, and null where none is.
pub proof fn the_last_member_is_looked_up(members: Seq<(Seq<char>, JsonTree)>, key: Seq<char>)
    ensures
        forall|i: int|
            0 <= i < members.len() && (#[trigger] members[i]).0 == key && (forall|j: int|
                i < j < members.len() ==> (#[trigger] members[j]).0 != key) ==> lookup(members, key)
                == members[i].1,
        (forall|i: int| 0 <= i < members.len() ==> (#[trigger] members[i]).0 != key) ==> lookup(
            members,
            key,
        ) == JsonTree::Null,
    decreases members.len(),
{
    if members.len() > 0 {
        let front = members.drop_last();
        the_last_member_is_looked_up(front, key);
        assert forall|i: int|
            0 <= i < members.len() && (#[trigger] members[i]).0 == key && (forall|j: int|
                i < j < members.len() ==> (#[trigger] members[j]).0 != key) implies lookup(
            members,
            key,
        ) == members[i].1 by {
            if i < front.len() {
                assert(members[members.len() - 1].0 != key);
                assert(front[i].0 == key);
                assert forall|j: int| i < j < front.len() implies (#[trigger] front[j]).0
                    != key by {
                    assert(members[j].0 != key);
                }
            }
        }
        if forall|i: int| 0 <= i < members.len() ==> (#[trigger] members[i]).0 != key {
            assert(members[members.len() - 1].0 != key);
            assert forall|i: int| 0 <= i < front.len() implies (#[trigger] front[i]).0 != key by {
                assert(members[i].0 != key);
            }
        }
    }
}

/// What is read of a document: texts of strings, values of numbers, items of arrays and members
/// of objects, and nothing of anything else.
pub proof fn documents_are_read_as_what_they_are(
    tree: JsonTree,
    text: Seq<char>,
    number: Option<u64>,
    items: Seq<JsonTree>,
    members: Seq<(Seq<char>, JsonTree)>,
    key: Seq<char>,
)
    ensures
        JsonTree::Text(text).text() == Some(text),
        !(tree is Text) ==> tree.text() is None,
        JsonTree::Number(number).unsigned() == number,
        !(tree is Number) ==> tree.unsigned() is None,
        JsonTree::List(items).items() == Some(items),
        !(tree is List) ==> tree.items() is None,
        JsonTree::Object(members).member(key) == lookup(members, key),
        !(tree is Object) ==> tree.member(key) == JsonTree::Null,
{
}

/// A document is seen as it is, every item and every member of it.
pub proof fn documents_are_seen_whole(
    truth: bool,
    number: Option<u64>,
    text: String,
    items: Vec<Json>,
    members: Vec<(String, Json)>,
)
    ensures
        Json::Null.tree() == JsonTree::Null,
        Json::Bool(truth).tree() == JsonTree::Bool(truth),
        Json::Number(number).tree() == JsonTree::Number(number),
        Json::Text(text).tree() == JsonTree::Text(text@),
        Json::List(items).tree() is List,
        Json::List(items).tree()->List_0.len() == items@.len(),
        forall|i: int|
            0 <= i < items@.len() ==> #[trigger] Json::List(items).tree()->List_0[i]
                == items@[i].tree(),
        Json::Object(members).tree() is Object,
        Json::Object(members).tree()->Object_0.len() == members@.len(),
        forall|i: int|
            0 <= i < members@.len() ==> #[trigger] Json::Object(members).tree()->Object_0[i] == (
                members@[i].0@,
                members@[i].1.tree(),
            ),
{
}

/// The hexadecimal text of bytes has two characters a byte, each of them a lowercase digit.
pub proof fn hexadecimal_has_two_digits_a_byte(bytes: Seq<u8>)
    ensures
        hex_text(bytes).len() == 2 * bytes.len(),
        forall|i: int|
            0 <= i < hex_text(bytes).len() ==> '0' <= #[trigger] hex_text(bytes)[i] <= '9' || 'a'
                <= hex_text(bytes)[i] <= 'f',
{
    assert forall|i: int| 0 <= i < hex_text(bytes).len() implies '0' <= #[trigger] hex_text(
        bytes,
    )[i] <= '9' || 'a' <= hex_text(bytes)[i] <= 'f' by {
        let byte = bytes[i / 2] as int;
        assert(0 <= byte / 16 < 16 && 0 <= byte % 16 < 16);
    }
}

/// What is read from hexadecimal is what writes it.
pub proof fn hexadecimal_is_read_and_written_alike(text: Seq<char>, bytes: Seq<u8>)
    requires
        hex_bytes(text) == Some(bytes),
    ensures
        bytes.len() == 32,
        hex_text(bytes) == text,
{
    assert forall|i: int| 0 <= i < 64 implies #[trigger] hex_text(bytes)[i] == text[i] by {
        let k = i / 2;
        let high = crate::ids::hex_value(text[2 * k]);
        let low = crate::ids::hex_value(text[2 * k + 1]);
        assert(crate::ids::is_hex_digit(text[2 * k]));
        assert(crate::ids::is_hex_digit(text[2 * k + 1]));
        assert(0 <= high < 16 && 0 <= low < 16);
        assert(bytes[k] as int == 16 * high + low);
        assert(bytes[k] as int / 16 == high);
        assert(bytes[k] as int % 16 == low);
    }
    assert(hex_text(bytes) =~= text);
}

/// Every hash of thirty-two bytes is read from its hexadecimal text; of sixty-four bytes of text,
/// no other stands for it.
pub proof fn hashes_have_one_hexadecimal_text(text: Seq<char>, hash: Seq<u8>)
    requires
        hash.len() == 32,
        encode_utf8(text).len() == 64,
    ensures
        blob_hash_of(text) == Some(hash) <==> text == hex_text(hash),
{
    lemma_blob_hash_round_trip(hash);
    if blob_hash_of(text) == Some(hash) {
        hexadecimal_is_read_and_written_alike(text, hash);
    }
}

/// Bit `k` of some bytes, the highest of each first, and zeroes after them.
pub open spec fn bit_of(bytes: Seq<u8>, k: int) -> int {
    let byte = bytes[k / 8] as int;
    let place = k % 8;
    if k >= 8 * bytes.len() {
        0
    } else {
        (if place == 0 {
            byte / 128
        } else if place == 1 {
            byte / 64
        } else if place == 2 {
            byte / 32
        } else if place == 3 {
            byte / 16
        } else if place == 4 {
            byte / 8
        } else if place == 5 {
            byte / 4
        } else if place == 6 {
            byte / 2
        } else {
            byte
        }) % 2
    }
}

/// Whether a text is a base32 form of some bytes: digits of five bits each, in either case, that
/// hold the bits of the bytes one after the other.
pub open spec fn writes_in_base32(text: Seq<char>, bytes: Seq<u8>) -> bool {
    &&& text.len() == 52
    &&& forall|i: int| 0 <= i < 52 ==> is_base32_digit(#[trigger] text[i])
    &&& forall|i: int|
        0 <= i < 52 ==> base32_value(#[trigger] text[i]) == 16 * bit_of(bytes, 5 * i) + 8 * bit_of(
            bytes,
            5 * i + 1,
        ) + 4 * bit_of(bytes, 5 * i + 2) + 2 * bit_of(bytes, 5 * i + 3) + bit_of(bytes, 5 * i + 4)
}

/// The digits of base32 are the letters, in either case, and then `2` to `7`, and count from zero.
pub proof fn base32_digits_count_from_zero(c: char)
    ensures
        is_base32_digit(c) <==> ('a' <= c <= 'z' || 'A' <= c <= 'Z' || '2' <= c <= '7'),
        'a' <= c <= 'z' ==> base32_value(c) == c as int - 'a' as int,
        'A' <= c <= 'Z' ==> base32_value(c) == c as int - 'A' as int,
        '2' <= c <= '7' ==> base32_value(c) == 26 + (c as int - '2' as int),
{
}

/// A hash is read from any base32 form of it.
pub proof fn hashes_are_read_from_base32(text: Seq<char>, hash: Seq<u8>)
    requires
        hash.len() == 32,
        writes_in_base32(text, hash),
    ensures
        blob_hash_of(text) == Some(hash),
{
    is_ascii_chars_encode_utf8(text);
    assert(encode_utf8(text).len() == 52);
    assert(base32_value(text[51]) % 16 == 0) by {
        assert(base32_value(text[51]) == 16 * bit_of(hash, 255) + 8 * bit_of(hash, 256) + 4
            * bit_of(hash, 257) + 2 * bit_of(hash, 258) + bit_of(hash, 259));
    }
    assert forall|i: int| 0 <= i < 32 implies base32_byte(text, i) == #[trigger] hash[i] as int by {
        lemma_base32_byte(text, hash, i);
    }
    assert(base32_bytes(text)->0 =~= hash);
}

/// A bit is read from the digit that holds it.
proof fn lemma_base32_bit(text: Seq<char>, hash: Seq<u8>, k: int)
    requires
        hash.len() == 32,
        writes_in_base32(text, hash),
        0 <= k < 256,
    ensures
        base32_bit(text, k) == bit_of(hash, k),
{
    let i = k / 5;
    assert(is_base32_digit(text[i]));
    lemma_bit_range(hash, 5 * i);
    lemma_bit_range(hash, 5 * i + 1);
    lemma_bit_range(hash, 5 * i + 2);
    lemma_bit_range(hash, 5 * i + 3);
    lemma_bit_range(hash, 5 * i + 4);
    lemma_five_bits(
        bit_of(hash, 5 * i),
        bit_of(hash, 5 * i + 1),
        bit_of(hash, 5 * i + 2),
        bit_of(hash, 5 * i + 3),
        bit_of(hash, 5 * i + 4),
    );
    assert(k == 5 * i + k % 5);
}

/// A bit is zero or one.
proof fn lemma_bit_range(bytes: Seq<u8>, k: int)
    ensures
        0 <= bit_of(bytes, k) < 2,
{
}

/// Bit `j` of a byte, the highest first.
#[verifier::opaque]
spec fn bit_in(byte: u8, j: int) -> int {
    bit_of(seq![byte], j)
}

/// A bit of a byte is read from the digit that holds it.
proof fn lemma_bit_in(text: Seq<char>, hash: Seq<u8>, i: int, j: int)
    requires
        hash.len() == 32,
        writes_in_base32(text, hash),
        0 <= i < 32,
        0 <= j < 8,
    ensures
        base32_bit(text, 8 * i + j) == bit_in(hash[i], j),
{
    reveal(bit_in);
    lemma_base32_bit(text, hash, 8 * i + j);
    assert((8 * i + j) / 8 == i);
    assert((8 * i + j) % 8 == j);
}

/// A byte is made of its eight bits.
proof fn lemma_byte_of_bits(byte: u8)
    ensures
        byte == 128 * bit_in(byte, 0) + 64 * bit_in(byte, 1) + 32 * bit_in(byte, 2) + 16 * bit_in(
            byte,
            3,
        ) + 8 * bit_in(byte, 4) + 4 * bit_in(byte, 5) + 2 * bit_in(byte, 6) + bit_in(byte, 7),
{
    reveal(bit_in);
    lemma_eight_bits(byte);
}

/// A byte is read from the digits that hold its bits.
proof fn lemma_base32_byte(text: Seq<char>, hash: Seq<u8>, i: int)
    requires
        hash.len() == 32,
        writes_in_base32(text, hash),
        0 <= i < 32,
    ensures
        base32_byte(text, i) == hash[i] as int,
{
    lemma_byte_of_bits(hash[i]);
    lemma_bit_in(text, hash, i, 0);
    lemma_bit_in(text, hash, i, 1);
    lemma_bit_in(text, hash, i, 2);
    lemma_bit_in(text, hash, i, 3);
    lemma_bit_in(text, hash, i, 4);
    lemma_bit_in(text, hash, i, 5);
    lemma_bit_in(text, hash, i, 6);
    lemma_bit_in(text, hash, i, 7);
}

/// Five bits are read back from the number that they make.
proof fn lemma_five_bits(a: int, b: int, c: int, d: int, e: int)
    requires
        0 <= a < 2,
        0 <= b < 2,
        0 <= c < 2,
        0 <= d < 2,
        0 <= e < 2,
    ensures
        ({
            let value = 16 * a + 8 * b + 4 * c + 2 * d + e;
            &&& (value / 16) % 2 == a
            &&& (value / 8) % 2 == b
            &&& (value / 4) % 2 == c
            &&& (value / 2) % 2 == d
            &&& value % 2 == e
        }),
{
}

/// A byte is made of its eight bits.
proof fn lemma_eight_bits(byte: u8)
    by (bit_vector)
    ensures
        byte == 128 * ((byte / 128) % 2) + 64 * ((byte / 64) % 2) + 32 * ((byte / 32) % 2) + 16 * ((
        byte / 16) % 2) + 8 * ((byte / 8) % 2) + 4 * ((byte / 4) % 2) + 2 * ((byte / 2) % 2) + byte
            % 2,
{
}

/// A text of fifty-two bytes is a hash only where all its characters are digits of base32, and its
/// last four bits are zero.
pub proof fn base32_has_its_digits(text: Seq<char>)
    requires
        encode_utf8(text).len() == 52,
        blob_hash_of(text) is Some,
    ensures
        text.len() == 52,
        forall|i: int|
            0 <= i < 52 ==> 'a' <= #[trigger] text[i] <= 'z' || 'A' <= text[i] <= 'Z' || '2'
                <= text[i] <= '7',
        base32_value(text[51]) == 0 || base32_value(text[51]) == 16,
{
    assert forall|i: int| 0 <= i < 52 implies 'a' <= #[trigger] text[i] <= 'z' || 'A' <= text[i]
        <= 'Z' || '2' <= text[i] <= '7' by {
        assert(is_base32_digit(text[i]));
    }
    assert(is_base32_digit(text[51]));
}

/// The pieces of a text between its separators, and the separators, make up the text; no piece has
/// a separator in it.
pub proof fn pieces_make_up_the_text(text: Seq<char>, sep: char)
    ensures
        split_on(text, sep).len() > 0,
        joined(split_on(text, sep), sep) == text,
        forall|i: int|
            0 <= i < split_on(text, sep).len() ==> !(#[trigger] split_on(text, sep)[i]).contains(
                sep,
            ),
    decreases text.len(),
{
    let all = split_on(text, sep);
    if text.len() == 0 {
        assert(joined(all, sep) =~= text);
    } else {
        let front = text.drop_last();
        let before = split_on(front, sep);
        pieces_make_up_the_text(front, sep);
        assert(front.push(text.last()) =~= text);
        if text.last() == sep {
            assert(all.drop_last() =~= before);
            assert(joined(all, sep) =~= text);
        } else {
            let grown = before.last().push(text.last());
            assert(all.drop_last() =~= before.drop_last());
            assert(all.last() == grown);
            assert(joined(all, sep) =~= text);
            assert(!grown.contains(sep)) by {
                if grown.contains(sep) {
                    let i = choose|i: int| 0 <= i < grown.len() && grown[i] == sep;
                    assert(before[before.len() - 1].contains(before.last()[i]));
                }
            }
        }
        assert forall|i: int| 0 <= i < all.len() implies !(#[trigger] all[i]).contains(sep) by {
            if i < before.len() - 1 {
                assert(all[i] == before[i]);
            } else if text.last() == sep && i == before.len() - 1 {
                assert(all[i] == before[i]);
            }
        }
    }
}

/// Some pieces with separators between them.
pub open spec fn joined(pieces: Seq<Seq<char>>, sep: char) -> Seq<char>
    decreases pieces.len(),
{
    if pieces.len() == 0 {
        Seq::empty()
    } else if pieces.len() == 1 {
        pieces[0]
    } else {
        joined(pieces.drop_last(), sep).push(sep) + pieces.last()
    }
}

/// A text that has neither sixty-four bytes nor fifty-two is no hash and no key.
pub proof fn identifiers_have_their_lengths(text: Seq<char>)
    requires
        encode_utf8(text).len() != 64,
        encode_utf8(text).len() != 52,
    ensures
        blob_hash_of(text) is None,
        node_key_of(text) is None,
{
}

/// A node key has thirty-two bytes, those that a blob hash in the same text would have; and any
/// text of a hash that is accepted as a key gives one.
pub proof fn keys_are_read_as_hashes_are(text: Seq<char>)
    ensures
        node_key_of(text) is Some ==> node_key_of(text) == blob_hash_of(text),
        node_key_of(text) is Some ==> node_key_of(text)->0.len() == 32,
        is_key_text(text) ==> node_key_of(text) == blob_hash_of(text),
        !is_key_text(text) ==> node_key_of(text) is None,
{
}

/// Nodes that are named in hexadecimal are told apart by their keys.
pub proof fn keys_tell_nodes_apart(a: Seq<char>, b: Seq<char>)
    requires
        encode_utf8(a).len() == 64,
        encode_utf8(b).len() == 64,
        node_key_of(a) is Some,
        node_key_of(a) == node_key_of(b),
    ensures
        a == b,
{
    hexadecimal_is_read_and_written_alike(a, node_key_of(a)->0);
    hexadecimal_is_read_and_written_alike(b, node_key_of(b)->0);
}

} // verus!
