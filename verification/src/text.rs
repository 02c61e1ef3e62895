//! Text helpers: the few string operations that paths, tags and identifiers are made of, each
//! stated over the sequence of characters.

use vstd::prelude::*;
use vstd::string::*;
use vstd::utf8::*;

verus! {

/// `String::push` of the standard library: the character is appended, the rest stays.
pub assume_specification[ String::push ](s: &mut String, c: char)
    ensures
        final(s)@ == old(s)@.push(c),
;

/// `text` with every `from` replaced by `to`.
pub open spec fn replaced(text: Seq<char>, from: char, to: char) -> Seq<char> {
    text.map_values(
        |c: char|
            if c == from {
                to
            } else {
                c
            },
    )
}

/// The pieces of `text` between the occurrences of `sep`; one piece more than there are
/// occurrences.
pub open spec fn split_on(text: Seq<char>, sep: char) -> Seq<Seq<char>>
    decreases text.len(),
{
    if text.len() == 0 {
        seq![Seq::<char>::empty()]
    } else {
        let front = split_on(text.drop_last(), sep);
        if text.last() == sep {
            front.push(Seq::<char>::empty())
        } else {
            front.drop_last().push(front.last().push(text.last()))
        }
    }
}

/// The views of a list of strings.
pub open spec fn texts(list: Seq<String>) -> Seq<Seq<char>> {
    list.map_values(|s: String| s@)
}

/// The text of an optional string.
pub open spec fn optional_text(text: Option<String>) -> Option<Seq<char>> {
    match text {
        Some(text) => Some(text@),
        None => None,
    }
}

/// How many bytes a short identifier keeps.
pub const SHORT_ID_BYTES: usize = 16;

/// The byte offset at which a short identifier ends: sixteen, or the end of a shorter text.
pub open spec fn short_id_end(text: Seq<char>) -> int {
    if encode_utf8(text).len() < SHORT_ID_BYTES {
        encode_utf8(text).len() as int
    } else {
        SHORT_ID_BYTES as int
    }
}

/// Whether `text` can be cut after its first sixteen bytes, that is, whether no character
/// straddles that offset.
pub open spec fn has_short_id(text: Seq<char>) -> bool {
    is_char_boundary(encode_utf8(text), short_id_end(text))
}

/// The first sixteen bytes of `text` as a text, all of it where it is shorter.
pub open spec fn short_id_text(text: Seq<char>) -> Seq<char> {
    decode_utf8(encode_utf8(text).subrange(0, short_id_end(text)))
}

/// The decimal digit of a value below ten.
pub open spec fn digit(value: int) -> char {
    ('0' as int + value) as char
}

/// A number in decimal digits, without leading zeroes.
pub open spec fn decimal(n: nat) -> Seq<char>
    decreases n,
{
    if n < 10 {
        seq![digit(n as int)]
    } else {
        decimal(n / 10).push(digit((n % 10) as int))
    }
}

/// Where the last piece of `text` begins, after the last `sep`.
pub open spec fn last_piece_start(text: Seq<char>, sep: char) -> int
    decreases text.len(),
{
    if text.len() == 0 || text.last() == sep {
        text.len() as int
    } else {
        last_piece_start(text.drop_last(), sep)
    }
}

/// What stands up to the last `sep`, with it.
pub open spec fn front_pieces(text: Seq<char>, sep: char) -> Seq<char> {
    text.take(last_piece_start(text, sep))
}

/// What stands after the last `sep`.
pub open spec fn last_piece(text: Seq<char>, sep: char) -> Seq<char> {
    text.skip(last_piece_start(text, sep))
}

/// `text` with every `from` replaced by `to`.
pub fn replace_char(text: &str, from: char, to: char) -> (result: String)
    ensures
        result@ == replaced(text@, from, to),
{
    let mut result = String::new();
    for c in it: text.chars()
        invariant
            it.seq() == text@,
            result@ == replaced(text@.take(it.index() as int), from, to),
    {
        proof {
            let done = text@.take(it.index() as int);
            assert(text@.take(it.index() + 1) =~= done.push(c));
            assert(replaced(done.push(c), from, to) =~= replaced(done, from, to).push(
                if c == from {
                    to
                } else {
                    c
                },
            ));
        }
        result.push(
            if c == from {
                to
            } else {
                c
            },
        );
    }
    assert(text@.take(text@.len() as int) =~= text@);
    result
}

/// Splits `text` at every `sep`.
pub fn split(text: &str, sep: char) -> (pieces: Vec<String>)
    ensures
        texts(pieces@) == split_on(text@, sep),
{
    let mut done: Vec<String> = Vec::new();
    let mut current = String::new();
    assert(texts(done@).push(current@) =~= split_on(text@.take(0), sep));
    for c in it: text.chars()
        invariant
            it.seq() == text@,
            texts(done@).push(current@) == split_on(text@.take(it.index() as int), sep),
    {
        let ghost before = text@.take(it.index() as int);
        let ghost after = text@.take(it.index() + 1);
        let ghost done_before = texts(done@);
        let ghost current_before = current@;
        proof {
            assert(after.drop_last() =~= before);
            assert(after.last() == c);
            assert(split_on(before, sep).drop_last() =~= done_before);
        }
        if c == sep {
            done.push(current);
            current = String::new();
            assert(texts(done@) =~= done_before.push(current_before));
        } else {
            current.push(c);
        }
        assert(texts(done@).push(current@) =~= split_on(after, sep));
    }
    assert(text@.take(text@.len() as int) =~= text@);
    let ghost parts = texts(done@).push(current@);
    done.push(current);
    assert(texts(done@) =~= parts);
    done
}

/// A number in decimal digits.
pub fn decimal_text(n: u64) -> (text: String)
    ensures
        text@ == decimal(n as nat),
    decreases n,
{
    let last: u8 = (n % 10) as u8;
    let mut text = if n < 10 {
        String::new()
    } else {
        decimal_text(n / 10)
    };
    // The digits stand one after the other, from `0` on.
    text.push((48 + last) as char);
    assert(text@ =~= decimal(n as nat));
    text
}

/// The last piece begins within the text.
proof fn lemma_last_piece_start(text: Seq<char>, sep: char)
    ensures
        0 <= last_piece_start(text, sep) <= text.len(),
    decreases text.len(),
{
    if text.len() > 0 {
        lemma_last_piece_start(text.drop_last(), sep);
    }
}

/// Parts `text` after its last `sep`.
pub fn split_last(text: &str, sep: char) -> (parts: (String, String))
    ensures
        parts.0@ == front_pieces(text@, sep),
        parts.1@ == last_piece(text@, sep),
{
    let mut front = String::new();
    let mut last = String::new();
    for c in it: text.chars()
        invariant
            it.seq() == text@,
            front@ == front_pieces(text@.take(it.index() as int), sep),
            last@ == last_piece(text@.take(it.index() as int), sep),
    {
        let ghost before = text@.take(it.index() as int);
        let ghost after = text@.take(it.index() + 1);
        proof {
            lemma_last_piece_start(before, sep);
            assert(after.drop_last() =~= before);
            assert(after.last() == c);
            assert(before =~= front@ + last@);
        }
        if c == sep {
            front.append(last.as_str());
            front.push(c);
            last = String::new();
            assert(front@ =~= after);
        } else {
            last.push(c);
        }
        assert(front@ =~= front_pieces(after, sep));
        assert(last@ =~= last_piece(after, sep));
    }
    assert(text@.take(text@.len() as int) =~= text@);
    (front, last)
}

/// Whether `c` occurs in `text`.
pub fn contains_char(text: &str, c: char) -> (found: bool)
    ensures
        found == text@.contains(c),
{
    for d in it: text.chars()
        invariant
            it.seq() == text@,
            forall|k: int| 0 <= k < it.index() ==> text@[k] != c,
    {
        if d == c {
            assert(text@[it.index() as int] == c);
            return true;
        }
    }
    false
}

/// Whether `text` begins with `prefix`.
pub fn starts_with(text: &str, prefix: &str) -> (result: bool)
    ensures
        result == prefix@.is_prefix_of(text@),
{
    let mut rest = text.chars();
    for c in it: prefix.chars()
        invariant
            it.seq() == prefix@,
            prefix@.take(it.index() as int).is_prefix_of(text@),
            vstd::std_specs::iter::IteratorSpec::remaining(&rest) == text@.skip(it.index() as int),
            it.index() <= text@.len(),
    {
        let ghost at = it.index() as int;
        match rest.next() {
            Some(d) => {
                assert(d == text@[at]);
                if c != d {
                    assert(prefix@[at] != text@[at]);
                    return false;
                }
                assert(prefix@.take(at + 1) =~= text@.take(at + 1));
            },
            None => {
                assert(text@.skip(at).len() == 0);
                return false;
            },
        }
        assert(text@.skip(at).drop_first() =~= text@.skip(at + 1));
    }
    assert(prefix@.take(prefix@.len() as int) =~= prefix@);
    true
}

/// Whether two texts are the same.
pub fn same_text(a: &str, b: &str) -> (result: bool)
    ensures
        result == (a@ == b@),
{
    let result = starts_with(a, b) && starts_with(b, a);
    proof {
        if result {
            assert(a@ =~= b@);
        }
    }
    result
}

/// The first sixteen bytes of `text`, all of it where it is shorter.
pub fn short_id(text: &str) -> (short: &str)
    requires
        has_short_id(text@),
    ensures
        short@ == short_id_text(text@),
{
    let len: usize = text.as_bytes().len();
    let end: usize = if len < SHORT_ID_BYTES {
        len
    } else {
        SHORT_ID_BYTES
    };
    let (short, _rest) = text.split_at(end);
    proof {
        encode_utf8_decode_utf8(short@);
    }
    short
}

/// An identifier of ASCII characters, as node IDs are, can be shortened, and its short form is
/// its first sixteen characters.
pub proof fn ascii_ids_have_short_forms(id: Seq<char>)
    requires
        is_ascii_chars(id),
    ensures
        has_short_id(id),
        short_id_text(id) == id.take(
            if id.len() < SHORT_ID_BYTES {
                id.len() as int
            } else {
                SHORT_ID_BYTES as int
            },
        ),
{
    let bytes = encode_utf8(id);
    let end = short_id_end(id);
    is_ascii_chars_encode_utf8(id);
    encode_utf8_valid_utf8(id);
    if end < bytes.len() {
        is_char_boundary_iff_not_is_continuation_byte(bytes, end);
        is_ascii_chars_nat_bound(id);
        assert(id[end] as u32 <= 127);
        assert(bytes[end] == id[end] as u8);
        assert(bytes[end] <= 127);
        assert(!is_continuation_byte(bytes[end])) by {
            utf8_byte_ranges_bitwise(bytes[end]);
        }
    } else {
        is_char_boundary_start_end_of_seq(bytes);
    }
    let front = id.take(end);
    is_ascii_chars_encode_utf8(front);
    assert(encode_utf8(front) =~= bytes.subrange(0, end));
    encode_utf8_decode_utf8(front);
}

/// A text without separators is one piece.
pub proof fn lemma_split_plain(text: Seq<char>, sep: char)
    requires
        !text.contains(sep),
    ensures
        split_on(text, sep) == seq![text],
    decreases text.len(),
{
    if text.len() > 0 {
        let front = text.drop_last();
        assert(text.last() != sep) by {
            assert(text[text.len() - 1] == text.last());
        }
        assert(!front.contains(sep)) by {
            if front.contains(sep) {
                let i = choose|i: int| 0 <= i < front.len() && front[i] == sep;
                assert(text[i] == sep);
            }
        }
        lemma_split_plain(front, sep);
        assert(front.push(text.last()) =~= text);
        assert(split_on(text, sep) =~= seq![text]);
    } else {
        assert(text =~= Seq::empty());
    }
}

/// A separator between two texts separates their pieces.
pub proof fn lemma_split_join(a: Seq<char>, b: Seq<char>, sep: char)
    ensures
        split_on(a.push(sep) + b, sep) == split_on(a, sep) + split_on(b, sep),
    decreases b.len(),
{
    let whole = a.push(sep) + b;
    if b.len() == 0 {
        assert(whole =~= a.push(sep));
        assert(whole.drop_last() =~= a);
        assert(split_on(whole, sep) =~= split_on(a, sep) + split_on(b, sep));
    } else {
        let front = b.drop_last();
        lemma_split_join(a, front, sep);
        lemma_split_nonempty(front, sep);
        assert(whole.drop_last() =~= a.push(sep) + front);
        assert(whole.last() == b.last());
        let left = split_on(a, sep);
        let right = split_on(front, sep);
        assert((left + right).drop_last() =~= left + right.drop_last());
        assert((left + right).last() == right.last());
        assert(split_on(whole, sep) =~= left + split_on(b, sep));
    }
}

/// There is always a piece.
proof fn lemma_split_nonempty(text: Seq<char>, sep: char)
    ensures
        split_on(text, sep).len() > 0,
    decreases text.len(),
{
    if text.len() > 0 {
        lemma_split_nonempty(text.drop_last(), sep);
    }
}

/// There is one piece more than there are separators.
pub proof fn lemma_split_count(text: Seq<char>, sep: char)
    ensures
        split_on(text, sep).len() == text.filter(|c: char| c == sep).len() + 1,
    decreases text.len(),
{
    reveal(Seq::filter);
    if text.len() > 0 {
        lemma_split_count(text.drop_last(), sep);
    }
}

} // verus!
