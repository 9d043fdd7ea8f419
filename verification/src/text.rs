//! Reading characters out of byte strings that may not be valid UTF-8.
use vstd::prelude::*;
use vstd::string::StrSliceExecFns;
use vstd::string::StringSliceAdditionalSpecFns;
use vstd::utf8::*;
use crate::error::CharOrByte;

verus! {

/// The length of the longest prefix of `bytes`, of at most `limit` bytes, that is valid
/// UTF-8.
pub open spec fn valid_prefix_len(bytes: Seq<u8>, limit: int) -> int
    decreases limit,
{
    if limit <= 0 {
        0
    } else if valid_utf8(bytes.subrange(0, limit)) {
        limit
    } else {
        valid_prefix_len(bytes, limit - 1)
    }
}

/// The end of the window of at most four bytes that starts at `index` and stays below `to`.
pub open spec fn window_end(index: int, to: int) -> int {
    if index + 4 <= to {
        index + 4
    } else {
        to
    }
}

/// The character that starts at `index` in `source[..to]`, or the byte there if no
/// character does.
///
/// The character is the first one of the longest valid UTF-8 prefix of the up to four
/// bytes from `index` on. Where that prefix is empty, the result is the byte at `index`.
pub open spec fn char_or_byte_at(source: Seq<u8>, index: int, to: int) -> CharOrByte {
    let head = source.subrange(index, window_end(index, to));
    let valid = valid_prefix_len(head, head.len() as int);
    if valid > 0 {
        CharOrByte::Char(decode_utf8(head.subrange(0, valid))[0])
    } else {
        CharOrByte::Byte(source[index])
    }
}

/// The longest valid prefix is a prefix, it is valid, and no longer prefix within the
/// limit is.
pub proof fn lemma_valid_prefix_len(bytes: Seq<u8>, limit: int)
    requires
        0 <= limit <= bytes.len(),
    ensures
        0 <= valid_prefix_len(bytes, limit) <= limit,
        valid_utf8(bytes.subrange(0, valid_prefix_len(bytes, limit))),
        forall|n: int| valid_prefix_len(bytes, limit) < n <= limit ==> !valid_utf8(#[trigger] bytes.subrange(0, n)),
    decreases limit,
{
    if limit > 0 && !valid_utf8(bytes.subrange(0, limit)) {
        lemma_valid_prefix_len(bytes, limit - 1);
    }
}

/// A character has as many bytes in the source as its UTF-8 encoding is long.
pub proof fn lemma_source_len_is_encoded_len(c: char)
    ensures
        CharOrByte::Char(c).spec_source_len() == encode_scalar(c as u32).len(),
{
    char_is_scalar(c);
}

/// What is read at `index` is the character that the bytes from `index` on start with,
/// if they start with a valid UTF-8 sequence, and else the byte at `index`.
pub proof fn lemma_char_or_byte_at(source: Seq<u8>, index: int, to: int)
    requires
        0 <= index < to <= source.len(),
    ensures
        char_or_byte_at(source, index, to) == if valid_first_scalar(source.subrange(index, to)) {
            CharOrByte::Char(decode_first_scalar(source.subrange(index, to)) as char)
        } else {
            CharOrByte::Byte(source[index])
        },
{
    let rest = source.subrange(index, to);
    let head = source.subrange(index, window_end(index, to));
    let valid = valid_prefix_len(head, head.len() as int);
    lemma_valid_prefix_len(head, head.len() as int);
    let prefix = head.subrange(0, valid);
    if valid_first_scalar(rest) {
        // The bytes of the first character are a valid prefix of the window.
        let len = length_of_first_scalar(rest);
        let first = head.subrange(0, len);
        assert(first[0] == rest[0]);
        assert(valid_first_scalar(first));
        assert(length_of_first_scalar(first) == len);
        assert(pop_first_scalar(first) =~= Seq::<u8>::empty());
        assert(valid_utf8(Seq::<u8>::empty()));
        assert(valid_utf8(first));
        // So the longest valid prefix starts with them.
        assert(valid >= len);
        assert(prefix[0] == rest[0]);
        assert(decode_first_scalar(prefix) == decode_first_scalar(rest));
    } else if valid > 0 {
        // A valid prefix would start with a valid sequence, and so would the rest.
        assert(prefix[0] == rest[0]);
        assert(valid_first_scalar(prefix));
    }
}

/// What is read at `index` ends at or before `to`.
pub proof fn lemma_char_or_byte_fits(source: Seq<u8>, index: int, to: int)
    requires
        0 <= index < to <= source.len(),
    ensures
        index + char_or_byte_at(source, index, to).spec_source_len() <= to,
{
    let head = source.subrange(index, window_end(index, to));
    let valid = valid_prefix_len(head, head.len() as int);
    lemma_valid_prefix_len(head, head.len() as int);
    if valid > 0 {
        let prefix = head.subrange(0, valid);
        let c = decode_utf8(prefix)[0];
        decode_utf8_first_scalar(prefix);
        lemma_source_len_is_encoded_len(c);
    }
}

/// Calls `std::str::from_utf8`, which checks that a byte string is valid UTF-8 and, if
/// so, hands it back as text.
///
/// Trusted: the result is `Some` exactly for valid UTF-8, and the text then has the
/// given bytes.
#[verifier::external_body]
pub(crate) fn text_of(bytes: &[u8]) -> (text: Option<&str>)
    ensures
        text is Some <==> valid_utf8(bytes@),
        text matches Some(found) ==> found.spec_bytes() == bytes@,
{
    std::str::from_utf8(bytes).ok()
}

/// Get the longest prefix of the input that is valid UTF-8, as text.
///
/// If the whole input is valid UTF-8, the whole input is returned.
/// If the first byte is already invalid UTF-8, an empty string is returned.
pub fn valid_utf8_prefix(input: &[u8]) -> (prefix: &str)
    ensures
        prefix.spec_bytes() == input@.subrange(0, valid_prefix_len(input@, input@.len() as int)),
{
    let mut limit: usize = input.len();
    loop
        invariant
            limit <= input@.len(),
            valid_prefix_len(input@, input@.len() as int) == valid_prefix_len(input@, limit as int),
        decreases limit,
    {
        let candidate = vstd::slice::slice_subrange(input, 0, limit);
        match text_of(candidate) {
            Some(prefix) => {
                return prefix;
            },
            None => {
                // The empty prefix is valid, so this one is not empty.
                limit -= 1;
            },
        }
    }
}

/// Get the character that starts at `index` in `data[..to]`, or the byte there if the
/// bytes from `index` on do not start with a valid UTF-8 sequence.
pub fn get_maybe_char_in(data: &[u8], index: usize, to: usize) -> (found: CharOrByte)
    requires
        index < to <= data@.len(),
    ensures
        found == char_or_byte_at(data@, index as int, to as int),
{
    let end: usize = if to - index >= 4 {
        index + 4
    } else {
        to
    };
    let head = vstd::slice::slice_subrange(data, index, end);
    let prefix = valid_utf8_prefix(head);
    proof {
        lemma_valid_prefix_len(head@, head@.len() as int);
        encode_utf8_decode_utf8(prefix@);
    }
    if prefix.len() > 0 {
        CharOrByte::Char(prefix.get_char(0))
    } else {
        CharOrByte::Byte(data[index])
    }
}

/// Get the character at a given index.
///
/// If the data at the given index starts with a valid UTF-8 sequence, returns a
/// [`CharOrByte::Char`]. Otherwise, returns a [`CharOrByte::Byte`].
pub fn get_maybe_char_at(data: &[u8], index: usize) -> (found: CharOrByte)
    requires
        index < data@.len(),
    ensures
        found == char_or_byte_at(data@, index as int, data@.len() as int),
{
    get_maybe_char_in(data, index, data.len())
}

/// Whether a byte is an ASCII character.
pub open spec fn is_ascii_byte(byte: u8) -> bool {
    byte < 0x80
}

/// In valid UTF-8, an ASCII byte stands at a character boundary.
pub proof fn lemma_boundary_at_ascii(bytes: Seq<u8>, index: int)
    requires
        valid_utf8(bytes),
        0 <= index < bytes.len(),
        is_ascii_byte(bytes[index]),
    ensures
        is_char_boundary(bytes, index),
{
    is_char_boundary_iff_not_is_continuation_byte(bytes, index);
}

/// In valid UTF-8, a character boundary stands behind an ASCII byte.
pub proof fn lemma_boundary_after_ascii(bytes: Seq<u8>, index: int)
    requires
        valid_utf8(bytes),
        0 <= index < bytes.len(),
        is_ascii_byte(bytes[index]),
    ensures
        is_char_boundary(bytes, index + 1),
{
    lemma_boundary_at_ascii(bytes, index);
    if index + 1 == bytes.len() {
        is_char_boundary_start_end_of_seq(bytes);
    } else {
        valid_utf8_split(bytes, index);
        let suffix = bytes.subrange(index, bytes.len() as int);
        let tail = pop_first_scalar(suffix);
        assert(valid_utf8(tail));
        is_char_boundary_iff_not_is_continuation_byte(bytes, index + 1);
    }
}

/// What stands between two character boundaries of valid UTF-8 is valid UTF-8.
pub proof fn lemma_valid_between_boundaries(bytes: Seq<u8>, start: int, end: int)
    requires
        valid_utf8(bytes),
        0 <= start <= end <= bytes.len(),
        is_char_boundary(bytes, start),
        is_char_boundary(bytes, end),
    ensures
        valid_utf8(bytes.subrange(start, end)),
{
    if start < end {
        valid_utf8_split(bytes, end);
        let prefix = bytes.subrange(0, end);
        is_char_boundary_iff_not_is_continuation_byte(bytes, start);
        is_char_boundary_iff_not_is_continuation_byte(prefix, start);
        valid_utf8_split(prefix, start);
        assert(prefix.subrange(start, prefix.len() as int) =~= bytes.subrange(start, end));
    }
}

/// A string of ASCII bytes is valid UTF-8.
pub proof fn lemma_ascii_is_utf8(bytes: Seq<u8>)
    requires
        forall|i: int| 0 <= i < bytes.len() ==> is_ascii_byte(#[trigger] bytes[i]),
    ensures
        valid_utf8(bytes),
{
    partial_valid_utf8_extend_ascii_block(bytes, 0, bytes.len() as int);
    assert(bytes.subrange(0, bytes.len() as int) =~= bytes);
}

/// Calls `String::from_utf8`, which checks that a vector of bytes is valid UTF-8 and,
/// if so, turns it into a string without copying.
///
/// Trusted: the result is `Some` exactly for valid UTF-8, and the string then has the
/// given bytes.
#[verifier::external_body]
pub(crate) fn string_of(bytes: Vec<u8>) -> (text: Option<String>)
    ensures
        text is Some <==> valid_utf8(bytes@),
        text matches Some(found) ==> encode_utf8(found@) == bytes@,
{
    String::from_utf8(bytes).ok()
}

} // verus!
