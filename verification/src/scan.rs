//! Searching byte strings for the bytes that matter to the template language.
use vstd::prelude::*;

verus! {

/// The byte `$`, which starts a placeholder.
pub const DOLLAR: u8 = 0x24;

/// The byte `\`, which starts an escape sequence.
pub const BACKSLASH: u8 = 0x5c;

/// The byte `{`, which opens a braced placeholder.
pub const OPEN_BRACE: u8 = 0x7b;

/// The byte `}`, which closes a braced placeholder.
pub const CLOSE_BRACE: u8 = 0x7d;

/// The byte `:`, which separates a name from its default.
pub const COLON: u8 = 0x3a;

/// The byte `_`, which may occur in a name.
pub const UNDERSCORE: u8 = 0x5f;

/// Whether a byte may occur in a variable name: an ASCII letter, digit or underscore.
pub open spec fn is_name_byte(byte: u8) -> bool {
    ||| 0x30 <= byte <= 0x39
    ||| 0x41 <= byte <= 0x5a
    ||| 0x61 <= byte <= 0x7a
    ||| byte == UNDERSCORE
}

/// Whether a byte may follow a backslash: one of `\`, `$`, `{`, `}` and `:`.
pub open spec fn is_escapable(byte: u8) -> bool {
    ||| byte == BACKSLASH
    ||| byte == DOLLAR
    ||| byte == OPEN_BRACE
    ||| byte == CLOSE_BRACE
    ||| byte == COLON
}

/// Whether a byte ends a literal: `$` or `\`.
pub open spec fn is_special(byte: u8) -> bool {
    byte == DOLLAR || byte == BACKSLASH
}

/// Whether a byte matters to the search for a closing brace: `\`, `{` or `}`.
pub open spec fn is_brace_or_backslash(byte: u8) -> bool {
    byte == BACKSLASH || byte == OPEN_BRACE || byte == CLOSE_BRACE
}

/// The index of the first `$` or `\` in `source[from..to]`, or `to` if there is none.
pub open spec fn literal_end(source: Seq<u8>, from: int, to: int) -> int
    decreases to - from,
{
    if from >= to {
        to
    } else if is_special(source[from]) {
        from
    } else {
        literal_end(source, from + 1, to)
    }
}

/// The end of the longest run of name bytes that starts at `from` and stays below `to`.
pub open spec fn name_end(source: Seq<u8>, from: int, to: int) -> int
    decreases to - from,
{
    if from >= to {
        from
    } else if is_name_byte(source[from]) {
        name_end(source, from + 1, to)
    } else {
        from
    }
}

/// The index in `source[from..to]` of the `}` that brings the nesting depth from
/// `depth` down to zero, if there is one.
///
/// A `{` adds one to the depth and a `}` takes one from it. A backslash is passed over
/// together with the byte behind it, whatever that byte is.
pub open spec fn closing_brace(source: Seq<u8>, from: int, to: int, depth: int) -> Option<int>
    decreases to - from,
{
    if from >= to {
        None
    } else if source[from] == BACKSLASH {
        if from + 1 >= to {
            None
        } else {
            closing_brace(source, from + 2, to, depth)
        }
    } else if source[from] == OPEN_BRACE {
        closing_brace(source, from + 1, to, depth + 1)
    } else if source[from] == CLOSE_BRACE {
        if depth == 1 {
            Some(from)
        } else {
            closing_brace(source, from + 1, to, depth - 1)
        }
    } else {
        closing_brace(source, from + 1, to, depth)
    }
}

/// A literal ends inside `from..=to`, and no byte before its end is special.
pub proof fn lemma_literal_end(source: Seq<u8>, from: int, to: int)
    requires
        from <= to,
    ensures
        from <= literal_end(source, from, to) <= to,
        literal_end(source, from, to) < to ==> is_special(source[literal_end(source, from, to)]),
        forall|i: int| from <= i < literal_end(source, from, to) ==> !is_special(#[trigger] source[i]),
    decreases to - from,
{
    if from < to && !is_special(source[from]) {
        lemma_literal_end(source, from + 1, to);
    }
}

/// The first special byte at or after `from` is where the literal ends.
pub proof fn lemma_literal_end_found(source: Seq<u8>, from: int, to: int, found: int)
    requires
        from <= found <= to,
        forall|i: int| from <= i < found ==> !is_special(#[trigger] source[i]),
        found < to ==> is_special(source[found]),
    ensures
        literal_end(source, from, to) == found,
    decreases found - from,
{
    if from < found {
        lemma_literal_end_found(source, from + 1, to, found);
    }
}

/// A name ends inside `from..=to`, every byte before its end is a name byte, and the
/// byte at its end is none.
pub proof fn lemma_name_end(source: Seq<u8>, from: int, to: int)
    requires
        from <= to,
    ensures
        from <= name_end(source, from, to) <= to,
        name_end(source, from, to) < to ==> !is_name_byte(source[name_end(source, from, to)]),
        forall|i: int| from <= i < name_end(source, from, to) ==> is_name_byte(#[trigger] source[i]),
    decreases to - from,
{
    if from < to && is_name_byte(source[from]) {
        lemma_name_end(source, from + 1, to);
    }
}

/// The first byte at or after `from` that is no name byte is where the name ends.
pub proof fn lemma_name_end_found(source: Seq<u8>, from: int, to: int, found: int)
    requires
        from <= found <= to,
        forall|i: int| from <= i < found ==> is_name_byte(#[trigger] source[i]),
        found < to ==> !is_name_byte(source[found]),
    ensures
        name_end(source, from, to) == found,
    decreases found - from,
{
    if from < found {
        lemma_name_end_found(source, from + 1, to, found);
    }
}

/// Bytes that are neither brace nor backslash do not matter to the search for a
/// closing brace.
pub proof fn lemma_closing_brace_skip(source: Seq<u8>, from: int, mid: int, to: int, depth: int)
    requires
        from <= mid <= to,
        forall|i: int| from <= i < mid ==> !is_brace_or_backslash(#[trigger] source[i]),
    ensures
        closing_brace(source, from, to, depth) == closing_brace(source, mid, to, depth),
    decreases mid - from,
{
    if from < mid {
        lemma_closing_brace_skip(source, from + 1, mid, to, depth);
    }
}

/// A closing brace, where one is found, lies inside `from..to` and is a `}`.
pub proof fn lemma_closing_brace(source: Seq<u8>, from: int, to: int, depth: int)
    ensures
        closing_brace(source, from, to, depth) matches Some(end) ==> from <= end < to
            && source[end] == CLOSE_BRACE,
    decreases to - from,
{
    if from >= to {
    } else if source[from] == BACKSLASH {
        if from + 1 < to {
            lemma_closing_brace(source, from + 2, to, depth);
        }
    } else if source[from] == OPEN_BRACE {
        lemma_closing_brace(source, from + 1, to, depth + 1);
    } else if source[from] == CLOSE_BRACE {
        if depth != 1 {
            lemma_closing_brace(source, from + 1, to, depth - 1);
        }
    } else {
        lemma_closing_brace(source, from + 1, to, depth);
    }
}

/// Tell whether a byte may occur in a variable name.
pub fn name_byte(byte: u8) -> (is: bool)
    ensures
        is == is_name_byte(byte),
{
    (0x30 <= byte && byte <= 0x39) || (0x41 <= byte && byte <= 0x5a) || (0x61 <= byte && byte <= 0x7a)
        || byte == UNDERSCORE
}

/// Calls `memchr::memchr2`, which searches a haystack for the first byte that equals
/// one of two needles.
///
/// Trusted: the result is the least index at which one of the needles stands, and
/// `None` if neither occurs.
#[verifier::external_body]
fn find_first_of_two(first: u8, second: u8, haystack: &[u8]) -> (found: Option<usize>)
    ensures
        match found {
            Some(index) => {
                &&& index < haystack@.len()
                &&& haystack@[index as int] == first || haystack@[index as int] == second
                &&& forall|i: int| 0 <= i < index ==> haystack@[i] != first && haystack@[i] != second
            },
            None => forall|i: int| 0 <= i < haystack@.len() ==> haystack@[i] != first && haystack@[i] != second,
        },
{
    memchr::memchr2(first, second, haystack)
}

/// Calls `memchr::memchr3`, which searches a haystack for the first byte that equals
/// one of three needles.
///
/// Trusted: the result is the least index at which one of the needles stands, and
/// `None` if none occurs.
#[verifier::external_body]
fn find_first_of_three(first: u8, second: u8, third: u8, haystack: &[u8]) -> (found: Option<usize>)
    ensures
        match found {
            Some(index) => {
                &&& index < haystack@.len()
                &&& haystack@[index as int] == first || haystack@[index as int] == second
                    || haystack@[index as int] == third
                &&& forall|i: int| 0 <= i < index ==> haystack@[i] != first && haystack@[i] != second
                    && haystack@[i] != third
            },
            None => forall|i: int| 0 <= i < haystack@.len() ==> haystack@[i] != first && haystack@[i]
                != second && haystack@[i] != third,
        },
{
    memchr::memchr3(first, second, third, haystack)
}

/// Find where the literal that starts at `from` ends: at the first `$` or `\` in
/// `source[from..to]`, or at `to`.
pub fn find_literal_end(source: &[u8], from: usize, to: usize) -> (end: usize)
    requires
        from <= to <= source@.len(),
    ensures
        end == literal_end(source@, from as int, to as int),
        from <= end <= to,
{
    let haystack = vstd::slice::slice_subrange(source, from, to);
    let end = match find_first_of_two(DOLLAR, BACKSLASH, haystack) {
        Some(index) => from + index,
        None => to,
    };
    proof {
        assert forall|i: int| from <= i < end implies !is_special(#[trigger] source@[i]) by {
            assert(source@[i] == haystack@[i - from]);
        }
        lemma_literal_end_found(source@, from as int, to as int, end as int);
    }
    end
}

/// Find where the name that starts at `from` ends: at the first byte in
/// `source[from..to]` that is no name byte, or at `to`.
pub fn find_name_end(source: &[u8], from: usize, to: usize) -> (end: usize)
    requires
        from <= to <= source@.len(),
    ensures
        end == name_end(source@, from as int, to as int),
        from <= end <= to,
{
    let mut end: usize = from;
    while end < to && name_byte(source[end])
        invariant
            from <= end <= to <= source@.len(),
            forall|i: int| from <= i < end ==> is_name_byte(#[trigger] source@[i]),
        decreases to - end,
    {
        end += 1;
    }
    proof {
        lemma_name_end_found(source@, from as int, to as int, end as int);
    }
    end
}

/// Find the `}` in `source[from..to]` that closes a placeholder, counting the braces
/// that open and close on the way.
///
/// The search starts at nesting depth `depth` and ends at the `}` that brings the depth
/// down to zero. Escaped bytes are passed over.
pub fn find_closing_brace_in(source: &[u8], from: usize, to: usize, depth: u8) -> (found: Option<usize>)
    requires
        from <= to <= source@.len(),
    ensures
        match found {
            Some(end) => closing_brace(source@, from as int, to as int, depth as int) == Some(end as int),
            None => closing_brace(source@, from as int, to as int, depth as int) is None,
        },
{
    let mut finger: usize = from;
    let mut nested: i128 = depth as i128;
    while finger < to
        invariant
            from <= finger,
            to <= source@.len(),
            finger <= to + 1,
            -(finger - from) <= nested <= depth + finger - from,
            closing_brace(source@, from as int, to as int, depth as int) == closing_brace(
                source@,
                finger as int,
                to as int,
                nested as int,
            ),
        decreases to + 1 - finger,
    {
        let haystack = vstd::slice::slice_subrange(source, finger, to);
        let next = match find_first_of_three(BACKSLASH, OPEN_BRACE, CLOSE_BRACE, haystack) {
            Some(index) => finger + index,
            None => {
                proof {
                    assert forall|i: int| finger <= i < to implies !is_brace_or_backslash(
                        #[trigger] source@[i],
                    ) by {
                        assert(source@[i] == haystack@[i - finger]);
                    }
                    lemma_closing_brace_skip(source@, finger as int, to as int, to as int, nested as int);
                }
                return None;
            },
        };
        proof {
            assert forall|i: int| finger <= i < next implies !is_brace_or_backslash(
                #[trigger] source@[i],
            ) by {
                assert(source@[i] == haystack@[i - finger]);
            }
            lemma_closing_brace_skip(source@, finger as int, next as int, to as int, nested as int);
        }
        let byte = source[next];
        if byte == BACKSLASH {
            // The escape sequence is not judged here: the parser reports a wrong one
            // when it comes to it.
            if next + 1 >= to {
                return None;
            }
            finger = next + 2;
        } else if byte == OPEN_BRACE {
            nested += 1;
            finger = next + 1;
        } else {
            if nested == 1 {
                return Some(next);
            }
            nested -= 1;
            finger = next + 1;
        }
    }
    None
}

/// Find the closing brace of a placeholder that may hold further placeholders.
///
/// The haystack starts at or before the opening brace of the placeholder: the result
/// is the index of the `}` that brings the nesting depth back to zero.
pub fn find_closing_brace(haystack: &[u8]) -> (found: Option<usize>)
    ensures
        match found {
            Some(end) => closing_brace(haystack@, 0, haystack@.len() as int, 0) == Some(end as int),
            None => closing_brace(haystack@, 0, haystack@.len() as int, 0) is None,
        },
{
    find_closing_brace_in(haystack, 0, haystack.len(), 0)
}

} // verus!
