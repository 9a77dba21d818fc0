//! Width and height as they reach the codec from outside: typed into a text
//! field, or hinted at by the name of a file such as `image.64x64`.

use vstd::prelude::*;
use vstd::slice::slice_subrange;
use vstd::string::StringSliceAdditionalSpecFns;
use crate::decimal::{i32_of, parse_i32, parse_unsigned, unsigned_of};
use crate::error::CodecError;

verus! {

/// The byte `.`, which sets off the extension of a file name.
pub const DOT: u8 = 0x2E;

/// The byte `x`, which stands between width and height in an extension.
pub const TIMES: u8 = 0x78;

/// The width or height that a text field holds: a positive decimal number
/// that fits in 32 bits, with or without `+` before it.
pub open spec fn dimension_of(text: Seq<u8>) -> Result<u32, CodecError> {
    match unsigned_of(text, 0xFFFF_FFFF) {
        Some(value) => if value >= 1 {
            Ok(value as u32)
        } else {
            Err(CodecError::InvalidDimension)
        },
        None => Err(CodecError::InvalidDimension),
    }
}

/// Where the first `sep` of `s` stands; the length of `s` if it has none.
pub open spec fn first_index(s: Seq<u8>, sep: u8) -> int
    decreases s.len(),
{
    if s.len() == 0 || s[0] == sep {
        0
    } else {
        1 + first_index(s.skip(1), sep)
    }
}

/// The place just after the last `sep` of `s`; 0 if it has none.
pub open spec fn after_last(s: Seq<u8>, sep: u8) -> int
    decreases s.len(),
{
    if s.len() == 0 {
        0
    } else if s.last() == sep {
        s.len() as int
    } else {
        after_last(s.drop_last(), sep)
    }
}

/// The width and height that a file name hints at.
///
/// The extension is what follows the last `.`, or the whole name if it has
/// none. If the extension holds an `x`, the width is what stands before the
/// first `x` and the height is what stands between the first `x` and the
/// second, or the end. Each side counts only if it is a decimal number that
/// fits in 32 bits with its sign.
pub open spec fn hint_of(name: Seq<u8>) -> (Option<i32>, Option<i32>) {
    let extension = name.skip(after_last(name, DOT));
    let split = first_index(extension, TIMES);
    if split == extension.len() {
        (None, None)
    } else {
        let rest = extension.skip(split + 1);
        (
            i32_of(extension.take(split)),
            i32_of(rest.take(first_index(rest, TIMES))),
        )
    }
}

/// The first `sep` of `s` stands where no `sep` stands before and one stands
/// at, or at the end where none stands at all.
pub proof fn lemma_first_index_is(s: Seq<u8>, sep: u8, at: int)
    requires
        0 <= at <= s.len(),
        forall|j: int| 0 <= j < at ==> s[j] != sep,
        at < s.len() ==> s[at] == sep,
    ensures
        first_index(s, sep) == at,
    decreases s.len(),
{
    if at > 0 {
        let rest = s.skip(1);
        assert forall|j: int| 0 <= j < at - 1 implies rest[j] != sep by {
            assert(rest[j] == s[j + 1]);
        }
        lemma_first_index_is(rest, sep, at - 1);
    }
}

/// The place after the last `sep` of `s` is where a `sep` stands just before
/// and none stands from there on, or the start where none stands at all.
pub proof fn lemma_after_last_is(s: Seq<u8>, sep: u8, at: int)
    requires
        0 <= at <= s.len(),
        forall|j: int| at <= j < s.len() ==> s[j] != sep,
        at > 0 ==> s[at - 1] == sep,
    ensures
        after_last(s, sep) == at,
    decreases s.len(),
{
    if at < s.len() {
        lemma_after_last_is(s.drop_last(), sep, at);
    }
}

/// Read a width or height from the text of a field.
///
/// The text must be a positive decimal number that fits in 32 bits; `+` may
/// stand before it. Anything else is refused: an empty text, a zero, a
/// letter, a space, a minus sign.
pub fn parse_dimension(text: &str) -> (r: Result<u32, CodecError>)
    ensures
        r == dimension_of(text.spec_bytes()),
{
    match parse_unsigned(text.as_bytes(), 0xFFFF_FFFF) {
        Some(value) => if value >= 1 {
            Ok(value as u32)
        } else {
            Err(CodecError::InvalidDimension)
        },
        None => Err(CodecError::InvalidDimension),
    }
}

/// Find the first `sep` in `s`.
fn find_first(s: &[u8], sep: u8) -> (at: usize)
    ensures
        at == first_index(s@, sep),
        0 <= at <= s@.len(),
{
    let mut at: usize = 0;
    while at < s.len() && s[at] != sep
        invariant
            at <= s@.len(),
            forall|j: int| 0 <= j < at ==> s@[j] != sep,
        decreases s@.len() - at,
    {
        at += 1;
    }
    proof {
        lemma_first_index_is(s@, sep, at as int);
    }
    at
}

/// Find the place after the last `sep` in `s`.
fn find_after_last(s: &[u8], sep: u8) -> (at: usize)
    ensures
        at == after_last(s@, sep),
        0 <= at <= s@.len(),
{
    let mut at: usize = s.len();
    while at > 0 && s[at - 1] != sep
        invariant
            at <= s@.len(),
            forall|j: int| at <= j < s@.len() ==> s@[j] != sep,
        decreases at,
    {
        at -= 1;
    }
    proof {
        lemma_after_last_is(s@, sep, at as int);
    }
    at
}

/// Read the width and height that a file name hints at, as in
/// `image.64x64`. The hint is advice for whoever asks the user for the
/// size: decoding never looks at names.
pub fn dimension_hint(name: &str) -> (r: (Option<i32>, Option<i32>))
    ensures
        r == hint_of(name.spec_bytes()),
{
    let bytes = name.as_bytes();
    let extension = slice_subrange(bytes, find_after_last(bytes, DOT), bytes.len());
    let split = find_first(extension, TIMES);
    if split == extension.len() {
        (None, None)
    } else {
        let rest = slice_subrange(extension, split + 1, extension.len());
        let width = parse_i32(slice_subrange(extension, 0, split));
        let height = parse_i32(slice_subrange(rest, 0, find_first(rest, TIMES)));
        (width, height)
    }
}

} // verus!
