//! The strings of an ABI file that the loader could take apart as the name
//! of a type, and what about them it does not survive.
//!
//! The loader reads a type name that ends in a closing round or square
//! bracket by positions counted in characters: it peels array suffixes
//! and the members of tuples and calls itself on what is left. It stops
//! the program where a closing square bracket has no opening one before
//! it, where a position counted in characters is none in bytes, and where
//! it is called too deep. Which strings of a file are type names only the
//! loader knows; every string that ends in such a bracket is taken for
//! one.

use vstd::prelude::*;

verus! {

/// How many array suffixes and opening round brackets a type name may
/// hold.
pub const MAX_TYPE_NESTING: u8 = 32;

/// An ASCII digit.
pub open spec fn is_digit(b: u8) -> bool {
    0x30 <= b <= 0x39
}

/// What is known of a JSON text when it has been read up to some byte.
#[derive(Clone, Copy, Debug)]
pub struct Strings {
    /// Whether the reading stands in a string.
    pub in_string: bool,
    /// Whether the byte before was a backslash that escapes the next.
    pub escaped: bool,
    /// Where the text of the string begins.
    pub start: usize,
    /// Whether the string so far is ASCII without a backslash.
    pub plain: bool,
    /// Whether every closing square bracket of the string so far ended an
    /// array suffix.
    pub matched: bool,
    /// Whether the bytes just read are an opening square bracket, a plus
    /// sign or none, and digits or none: an array suffix that lacks only
    /// its closing bracket.
    pub suffix: bool,
    /// Whether the byte before was the opening bracket of a suffix.
    pub opened: bool,
    /// How many closing square and opening round brackets the string
    /// holds so far, counted no further than one past the limit.
    pub nesting: u8,
    /// Where the last backslash that escapes stood, if there was one.
    pub last_escape: Option<usize>,
    /// Whether a string read so far is a type name that the loader does
    /// not survive.
    pub unsafe_name: bool,
}

/// The state before anything has been read.
pub open spec fn strings_at_start() -> Strings {
    Strings {
        in_string: false,
        escaped: false,
        start: 0,
        plain: true,
        matched: true,
        suffix: false,
        opened: false,
        nesting: 0,
        last_escape: None,
        unsafe_name: false,
    }
}

/// Whether the six bytes before `end` are the escape of a closing round
/// or square bracket: a backslash, `u`, and `0029`, `005d` or `005D`.
pub open spec fn ends_in_escaped_bracket(bytes: Seq<u8>, st: Strings, end: usize) -> bool {
    &&& end >= 6
    &&& st.last_escape == Some((end - 6) as usize)
    &&& bytes[end - 5] == 0x75
    &&& bytes[end - 4] == 0x30
    &&& bytes[end - 3] == 0x30
    &&& ((bytes[end - 2] == 0x32 && bytes[end - 1] == 0x39) || (bytes[end - 2] == 0x35 && (
    bytes[end - 1] == 0x64 || bytes[end - 1] == 0x44)))
}

/// Whether the string that ends before `end` ends in a closing round or
/// square bracket, written as it is or as its escape.
pub open spec fn ends_in_bracket(bytes: Seq<u8>, st: Strings, end: usize) -> bool {
    ||| end > st.start && (bytes[end - 1] == 0x29 || bytes[end - 1] == 0x5d)
    ||| ends_in_escaped_bracket(bytes, st, end)
}

/// Whether the loader may not survive the string as a type name: it
/// holds a backslash or a byte outside ASCII, a closing square bracket
/// that ends no array suffix, or more brackets than the limit.
pub open spec fn risky(st: Strings) -> bool {
    !st.plain || !st.matched || st.nesting > MAX_TYPE_NESTING
}

/// One more bracket counted, no further than one past the limit.
pub open spec fn one_more(nesting: u8) -> u8 {
    if nesting <= MAX_TYPE_NESTING {
        (nesting + 1) as u8
    } else {
        nesting
    }
}

/// The state after the byte at `i`. Outside a string a quotation mark
/// begins one. In a string a backslash escapes the byte after it, and a
/// quotation mark that is not escaped ends the string. At the end the
/// string is judged: it is a type name that the loader does not survive
/// if it ends in a bracket and is risky.
pub open spec fn strings_step(bytes: Seq<u8>, st: Strings, i: usize) -> Strings {
    let b = bytes[i as int];
    if !st.in_string {
        if b == 0x22 {
            Strings {
                in_string: true,
                escaped: false,
                start: (i + 1) as usize,
                plain: true,
                matched: true,
                suffix: false,
                opened: false,
                nesting: 0,
                last_escape: None,
                unsafe_name: st.unsafe_name,
            }
        } else {
            st
        }
    } else if st.escaped {
        Strings { escaped: false, ..st }
    } else if b == 0x5c {
        Strings {
            escaped: true,
            plain: false,
            suffix: false,
            opened: false,
            last_escape: Some(i),
            ..st
        }
    } else if b == 0x22 {
        Strings {
            in_string: false,
            unsafe_name: st.unsafe_name || (ends_in_bracket(bytes, st, i) && risky(st)),
            ..st
        }
    } else {
        Strings {
            plain: st.plain && b < 0x80,
            matched: st.matched && (b == 0x5d ==> st.suffix),
            suffix: b == 0x5b || (st.suffix && (is_digit(b) || (b == 0x2b && st.opened))),
            opened: b == 0x5b,
            nesting: if b == 0x5d || b == 0x28 {
                one_more(st.nesting)
            } else {
                st.nesting
            },
            ..st
        }
    }
}

/// What is known of a JSON text when it has been read up to `i`.
pub open spec fn strings(bytes: Seq<u8>, i: int) -> Strings
    decreases i,
{
    if i <= 0 {
        strings_at_start()
    } else {
        strings_step(bytes, strings(bytes, i - 1), (i - 1) as usize)
    }
}

/// Whether a string of the file ends in a closing bracket and is a type
/// name that the loader may not survive.
pub open spec fn holds_unsafe_type_name(bytes: Seq<u8>) -> bool {
    strings(bytes, bytes.len() as int).unsafe_name
}

/// Whether a string of the file ends in a closing bracket and is a type
/// name that the loader may not survive.
pub fn has_unsafe_type_name(bytes: &[u8]) -> (r: bool)
    ensures
        r == holds_unsafe_type_name(bytes@),
{
    let n = bytes.len();
    let mut st = Strings {
        in_string: false,
        escaped: false,
        start: 0,
        plain: true,
        matched: true,
        suffix: false,
        opened: false,
        nesting: 0,
        last_escape: None,
        unsafe_name: false,
    };
    let mut i: usize = 0;
    while i < n
        invariant
            i <= n == bytes.len(),
            st == strings(bytes@, i as int),
            st.in_string ==> st.start <= i,
            st.last_escape matches Some(p) ==> p < i,
        decreases n - i,
    {
        let b = bytes[i];
        if !st.in_string {
            if b == 0x22 {
                st = Strings {
                    in_string: true,
                    escaped: false,
                    start: i + 1,
                    plain: true,
                    matched: true,
                    suffix: false,
                    opened: false,
                    nesting: 0,
                    last_escape: None,
                    unsafe_name: st.unsafe_name,
                };
            }
        } else if st.escaped {
            st.escaped = false;
        } else if b == 0x5c {
            st.escaped = true;
            st.plain = false;
            st.suffix = false;
            st.opened = false;
            st.last_escape = Some(i);
        } else if b == 0x22 {
            let plain_end = i > st.start && (bytes[i - 1] == 0x29 || bytes[i - 1] == 0x5d);
            let escaped_end = match st.last_escape {
                Some(p) => i >= 6 && p == i - 6 && bytes[i - 5] == 0x75 && bytes[i - 4] == 0x30
                    && bytes[i - 3] == 0x30 && ((bytes[i - 2] == 0x32 && bytes[i - 1] == 0x39) || (
                bytes[i - 2] == 0x35 && (bytes[i - 1] == 0x64 || bytes[i - 1] == 0x44))),
                None => false,
            };
            let risky = !st.plain || !st.matched || st.nesting > MAX_TYPE_NESTING;
            st.in_string = false;
            st.unsafe_name = st.unsafe_name || ((plain_end || escaped_end) && risky);
        } else {
            st.plain = st.plain && b < 0x80;
            st.matched = st.matched && (b != 0x5d || st.suffix);
            st.suffix = b == 0x5b || (st.suffix && ((0x30 <= b && b <= 0x39) || (b == 0x2b
                && st.opened)));
            st.opened = b == 0x5b;
            if b == 0x5d || b == 0x28 {
                if st.nesting <= MAX_TYPE_NESTING {
                    st.nesting = st.nesting + 1;
                }
            }
        }
        i += 1;
    }
    st.unsafe_name
}

} // verus!
