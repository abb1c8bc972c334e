//! The block strings of a GraphQL text, and the one thing about them on
//! which the schema parser stops the program: a line that is cut inside a
//! character when the common indent is taken off.
//!
//! A block string stands between two triple quotation marks. Its lines
//! are parted by line feeds. The indent of a line is its leading white
//! space, counted in bytes; the common indent is the least indent among
//! the lines after the first that hold more than white space. From the
//! first to the last line that holds more than white space, every line
//! after the first that is at least as long as the common indent is cut
//! at that many bytes.

use vstd::prelude::*;

verus! {

/// A white-space character of ASCII that ends no line: tab, vertical tab,
/// form feed, carriage return or space.
pub open spec fn is_inline_space(b: u8) -> bool {
    b == 0x09 || b == 0x0b || b == 0x0c || b == 0x0d || b == 0x20
}

/// The length in bytes of the white-space character outside ASCII that
/// begins at `i` and ends before `end`: U+0085, U+00A0, U+1680, U+2000 to
/// U+200A, U+2028, U+2029, U+202F, U+205F or U+3000. Zero where none
/// begins there.
pub open spec fn wide_space_len(bytes: Seq<u8>, i: int, end: int) -> u8 {
    if i + 1 < end && bytes[i] == 0xc2 && (bytes[i + 1] == 0x85 || bytes[i + 1] == 0xa0) {
        2
    } else if i + 2 < end && bytes[i] == 0xe1 && bytes[i + 1] == 0x9a && bytes[i + 2] == 0x80 {
        3
    } else if i + 2 < end && bytes[i] == 0xe2 && bytes[i + 1] == 0x80 && (0x80 <= bytes[i + 2]
        <= 0x8a || bytes[i + 2] == 0xa8 || bytes[i + 2] == 0xa9 || bytes[i + 2] == 0xaf) {
        3
    } else if i + 2 < end && bytes[i] == 0xe2 && bytes[i + 1] == 0x81 && bytes[i + 2] == 0x9f {
        3
    } else if i + 2 < end && bytes[i] == 0xe3 && bytes[i + 1] == 0x80 && bytes[i + 2] == 0x80 {
        3
    } else {
        0
    }
}

/// What is known of the indents of a block string when it has been read
/// up to some byte.
#[derive(Clone, Copy, Debug)]
pub struct Indents {
    /// Where the line that is being read begins.
    pub line_start: usize,
    /// Whether that line is the first of the block string.
    pub first_line: bool,
    /// Whether only white space of that line has been read.
    pub in_indent: bool,
    /// How many bytes of a white-space character are still to be passed.
    pub skip: u8,
    /// The least indent of the lines after the first that hold more than
    /// white space, if there was one.
    pub least: Option<usize>,
    /// Where the first line that holds more than white space begins.
    pub first_text: Option<usize>,
    /// Where the last line that holds more than white space begins.
    pub last_text: usize,
}

/// The indents before anything of a block string that begins at `start`
/// has been read.
pub open spec fn indents_at_start(start: usize) -> Indents {
    Indents {
        line_start: start,
        first_line: true,
        in_indent: true,
        skip: 0,
        least: None,
        first_text: None,
        last_text: start,
    }
}

/// The lesser of the least indent so far and the indent of one more
/// line.
pub open spec fn lesser(least: Option<usize>, indent: usize) -> Option<usize> {
    match least {
        Some(m) => if m <= indent {
            Some(m)
        } else {
            Some(indent)
        },
        None => Some(indent),
    }
}

/// The indents after the byte at `i` of a block string that ends before
/// `end`. A line feed begins a line. White space in the indent, of ASCII
/// or outside it, is passed. The first other byte of a line makes it a
/// line that holds more than white space, with the indent read so far.
pub open spec fn indents_step(bytes: Seq<u8>, end: int, st: Indents, i: usize) -> Indents {
    let b = bytes[i as int];
    if b == 0x0a {
        Indents { line_start: (i + 1) as usize, first_line: false, in_indent: true, skip: 0, ..st }
    } else if st.skip > 0 {
        Indents { skip: (st.skip - 1) as u8, ..st }
    } else if !st.in_indent || is_inline_space(b) {
        st
    } else if wide_space_len(bytes, i as int, end) > 0 {
        Indents { skip: (wide_space_len(bytes, i as int, end) - 1) as u8, ..st }
    } else {
        Indents {
            in_indent: false,
            least: if st.first_line {
                st.least
            } else {
                lesser(st.least, (i - st.line_start) as usize)
            },
            first_text: if st.first_text is Some {
                st.first_text
            } else {
                Some(st.line_start)
            },
            last_text: st.line_start,
            ..st
        }
    }
}

/// The indents of the block string from `start` to `end` when it has
/// been read up to `i`.
pub open spec fn indents(bytes: Seq<u8>, start: usize, end: int, i: int) -> Indents
    decreases i - start,
{
    if i <= start {
        indents_at_start(start)
    } else {
        indents_step(bytes, end, indents(bytes, start, end, i - 1), (i - 1) as usize)
    }
}

/// What is known of the cuts of a block string when it has been read up
/// to some byte.
#[derive(Clone, Copy, Debug)]
pub struct Cuts {
    /// Where the line that is being read begins.
    pub line_start: usize,
    /// Whether that line is the first of the block string.
    pub first_line: bool,
    /// Whether a line read so far is cut inside a character.
    pub inside: bool,
}

/// Whether the byte at `i` is where its line is cut, and lies inside a
/// character. The line is cut if it is not the first, begins no earlier
/// than the first and no later than the last line that holds more than
/// white space, and is longer than the common indent. A byte inside a
/// character is a continuation byte of UTF-8.
pub open spec fn cut_inside_at(bytes: Seq<u8>, all: Indents, st: Cuts, i: usize) -> bool {
    &&& !st.first_line
    &&& all.least is Some
    &&& all.first_text is Some
    &&& all.first_text->0 <= st.line_start <= all.last_text
    &&& i - st.line_start == all.least->0
    &&& 0x80 <= bytes[i as int] <= 0xbf
}

/// The cuts after the byte at `i`, given the indents of the whole block
/// string.
pub open spec fn cuts_step(bytes: Seq<u8>, all: Indents, st: Cuts, i: usize) -> Cuts {
    if bytes[i as int] == 0x0a {
        Cuts { line_start: (i + 1) as usize, first_line: false, ..st }
    } else if cut_inside_at(bytes, all, st, i) {
        Cuts { inside: true, ..st }
    } else {
        st
    }
}

/// The cuts of the block string from `start` on when it has been read up
/// to `i`, given the indents of the whole block string.
pub open spec fn cuts(bytes: Seq<u8>, all: Indents, start: usize, i: int) -> Cuts
    decreases i - start,
{
    if i <= start {
        Cuts { line_start: start, first_line: true, inside: false }
    } else {
        cuts_step(bytes, all, cuts(bytes, all, start, i - 1), (i - 1) as usize)
    }
}

/// Whether a line of the block string from `start` to `end` is cut inside
/// a character.
pub open spec fn block_cut_inside(bytes: Seq<u8>, start: usize, end: usize) -> bool {
    cuts(bytes, indents(bytes, start, end as int, end as int), start, end as int).inside
}

/// The length of the white-space character outside ASCII at `i`.
fn wide_space_len_at(bytes: &[u8], i: usize, end: usize) -> (r: u8)
    requires
        i < end <= bytes.len(),
    ensures
        r == wide_space_len(bytes@, i as int, end as int),
{
    let b0 = bytes[i];
    if end - i >= 2 && b0 == 0xc2 {
        let b1 = bytes[i + 1];
        if b1 == 0x85 || b1 == 0xa0 {
            return 2;
        }
    }
    if end - i >= 3 {
        let b1 = bytes[i + 1];
        let b2 = bytes[i + 2];
        if b0 == 0xe1 && b1 == 0x9a && b2 == 0x80 {
            return 3;
        }
        if b0 == 0xe2 && b1 == 0x80 && ((0x80 <= b2 && b2 <= 0x8a) || b2 == 0xa8 || b2 == 0xa9
            || b2 == 0xaf) {
            return 3;
        }
        if b0 == 0xe2 && b1 == 0x81 && b2 == 0x9f {
            return 3;
        }
        if b0 == 0xe3 && b1 == 0x80 && b2 == 0x80 {
            return 3;
        }
    }
    0
}

/// Reads the indents of the block string from `start` to `end`.
fn read_indents(bytes: &[u8], start: usize, end: usize) -> (r: Indents)
    requires
        start <= end <= bytes.len(),
    ensures
        r == indents(bytes@, start, end as int, end as int),
{
    let mut st = Indents {
        line_start: start,
        first_line: true,
        in_indent: true,
        skip: 0,
        least: None,
        first_text: None,
        last_text: start,
    };
    let mut i: usize = start;
    while i < end
        invariant
            start <= i <= end <= bytes.len(),
            st == indents(bytes@, start, end as int, i as int),
            st.line_start <= i,
        decreases end - i,
    {
        let b = bytes[i];
        if b == 0x0a {
            st.line_start = i + 1;
            st.first_line = false;
            st.in_indent = true;
            st.skip = 0;
        } else if st.skip > 0 {
            st.skip = st.skip - 1;
        } else if !st.in_indent || b == 0x09 || b == 0x0b || b == 0x0c || b == 0x0d || b == 0x20 {
        } else {
            let wide = wide_space_len_at(bytes, i, end);
            if wide > 0 {
                st.skip = wide - 1;
            } else {
                let indent = i - st.line_start;
                st.in_indent = false;
                if !st.first_line {
                    st.least = match st.least {
                        Some(m) => if m <= indent {
                            Some(m)
                        } else {
                            Some(indent)
                        },
                        None => Some(indent),
                    };
                }
                if st.first_text.is_none() {
                    st.first_text = Some(st.line_start);
                }
                st.last_text = st.line_start;
            }
        }
        i += 1;
    }
    st
}

/// Whether a line of the block string from `start` to `end` is cut inside
/// a character.
pub fn is_block_cut_inside(bytes: &[u8], start: usize, end: usize) -> (r: bool)
    requires
        start <= end <= bytes.len(),
    ensures
        r == block_cut_inside(bytes@, start, end),
{
    let all = read_indents(bytes, start, end);
    let (least, first_text) = match (all.least, all.first_text) {
        (Some(least), Some(first_text)) => (least, first_text),
        _ => {
            proof {
                lemma_no_cut_without_indent(bytes@, all, start, end as int);
            }
            return false;
        },
    };
    let mut st = Cuts { line_start: start, first_line: true, inside: false };
    let mut i: usize = start;
    while i < end
        invariant
            start <= i <= end <= bytes.len(),
            all.least == Some(least),
            all.first_text == Some(first_text),
            st == cuts(bytes@, all, start, i as int),
            st.line_start <= i,
        decreases end - i,
    {
        let b = bytes[i];
        if b == 0x0a {
            st.line_start = i + 1;
            st.first_line = false;
        } else if !st.first_line && first_text <= st.line_start && st.line_start <= all.last_text
            && i - st.line_start == least && 0x80 <= b && b <= 0xbf {
            st.inside = true;
        }
        i += 1;
    }
    st.inside
}

/// A block string without a line after the first that holds more than
/// white space has no common indent, and none of its lines is cut.
proof fn lemma_no_cut_without_indent(bytes: Seq<u8>, all: Indents, start: usize, i: int)
    requires
        all.least is None || all.first_text is None,
    ensures
        !cuts(bytes, all, start, i).inside,
    decreases i - start,
{
    if i > start {
        lemma_no_cut_without_indent(bytes, all, start, i - 1);
    }
}

/// Where the reading of a GraphQL text stands: in the code, in a comment,
/// in a string, or in a block string whose text began at `start`.
#[derive(Clone, Copy, Debug)]
pub enum Lex {
    Code,
    Comment,
    Text { escaped: bool },
    Block { start: usize },
}

/// What is known of a GraphQL text when it has been read up to some
/// byte.
#[derive(Clone, Copy, Debug)]
pub struct Scan {
    pub lex: Lex,
    /// How many bytes of a triple quotation mark are still to be passed.
    pub skip: u8,
    /// Whether a block string read so far has a line cut inside a
    /// character.
    pub cut_inside: bool,
}

/// Whether three quotation marks stand at `i`.
pub open spec fn triple_quote_at(bytes: Seq<u8>, i: int) -> bool {
    i + 2 < bytes.len() && bytes[i] == 0x22 && bytes[i + 1] == 0x22 && bytes[i + 2] == 0x22
}

/// The state after the byte at `i`. In the code a number sign begins a
/// comment, which ends with the line; a quotation mark begins a string,
/// or with two more a block string. A string ends at a quotation mark
/// that no backslash escapes. A block string ends at the next triple
/// quotation mark that no backslash stands before; one that a backslash
/// stands before is passed whole.
pub open spec fn scan_step(bytes: Seq<u8>, st: Scan, i: usize) -> Scan {
    let b = bytes[i as int];
    if st.skip > 0 {
        Scan { skip: (st.skip - 1) as u8, ..st }
    } else {
        match st.lex {
            Lex::Code => if b == 0x23 {
                Scan { lex: Lex::Comment, ..st }
            } else if b == 0x22 {
                if triple_quote_at(bytes, i as int) {
                    Scan { lex: Lex::Block { start: (i + 3) as usize }, skip: 2, ..st }
                } else {
                    Scan { lex: Lex::Text { escaped: false }, ..st }
                }
            } else {
                st
            },
            Lex::Comment => if b == 0x0a || b == 0x0d {
                Scan { lex: Lex::Code, ..st }
            } else {
                st
            },
            Lex::Text { escaped } => if b == 0x22 && !escaped {
                Scan { lex: Lex::Code, ..st }
            } else {
                Scan { lex: Lex::Text { escaped: !escaped && b == 0x5c }, ..st }
            },
            Lex::Block { start } => if triple_quote_at(bytes, i as int) {
                if i > start && bytes[i - 1] == 0x5c {
                    Scan { skip: 2, ..st }
                } else {
                    Scan {
                        lex: Lex::Code,
                        skip: 2,
                        cut_inside: st.cut_inside || block_cut_inside(bytes, start, i),
                    }
                }
            } else {
                st
            },
        }
    }
}

/// What is known of a GraphQL text when it has been read up to `i`.
pub open spec fn scan(bytes: Seq<u8>, i: int) -> Scan
    decreases i,
{
    if i <= 0 {
        Scan { lex: Lex::Code, skip: 0, cut_inside: false }
    } else {
        scan_step(bytes, scan(bytes, i - 1), (i - 1) as usize)
    }
}

/// Whether a block string of the text has a line that is cut inside a
/// character when its common indent is taken off.
pub open spec fn holds_block_cut_inside(bytes: Seq<u8>) -> bool {
    scan(bytes, bytes.len() as int).cut_inside
}

/// Whether the block string of the state, if it is in one, began no
/// later than `i`, the bytes still to be passed counted in.
pub open spec fn block_began(st: Scan, i: int) -> bool {
    match st.lex {
        Lex::Block { start } => start <= i + st.skip,
        _ => true,
    }
}

/// Whether a block string of the text has a line that is cut inside a
/// character when its common indent is taken off.
pub fn has_block_cut_inside(bytes: &[u8]) -> (r: bool)
    ensures
        r == holds_block_cut_inside(bytes@),
{
    let n = bytes.len();
    let mut st = Scan { lex: Lex::Code, skip: 0, cut_inside: false };
    let mut i: usize = 0;
    while i < n
        invariant
            i <= n == bytes.len(),
            st == scan(bytes@, i as int),
            block_began(st, i as int),
        decreases n - i,
    {
        let b = bytes[i];
        let triple = n - i >= 3 && b == 0x22 && bytes[i + 1] == 0x22 && bytes[i + 2] == 0x22;
        if st.skip > 0 {
            st.skip = st.skip - 1;
        } else {
            match st.lex {
                Lex::Code => {
                    if b == 0x23 {
                        st.lex = Lex::Comment;
                    } else if b == 0x22 {
                        if triple {
                            st.lex = Lex::Block { start: i + 3 };
                            st.skip = 2;
                        } else {
                            st.lex = Lex::Text { escaped: false };
                        }
                    }
                },
                Lex::Comment => {
                    if b == 0x0a || b == 0x0d {
                        st.lex = Lex::Code;
                    }
                },
                Lex::Text { escaped } => {
                    if b == 0x22 && !escaped {
                        st.lex = Lex::Code;
                    } else {
                        st.lex = Lex::Text { escaped: !escaped && b == 0x5c };
                    }
                },
                Lex::Block { start } => {
                    if triple {
                        if i > start && bytes[i - 1] == 0x5c {
                            st.skip = 2;
                        } else {
                            let cut = is_block_cut_inside(bytes, start, i);
                            st.lex = Lex::Code;
                            st.skip = 2;
                            st.cut_inside = st.cut_inside || cut;
                        }
                    }
                },
            }
        }
        i += 1;
    }
    st.cut_inside
}

} // verus!
