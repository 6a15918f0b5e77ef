//! Conversions between character offsets and line/column positions.
//!
//! Carriage returns never count: every function here works on the text
//! with each `'\r'` taken out.

use crate::models::Loc;
use vstd::prelude::*;

verus! {

/// The characters of `s`, in order.
pub fn chars_of(s: &str) -> (r: Vec<char>)
    ensures
        r@ == s@,
{
    let mut out: Vec<char> = Vec::new();
    for c in it: s.chars()
        invariant
            out@ == it.seq().take(it.index()),
            it.seq() == s@,
    {
        out.push(c);
    }
    out
}

/// The first `n` characters of `t` without the carriage returns.
pub open spec fn clean_prefix(t: Seq<char>, n: int) -> Seq<char>
    decreases n,
{
    if n <= 0 || n > t.len() {
        Seq::empty()
    } else if t[n - 1] == '\r' {
        clean_prefix(t, n - 1)
    } else {
        clean_prefix(t, n - 1).push(t[n - 1])
    }
}

/// The text without its carriage returns.
pub open spec fn without_cr(t: Seq<char>) -> Seq<char> {
    clean_prefix(t, t.len() as int)
}

/// The characters of `s` without the carriage returns.
pub fn strip_cr(s: &str) -> (r: Vec<char>)
    ensures
        r@ == without_cr(s@),
{
    let mut out: Vec<char> = Vec::new();
    for c in it: s.chars()
        invariant
            out@ == clean_prefix(s@, it.index()),
            it.seq() == s@,
    {
        if c != '\r' {
            out.push(c);
        }
    }
    out
}

/// The number of line feeds among the first `i` characters of `t`.
pub open spec fn line_of(t: Seq<char>, i: int) -> int
    decreases i,
{
    if i <= 0 || i > t.len() {
        0
    } else if t[i - 1] == '\n' {
        line_of(t, i - 1) + 1
    } else {
        line_of(t, i - 1)
    }
}

/// The number of characters between the last line feed before index `i`
/// and index `i`.
pub open spec fn col_of(t: Seq<char>, i: int) -> int
    decreases i,
{
    if i <= 0 || i > t.len() {
        0
    } else if t[i - 1] == '\n' {
        0
    } else {
        col_of(t, i - 1) + 1
    }
}

/// The line and column of the character at offset `idx`, both counted from
/// zero; `(0, 0)` when the text has no such character.
pub open spec fn spec_index_to_line_char(text: Seq<char>, idx: int) -> (int, int) {
    let t = without_cr(text);
    if 0 <= idx < t.len() {
        (line_of(t, idx), col_of(t, idx))
    } else {
        (0, 0)
    }
}

/// The line and column of the character at offset `idx`; see
/// [`spec_index_to_line_char`].
#[must_use]
pub fn index_to_line_char(s: &str, idx: Loc) -> (r: (u32, u32))
    ensures
        r.0 == spec_index_to_line_char(s@, idx.0 as int).0,
        r.1 == spec_index_to_line_char(s@, idx.0 as int).1,
{
    let t = strip_cr(s);
    let mut line: u32 = 0;
    let mut col: u32 = 0;
    let mut i: usize = 0;
    while i < t.len()
        invariant
            t@ == without_cr(s@),
            i <= t@.len(),
            i <= idx.0,
            line == line_of(t@, i as int),
            col == col_of(t@, i as int),
            line <= i,
            col <= i,
        decreases t.len() - i,
    {
        if i == idx.0 as usize {
            return (line, col);
        }
        if t[i] == '\n' {
            line += 1;
            col = 0;
        } else {
            col += 1;
        }
        i += 1;
    }
    (0, 0)
}

/// The index of the first line feed at index `p` or later.
pub open spec fn next_newline(t: Seq<char>, p: int) -> Option<int>
    decreases t.len() - p,
{
    if p < 0 || p >= t.len() {
        None
    } else if t[p] == '\n' {
        Some(p)
    } else {
        next_newline(t, p + 1)
    }
}

/// The index at which line number `line` starts: zero for the first line,
/// else the index after the `line`-th line feed.
pub open spec fn line_start(t: Seq<char>, line: nat) -> Option<int>
    decreases line,
{
    if line == 0 {
        Some(0)
    } else {
        match line_start(t, (line - 1) as nat) {
            Some(p) => match next_newline(t, p) {
                Some(q) => Some(q + 1),
                None => None,
            },
            None => None,
        }
    }
}

/// The offset of the character that stands `col` characters after the
/// start of line `line`, if the text has that character and the offset is
/// a `u32`; zero otherwise.
pub open spec fn spec_line_char_to_index(text: Seq<char>, line: nat, col: nat) -> int {
    let t = without_cr(text);
    match line_start(t, line) {
        Some(p) => if p + col < t.len() && p + col <= u32::MAX {
            p + col
        } else {
            0
        },
        None => 0,
    }
}

/// A line that follows a missing line is missing too.
proof fn lemma_line_start_none(t: Seq<char>, a: nat, b: nat)
    requires
        a <= b,
        line_start(t, a) is None,
    ensures
        line_start(t, b) is None,
    decreases b,
{
    if a < b {
        lemma_line_start_none(t, a, (b - 1) as nat);
    }
}

/// A line starts inside the text or at its end.
proof fn lemma_line_start_bounds(t: Seq<char>, line: nat)
    ensures
        line_start(t, line) is Some ==> 0 <= line_start(t, line)->0 <= t.len(),
    decreases line,
{
    if line > 0 {
        lemma_line_start_bounds(t, (line - 1) as nat);
        match line_start(t, (line - 1) as nat) {
            Some(p) => {
                lemma_next_newline_bounds(t, p);
            },
            None => {},
        }
    }
}

/// A line feed that was found stands at the index or later, inside the text.
proof fn lemma_next_newline_bounds(t: Seq<char>, p: int)
    ensures
        next_newline(t, p) is Some ==> p <= next_newline(t, p)->0 < t.len(),
    decreases t.len() - p,
{
    if 0 <= p < t.len() && t[p] != '\n' {
        lemma_next_newline_bounds(t, p + 1);
    }
}

/// The offset of the character at a line and column; see
/// [`spec_line_char_to_index`].
#[must_use]
pub fn line_char_to_index(s: &str, line: u32, char: u32) -> (r: u32)
    ensures
        r as int == spec_line_char_to_index(s@, line as nat, char as nat),
{
    let t = strip_cr(s);
    let mut left: u32 = line;
    let mut i: usize = 0;
    let ghost mut start: int = 0;
    while left > 0 && i < t.len()
        invariant
            i <= t@.len(),
            left <= line,
            0 <= start <= i,
            line_start(t@, (line - left) as nat) == Some(start),
            next_newline(t@, start) == next_newline(t@, i as int),
            left == 0 ==> start == i,
        decreases t.len() - i,
    {
        if t[i] == '\n' {
            proof {
                assert(line_start(t@, (line - left + 1) as nat) == Some(i + 1));
                start = i + 1;
            }
            left -= 1;
        }
        i += 1;
    }
    if left > 0 {
        proof {
            assert(line_start(t@, (line - left + 1) as nat) is None);
            lemma_line_start_none(t@, (line - left + 1) as nat, line as nat);
        }
        return 0;
    }
    let room: usize = t.len() - i;
    if (char as usize) < room {
        let at: usize = i + char as usize;
        if at <= u32::MAX as usize {
            return at as u32;
        }
    }
    0
}

/// The number of bytes that the UTF-8 encoding of `c` takes.
pub open spec fn utf8_width(c: char) -> int {
    if (c as u32) < 0x80 {
        1
    } else if (c as u32) < 0x800 {
        2
    } else if (c as u32) < 0x10000 {
        3
    } else {
        4
    }
}

/// The byte offset at which the character at index `k` starts.
pub open spec fn byte_offset(t: Seq<char>, k: int) -> int
    decreases k,
{
    if k <= 0 || k > t.len() {
        0
    } else {
        byte_offset(t, k - 1) + utf8_width(t[k - 1])
    }
}

/// The index, at `k` or later, of the first character that starts at byte
/// `b` or later; the number of characters if there is none.
pub open spec fn char_index_from(t: Seq<char>, b: int, k: int) -> int
    decreases t.len() - k,
{
    if k < 0 || k >= t.len() {
        t.len() as int
    } else if b <= byte_offset(t, k) {
        k
    } else {
        char_index_from(t, b, k + 1)
    }
}

/// The character offset that belongs to the byte position `byte_pos` of a
/// file that starts at byte `offset`: the index of the first character
/// that starts at that byte or later, or the number of characters; never
/// more than `u32::MAX`.
pub open spec fn spec_char_offset(text: Seq<char>, byte_pos: int, offset: int) -> int {
    let t = without_cr(text);
    let b = if byte_pos < offset {
        0
    } else {
        byte_pos - offset
    };
    let k = char_index_from(t, b, 0);
    if k > u32::MAX {
        u32::MAX as int
    } else {
        k
    }
}

/// The character offset for a byte position; see [`spec_char_offset`].
pub fn char_offset(source: &str, byte_pos: u32, offset: u32) -> (r: u32)
    ensures
        r as int == spec_char_offset(source@, byte_pos as int, offset as int),
{
    let b: u32 = if byte_pos < offset {
        0
    } else {
        byte_pos - offset
    };
    let t = strip_cr(source);
    let mut k: usize = 0;
    let mut at: u64 = 0;
    while k < t.len() && at < b as u64
        invariant
            k <= t@.len(),
            at == byte_offset(t@, k as int),
            at < b + 4,
            char_index_from(t@, b as int, 0) == char_index_from(t@, b as int, k as int),
        decreases t.len() - k,
    {
        let c = t[k];
        let w: u64 = if (c as u32) < 0x80 {
            1
        } else if (c as u32) < 0x800 {
            2
        } else if (c as u32) < 0x10000 {
            3
        } else {
            4
        };
        at = at + w;
        k += 1;
    }
    if k > u32::MAX as usize {
        u32::MAX
    } else {
        k as u32
    }
}

} // verus!
