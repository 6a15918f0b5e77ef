//! Lines of a text, and taking the common indentation off a snippet.

use crate::strings::{is_space, is_white_space};
use crate::text_conversion::chars_of;
use vstd::prelude::*;
use vstd::string::{StrSliceExecFns, StringExecFns};

verus! {

/// The index at which the line that holds index `n` begins: the index
/// after the last line feed among the first `n` characters.
pub open spec fn line_begin(t: Seq<char>, n: int) -> int
    decreases n,
{
    if n <= 0 || n > t.len() {
        0
    } else if t[n - 1] == '\n' {
        n
    } else {
        line_begin(t, n - 1)
    }
}

/// The bounds of the line from `s` up to the line feed at `e`: a carriage
/// return before the line feed is not part of the line.
pub open spec fn ended_line(t: Seq<char>, s: int, e: int) -> (int, int) {
    if s < e <= t.len() && t[e - 1] == '\r' {
        (s, e - 1)
    } else {
        (s, e)
    }
}

/// The bounds of the lines that end with a line feed among the first `n`
/// characters, in order.
pub open spec fn lines_before(t: Seq<char>, n: int) -> Seq<(int, int)>
    decreases n,
{
    if n <= 0 || n > t.len() {
        Seq::empty()
    } else if t[n - 1] == '\n' {
        lines_before(t, n - 1).push(ended_line(t, line_begin(t, n - 1), n - 1))
    } else {
        lines_before(t, n - 1)
    }
}

/// The bounds of the lines of a text.  A line ends at a line feed, which
/// is no part of it, nor is a carriage return before the line feed; what
/// follows the last line feed is a line if it is not empty.
pub open spec fn spec_line_bounds(t: Seq<char>) -> Seq<(int, int)> {
    let n = t.len() as int;
    if line_begin(t, n) < n {
        lines_before(t, n).push((line_begin(t, n), n))
    } else {
        lines_before(t, n)
    }
}

/// The bounds are bounds of parts of a text of `len` characters.
pub open spec fn bounds_ok(bounds: Seq<(int, int)>, len: int) -> bool {
    forall|i: int| 0 <= i < bounds.len() ==> 0 <= (#[trigger] bounds[i]).0 <= bounds[i].1 <= len
}

/// The bounds of a list, as integers.
pub open spec fn bounds_view(s: Seq<(usize, usize)>) -> Seq<(int, int)> {
    s.map_values(|b: (usize, usize)| (b.0 as int, b.1 as int))
}

/// A line begins at or before the index.
proof fn lemma_line_begin(t: Seq<char>, n: int)
    requires
        0 <= n <= t.len(),
    ensures
        0 <= line_begin(t, n) <= n,
    decreases n,
{
    if n > 0 && t[n - 1] != '\n' {
        lemma_line_begin(t, n - 1);
    }
}

/// The bounds of the lines of the text `t`.
pub fn line_bounds(t: &Vec<char>) -> (r: Vec<(usize, usize)>)
    ensures
        bounds_view(r@) == spec_line_bounds(t@),
        bounds_ok(bounds_view(r@), t@.len() as int),
{
    let mut out: Vec<(usize, usize)> = Vec::new();
    assert(bounds_view(out@) =~= Seq::empty());
    let mut begin: usize = 0;
    let mut i: usize = 0;
    while i < t.len()
        invariant
            i <= t@.len(),
            begin == line_begin(t@, i as int),
            begin <= i,
            bounds_view(out@) == lines_before(t@, i as int),
            bounds_ok(bounds_view(out@), t@.len() as int),
        decreases t.len() - i,
    {
        if t[i] == '\n' {
            let end: usize = if begin < i && t[i - 1] == '\r' {
                i - 1
            } else {
                i
            };
            let ghost before = bounds_view(out@);
            out.push((begin, end));
            assert(bounds_view(out@) =~= before.push((begin as int, end as int)));
            begin = i + 1;
        }
        i += 1;
    }
    if begin < t.len() {
        let ghost before = bounds_view(out@);
        out.push((begin, t.len()));
        assert(bounds_view(out@) =~= before.push((begin as int, t@.len() as int)));
    }
    out
}

/// The number of white-space characters from index `i` on, before index
/// `e` and before any other character.
pub open spec fn indent_from(t: Seq<char>, i: int, e: int) -> int
    decreases e - i,
{
    if i < 0 || i >= e || i >= t.len() || !is_white_space(t[i]) {
        0
    } else {
        1 + indent_from(t, i + 1, e)
    }
}

/// The number of white-space characters with which a line begins.
pub open spec fn spec_indent(t: Seq<char>, b: (int, int)) -> int {
    indent_from(t, b.0, b.1)
}

/// Whether a line holds nothing but white space.
pub open spec fn is_blank(t: Seq<char>, b: (int, int)) -> bool {
    spec_indent(t, b) >= b.1 - b.0
}

/// The indentation is at most the length of the line.
proof fn lemma_indent_bound(t: Seq<char>, i: int, e: int)
    requires
        0 <= i <= e,
    ensures
        0 <= indent_from(t, i, e) <= e - i,
    decreases e - i,
{
    if i < e && i < t.len() && is_white_space(t[i]) {
        lemma_indent_bound(t, i + 1, e);
    }
}

fn indent(t: &Vec<char>, b: (usize, usize)) -> (r: usize)
    requires
        b.0 <= b.1 <= t@.len(),
    ensures
        r == spec_indent(t@, (b.0 as int, b.1 as int)),
        r <= b.1 - b.0,
{
    let mut i: usize = b.0;
    while i < b.1 && is_space(t[i])
        invariant
            b.0 <= i <= b.1 <= t@.len(),
            indent_from(t@, b.0 as int, b.1 as int) == (i - b.0) + indent_from(
                t@,
                i as int,
                b.1 as int,
            ),
        decreases b.1 - i,
    {
        i += 1;
    }
    i - b.0
}

/// The index of the first line at `j` or later that is not blank.
pub open spec fn first_filled(t: Seq<char>, bounds: Seq<(int, int)>, j: int) -> Option<int>
    decreases bounds.len() - j,
{
    if j < 0 || j >= bounds.len() {
        None
    } else if !is_blank(t, bounds[j]) {
        Some(j)
    } else {
        first_filled(t, bounds, j + 1)
    }
}

/// The index of the last line before `n` that is not blank.
pub open spec fn last_filled(t: Seq<char>, bounds: Seq<(int, int)>, n: int) -> Option<int>
    decreases n,
{
    if n <= 0 || n > bounds.len() {
        None
    } else if !is_blank(t, bounds[n - 1]) {
        Some(n - 1)
    } else {
        last_filled(t, bounds, n - 1)
    }
}

/// The least indentation of the lines from `lo` up to `n` that are not
/// blank; none if all are blank.
pub open spec fn least_indent(t: Seq<char>, bounds: Seq<(int, int)>, lo: int, n: int) -> Option<int>
    decreases n - lo,
{
    if n <= lo || n > bounds.len() || lo < 0 {
        None
    } else {
        let before = least_indent(t, bounds, lo, n - 1);
        if is_blank(t, bounds[n - 1]) {
            before
        } else {
            match before {
                Some(m) => if m <= spec_indent(t, bounds[n - 1]) {
                    Some(m)
                } else {
                    Some(spec_indent(t, bounds[n - 1]))
                },
                None => Some(spec_indent(t, bounds[n - 1])),
            }
        }
    }
}

/// The line without its first `m` characters, or without the white space
/// with which it begins if it is shorter than that.
pub open spec fn cut_line(t: Seq<char>, b: (int, int), m: int) -> Seq<char> {
    if b.1 - b.0 >= m {
        t.subrange(b.0 + m, b.1)
    } else {
        t.subrange(b.0 + spec_indent(t, b), b.1)
    }
}

/// The lines from `lo` up to `n`, each cut by `m`, with a line feed
/// between one and the next.
pub open spec fn joined(t: Seq<char>, bounds: Seq<(int, int)>, lo: int, n: int, m: int) -> Seq<char>
    decreases n - lo,
{
    if n <= lo || n > bounds.len() || lo < 0 {
        Seq::empty()
    } else if n == lo + 1 {
        cut_line(t, bounds[lo], m)
    } else {
        joined(t, bounds, lo, n - 1, m) + seq!['\n'] + cut_line(t, bounds[n - 1], m)
    }
}

/// The snippet without the blank lines before and after it and without
/// the indentation that all its lines share; empty if every line is blank.
pub open spec fn spec_dedent(t: Seq<char>) -> Seq<char> {
    let bounds = spec_line_bounds(t);
    match (first_filled(t, bounds, 0), last_filled(t, bounds, bounds.len() as int)) {
        (Some(first), Some(last)) => joined(
            t,
            bounds,
            first,
            last + 1,
            match least_indent(t, bounds, first, last + 1) {
                Some(m) => m,
                None => 0,
            },
        ),
        _ => Seq::empty(),
    }
}

fn line_is_blank(t: &Vec<char>, bounds: &Vec<(usize, usize)>, i: usize) -> (r: bool)
    requires
        i < bounds@.len(),
        bounds_ok(bounds_view(bounds@), t@.len() as int),
    ensures
        r == is_blank(t@, bounds_view(bounds@)[i as int]),
{
    assert(bounds_view(bounds@)[i as int] == (bounds@[i as int].0 as int, bounds@[i as int].1 as int));
    indent(t, bounds[i]) >= bounds[i].1 - bounds[i].0
}

/// Takes the common indentation off a snippet of code, and the blank
/// lines before and after it.
pub fn dedent(code: &str) -> (r: String)
    ensures
        r@ == spec_dedent(code@),
{
    let t = chars_of(code);
    let bounds = line_bounds(&t);
    let ghost lines = bounds_view(bounds@);
    // the first line that is not blank
    let mut first: usize = 0;
    while first < bounds.len() && line_is_blank(&t, &bounds, first)
        invariant
            first <= bounds@.len(),
            lines == bounds_view(bounds@),
            bounds_ok(lines, t@.len() as int),
            first_filled(t@, lines, 0) == first_filled(t@, lines, first as int),
        decreases bounds.len() - first,
    {
        first += 1;
    }
    if first >= bounds.len() {
        proof {
            lemma_first_filled_none(t@, lines, 0);
            lemma_all_blank_last(t@, lines, lines.len() as int);
        }
        return String::new();
    }
    // the last line that is not blank
    let mut end: usize = bounds.len();
    while end > 0 && line_is_blank(&t, &bounds, end - 1)
        invariant
            end <= bounds@.len(),
            lines == bounds_view(bounds@),
            bounds_ok(lines, t@.len() as int),
            last_filled(t@, lines, lines.len() as int) == last_filled(t@, lines, end as int),
        decreases end,
    {
        end -= 1;
    }
    proof {
        lemma_first_before_last(t@, lines, first as int, end as int);
    }
    // the least indentation
    let mut least: Option<usize> = None;
    let mut k: usize = first;
    while k < end
        invariant
            first <= k <= end <= bounds@.len(),
            lines == bounds_view(bounds@),
            bounds_ok(lines, t@.len() as int),
            match least {
                Some(m) => least_indent(t@, lines, first as int, k as int) == Some(m as int),
                None => least_indent(t@, lines, first as int, k as int) is None,
            },
        decreases end - k,
    {
        assert(lines[k as int] == (bounds@[k as int].0 as int, bounds@[k as int].1 as int));
        let width = indent(&t, bounds[k]);
        if width < bounds[k].1 - bounds[k].0 {
            least = match least {
                Some(m) => if m <= width {
                    Some(m)
                } else {
                    Some(width)
                },
                None => Some(width),
            };
        }
        k += 1;
    }
    let min_indent: usize = match least {
        Some(m) => m,
        None => 0,
    };
    let mut out = String::new();
    let mut n: usize = first;
    while n < end
        invariant
            first <= n <= end <= bounds@.len(),
            lines == bounds_view(bounds@),
            bounds_ok(lines, t@.len() as int),
            t@ == code@,
            out@ == joined(t@, lines, first as int, n as int, min_indent as int),
        decreases end - n,
    {
        let b = bounds[n];
        assert(lines[n as int] == (b.0 as int, b.1 as int));
        let from: usize = if b.1 - b.0 >= min_indent {
            b.0 + min_indent
        } else {
            b.0 + indent(&t, b)
        };
        if n > first {
            proof {
                reveal_strlit("\n");
            }
            out.append("\n");
            assert("\n"@ =~= seq!['\n']);
        }
        out.append(code.substring_char(from, b.1));
        assert(out@ =~= joined(t@, lines, first as int, n + 1, min_indent as int));
        n += 1;
    }
    out
}

/// Where no filled line is found from `j`, every line from `j` is blank.
proof fn lemma_first_filled_none(t: Seq<char>, bounds: Seq<(int, int)>, j: int)
    requires
        0 <= j,
        first_filled(t, bounds, j) is None,
    ensures
        forall|k: int| j <= k < bounds.len() ==> is_blank(t, #[trigger] bounds[k]),
    decreases bounds.len() - j,
{
    if j < bounds.len() {
        lemma_first_filled_none(t, bounds, j + 1);
    }
}

/// Where every line is blank, there is no last filled line.
proof fn lemma_all_blank_last(t: Seq<char>, bounds: Seq<(int, int)>, n: int)
    requires
        0 <= n <= bounds.len(),
        forall|k: int| 0 <= k < bounds.len() ==> is_blank(t, #[trigger] bounds[k]),
    ensures
        last_filled(t, bounds, n) is None,
    decreases n,
{
    if n > 0 {
        lemma_all_blank_last(t, bounds, n - 1);
    }
}

/// Where line `first` is the first filled line and the search for the last
/// one stopped at `end`, the last filled line is line `end - 1`, at
/// `first` or later.
proof fn lemma_first_before_last(t: Seq<char>, bounds: Seq<(int, int)>, first: int, end: int)
    requires
        0 <= first < bounds.len(),
        0 <= end <= bounds.len(),
        !is_blank(t, bounds[first]),
        first_filled(t, bounds, 0) == first_filled(t, bounds, first),
        last_filled(t, bounds, bounds.len() as int) == last_filled(t, bounds, end),
        end > 0 ==> !is_blank(t, bounds[end - 1]),
    ensures
        first < end,
        first_filled(t, bounds, 0) == Some(first),
        last_filled(t, bounds, bounds.len() as int) == Some(end - 1),
{
    lemma_last_filled_reaches(t, bounds, bounds.len() as int, first);
}

/// The last filled line before `n` is no earlier than a filled line
/// before `n`.
proof fn lemma_last_filled_reaches(t: Seq<char>, bounds: Seq<(int, int)>, n: int, k: int)
    requires
        0 <= k < n <= bounds.len(),
        !is_blank(t, bounds[k]),
    ensures
        last_filled(t, bounds, n) is Some,
        last_filled(t, bounds, n)->0 >= k,
    decreases n,
{
    if is_blank(t, bounds[n - 1]) {
        lemma_last_filled_reaches(t, bounds, n - 1, k);
    }
}

} // verus!
