//! What a client of the language server reads: diagnostics, and the
//! header that frames a message.

use crate::decoration::DecoKind;
use crate::strings::{
    contains, ends_with, is_prefix, is_space, is_suffix, is_white_space, matches_at,
    spec_contains,
};
use crate::test_framework::{ExpectedDeco, ExpectedView};
use crate::text_conversion::chars_of;
use vstd::prelude::*;
use vstd::string::{StringExecFns, StringSliceAdditionalSpecFns};

verus! {

/// A diagnostic that the server published: its code, the line on which it
/// starts, and its message.
#[derive(Debug)]
pub struct ReceivedDiagnostic {
    pub code: String,
    pub line: u32,
    pub message: String,
}

/// What a received diagnostic holds, as plain values.
pub struct ReceivedView {
    pub code: Seq<char>,
    pub line: u32,
    pub message: Seq<char>,
}

impl View for ReceivedDiagnostic {
    type V = ReceivedView;

    open spec fn view(&self) -> ReceivedView {
        ReceivedView { code: self.code@, line: self.line, message: self.message@ }
    }
}

impl Clone for ReceivedDiagnostic {
    fn clone(&self) -> (r: Self)
        ensures
            r@ == self@,
    {
        ReceivedDiagnostic {
            code: self.code.clone(),
            line: self.line,
            message: self.message.clone(),
        }
    }
}

/// The end of the code of every diagnostic of kind `kind`: a colon and
/// the name of the kind.
pub open spec fn kind_suffix(kind: DecoKind) -> Seq<char> {
    ":"@ + kind.spec_as_code()
}

/// Whether a diagnostic is what an expectation asks for: its code ends
/// with the kind, and it has the line and holds the texts that are asked
/// for.
pub open spec fn spec_matches(r: ReceivedView, e: ExpectedView) -> bool {
    &&& is_suffix(r.code, kind_suffix(e.kind))
    &&& match e.line {
        Some(l) => r.line == l,
        None => true,
    }
    &&& match e.text_match {
        Some(t) => spec_contains(r.message, t),
        None => true,
    }
    &&& match e.message_contains {
        Some(m) => spec_contains(r.message, m),
        None => true,
    }
}

/// Whether the code of a diagnostic is that of a decoration of kind
/// `kind`.
pub fn has_kind(code: &str, kind: DecoKind) -> (r: bool)
    ensures
        r == is_suffix(code@, kind_suffix(kind)),
{
    let mut suffix = ":".to_owned();
    suffix.append(kind.as_code());
    ends_with(code, suffix.as_str())
}

impl ReceivedDiagnostic {
    /// The diagnostic with the code, start line and message that were
    /// read; none without a code or a start line, and an empty message
    /// for a missing one.
    pub fn from_lsp(code: Option<&str>, line: Option<u32>, message: Option<&str>) -> (r: Option<Self>)
        ensures
            match r {
                Some(d) => code is Some && line is Some && d.code@ == code->0@ && d.line
                    == line->0 && d.message@ == match message {
                    Some(m) => m@,
                    None => Seq::<char>::empty(),
                },
                None => code is None || line is None,
            },
    {
        match (code, line) {
            (Some(c), Some(l)) => Some(
                ReceivedDiagnostic {
                    code: c.to_owned(),
                    line: l,
                    message: match message {
                        Some(m) => m.to_owned(),
                        None => String::new(),
                    },
                },
            ),
            _ => None,
        }
    }

    /// Whether the diagnostic is what `expected` asks for.
    #[must_use]
    pub fn matches(&self, expected: &ExpectedDeco) -> (r: bool)
        ensures
            r == spec_matches(self@, expected@),
    {
        let kind_matches = has_kind(self.code.as_str(), expected.kind);
        let line_matches = match expected.line {
            Some(l) => self.line == l,
            None => true,
        };
        let text_matches = match &expected.text_match {
            Some(t) => contains(self.message.as_str(), t.as_str()),
            None => true,
        };
        let message_matches = match &expected.message_contains {
            Some(m) => contains(self.message.as_str(), m.as_str()),
            None => true,
        };
        kind_matches && line_matches && text_matches && message_matches
    }
}

/// The address of the file at `path`.
#[must_use]
pub fn file_uri(path: &str) -> (r: String)
    ensures
        r@ == "file://"@ + path@,
{
    let mut uri = "file://".to_owned();
    uri.append(path);
    uri
}

/// The index of the first character at `i` or later, before `e`, that is
/// no white space; `e` if there is none.
pub open spec fn skip_space(t: Seq<char>, i: int, e: int) -> int
    decreases e - i,
{
    if i < 0 || i >= e || i >= t.len() || !is_white_space(t[i]) {
        i
    } else {
        skip_space(t, i + 1, e)
    }
}

/// The index after the last character before `e`, at `s` or later, that
/// is no white space; `s` if there is none.
pub open spec fn skip_space_back(t: Seq<char>, s: int, e: int) -> int
    decreases e - s,
{
    if e <= s || e > t.len() || !is_white_space(t[e - 1]) {
        e
    } else {
        skip_space_back(t, s, e - 1)
    }
}

/// The text without the white space at its start and at its end.
pub open spec fn spec_trim(t: Seq<char>) -> Seq<char> {
    let s = skip_space(t, 0, t.len() as int);
    let e = skip_space_back(t, s, t.len() as int);
    t.subrange(s, e)
}

/// The value of a decimal digit; none for another character.
pub open spec fn digit_value(c: char) -> Option<nat> {
    if '0' <= c <= '9' {
        Some((c as u32 - '0' as u32) as nat)
    } else {
        None
    }
}

/// The number that the first `n` characters spell in decimal digits; none
/// if one of them is no digit.
pub open spec fn digits_value(t: Seq<char>, n: int) -> Option<nat>
    decreases n,
{
    if n <= 0 || n > t.len() {
        Some(0)
    } else {
        match (digits_value(t, n - 1), digit_value(t[n - 1])) {
            (Some(v), Some(d)) => Some(v * 10 + d),
            _ => None,
        }
    }
}

/// The number that a text spells: decimal digits, at least one, after an
/// optional plus sign; none for another text or a number above
/// `usize::MAX`.
pub open spec fn spec_parse_usize(t: Seq<char>) -> Option<usize> {
    let digits = if t.len() > 0 && t[0] == '+' {
        t.subrange(1, t.len() as int)
    } else {
        t
    };
    if digits.len() == 0 {
        None
    } else {
        match digits_value(digits, digits.len() as int) {
            Some(v) => if v <= usize::MAX {
                Some(v as usize)
            } else {
                None
            },
            None => None,
        }
    }
}

/// The length that a header line announces: the number after
/// `Content-Length: ` in the line without the white space around it; zero
/// for another line or a number that cannot be read.
pub open spec fn spec_content_length(header: Seq<char>) -> usize {
    let t = spec_trim(header);
    let prefix = "Content-Length: "@;
    if is_prefix(t, prefix) {
        match spec_parse_usize(t.subrange(prefix.len() as int, t.len() as int)) {
            Some(v) => v,
            None => 0,
        }
    } else {
        0
    }
}

/// Once a prefix spells no number, or one above a bound, so does every
/// longer prefix.
proof fn lemma_digits_stuck(t: Seq<char>, k: int, n: int, bound: nat)
    requires
        0 <= k <= n <= t.len(),
        match digits_value(t, k) {
            Some(v) => v > bound,
            None => true,
        },
    ensures
        match digits_value(t, n) {
            Some(v) => v > bound,
            None => true,
        },
        digits_value(t, k) is None ==> digits_value(t, n) is None,
    decreases n - k,
{
    if k < n {
        lemma_digits_stuck(t, k, n - 1, bound);
    }
}

fn parse_usize(t: &Vec<char>, from: usize) -> (r: Option<usize>)
    requires
        from <= t@.len(),
    ensures
        r == spec_parse_usize(t@.subrange(from as int, t@.len() as int)),
{
    let ghost text = t@.subrange(from as int, t@.len() as int);
    let start: usize = if from < t.len() && t[from] == '+' {
        from + 1
    } else {
        from
    };
    let ghost digits = t@.subrange(start as int, t@.len() as int);
    assert(digits =~= if text.len() > 0 && text[0] == '+' {
        text.subrange(1, text.len() as int)
    } else {
        text
    });
    if start >= t.len() {
        return None;
    }
    let ghost goal = spec_parse_usize(text);
    let mut value: usize = 0;
    let mut i: usize = start;
    while i < t.len()
        invariant
            start <= i <= t@.len(),
            digits == t@.subrange(start as int, t@.len() as int),
            digits_value(digits, i - start) == Some(value as nat),
            goal == spec_parse_usize(t@.subrange(from as int, t@.len() as int)),
            goal == match digits_value(digits, digits.len() as int) {
                Some(v) => if v <= usize::MAX {
                    Some(v as usize)
                } else {
                    None
                },
                None => None,
            },
        decreases t.len() - i,
    {
        let c = t[i];
        assert(digits[i - start] == c);
        if !('0' <= c && c <= '9') {
            proof {
                assert(digits_value(digits, i - start + 1) is None);
                lemma_digits_stuck(digits, i - start + 1, digits.len() as int, 0);
            }
            return None;
        }
        let d: usize = (c as u32 - '0' as u32) as usize;
        if value > (usize::MAX - d) / 10 {
            proof {
                assert(digits_value(digits, i - start + 1)->0 > usize::MAX);
                lemma_digits_stuck(digits, i - start + 1, digits.len() as int, usize::MAX as nat);
            }
            return None;
        }
        value = value * 10 + d;
        i += 1;
    }
    Some(value)
}

/// The length that a header line announces; zero if it announces none.
pub fn parse_content_length(header: &str) -> (r: usize)
    ensures
        r == spec_content_length(header@),
{
    let t = chars_of(header);
    let mut s: usize = 0;
    while s < t.len() && is_space(t[s])
        invariant
            s <= t@.len(),
            skip_space(t@, 0, t@.len() as int) == skip_space(t@, s as int, t@.len() as int),
        decreases t.len() - s,
    {
        s += 1;
    }
    let mut e: usize = t.len();
    while e > s && is_space(t[e - 1])
        invariant
            s <= e <= t@.len(),
            skip_space_back(t@, s as int, t@.len() as int) == skip_space_back(
                t@,
                s as int,
                e as int,
            ),
        decreases e,
    {
        e -= 1;
    }
    let mut trimmed: Vec<char> = Vec::new();
    let mut i: usize = s;
    while i < e
        invariant
            s <= i <= e <= t@.len(),
            trimmed@ == t@.subrange(s as int, i as int),
        decreases e - i,
    {
        trimmed.push(t[i]);
        assert(trimmed@ =~= t@.subrange(s as int, i + 1));
        i += 1;
    }
    assert(trimmed@ == spec_trim(header@));
    let prefix = chars_of("Content-Length: ");
    if matches_at(&trimmed, &prefix, 0) {
        match parse_usize(&trimmed, prefix.len()) {
            Some(v) => v,
            None => 0,
        }
    } else {
        0
    }
}

/// A message as it is sent: a header line with the length of the content
/// in bytes, an empty line, and the content.
pub open spec fn spec_frame(content: &str) -> Seq<char> {
    "Content-Length: "@ + crate::strings::decimal_digits(
        (content.spec_bytes().len() as usize) as nat,
    ) + "\r\n\r\n"@ + content@
}

/// Frames a message for sending.
pub fn frame_message(content: &str) -> (r: String)
    ensures
        r@ == spec_frame(content),
{
    let mut message = "Content-Length: ".to_owned();
    message.append(crate::strings::to_decimal(content.len() as u64).as_str());
    message.append("\r\n\r\n");
    message.append(content);
    assert(message@ =~= spec_frame(content));
    message
}

/// Whether the title of the ownership action says that the analysis has
/// ended: it names the server and speaks neither of analyzing nor of
/// waiting.
pub fn title_is_ready(title: &str) -> (r: bool)
    ensures
        r == (spec_contains(title@, "RustOwl"@) && !spec_contains(title@, "analyzing"@)
            && !spec_contains(title@, "waiting"@)),
{
    contains(title, "RustOwl") && !contains(title, "analyzing") && !contains(title, "waiting")
}

} // verus!
