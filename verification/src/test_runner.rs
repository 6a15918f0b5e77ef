//! Running a test case: where its cursor stands, and whether what was
//! shown is what it expects.

use crate::decoration::DecoKind;
use crate::dedent::{bounds_ok, bounds_view, line_bounds, spec_line_bounds};
use crate::lsp_client::{has_kind, kind_suffix, spec_matches, ReceivedDiagnostic, ReceivedView};
use crate::strings::{decimal_digits, find_in, first_match, is_suffix, to_decimal};
use crate::test_framework::{expected_view, ExpectedDeco, ExpectedView, TestCase, TestCaseView};
use crate::text_conversion::{byte_offset, chars_of};
use vstd::prelude::*;
use vstd::string::StringExecFns;

verus! {

/// The outcome of a test case: its name, whether it passed, and what went
/// wrong if it did not.
#[derive(Debug)]
pub struct TestResult {
    pub name: String,
    pub passed: bool,
    pub error: Option<String>,
}

/// The line and the byte column of the first occurrence of `text` in a
/// line of `code`, searching the first `n` lines from line `j` on.
pub open spec fn find_cursor(
    code: Seq<char>,
    bounds: Seq<(int, int)>,
    text: Seq<char>,
    j: int,
) -> Option<(int, int)>
    decreases bounds.len() - j,
{
    if j < 0 || j >= bounds.len() {
        None
    } else {
        let line = code.subrange(bounds[j].0, bounds[j].1);
        match first_match(line, text, 0) {
            Some(at) => Some((j, byte_offset(line, at))),
            None => find_cursor(code, bounds, text, j + 1),
        }
    }
}

/// The number as a `u32`, or `u32::MAX` if it is larger.
pub open spec fn clamp_u32(v: int) -> u32 {
    if v > u32::MAX {
        u32::MAX
    } else if v < 0 {
        0
    } else {
        v as u32
    }
}

/// The position of the cursor of a test case, line and column counted
/// from zero: the line and character given, if both are; else the line in
/// which the cursor text first occurs and the byte at which it begins
/// there; else the start of the code.
pub open spec fn spec_cursor_position(test: TestCaseView) -> (u32, u32) {
    match (test.cursor_line, test.cursor_char) {
        (Some(line), Some(character)) => (line, character),
        _ => match test.cursor_text {
            Some(text) => match find_cursor(test.code, spec_line_bounds(test.code), text, 0) {
                Some((line, column)) => (clamp_u32(line), clamp_u32(column)),
                None => (0, 0),
            },
            None => (0, 0),
        },
    }
}

fn byte_column(line: &Vec<char>, at: usize) -> (r: u32)
    requires
        at <= line@.len(),
    ensures
        r == clamp_u32(byte_offset(line@, at as int)),
{
    let mut bytes: u64 = 0;
    let mut k: usize = 0;
    while k < at
        invariant
            k <= at <= line@.len(),
            bytes == clamp_u32(byte_offset(line@, k as int)),
            byte_offset(line@, k as int) >= 0,
            bytes < u32::MAX ==> bytes == byte_offset(line@, k as int),
            bytes == u32::MAX ==> byte_offset(line@, k as int) >= u32::MAX,
        decreases at - k,
    {
        let c = line[k];
        let w: u64 = if (c as u32) < 0x80 {
            1
        } else if (c as u32) < 0x800 {
            2
        } else if (c as u32) < 0x10000 {
            3
        } else {
            4
        };
        bytes = if bytes + w > u32::MAX as u64 {
            u32::MAX as u64
        } else {
            bytes + w
        };
        k += 1;
    }
    bytes as u32
}

fn find_cursor_in(code: &Vec<char>, wanted: &Vec<char>) -> (r: Option<(u32, u32)>)
    ensures
        match (r, find_cursor(code@, spec_line_bounds(code@), wanted@, 0)) {
            (Some(p), Some(q)) => p == (clamp_u32(q.0), clamp_u32(q.1)),
            (None, None) => true,
            _ => false,
        },
{
    let bounds = line_bounds(code);
    let ghost lines = bounds_view(bounds@);
    let mut j: usize = 0;
    while j < bounds.len()
        invariant
            j <= bounds@.len(),
            lines == bounds_view(bounds@),
            lines == spec_line_bounds(code@),
            bounds_ok(lines, code@.len() as int),
            find_cursor(code@, lines, wanted@, 0) == find_cursor(code@, lines, wanted@, j as int),
        decreases bounds.len() - j,
    {
        let b = bounds[j];
        assert(lines[j as int] == (b.0 as int, b.1 as int));
        let mut line: Vec<char> = Vec::new();
        let mut i: usize = b.0;
        while i < b.1
            invariant
                b.0 <= i <= b.1 <= code@.len(),
                line@ == code@.subrange(b.0 as int, i as int),
            decreases b.1 - i,
        {
            line.push(code[i]);
            assert(line@ =~= code@.subrange(b.0 as int, i + 1));
            i += 1;
        }
        if let Some(at) = find_in(&line, wanted) {
            proof {
                crate::strings::lemma_first_match(line@, wanted@, 0);
            }
            let row: u32 = if j > u32::MAX as usize {
                u32::MAX
            } else {
                j as u32
            };
            return Some((row, byte_column(&line, at)));
        }
        j += 1;
    }
    None
}

/// The position of the cursor of a test case.
pub fn resolve_cursor_position(test: &TestCase) -> (r: (u32, u32))
    ensures
        r == spec_cursor_position(test@),
{
    if let Some(line) = test.cursor_line {
        if let Some(character) = test.cursor_char {
            return (line, character);
        }
    }
    if let Some(text) = &test.cursor_text {
        let code = chars_of(test.code.as_str());
        let wanted = chars_of(text.as_str());
        if let Some(position) = find_cursor_in(&code, &wanted) {
            return position;
        }
    }
    (0, 0)
}

/// The diagnostic one line up: the lines of what the server showed count
/// from the line that is put before the code of a test.
pub open spec fn one_line_up(r: ReceivedView) -> ReceivedView {
    ReceivedView {
        line: if r.line > 0 {
            (r.line - 1) as u32
        } else {
            0
        },
        ..r
    }
}

/// The diagnostics of a list, as plain values.
pub open spec fn received_view(s: Seq<ReceivedDiagnostic>) -> Seq<ReceivedView> {
    s.map_values(|r: ReceivedDiagnostic| r@)
}

/// The index of the first diagnostic at `j` or later that is what the
/// expectation asks for and is not taken.
pub open spec fn first_free(rs: Seq<ReceivedView>, taken: Seq<bool>, e: ExpectedView, j: int) -> Option<
    int,
>
    decreases rs.len() - j,
{
    if j < 0 || j >= rs.len() || j >= taken.len() {
        None
    } else if spec_matches(rs[j], e) && !taken[j] {
        Some(j)
    } else {
        first_free(rs, taken, e, j + 1)
    }
}

/// Which diagnostics are taken after the first `n` expectations were
/// served in order, each with the first diagnostic that fits it and is
/// not taken.
pub open spec fn taken_after(rs: Seq<ReceivedView>, es: Seq<ExpectedView>, n: int) -> Seq<bool>
    decreases n,
{
    if n <= 0 || n > es.len() {
        Seq::new(rs.len(), |i: int| false)
    } else {
        let before = taken_after(rs, es, n - 1);
        match first_free(rs, before, es[n - 1], 0) {
            Some(i) => before.update(i, true),
            None => before,
        }
    }
}

/// The expectations among the first `n` for which no diagnostic was left.
pub open spec fn missing_after(rs: Seq<ReceivedView>, es: Seq<ExpectedView>, n: int) -> Seq<
    ExpectedView,
>
    decreases n,
{
    if n <= 0 || n > es.len() {
        Seq::empty()
    } else {
        match first_free(rs, taken_after(rs, es, n - 1), es[n - 1], 0) {
            Some(_) => missing_after(rs, es, n - 1),
            None => missing_after(rs, es, n - 1).push(es[n - 1]),
        }
    }
}

/// The text for an expectation that was not met.
pub open spec fn describe_missing(e: ExpectedView) -> Seq<char> {
    "Expected "@ + e.kind.spec_as_code() + match e.line {
        Some(l) => " at line "@ + decimal_digits(l as nat),
        None => Seq::empty(),
    } + match e.text_match {
        Some(t) => " with text '"@ + t + "'"@,
        None => Seq::empty(),
    } + match e.message_contains {
        Some(m) => " with message '"@ + m + "'"@,
        None => Seq::empty(),
    } + " not found."@
}

/// The text for a diagnostic of a forbidden kind.
pub open spec fn describe_forbidden(kind: DecoKind, r: ReceivedView) -> Seq<char> {
    "Forbidden "@ + kind.spec_as_code() + " found at line "@ + decimal_digits(r.line as nat)
        + " '"@ + r.message + "'"@
}

/// The text for a diagnostic that no expectation took.
pub open spec fn describe_received(r: ReceivedView) -> Seq<char> {
    "  "@ + r.code + " at line "@ + decimal_digits(r.line as nat) + " '"@ + r.message + "'"@
}

/// The texts for the expectations that were not met, in order.
pub open spec fn missing_lines(missing: Seq<ExpectedView>) -> Seq<Seq<char>> {
    missing.map_values(|e: ExpectedView| describe_missing(e))
}

/// The texts for the diagnostics of kind `kind` among the first `m`.
pub open spec fn forbidden_row(rs: Seq<ReceivedView>, kind: DecoKind, m: int) -> Seq<Seq<char>>
    decreases m,
{
    if m <= 0 || m > rs.len() {
        Seq::empty()
    } else if is_suffix(rs[m - 1].code, kind_suffix(kind)) {
        forbidden_row(rs, kind, m - 1).push(describe_forbidden(kind, rs[m - 1]))
    } else {
        forbidden_row(rs, kind, m - 1)
    }
}

/// The texts for the diagnostics of the first `n` forbidden kinds, kind
/// by kind.
pub open spec fn forbidden_lines(rs: Seq<ReceivedView>, kinds: Seq<DecoKind>, n: int) -> Seq<Seq<char>>
    decreases n,
{
    if n <= 0 || n > kinds.len() {
        Seq::empty()
    } else {
        forbidden_lines(rs, kinds, n - 1) + forbidden_row(rs, kinds[n - 1], rs.len() as int)
    }
}

/// The texts for the diagnostics among the first `m` that were not taken.
pub open spec fn unexpected_lines(rs: Seq<ReceivedView>, taken: Seq<bool>, m: int) -> Seq<Seq<char>>
    decreases m,
{
    if m <= 0 || m > rs.len() || m > taken.len() {
        Seq::empty()
    } else if !taken[m - 1] {
        unexpected_lines(rs, taken, m - 1).push(describe_received(rs[m - 1]))
    } else {
        unexpected_lines(rs, taken, m - 1)
    }
}

/// The first `n` texts with a line feed between one and the next.
pub open spec fn join_lines(lines: Seq<Seq<char>>, n: int) -> Seq<char>
    decreases n,
{
    if n <= 0 || n > lines.len() {
        Seq::empty()
    } else if n == 1 {
        lines[0]
    } else {
        join_lines(lines, n - 1) + "\n"@ + lines[n - 1]
    }
}

/// A section of the report: its title, a line feed and its lines; after
/// `before` and a line feed if `before` is not empty.  An empty section
/// adds nothing.
pub open spec fn with_section(before: Seq<char>, title: Seq<char>, lines: Seq<Seq<char>>) -> Seq<char> {
    if lines.len() == 0 {
        before
    } else {
        (if before.len() == 0 {
            before
        } else {
            before + "\n"@
        }) + title + "\n"@ + join_lines(lines, lines.len() as int)
    }
}

/// Whether the diagnostics are what the test case expects, and the report.
/// Each expectation takes the first diagnostic that fits it and is not
/// taken; the test passes if every expectation found one and no
/// diagnostic has a forbidden kind.  The report of a test that failed
/// lists what is missing, what is forbidden, and what no expectation
/// took.
pub open spec fn spec_verify(test: TestCaseView, received: Seq<ReceivedView>) -> (bool, Seq<char>) {
    let rs = received.map_values(|r: ReceivedView| one_line_up(r));
    let n = test.expected_decos.len() as int;
    let missing = missing_lines(missing_after(rs, test.expected_decos, n));
    let forbidden = forbidden_lines(rs, test.forbidden_decos, test.forbidden_decos.len() as int);
    let unexpected = unexpected_lines(
        rs,
        taken_after(rs, test.expected_decos, n),
        rs.len() as int,
    );
    if missing.len() == 0 && forbidden.len() == 0 {
        (true, "All decorations match"@)
    } else {
        (
            false,
            with_section(
                with_section(
                    with_section(Seq::empty(), "Missing:"@, missing),
                    "Forbidden:"@,
                    forbidden,
                ),
                "Received:"@,
                unexpected,
            ),
        )
    }
}

/// The texts of a list, as plain values.
pub open spec fn texts_view(s: Seq<String>) -> Seq<Seq<char>> {
    s.map_values(|t: String| t@)
}

fn describe_expected(e: &ExpectedDeco) -> (r: String)
    ensures
        r@ == describe_missing(e@),
{
    let mut text = "Expected ".to_owned();
    text.append(e.kind.as_code());
    if let Some(l) = e.line {
        text.append(" at line ");
        text.append(to_decimal(l as u64).as_str());
    }
    if let Some(t) = &e.text_match {
        text.append(" with text '");
        text.append(t.as_str());
        text.append("'");
    }
    if let Some(m) = &e.message_contains {
        text.append(" with message '");
        text.append(m.as_str());
        text.append("'");
    }
    text.append(" not found.");
    assert(text@ =~= describe_missing(e@));
    text
}

fn describe_forbidden_found(kind: DecoKind, r: &ReceivedDiagnostic) -> (out: String)
    ensures
        out@ == describe_forbidden(kind, r@),
{
    let mut text = "Forbidden ".to_owned();
    text.append(kind.as_code());
    text.append(" found at line ");
    text.append(to_decimal(r.line as u64).as_str());
    text.append(" '");
    text.append(r.message.as_str());
    text.append("'");
    assert(text@ =~= describe_forbidden(kind, r@));
    text
}

fn describe_unexpected(r: &ReceivedDiagnostic) -> (out: String)
    ensures
        out@ == describe_received(r@),
{
    let mut text = "  ".to_owned();
    text.append(r.code.as_str());
    text.append(" at line ");
    text.append(to_decimal(r.line as u64).as_str());
    text.append(" '");
    text.append(r.message.as_str());
    text.append("'");
    assert(text@ =~= describe_received(r@));
    text
}

fn add_section(msg: &mut String, title: &str, lines: &Vec<String>)
    ensures
        final(msg)@ == with_section(old(msg)@, title@, texts_view(lines@)),
{
    if lines.len() == 0 {
        return ;
    }
    if msg.as_str().unicode_len() > 0 {
        msg.append("\n");
    }
    msg.append(title);
    msg.append("\n");
    let ghost head = msg@;
    let mut i: usize = 0;
    while i < lines.len()
        invariant
            i <= lines@.len(),
            msg@ == head + join_lines(texts_view(lines@), i as int),
        decreases lines.len() - i,
    {
        if i > 0 {
            msg.append("\n");
        }
        msg.append(lines[i].as_str());
        assert(msg@ =~= head + join_lines(texts_view(lines@), i + 1));
        i += 1;
    }
}

fn find_free(received: &Vec<ReceivedDiagnostic>, taken: &Vec<bool>, exp: &ExpectedDeco) -> (r: Option<
    usize,
>)
    requires
        taken@.len() == received@.len(),
    ensures
        match r {
            Some(k) => first_free(received_view(received@), taken@, exp@, 0) == Some(k as int) && k
                < received@.len(),
            None => first_free(received_view(received@), taken@, exp@, 0) is None,
        },
{
    let mut j: usize = 0;
    while j < received.len()
        invariant
            j <= received@.len(),
            taken@.len() == received@.len(),
            first_free(received_view(received@), taken@, exp@, 0) == first_free(
                received_view(received@),
                taken@,
                exp@,
                j as int,
            ),
        decreases received.len() - j,
    {
        if received[j].matches(exp) && !taken[j] {
            return Some(j);
        }
        j += 1;
    }
    None
}

/// Compares what the server showed with what the test case expects; see
/// [`spec_verify`].
pub fn verify_decorations(test: &TestCase, received: &Vec<ReceivedDiagnostic>) -> (r: (bool, String))
    ensures
        r.0 == spec_verify(test@, received_view(received@)).0,
        r.1@ == spec_verify(test@, received_view(received@)).1,
{
    let mut adjusted: Vec<ReceivedDiagnostic> = Vec::new();
    let mut i: usize = 0;
    while i < received.len()
        invariant
            i <= received@.len(),
            adjusted@.len() == i,
            forall|k: int| 0 <= k < i ==> (#[trigger] adjusted@[k])@ == one_line_up(received@[k]@),
        decreases received.len() - i,
    {
        let r = &received[i];
        adjusted.push(
            ReceivedDiagnostic {
                code: r.code.clone(),
                line: if r.line > 0 {
                    r.line - 1
                } else {
                    0
                },
                message: r.message.clone(),
            },
        );
        i += 1;
    }
    let ghost rs = received_view(adjusted@);
    assert(rs =~= received_view(received@).map_values(|r: ReceivedView| one_line_up(r)));
    let ghost es = expected_view(test.expected_decos@);
    let mut missing: Vec<String> = Vec::new();
    let mut matched: Vec<bool> = Vec::new();
    let mut i: usize = 0;
    while i < adjusted.len()
        invariant
            i <= adjusted@.len(),
            matched@.len() == i,
            forall|k: int| 0 <= k < i ==> !matched@[k],
        decreases adjusted.len() - i,
    {
        matched.push(false);
        i += 1;
    }
    assert(matched@ =~= taken_after(rs, es, 0));
    assert(texts_view(missing@) =~= missing_lines(missing_after(rs, es, 0)));
    let mut n: usize = 0;
    while n < test.expected_decos.len()
        invariant
            n <= test.expected_decos@.len(),
            rs == received_view(adjusted@),
            es == expected_view(test.expected_decos@),
            matched@ == taken_after(rs, es, n as int),
            matched@.len() == adjusted@.len(),
            texts_view(missing@) == missing_lines(missing_after(rs, es, n as int)),
        decreases test.expected_decos.len() - n,
    {
        let exp = &test.expected_decos[n];
        match find_free(&adjusted, &matched, exp) {
            Some(k) => {
                matched.set(k, true);
            },
            None => {
                let ghost before = texts_view(missing@);
                let text = describe_expected(exp);
                missing.push(text);
                assert(texts_view(missing@) =~= before.push(text@));
                assert(missing_lines(missing_after(rs, es, n + 1)) =~= missing_lines(
                    missing_after(rs, es, n as int),
                ).push(describe_missing(exp@)));
            },
        }
        n += 1;
    }
    let mut forbidden_found: Vec<String> = Vec::new();
    assert(texts_view(forbidden_found@) =~= Seq::empty());
    let mut k: usize = 0;
    while k < test.forbidden_decos.len()
        invariant
            k <= test.forbidden_decos@.len(),
            rs == received_view(adjusted@),
            texts_view(forbidden_found@) == forbidden_lines(rs, test.forbidden_decos@, k as int),
        decreases test.forbidden_decos.len() - k,
    {
        let kind = test.forbidden_decos[k];
        let ghost start = texts_view(forbidden_found@);
        let mut m: usize = 0;
        while m < adjusted.len()
            invariant
                m <= adjusted@.len(),
                rs == received_view(adjusted@),
                texts_view(forbidden_found@) == start + forbidden_row(rs, kind, m as int),
            decreases adjusted.len() - m,
        {
            if has_kind(adjusted[m].code.as_str(), kind) {
                let ghost before = texts_view(forbidden_found@);
                let text = describe_forbidden_found(kind, &adjusted[m]);
                forbidden_found.push(text);
                assert(texts_view(forbidden_found@) =~= before.push(text@));
            }
            m += 1;
        }
        k += 1;
    }
    let mut unexpected: Vec<String> = Vec::new();
    assert(texts_view(unexpected@) =~= Seq::empty());
    let mut m: usize = 0;
    while m < adjusted.len()
        invariant
            m <= adjusted@.len(),
            rs == received_view(adjusted@),
            matched@.len() == adjusted@.len(),
            texts_view(unexpected@) == unexpected_lines(rs, matched@, m as int),
        decreases adjusted.len() - m,
    {
        if !matched[m] {
            let ghost before = texts_view(unexpected@);
            let text = describe_unexpected(&adjusted[m]);
            unexpected.push(text);
            assert(texts_view(unexpected@) =~= before.push(text@));
        }
        m += 1;
    }
    if missing.len() == 0 && forbidden_found.len() == 0 {
        (true, "All decorations match".to_owned())
    } else {
        let mut msg = String::new();
        add_section(&mut msg, "Missing:", &missing);
        add_section(&mut msg, "Forbidden:", &forbidden_found);
        add_section(&mut msg, "Received:", &unexpected);
        (false, msg)
    }
}

/// The code of a test as it is given to the server: after a line that
/// allows unused code.
pub fn code_with_attrs(test: &TestCase) -> (r: String)
    ensures
        r@ == "#![allow(dead_code)]\n"@ + test@.code,
{
    let mut code = "#![allow(dead_code)]\n".to_owned();
    code.append(test.code.as_str());
    code
}

impl TestCase {
    /// The outcome of the test case for the diagnostics that the server
    /// showed for its cursor.
    pub fn run(&self, received: &Vec<ReceivedDiagnostic>) -> (r: TestResult)
        ensures
            r.name@ == self@.name,
            r.passed == spec_verify(self@, received_view(received@)).0,
            r.passed == r.error is None,
            !r.passed ==> r.error->0@ == spec_verify(self@, received_view(received@)).1,
    {
        let (passed, message) = verify_decorations(self, received);
        TestResult {
            name: self.name.clone(),
            passed,
            error: if passed {
                None
            } else {
                Some(message)
            },
        }
    }
}

/// The results of a list, as plain values: the name, whether the test
/// passed, and the error if there is one.
pub open spec fn results_view(s: Seq<TestResult>) -> Seq<(Seq<char>, bool, Option<Seq<char>>)> {
    s.map_values(
        |r: TestResult|
            (
                r.name@,
                r.passed,
                match r.error {
                    Some(e) => Some(e@),
                    None => None,
                },
            ),
    )
}

/// The number of tests among the first `n` that failed.
pub open spec fn failed_count(results: Seq<(Seq<char>, bool, Option<Seq<char>>)>, n: int) -> nat
    decreases n,
{
    if n <= 0 || n > results.len() {
        0
    } else if !results[n - 1].1 {
        failed_count(results, n - 1) + 1
    } else {
        failed_count(results, n - 1)
    }
}

/// For each test among the first `n` that failed: an empty line, its name
/// between dashes, and its error.
pub open spec fn failure_details(results: Seq<(Seq<char>, bool, Option<Seq<char>>)>, n: int) -> Seq<
    char,
>
    decreases n,
{
    if n <= 0 || n > results.len() {
        Seq::empty()
    } else if !results[n - 1].1 {
        failure_details(results, n - 1) + "\n--- "@ + results[n - 1].0 + " ---\n"@ + match results[n
            - 1].2 {
            Some(e) => e,
            None => Seq::empty(),
        } + "\n"@
    } else {
        failure_details(results, n - 1)
    }
}

/// The report on the tests that failed: how many, and the details of
/// each; none if every test passed.
pub open spec fn spec_failure_report(results: Seq<(Seq<char>, bool, Option<Seq<char>>)>) -> Option<
    Seq<char>,
> {
    let n = results.len() as int;
    if failed_count(results, n) == 0 {
        None
    } else {
        Some(
            decimal_digits(failed_count(results, n)) + " test(s) failed:\n"@ + failure_details(
                results,
                n,
            ),
        )
    }
}

/// The report on the tests that failed; none if every test passed.
pub fn failure_report(results: &Vec<TestResult>) -> (r: Option<String>)
    ensures
        match r {
            Some(text) => spec_failure_report(results_view(results@)) == Some(text@),
            None => spec_failure_report(results_view(results@)) is None,
        },
{
    let ghost all = results_view(results@);
    let mut count: usize = 0;
    let mut details = String::new();
    let mut i: usize = 0;
    while i < results.len()
        invariant
            i <= results@.len(),
            all == results_view(results@),
            count == failed_count(all, i as int),
            count <= i,
            details@ == failure_details(all, i as int),
        decreases results.len() - i,
    {
        let result = &results[i];
        assert(all[i as int] == (
            result.name@,
            result.passed,
            match result.error {
                Some(e) => Some(e@),
                None => None,
            },
        ));
        if !result.passed {
            let ghost before = details@;
            count += 1;
            details.append("\n--- ");
            details.append(result.name.as_str());
            details.append(" ---\n");
            if let Some(error) = &result.error {
                details.append(error.as_str());
            }
            details.append("\n");
            assert(details@ =~= failure_details(all, i + 1));
        }
        i += 1;
    }
    if count == 0 {
        None
    } else {
        let mut text = to_decimal(count as u64);
        text.append(" test(s) failed:\n");
        text.append(details.as_str());
        Some(text)
    }
}

/// The manifest of the package in which a test is analysed.
pub fn workspace_manifest(name: &str) -> (r: String)
    ensures
        r@ == "[package]\nname = \""@ + name@ + "\"\nversion = \"0.1.0\"\nedition = \"2021\"\n"@,
{
    let mut text = "[package]\nname = \"".to_owned();
    text.append(name);
    text.append("\"\nversion = \"0.1.0\"\nedition = \"2021\"\n");
    text
}

/// The name of the directory in which a test is analysed: the name of the
/// test, the number of the process and the number of the test, with an
/// underscore between them.
pub fn workspace_name(test_name: &str, process: u32, index: usize) -> (r: String)
    ensures
        r@ == test_name@ + "_"@ + decimal_digits(process as nat) + "_"@ + decimal_digits(
            index as nat,
        ),
{
    let mut name = test_name.to_owned();
    name.append("_");
    name.append(to_decimal(process as u64).as_str());
    name.append("_");
    name.append(to_decimal(index as u64).as_str());
    name
}

} // verus!
