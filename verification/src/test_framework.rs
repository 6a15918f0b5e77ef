//! Test cases for decorations: what a snippet of code is expected to show
//! for a cursor, and the comparison with what was shown.

use crate::decoration::DecoKind;
use crate::dedent::{dedent, spec_dedent};
use vstd::prelude::*;

verus! {

/// A decoration that a test expects: its kind, and optionally a text that
/// its message holds, its line, and another text that its message holds.
#[derive(Debug)]
pub struct ExpectedDeco {
    pub kind: DecoKind,
    pub text_match: Option<String>,
    pub line: Option<u32>,
    pub message_contains: Option<String>,
}

/// What an expected decoration holds, as plain values.
pub struct ExpectedView {
    pub kind: DecoKind,
    pub text_match: Option<Seq<char>>,
    pub line: Option<u32>,
    pub message_contains: Option<Seq<char>>,
}

/// The characters of an optional string.
pub open spec fn opt_view(s: Option<String>) -> Option<Seq<char>> {
    match s {
        Some(t) => Some(t@),
        None => None,
    }
}

impl View for ExpectedDeco {
    type V = ExpectedView;

    open spec fn view(&self) -> ExpectedView {
        ExpectedView {
            kind: self.kind,
            text_match: opt_view(self.text_match),
            line: self.line,
            message_contains: opt_view(self.message_contains),
        }
    }
}

fn clone_opt(s: &Option<String>) -> (r: Option<String>)
    ensures
        opt_view(r) == opt_view(*s),
{
    match s {
        Some(t) => Some(t.clone()),
        None => None,
    }
}

impl Clone for ExpectedDeco {
    fn clone(&self) -> (r: Self)
        ensures
            r@ == self@,
    {
        ExpectedDeco {
            kind: self.kind,
            text_match: clone_opt(&self.text_match),
            line: self.line,
            message_contains: clone_opt(&self.message_contains),
        }
    }
}

impl ExpectedDeco {
    /// An expectation of a decoration of kind `kind`, with nothing more
    /// asked of it.
    #[must_use]
    pub fn new(kind: DecoKind) -> (r: Self)
        ensures
            r@ == (ExpectedView { kind, text_match: None, line: None, message_contains: None }),
    {
        Self { kind, text_match: None, line: None, message_contains: None }
    }

    /// The expectation with `text` asked for in the message.
    #[must_use]
    pub fn at_text(self, text: &str) -> (r: Self)
        ensures
            r@ == (ExpectedView { text_match: Some(text@), ..self@ }),
    {
        let mut this = self;
        this.text_match = Some(text.to_owned());
        this
    }

    /// The expectation with the line `line` asked for.
    #[must_use]
    pub fn on_line(self, line: u32) -> (r: Self)
        ensures
            r@ == (ExpectedView { line: Some(line), ..self@ }),
    {
        let mut this = self;
        this.line = Some(line);
        this
    }

    /// The expectation with `text` asked for in the message, besides what
    /// `at_text` asks for.
    #[must_use]
    pub fn with_message(self, text: &str) -> (r: Self)
        ensures
            r@ == (ExpectedView { message_contains: Some(text@), ..self@ }),
    {
        let mut this = self;
        this.message_contains = Some(text.to_owned());
        this
    }

    /// An expectation of a move.
    #[must_use]
    pub fn move_deco() -> (r: Self)
        ensures
            r@ == (ExpectedView {
                kind: DecoKind::Move,
                text_match: None,
                line: None,
                message_contains: None,
            }),
    {
        Self::new(DecoKind::Move)
    }

    /// An expectation of an immutable borrow.
    #[must_use]
    pub fn imm_borrow() -> (r: Self)
        ensures
            r@ == (ExpectedView {
                kind: DecoKind::ImmBorrow,
                text_match: None,
                line: None,
                message_contains: None,
            }),
    {
        Self::new(DecoKind::ImmBorrow)
    }

    /// An expectation of a mutable borrow.
    #[must_use]
    pub fn mut_borrow() -> (r: Self)
        ensures
            r@ == (ExpectedView {
                kind: DecoKind::MutBorrow,
                text_match: None,
                line: None,
                message_contains: None,
            }),
    {
        Self::new(DecoKind::MutBorrow)
    }

    /// An expectation of a call.
    #[must_use]
    pub fn call() -> (r: Self)
        ensures
            r@ == (ExpectedView {
                kind: DecoKind::Call,
                text_match: None,
                line: None,
                message_contains: None,
            }),
    {
        Self::new(DecoKind::Call)
    }

    /// An expectation of a lifetime.
    #[must_use]
    pub fn lifetime() -> (r: Self)
        ensures
            r@ == (ExpectedView {
                kind: DecoKind::Lifetime,
                text_match: None,
                line: None,
                message_contains: None,
            }),
    {
        Self::new(DecoKind::Lifetime)
    }

    /// An expectation of a range with shared and mutable borrows.
    #[must_use]
    pub fn shared_mut() -> (r: Self)
        ensures
            r@ == (ExpectedView {
                kind: DecoKind::SharedMut,
                text_match: None,
                line: None,
                message_contains: None,
            }),
    {
        Self::new(DecoKind::SharedMut)
    }

    /// An expectation of a range in which the variable must live.
    #[must_use]
    pub fn outlive() -> (r: Self)
        ensures
            r@ == (ExpectedView {
                kind: DecoKind::Outlive,
                text_match: None,
                line: None,
                message_contains: None,
            }),
    {
        Self::new(DecoKind::Outlive)
    }
}

/// The expectations of a list, as plain values.
pub open spec fn expected_view(s: Seq<ExpectedDeco>) -> Seq<ExpectedView> {
    s.map_values(|e: ExpectedDeco| e@)
}

/// A test case: a snippet of code, a cursor in it, the decorations that
/// are expected for the cursor and the kinds that must not be shown.
#[derive(Debug)]
pub struct TestCase {
    pub name: String,
    pub code: String,
    pub cursor_text: Option<String>,
    pub cursor_line: Option<u32>,
    pub cursor_char: Option<u32>,
    pub expected_decos: Vec<ExpectedDeco>,
    pub forbidden_decos: Vec<DecoKind>,
}

/// What a test case holds, as plain values.
pub struct TestCaseView {
    pub name: Seq<char>,
    pub code: Seq<char>,
    pub cursor_text: Option<Seq<char>>,
    pub cursor_line: Option<u32>,
    pub cursor_char: Option<u32>,
    pub expected_decos: Seq<ExpectedView>,
    pub forbidden_decos: Seq<DecoKind>,
}

impl View for TestCase {
    type V = TestCaseView;

    open spec fn view(&self) -> TestCaseView {
        TestCaseView {
            name: self.name@,
            code: self.code@,
            cursor_text: opt_view(self.cursor_text),
            cursor_line: self.cursor_line,
            cursor_char: self.cursor_char,
            expected_decos: expected_view(self.expected_decos@),
            forbidden_decos: self.forbidden_decos@,
        }
    }
}

/// The expectation of a decoration of kind `kind` and nothing more.
pub open spec fn plain(kind: DecoKind) -> ExpectedView {
    ExpectedView { kind, text_match: None, line: None, message_contains: None }
}

/// The expectation of a decoration of kind `kind` with `text` in its
/// message.
pub open spec fn plain_at(kind: DecoKind, text: Seq<char>) -> ExpectedView {
    ExpectedView { kind, text_match: Some(text), line: None, message_contains: None }
}

impl TestCase {
    /// A test case named `name` for the snippet `code`, which is taken
    /// without its common indentation; no cursor and no expectation yet.
    #[must_use]
    pub fn new(name: &str, code: &str) -> (r: Self)
        ensures
            r@ == (TestCaseView {
                name: name@,
                code: spec_dedent(code@),
                cursor_text: None,
                cursor_line: None,
                cursor_char: None,
                expected_decos: Seq::empty(),
                forbidden_decos: Seq::empty(),
            }),
    {
        let r = Self {
            name: name.to_owned(),
            code: dedent(code),
            cursor_text: None,
            cursor_line: None,
            cursor_char: None,
            expected_decos: Vec::new(),
            forbidden_decos: Vec::new(),
        };
        assert(expected_view(r.expected_decos@) =~= Seq::empty());
        r
    }

    /// The test case with the cursor on the first occurrence of `text`.
    #[must_use]
    pub fn cursor_on(self, text: &str) -> (r: Self)
        ensures
            r@ == (TestCaseView { cursor_text: Some(text@), ..self@ }),
    {
        let mut this = self;
        this.cursor_text = Some(text.to_owned());
        this
    }

    /// The test case with the cursor at a line and a character.
    #[must_use]
    pub fn cursor_at(self, line: u32, character: u32) -> (r: Self)
        ensures
            r@ == (TestCaseView {
                cursor_line: Some(line),
                cursor_char: Some(character),
                ..self@
            }),
    {
        let mut this = self;
        this.cursor_line = Some(line);
        this.cursor_char = Some(character);
        this
    }

    /// The test case with one more expected decoration.
    #[must_use]
    pub fn expect(self, deco: ExpectedDeco) -> (r: Self)
        ensures
            r@ == (TestCaseView { expected_decos: self@.expected_decos.push(deco@), ..self@ }),
    {
        let mut this = self;
        let ghost before = expected_view(this.expected_decos@);
        this.expected_decos.push(deco);
        assert(expected_view(this.expected_decos@) =~= before.push(deco@));
        this
    }

    /// The test case with a move expected.
    #[must_use]
    pub fn expect_move(self) -> (r: Self)
        ensures
            r@ == (TestCaseView {
                expected_decos: self@.expected_decos.push(plain(DecoKind::Move)),
                ..self@
            }),
    {
        self.expect(ExpectedDeco::move_deco())
    }

    /// The test case with a move expected whose message holds `text`.
    #[must_use]
    pub fn expect_move_at(self, text: &str) -> (r: Self)
        ensures
            r@ == (TestCaseView {
                expected_decos: self@.expected_decos.push(plain_at(DecoKind::Move, text@)),
                ..self@
            }),
    {
        self.expect(ExpectedDeco::move_deco().at_text(text))
    }

    /// The test case with an immutable borrow expected.
    #[must_use]
    pub fn expect_imm_borrow(self) -> (r: Self)
        ensures
            r@ == (TestCaseView {
                expected_decos: self@.expected_decos.push(plain(DecoKind::ImmBorrow)),
                ..self@
            }),
    {
        self.expect(ExpectedDeco::imm_borrow())
    }

    /// The test case with an immutable borrow expected whose message holds `text`.
    #[must_use]
    pub fn expect_imm_borrow_at(self, text: &str) -> (r: Self)
        ensures
            r@ == (TestCaseView {
                expected_decos: self@.expected_decos.push(plain_at(DecoKind::ImmBorrow, text@)),
                ..self@
            }),
    {
        self.expect(ExpectedDeco::imm_borrow().at_text(text))
    }

    /// The test case with a mutable borrow expected.
    #[must_use]
    pub fn expect_mut_borrow(self) -> (r: Self)
        ensures
            r@ == (TestCaseView {
                expected_decos: self@.expected_decos.push(plain(DecoKind::MutBorrow)),
                ..self@
            }),
    {
        self.expect(ExpectedDeco::mut_borrow())
    }

    /// The test case with a mutable borrow expected whose message holds `text`.
    #[must_use]
    pub fn expect_mut_borrow_at(self, text: &str) -> (r: Self)
        ensures
            r@ == (TestCaseView {
                expected_decos: self@.expected_decos.push(plain_at(DecoKind::MutBorrow, text@)),
                ..self@
            }),
    {
        self.expect(ExpectedDeco::mut_borrow().at_text(text))
    }

    /// The test case with a call expected.
    #[must_use]
    pub fn expect_call(self) -> (r: Self)
        ensures
            r@ == (TestCaseView {
                expected_decos: self@.expected_decos.push(plain(DecoKind::Call)),
                ..self@
            }),
    {
        self.expect(ExpectedDeco::call())
    }

    /// The test case with a call expected whose message holds `text`.
    #[must_use]
    pub fn expect_call_at(self, text: &str) -> (r: Self)
        ensures
            r@ == (TestCaseView {
                expected_decos: self@.expected_decos.push(plain_at(DecoKind::Call, text@)),
                ..self@
            }),
    {
        self.expect(ExpectedDeco::call().at_text(text))
    }

    /// The test case with a lifetime expected.
    #[must_use]
    pub fn expect_lifetime(self) -> (r: Self)
        ensures
            r@ == (TestCaseView {
                expected_decos: self@.expected_decos.push(plain(DecoKind::Lifetime)),
                ..self@
            }),
    {
        self.expect(ExpectedDeco::lifetime())
    }

    /// The test case with a lifetime expected whose message holds `text`.
    #[must_use]
    pub fn expect_lifetime_at(self, text: &str) -> (r: Self)
        ensures
            r@ == (TestCaseView {
                expected_decos: self@.expected_decos.push(plain_at(DecoKind::Lifetime, text@)),
                ..self@
            }),
    {
        self.expect(ExpectedDeco::lifetime().at_text(text))
    }

    /// The test case with a range with shared and mutable borrows expected.
    #[must_use]
    pub fn expect_shared_mut(self) -> (r: Self)
        ensures
            r@ == (TestCaseView {
                expected_decos: self@.expected_decos.push(plain(DecoKind::SharedMut)),
                ..self@
            }),
    {
        self.expect(ExpectedDeco::shared_mut())
    }

    /// The test case with a range in which the variable must live expected.
    #[must_use]
    pub fn expect_outlive(self) -> (r: Self)
        ensures
            r@ == (TestCaseView {
                expected_decos: self@.expected_decos.push(plain(DecoKind::Outlive)),
                ..self@
            }),
    {
        self.expect(ExpectedDeco::outlive())
    }

    /// The test case with one more kind that must not be shown.
    #[must_use]
    pub fn forbid(self, kind: DecoKind) -> (r: Self)
        ensures
            r@ == (TestCaseView { forbidden_decos: self@.forbidden_decos.push(kind), ..self@ }),
    {
        let mut this = self;
        this.forbidden_decos.push(kind);
        this
    }

    /// The test case with the kind of a move forbidden.
    #[must_use]
    pub fn forbid_move(self) -> (r: Self)
        ensures
            r@ == (TestCaseView {
                forbidden_decos: self@.forbidden_decos.push(DecoKind::Move),
                ..self@
            }),
    {
        self.forbid(DecoKind::Move)
    }

    /// The test case with the kind of a range in which the variable must live forbidden.
    #[must_use]
    pub fn forbid_outlive(self) -> (r: Self)
        ensures
            r@ == (TestCaseView {
                forbidden_decos: self@.forbidden_decos.push(DecoKind::Outlive),
                ..self@
            }),
    {
        self.forbid(DecoKind::Outlive)
    }

    /// The test case with the kind of an immutable borrow forbidden.
    #[must_use]
    pub fn forbid_imm_borrow(self) -> (r: Self)
        ensures
            r@ == (TestCaseView {
                forbidden_decos: self@.forbidden_decos.push(DecoKind::ImmBorrow),
                ..self@
            }),
    {
        self.forbid(DecoKind::ImmBorrow)
    }

    /// The test case with the kind of a mutable borrow forbidden.
    #[must_use]
    pub fn forbid_mut_borrow(self) -> (r: Self)
        ensures
            r@ == (TestCaseView {
                forbidden_decos: self@.forbidden_decos.push(DecoKind::MutBorrow),
                ..self@
            }),
    {
        self.forbid(DecoKind::MutBorrow)
    }
}

} // verus!
