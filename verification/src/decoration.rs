//! Decorations: the annotations shown for a variable, and their display
//! properties.

use crate::models::{FnLocal, Range};
use crate::text_conversion::{index_to_line_char, spec_index_to_line_char};
use vstd::prelude::*;
use vstd::string::StringExecFns;

verus! {

/// The kinds of decoration, in the order in which they are laid out.
#[derive(Debug, Clone, Copy, PartialEq, Eq, Hash, Structural)]
pub enum DecoKind {
    Lifetime,
    ImmBorrow,
    MutBorrow,
    Move,
    Call,
    SharedMut,
    Outlive,
}

impl DecoKind {
    /// The place of the kind in the layout order, from 0 to 6.
    pub open spec fn spec_order(self) -> int {
        match self {
            DecoKind::Lifetime => 0,
            DecoKind::ImmBorrow => 1,
            DecoKind::MutBorrow => 2,
            DecoKind::Move => 3,
            DecoKind::Call => 4,
            DecoKind::SharedMut => 5,
            DecoKind::Outlive => 6,
        }
    }

    /// The place of the kind in the layout order, from 0 to 6.
    pub fn order(self) -> (r: u8)
        ensures
            r == self.spec_order(),
    {
        match self {
            DecoKind::Lifetime => 0,
            DecoKind::ImmBorrow => 1,
            DecoKind::MutBorrow => 2,
            DecoKind::Move => 3,
            DecoKind::Call => 4,
            DecoKind::SharedMut => 5,
            DecoKind::Outlive => 6,
        }
    }

    /// The name of the kind in diagnostic codes.
    pub open spec fn spec_as_code(self) -> Seq<char> {
        match self {
            DecoKind::Lifetime => "lifetime"@,
            DecoKind::ImmBorrow => "imm-borrow"@,
            DecoKind::MutBorrow => "mut-borrow"@,
            DecoKind::Move => "move"@,
            DecoKind::Call => "call"@,
            DecoKind::SharedMut => "shared-mut"@,
            DecoKind::Outlive => "outlive"@,
        }
    }

    /// The name of the kind in diagnostic codes.
    #[must_use]
    pub fn as_code(&self) -> (r: &'static str)
        ensures
            r@ == self.spec_as_code(),
    {
        match self {
            DecoKind::Lifetime => "lifetime",
            DecoKind::ImmBorrow => "imm-borrow",
            DecoKind::MutBorrow => "mut-borrow",
            DecoKind::Move => "move",
            DecoKind::Call => "call",
            DecoKind::SharedMut => "shared-mut",
            DecoKind::Outlive => "outlive",
        }
    }

    /// The name of the kind, as it is displayed.
    pub fn to_string(&self) -> (r: String)
        ensures
            r@ == self.spec_as_code(),
    {
        self.as_code().to_owned()
    }
}

/// How prominently a decoration is shown.
#[derive(Debug, Clone, Copy, PartialEq, Eq, Hash, Structural)]
pub enum Severity {
    Error,
    Warning,
    Information,
    Hint,
}

/// A line and a column, both counted from zero.
#[derive(Debug, Clone, Copy, PartialEq, Eq, Hash, Structural)]
pub struct Position {
    pub line: u32,
    pub character: u32,
}

/// A range between two positions of a text.
#[derive(Debug, Clone, Copy, PartialEq, Eq, Hash, Structural)]
pub struct LineRange {
    pub start: Position,
    pub end: Position,
}

/// A decoration in the form in which an editor shows diagnostics.
#[derive(Debug, Clone, PartialEq, Eq)]
pub struct Diagnostic {
    pub range: LineRange,
    pub severity: Severity,
    pub code: String,
    pub source: String,
    pub message: String,
}

/// What a diagnostic holds, as plain values.
pub struct DiagnosticView {
    pub range: LineRange,
    pub severity: Severity,
    pub code: Seq<char>,
    pub source: Seq<char>,
    pub message: Seq<char>,
}

impl View for Diagnostic {
    type V = DiagnosticView;

    open spec fn view(&self) -> DiagnosticView {
        DiagnosticView {
            range: self.range,
            severity: self.severity,
            code: self.code@,
            source: self.source@,
            message: self.message@,
        }
    }
}

/// An annotation on a range of the source: what happens to a variable there.
#[derive(PartialEq, Eq, Debug)]
pub enum Deco<R = Range> {
    Lifetime { local: FnLocal, range: R, hover_text: String, overlapped: bool },
    ImmBorrow { local: FnLocal, range: R, hover_text: String, overlapped: bool },
    MutBorrow { local: FnLocal, range: R, hover_text: String, overlapped: bool },
    Move { local: FnLocal, range: R, hover_text: String, overlapped: bool },
    Call { local: FnLocal, range: R, hover_text: String, overlapped: bool },
    SharedMut { local: FnLocal, range: R, hover_text: String, overlapped: bool },
    Outlive { local: FnLocal, range: R, hover_text: String, overlapped: bool },
}

/// What a decoration holds, as plain values.
pub struct DecoView<R> {
    pub kind: DecoKind,
    pub local: FnLocal,
    pub range: R,
    pub hover_text: Seq<char>,
    pub overlapped: bool,
}

impl<R> View for Deco<R> {
    type V = DecoView<R>;

    open spec fn view(&self) -> DecoView<R> {
        match *self {
            Deco::Lifetime { local, range, hover_text, overlapped } => DecoView {
                kind: DecoKind::Lifetime,
                local,
                range,
                hover_text: hover_text@,
                overlapped,
            },
            Deco::ImmBorrow { local, range, hover_text, overlapped } => DecoView {
                kind: DecoKind::ImmBorrow,
                local,
                range,
                hover_text: hover_text@,
                overlapped,
            },
            Deco::MutBorrow { local, range, hover_text, overlapped } => DecoView {
                kind: DecoKind::MutBorrow,
                local,
                range,
                hover_text: hover_text@,
                overlapped,
            },
            Deco::Move { local, range, hover_text, overlapped } => DecoView {
                kind: DecoKind::Move,
                local,
                range,
                hover_text: hover_text@,
                overlapped,
            },
            Deco::Call { local, range, hover_text, overlapped } => DecoView {
                kind: DecoKind::Call,
                local,
                range,
                hover_text: hover_text@,
                overlapped,
            },
            Deco::SharedMut { local, range, hover_text, overlapped } => DecoView {
                kind: DecoKind::SharedMut,
                local,
                range,
                hover_text: hover_text@,
                overlapped,
            },
            Deco::Outlive { local, range, hover_text, overlapped } => DecoView {
                kind: DecoKind::Outlive,
                local,
                range,
                hover_text: hover_text@,
                overlapped,
            },
        }
    }
}

/// The severity with which a decoration of kind `kind` is shown.
pub open spec fn spec_severity(kind: DecoKind) -> Severity {
    match kind {
        DecoKind::Outlive => Severity::Error,
        DecoKind::SharedMut => Severity::Warning,
        DecoKind::Move => Severity::Warning,
        DecoKind::MutBorrow => Severity::Information,
        DecoKind::Call => Severity::Information,
        DecoKind::ImmBorrow => Severity::Hint,
        DecoKind::Lifetime => Severity::Hint,
    }
}

/// The name under which diagnostics are published.
pub open spec fn spec_source_name() -> Seq<char> {
    "rustowl"@
}

/// The diagnostic code of a decoration of kind `kind`: the source name, a
/// colon, and the name of the kind.
pub open spec fn spec_diagnostic_code(kind: DecoKind) -> Seq<char> {
    spec_source_name() + ":"@ + kind.spec_as_code()
}

impl<R> Deco<R> {
    /// Builds the decoration with the given contents.
    pub fn build(kind: DecoKind, local: FnLocal, range: R, hover_text: String, overlapped: bool) -> (r:
        Self)
        ensures
            r@ == (DecoView { kind, local, range, hover_text: hover_text@, overlapped }),
    {
        match kind {
            DecoKind::Lifetime => Deco::Lifetime { local, range, hover_text, overlapped },
            DecoKind::ImmBorrow => Deco::ImmBorrow { local, range, hover_text, overlapped },
            DecoKind::MutBorrow => Deco::MutBorrow { local, range, hover_text, overlapped },
            DecoKind::Move => Deco::Move { local, range, hover_text, overlapped },
            DecoKind::Call => Deco::Call { local, range, hover_text, overlapped },
            DecoKind::SharedMut => Deco::SharedMut { local, range, hover_text, overlapped },
            DecoKind::Outlive => Deco::Outlive { local, range, hover_text, overlapped },
        }
    }

    /// The kind of the decoration.
    pub fn kind(&self) -> (r: DecoKind)
        ensures
            r == self@.kind,
    {
        match self {
            Deco::Lifetime { .. } => DecoKind::Lifetime,
            Deco::ImmBorrow { .. } => DecoKind::ImmBorrow,
            Deco::MutBorrow { .. } => DecoKind::MutBorrow,
            Deco::Move { .. } => DecoKind::Move,
            Deco::Call { .. } => DecoKind::Call,
            Deco::SharedMut { .. } => DecoKind::SharedMut,
            Deco::Outlive { .. } => DecoKind::Outlive,
        }
    }

    /// The variable that the decoration is about.
    pub fn local(&self) -> (r: FnLocal)
        ensures
            r == self@.local,
    {
        match self {
            Deco::Lifetime { local, .. } => *local,
            Deco::ImmBorrow { local, .. } => *local,
            Deco::MutBorrow { local, .. } => *local,
            Deco::Move { local, .. } => *local,
            Deco::Call { local, .. } => *local,
            Deco::SharedMut { local, .. } => *local,
            Deco::Outlive { local, .. } => *local,
        }
    }

    /// Whether the decoration was clipped to the part that a later
    /// decoration shares with it.
    pub fn overlapped(&self) -> (r: bool)
        ensures
            r == self@.overlapped,
    {
        match self {
            Deco::Lifetime { overlapped, .. } => *overlapped,
            Deco::ImmBorrow { overlapped, .. } => *overlapped,
            Deco::MutBorrow { overlapped, .. } => *overlapped,
            Deco::Move { overlapped, .. } => *overlapped,
            Deco::Call { overlapped, .. } => *overlapped,
            Deco::SharedMut { overlapped, .. } => *overlapped,
            Deco::Outlive { overlapped, .. } => *overlapped,
        }
    }

    /// Whether the decoration is shown as a diagnostic: every kind but
    /// `Lifetime`.
    pub fn should_show_as_diagnostic(&self) -> (r: bool)
        ensures
            r == (self@.kind != DecoKind::Lifetime),
    {
        match self {
            Deco::Lifetime { .. } => false,
            _ => true,
        }
    }

    /// The severity with which the decoration is shown.
    pub fn diagnostic_severity(&self) -> (r: Severity)
        ensures
            r == spec_severity(self@.kind),
    {
        match self {
            Deco::Outlive { .. } => Severity::Error,
            Deco::SharedMut { .. } | Deco::Move { .. } => Severity::Warning,
            Deco::MutBorrow { .. } | Deco::Call { .. } => Severity::Information,
            Deco::ImmBorrow { .. } | Deco::Lifetime { .. } => Severity::Hint,
        }
    }

    /// The text shown when hovering over the decoration.
    pub fn hover_text(&self) -> (r: &str)
        ensures
            r@ == self@.hover_text,
    {
        match self {
            Deco::Lifetime { hover_text, .. } => hover_text.as_str(),
            Deco::ImmBorrow { hover_text, .. } => hover_text.as_str(),
            Deco::MutBorrow { hover_text, .. } => hover_text.as_str(),
            Deco::Move { hover_text, .. } => hover_text.as_str(),
            Deco::Call { hover_text, .. } => hover_text.as_str(),
            Deco::SharedMut { hover_text, .. } => hover_text.as_str(),
            Deco::Outlive { hover_text, .. } => hover_text.as_str(),
        }
    }

    /// The diagnostic code of the decoration.
    pub fn diagnostic_code(&self) -> (r: String)
        ensures
            r@ == spec_diagnostic_code(self@.kind),
    {
        let mut code = "rustowl".to_owned();
        code.append(":");
        code.append(self.kind().as_code());
        code
    }
}

/// The line range between the positions of the two bounds of `range` in the
/// text.
pub open spec fn spec_convert_range(text: Seq<char>, range: Range) -> LineRange {
    let start = spec_index_to_line_char(text, range.lo());
    let end = spec_index_to_line_char(text, range.hi());
    LineRange {
        start: Position { line: start.0 as u32, character: start.1 as u32 },
        end: Position { line: end.0 as u32, character: end.1 as u32 },
    }
}

/// The decoration as a diagnostic: its range, severity and code, the
/// source name, and the hover text as the message.
pub open spec fn spec_diagnostic(d: DecoView<LineRange>) -> DiagnosticView {
    DiagnosticView {
        range: d.range,
        severity: spec_severity(d.kind),
        code: spec_diagnostic_code(d.kind),
        source: spec_source_name(),
        message: d.hover_text,
    }
}

impl Deco<LineRange> {
    /// The decoration as a diagnostic: its range, severity and code, the
    /// source name, and the hover text as the message.
    #[must_use]
    pub fn to_diagnostic(&self) -> (r: Diagnostic)
        ensures
            r@ == spec_diagnostic(self@),
    {
        Diagnostic {
            range: self.lsp_range(),
            severity: self.diagnostic_severity(),
            code: self.diagnostic_code(),
            source: "rustowl".to_owned(),
            message: self.hover_text().to_owned(),
        }
    }

    fn lsp_range(&self) -> (r: LineRange)
        ensures
            r == self@.range,
    {
        match self {
            Deco::Lifetime { range, .. } => *range,
            Deco::ImmBorrow { range, .. } => *range,
            Deco::MutBorrow { range, .. } => *range,
            Deco::Move { range, .. } => *range,
            Deco::Call { range, .. } => *range,
            Deco::SharedMut { range, .. } => *range,
            Deco::Outlive { range, .. } => *range,
        }
    }
}

impl Deco<Range> {
    fn convert_range(s: &str, range: Range) -> (r: LineRange)
        ensures
            r == spec_convert_range(s@, range),
    {
        let start = index_to_line_char(s, range.from());
        let end = index_to_line_char(s, range.until());
        LineRange {
            start: Position { line: start.0, character: start.1 },
            end: Position { line: end.0, character: end.1 },
        }
    }

    /// The source range of the decoration.
    pub fn range(&self) -> (r: Range)
        ensures
            r == self@.range,
    {
        match self {
            Deco::Lifetime { range, .. } => *range,
            Deco::ImmBorrow { range, .. } => *range,
            Deco::MutBorrow { range, .. } => *range,
            Deco::Move { range, .. } => *range,
            Deco::Call { range, .. } => *range,
            Deco::SharedMut { range, .. } => *range,
            Deco::Outlive { range, .. } => *range,
        }
    }

    /// The source range of the decoration and whether it was clipped.
    pub fn range_and_overlapped(&self) -> (r: (Range, bool))
        ensures
            r.0 == self@.range,
            r.1 == self@.overlapped,
    {
        (self.range(), self.overlapped())
    }

    /// A decoration of the same kind, variable and text on another range.
    pub fn with_range(&self, new_range: Range, overlapped: bool) -> (r: Self)
        ensures
            r@ == (DecoView { range: new_range, overlapped, ..self@ }),
    {
        Deco::build(self.kind(), self.local(), new_range, self.hover_text().to_owned(), overlapped)
    }

    /// Whether the two decorations hold the same values.
    pub fn same_as(&self, other: &Self) -> (r: bool)
        ensures
            r == (self@ == other@),
    {
        let same_kind = self.kind().order() == other.kind().order();
        let a = self.local();
        let b = other.local();
        let ra = self.range();
        let rb = other.range();
        proof {
            crate::models::lemma_range_ext(ra);
            crate::models::lemma_range_ext(rb);
        }
        same_kind && a.id == b.id && a.fn_id == b.fn_id && ra.from().0 == rb.from().0
            && ra.until().0 == rb.until().0 && self.overlapped() == other.overlapped()
            && crate::strings::str_eq(self.hover_text(), other.hover_text())
    }

    /// The decoration with its range given in lines and columns of the
    /// text `s`.
    #[must_use]
    pub fn to_lsp_range(&self, s: &str) -> (r: Deco<LineRange>)
        ensures
            r@ == (DecoView {
                kind: self@.kind,
                local: self@.local,
                range: spec_convert_range(s@, self@.range),
                hover_text: self@.hover_text,
                overlapped: self@.overlapped,
            }),
    {
        Deco::build(
            self.kind(),
            self.local(),
            Self::convert_range(s, self.range()),
            self.hover_text().to_owned(),
            self.overlapped(),
        )
    }
}

impl Clone for Deco<Range> {
    fn clone(&self) -> (r: Self)
        ensures
            r@ == self@,
    {
        self.with_range(self.range(), self.overlapped())
    }
}

impl Clone for Deco<LineRange> {
    fn clone(&self) -> (r: Self)
        ensures
            r@ == self@,
    {
        Deco::build(
            self.kind(),
            self.local(),
            self.lsp_range(),
            self.hover_text().to_owned(),
            self.overlapped(),
        )
    }
}

/// The decorations of a list, as plain values.
pub open spec fn decos_view(s: Seq<Deco>) -> Seq<DecoView<Range>> {
    s.map_values(|d: Deco| d@)
}

} // verus!
