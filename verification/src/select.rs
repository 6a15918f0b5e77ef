//! Choosing the variable under the cursor.

use crate::models::{
    FnLocal, Function, FunctionView, Loc, MirDecl, MirDeclView, MirRval, MirStatement,
    MirTerminator, Range,
};
use crate::strings::str_eq;
use crate::visitor::MirVisitor;
use vstd::prelude::*;

verus! {

/// Why a variable was chosen: the cursor is on its declaration, on a move or
/// a borrow of it, or on a call that assigns to it.
#[derive(Clone, Copy, Debug, PartialEq, Eq, Structural)]
pub enum SelectReason {
    Var,
    Move,
    Borrow,
    Call,
}

/// The state of a selection, as plain values.
pub struct SelectView {
    pub pos: Loc,
    pub candidates: Seq<FnLocal>,
    pub selected: Option<(SelectReason, FnLocal, Range)>,
}

/// Whether `ty` is the type of a variable that the compiler makes for the
/// state of an async function; such a variable is no candidate.
pub open spec fn is_plumbing_type(ty: Seq<char>) -> bool {
    ty == "std::future::ResumeTy"@ || ty == "impl std::future::Future<Output = ()>"@
}

/// Whether a new event replaces the current choice.  A declaration site
/// replaces anything wider, and nothing but a narrower declaration site
/// replaces a declaration site; a move or a borrow replaces a wider move,
/// borrow or call; a call replaces a narrower call only.
pub open spec fn replaces(
    old_reason: SelectReason,
    old_range: Range,
    reason: SelectReason,
    range: Range,
) -> bool {
    let new_size = range.hi() - range.lo();
    let old_size = old_range.hi() - old_range.lo();
    match reason {
        SelectReason::Var => new_size < old_size,
        SelectReason::Move | SelectReason::Borrow => old_reason != SelectReason::Var && new_size
            < old_size,
        SelectReason::Call => old_reason == SelectReason::Call && old_size < new_size,
    }
}

/// The selection after an event on `range` that touches `local`: nothing
/// changes unless the variable is a candidate and the cursor is in the
/// range or at its end; then the event is chosen if nothing was, or if it
/// replaces the current choice.
pub open spec fn spec_select(
    s: SelectView,
    reason: SelectReason,
    local: FnLocal,
    range: Range,
) -> SelectView {
    if !s.candidates.contains(local) {
        s
    } else if !(range.lo() <= s.pos.0 <= range.hi()) {
        s
    } else {
        match s.selected {
            None => SelectView { selected: Some((reason, local, range)), ..s },
            Some((old_reason, _, old_range)) => if replaces(old_reason, old_range, reason, range) {
                SelectView { selected: Some((reason, local, range)), ..s }
            } else {
                s
            },
        }
    }
}

/// The selection after a declaration: the variable becomes a candidate
/// unless its type is compiler plumbing, and the declaration site of a
/// user-named variable is an event.
pub open spec fn select_on_decl(s: SelectView, decl: MirDeclView) -> SelectView {
    if is_plumbing_type(decl.ty) {
        s
    } else {
        let with_candidate = SelectView { candidates: s.candidates.push(decl.local), ..s };
        match decl.span {
            Some(span) => spec_select(with_candidate, SelectReason::Var, decl.local, span),
            None => with_candidate,
        }
    }
}

/// The selection after a statement: an assignment that moves or borrows a
/// variable is an event on that variable.
pub open spec fn select_on_stmt(s: SelectView, stmt: MirStatement) -> SelectView {
    match stmt {
        MirStatement::Assign { rval: Some(MirRval::Move { target_local, range }), .. } => spec_select(
            s,
            SelectReason::Move,
            target_local,
            range,
        ),
        MirStatement::Assign {
            rval: Some(MirRval::Borrow { target_local, range, .. }),
            ..
        } => spec_select(s, SelectReason::Borrow, target_local, range),
        _ => s,
    }
}

/// The selection after a terminator: a call is an event on its
/// destination.
pub open spec fn select_on_term(s: SelectView, term: MirTerminator) -> SelectView {
    match term {
        MirTerminator::Call { destination_local, fn_span } => spec_select(
            s,
            SelectReason::Call,
            destination_local,
            fn_span,
        ),
        _ => s,
    }
}

/// Once the cursor was found on a declaration site, no move, borrow or call
/// changes the choice.
pub proof fn law_declaration_site_stays(
    s: SelectView,
    reason: SelectReason,
    local: FnLocal,
    range: Range,
)
    requires
        s.selected matches Some(choice) && choice.0 == SelectReason::Var,
        reason != SelectReason::Var,
    ensures
        spec_select(s, reason, local, range) == s,
{
}

/// A declaration site that holds the cursor and is chosen first stays
/// chosen whatever move, borrow or call follows, however narrow.
pub proof fn law_declaration_site_wins(
    s: SelectView,
    local: FnLocal,
    span: Range,
    reason: SelectReason,
    other: FnLocal,
    range: Range,
)
    requires
        s.selected is None,
        s.candidates.contains(local),
        span.lo() <= s.pos.0 <= span.hi(),
        reason != SelectReason::Var,
    ensures
        spec_select(spec_select(s, SelectReason::Var, local, span), reason, other, range).selected
            == Some((SelectReason::Var, local, span)),
{
}

/// Picks the variable under a cursor while a function's result is walked.
#[derive(Debug)]
pub struct SelectLocal {
    pos: Loc,
    candidate_local_decls: Vec<FnLocal>,
    selected: Option<(SelectReason, FnLocal, Range)>,
}

impl View for SelectLocal {
    type V = SelectView;

    closed spec fn view(&self) -> SelectView {
        SelectView {
            pos: self.pos,
            candidates: self.candidate_local_decls@,
            selected: self.selected,
        }
    }
}

impl SelectLocal {
    /// A selection for the cursor at `pos`, with no candidate and no choice.
    #[must_use]
    pub fn new(pos: Loc) -> (r: Self)
        ensures
            r@ == (SelectView { pos, candidates: Seq::empty(), selected: None }),
    {
        Self { pos, candidate_local_decls: Vec::new(), selected: None }
    }

    fn is_candidate(&self, local: FnLocal) -> (r: bool)
        ensures
            r == self@.candidates.contains(local),
    {
        let mut i: usize = 0;
        while i < self.candidate_local_decls.len()
            invariant
                i <= self.candidate_local_decls@.len(),
                forall|k: int| 0 <= k < i ==> self.candidate_local_decls@[k] != local,
            decreases self.candidate_local_decls.len() - i,
        {
            if self.candidate_local_decls[i] == local {
                return true;
            }
            i += 1;
        }
        false
    }

    /// Takes an event on `range` that touches `local` into account.
    pub fn select(&mut self, reason: SelectReason, local: FnLocal, range: Range)
        ensures
            final(self)@ == spec_select(old(self)@, reason, local, range),
    {
        if !self.is_candidate(local) {
            return ;
        }
        if range.from().0 <= self.pos.0 && self.pos.0 <= range.until().0 {
            if let Some((old_reason, _, old_range)) = self.selected {
                let wins = match reason {
                    SelectReason::Var => range.size() < old_range.size(),
                    SelectReason::Move | SelectReason::Borrow => match old_reason {
                        SelectReason::Var => false,
                        _ => range.size() < old_range.size(),
                    },
                    SelectReason::Call => match old_reason {
                        SelectReason::Call => old_range.size() < range.size(),
                        _ => false,
                    },
                };
                if wins {
                    self.selected = Some((reason, local, range));
                }
            } else {
                self.selected = Some((reason, local, range));
            }
        }
    }

    /// The chosen variable, if there is one.
    #[must_use]
    pub fn selected(&self) -> (r: Option<FnLocal>)
        ensures
            r == match self@.selected {
                Some(choice) => Some(choice.1),
                None => None,
            },
    {
        match self.selected {
            Some(choice) => Some(choice.1),
            None => None,
        }
    }
}

fn is_async_resume_ty(ty: &str) -> (r: bool)
    ensures
        r == is_plumbing_type(ty@),
{
    str_eq(ty, "std::future::ResumeTy") || str_eq(ty, "impl std::future::Future<Output = ()>")
}

impl MirVisitor for SelectLocal {
    type State = SelectView;

    open spec fn state(&self) -> SelectView {
        self@
    }

    open spec fn on_func(s: SelectView, func: FunctionView) -> SelectView {
        s
    }

    open spec fn on_decl(s: SelectView, decl: MirDeclView) -> SelectView {
        select_on_decl(s, decl)
    }

    open spec fn on_stmt(s: SelectView, stmt: MirStatement) -> SelectView {
        select_on_stmt(s, stmt)
    }

    open spec fn on_term(s: SelectView, term: MirTerminator) -> SelectView {
        select_on_term(s, term)
    }

    fn visit_func(&mut self, func: &Function) {
    }

    fn visit_decl(&mut self, decl: &MirDecl) {
        match decl {
            MirDecl::User { local, ty, span, .. } => {
                if is_async_resume_ty(ty.as_str()) {
                    return ;
                }
                self.candidate_local_decls.push(*local);
                self.select(SelectReason::Var, *local, *span);
            },
            MirDecl::Other { local, ty, .. } => {
                if is_async_resume_ty(ty.as_str()) {
                    return ;
                }
                self.candidate_local_decls.push(*local);
            },
        }
    }

    fn visit_stmt(&mut self, stmt: &MirStatement) {
        if let MirStatement::Assign { rval, .. } = stmt {
            match rval {
                Some(MirRval::Move { target_local, range }) => {
                    self.select(SelectReason::Move, *target_local, *range);
                },
                Some(MirRval::Borrow { target_local, range, .. }) => {
                    self.select(SelectReason::Borrow, *target_local, *range);
                },
                _ => {},
            }
        }
    }

    fn visit_term(&mut self, term: &MirTerminator) {
        if let MirTerminator::Call { destination_local, fn_span } = term {
            self.select(SelectReason::Call, *destination_local, *fn_span);
        }
    }
}

} // verus!
