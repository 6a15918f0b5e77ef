//! Synthesising the decorations of the selected variables.

use crate::decoration::{decos_view, Deco, DecoKind, DecoView};
use crate::models::{
    clone_ranges, FnLocal, Function, FunctionView, MirDecl, MirDeclView, MirRval, MirStatement,
    MirTerminator, Range,
};
use crate::range_ops::{
    eliminated_ranges, exclude_ranges, intersect_ranges, is_super_range, spec_eliminated_ranges,
    spec_exclude_ranges, spec_intersect_ranges, spec_is_super_range,
};
use crate::overlap::{
    process_overlap, resolve_overlaps, sort_by_kind, spec_handle_overlapping,
    spec_process_overlap, spec_sort_by_kind,
};
use crate::visitor::MirVisitor;
use vstd::prelude::*;
use vstd::string::StringExecFns;

verus! {

/// The state of the synthesis, as plain values.
pub struct CalcView {
    pub locals: Set<FnLocal>,
    pub decorations: Seq<DecoView<Range>>,
    pub current_fn_id: u32,
}

/// How a variable is called in hover texts.
pub open spec fn var_text(name: Option<Seq<char>>) -> Seq<char> {
    match name {
        Some(n) => "variable `"@ + n + "`"@,
        None => "anonymous variable"@,
    }
}

/// One decoration of kind `kind` for each range, in order, none clipped.
pub open spec fn ranged_decos(
    ranges: Seq<Range>,
    kind: DecoKind,
    local: FnLocal,
    text: Seq<char>,
) -> Seq<DecoView<Range>> {
    ranges.map_values(
        |r: Range| DecoView { kind, local, range: r, hover_text: text, overlapped: false },
    )
}

/// The ranges in which the variable of `decl` is alive: where its value is
/// live until dropped if it is dropped, else where it is live, flattened.
pub open spec fn live_ranges(decl: MirDeclView) -> Seq<Range> {
    spec_eliminated_ranges(
        if decl.drop {
            decl.drop_range
        } else {
            decl.lives
        },
    )
}

/// The decorations that a declaration gives: a `Lifetime` for each range in
/// which the variable is alive, a `SharedMut` for each range in which a
/// shared and a mutable borrow of it are both alive, and an `Outlive` for
/// each range in which it must live outside the ranges in which it is alive.
pub open spec fn decl_decos(decl: MirDeclView) -> Seq<DecoView<Range>> {
    let var = var_text(decl.name);
    ranged_decos(live_ranges(decl), DecoKind::Lifetime, decl.local, "lifetime of "@ + var)
        + ranged_decos(
        spec_intersect_ranges(decl.shared_borrow, decl.mutable_borrow),
        DecoKind::SharedMut,
        decl.local,
        "immutable and mutable borrows of "@ + var + " exist here"@,
    ) + ranged_decos(
        spec_exclude_ranges(decl.must_live_at, live_ranges(decl)),
        DecoKind::Outlive,
        decl.local,
        var + " is required to live here"@,
    )
}

/// The synthesis after a declaration: the function of the declaration is
/// noted, and a selected variable gets its decorations.
pub open spec fn calc_on_decl(s: CalcView, decl: MirDeclView) -> CalcView {
    let noted = CalcView { current_fn_id: decl.local.fn_id, ..s };
    if s.locals.contains(decl.local) {
        CalcView { decorations: s.decorations + decl_decos(decl), ..noted }
    } else {
        noted
    }
}

/// The synthesis after a statement: a move or a borrow of a selected
/// variable gets a decoration on the range of the expression.
pub open spec fn calc_on_stmt(s: CalcView, stmt: MirStatement) -> CalcView {
    match stmt {
        MirStatement::Assign { rval: Some(MirRval::Move { target_local, range }), .. } => {
            if s.locals.contains(target_local) {
                CalcView {
                    decorations: s.decorations.push(
                        DecoView {
                            kind: DecoKind::Move,
                            local: target_local,
                            range,
                            hover_text: "variable moved"@,
                            overlapped: false,
                        },
                    ),
                    ..s
                }
            } else {
                s
            }
        },
        MirStatement::Assign {
            rval: Some(MirRval::Borrow { target_local, range, mutable, .. }),
            ..
        } => {
            if s.locals.contains(target_local) {
                CalcView {
                    decorations: s.decorations.push(
                        if mutable {
                            DecoView {
                                kind: DecoKind::MutBorrow,
                                local: target_local,
                                range,
                                hover_text: "mutable borrow"@,
                                overlapped: false,
                            }
                        } else {
                            DecoView {
                                kind: DecoKind::ImmBorrow,
                                local: target_local,
                                range,
                                hover_text: "immutable borrow"@,
                                overlapped: false,
                            }
                        },
                    ),
                    ..s
                }
            } else {
                s
            }
        },
        _ => s,
    }
}

/// Some `Call` decoration among the first `n` reaches over `span` and
/// further.
pub open spec fn has_outer_call(ds: Seq<DecoView<Range>>, span: Range) -> bool {
    exists|i: int|
        0 <= i < ds.len() && (#[trigger] ds[i]).kind == DecoKind::Call && spec_is_super_range(
            ds[i].range,
            span,
        )
}

/// The first `n` decorations without the `Call` decorations that `span`
/// reaches over and further.
pub open spec fn without_inner_calls(ds: Seq<DecoView<Range>>, span: Range, n: int) -> Seq<
    DecoView<Range>,
>
    decreases n,
{
    if n <= 0 || n > ds.len() {
        Seq::empty()
    } else if ds[n - 1].kind == DecoKind::Call && spec_is_super_range(span, ds[n - 1].range) {
        without_inner_calls(ds, span, n - 1)
    } else {
        without_inner_calls(ds, span, n - 1).push(ds[n - 1])
    }
}

/// The synthesis after a terminator.  A call that assigns to a selected
/// variable gets a `Call` decoration on the call expression, unless a
/// `Call` decoration on a wider expression is there; the `Call` decorations
/// on narrower expressions leave.
pub open spec fn calc_on_term(s: CalcView, term: MirTerminator) -> CalcView {
    match term {
        MirTerminator::Call { destination_local, fn_span } => {
            if !s.locals.contains(destination_local) {
                s
            } else if has_outer_call(s.decorations, fn_span) {
                s
            } else {
                CalcView {
                    decorations: without_inner_calls(
                        s.decorations,
                        fn_span,
                        s.decorations.len() as int,
                    ).push(
                        DecoView {
                            kind: DecoKind::Call,
                            local: destination_local,
                            range: fn_span,
                            hover_text: "function call"@,
                            overlapped: false,
                        },
                    ),
                    ..s
                }
            }
        },
        _ => s,
    }
}

/// Gathers the decorations of the selected variables while a function's
/// result is walked.
#[derive(Debug)]
pub struct CalcDecos {
    locals: Vec<FnLocal>,
    decorations: Vec<Deco>,
    current_fn_id: u32,
}

impl View for CalcDecos {
    type V = CalcView;

    closed spec fn view(&self) -> CalcView {
        CalcView {
            locals: self.locals@.to_set(),
            decorations: decos_view(self.decorations@),
            current_fn_id: self.current_fn_id,
        }
    }
}

fn push_ranged(out: &mut Vec<Deco>, ranges: &Vec<Range>, kind: DecoKind, local: FnLocal, text: &str)
    ensures
        decos_view(final(out)@) == decos_view(old(out)@) + ranged_decos(ranges@, kind, local, text@),
{
    let mut i: usize = 0;
    while i < ranges.len()
        invariant
            i <= ranges@.len(),
            decos_view(out@) == decos_view(old(out)@) + ranged_decos(
                ranges@.take(i as int),
                kind,
                local,
                text@,
            ),
        decreases ranges.len() - i,
    {
        let ghost before = decos_view(out@);
        let deco = Deco::build(kind, local, ranges[i], text.to_owned(), false);
        out.push(deco);
        assert(decos_view(out@) =~= before.push(deco@));
        assert(ranged_decos(ranges@.take(i + 1), kind, local, text@) =~= ranged_decos(
            ranges@.take(i as int),
            kind,
            local,
            text@,
        ).push(deco@));
        i += 1;
    }
    assert(ranges@.take(ranges@.len() as int) =~= ranges@);
}

impl CalcDecos {
    /// A synthesis for the variables `locals`, with no decoration yet.
    pub fn new(locals: Vec<FnLocal>) -> (r: Self)
        ensures
            r@ == (CalcView {
                locals: locals@.to_set(),
                decorations: Seq::empty(),
                current_fn_id: 0,
            }),
    {
        let r = Self { locals, decorations: Vec::new(), current_fn_id: 0 };
        assert(decos_view(r.decorations@) =~= Seq::empty());
        r
    }

    fn is_selected(&self, local: FnLocal) -> (r: bool)
        ensures
            r == self@.locals.contains(local),
    {
        let mut i: usize = 0;
        while i < self.locals.len()
            invariant
                i <= self.locals@.len(),
                forall|k: int| 0 <= k < i ==> self.locals@[k] != local,
            decreases self.locals.len() - i,
        {
            if self.locals[i] == local {
                return true;
            }
            i += 1;
        }
        false
    }

    fn push_deco(&mut self, kind: DecoKind, local: FnLocal, range: Range, text: &str)
        ensures
            final(self)@ == (CalcView {
                decorations: old(self)@.decorations.push(
                    DecoView { kind, local, range, hover_text: text@, overlapped: false },
                ),
                ..old(self)@
            }),
    {
        let ghost before = decos_view(self.decorations@);
        let deco = Deco::build(kind, local, range, text.to_owned(), false);
        self.decorations.push(deco);
        assert(decos_view(self.decorations@) =~= before.push(deco@));
    }

    /// The place of the kind of `deco` in the layout order.
    pub fn get_deco_order(deco: &Deco) -> (r: u8)
        ensures
            r == deco@.kind.spec_order(),
    {
        deco.kind().order()
    }

    /// Orders the decorations by kind, keeping those of one kind in the
    /// order in which they came.
    pub fn sort_by_definition(&mut self)
        ensures
            final(self)@ == (CalcView {
                decorations: spec_sort_by_kind(old(self)@.decorations),
                ..old(self)@
            }),
    {
        let sorted = sort_by_kind(&self.decorations);
        self.decorations = sorted;
    }

    /// Splits an earlier decoration by the range of a later one.
    pub fn process_overlap(prev: &Deco, current_range: Range) -> (r: Option<(Deco, Vec<Deco>)>)
        ensures
            match r {
                None => spec_process_overlap(prev@, current_range) is None,
                Some((clipped, rest)) => spec_process_overlap(prev@, current_range) == Some(
                    (clipped@, decos_view(rest@)),
                ),
            },
    {
        process_overlap(prev, current_range)
    }

    /// Lays the decorations out: ordered by kind, without equal
    /// decorations, and with every overlap made explicit.  Where a later
    /// decoration shares offsets with an earlier one that is not clipped
    /// yet, the earlier one is clipped to the shared part and marked, and
    /// what is left of it follows it as new decorations.
    pub fn handle_overlapping(&mut self)
        ensures
            final(self)@ == (CalcView {
                decorations: spec_handle_overlapping(old(self)@.decorations),
                ..old(self)@
            }),
    {
        self.sort_by_definition();
        let result = resolve_overlaps(&self.decorations);
        self.decorations = result;
    }

    /// The decorations gathered so far.
    #[must_use]
    pub fn decorations(self) -> (r: Vec<Deco>)
        ensures
            decos_view(r@) == self@.decorations,
    {
        self.decorations
    }
}

fn var_str(name: Option<&String>) -> (r: String)
    ensures
        r@ == var_text(
            match name {
                Some(n) => Some(n@),
                None => None,
            },
        ),
{
    match name {
        Some(n) => {
            let mut text = "variable `".to_owned();
            text.append(n.as_str());
            text.append("`");
            text
        },
        None => "anonymous variable".to_owned(),
    }
}

impl MirVisitor for CalcDecos {
    type State = CalcView;

    open spec fn state(&self) -> CalcView {
        self@
    }

    open spec fn on_func(s: CalcView, func: FunctionView) -> CalcView {
        s
    }

    open spec fn on_decl(s: CalcView, decl: MirDeclView) -> CalcView {
        calc_on_decl(s, decl)
    }

    open spec fn on_stmt(s: CalcView, stmt: MirStatement) -> CalcView {
        calc_on_stmt(s, stmt)
    }

    open spec fn on_term(s: CalcView, term: MirTerminator) -> CalcView {
        calc_on_term(s, term)
    }

    fn visit_func(&mut self, func: &Function) {
    }

    fn visit_decl(&mut self, decl: &MirDecl) {
        let (local, lives, shared_borrow, mutable_borrow, drop_range, must_live_at, name, drop) =
            match decl {
            MirDecl::User {
                local,
                name,
                lives,
                shared_borrow,
                mutable_borrow,
                drop_range,
                must_live_at,
                drop,
                ..
            } => (
                *local,
                lives,
                shared_borrow,
                mutable_borrow,
                drop_range,
                must_live_at,
                Some(name),
                *drop,
            ),
            MirDecl::Other {
                local,
                lives,
                shared_borrow,
                mutable_borrow,
                drop_range,
                must_live_at,
                drop,
                ..
            } => (
                *local,
                lives,
                shared_borrow,
                mutable_borrow,
                drop_range,
                must_live_at,
                None,
                *drop,
            ),
        };
        self.current_fn_id = local.fn_id;
        if self.is_selected(local) {
            let var = var_str(name);
            let drop_copy_live = if drop {
                eliminated_ranges(clone_ranges(drop_range))
            } else {
                eliminated_ranges(clone_ranges(lives))
            };
            let mut lifetime_text = "lifetime of ".to_owned();
            lifetime_text.append(var.as_str());
            push_ranged(
                &mut self.decorations,
                &drop_copy_live,
                DecoKind::Lifetime,
                local,
                lifetime_text.as_str(),
            );
            let shared_mut = intersect_ranges(shared_borrow, mutable_borrow);
            let mut shared_text = "immutable and mutable borrows of ".to_owned();
            shared_text.append(var.as_str());
            shared_text.append(" exist here");
            push_ranged(
                &mut self.decorations,
                &shared_mut,
                DecoKind::SharedMut,
                local,
                shared_text.as_str(),
            );
            let outlive = exclude_ranges(clone_ranges(must_live_at), &drop_copy_live);
            let mut outlive_text = var;
            outlive_text.append(" is required to live here");
            push_ranged(
                &mut self.decorations,
                &outlive,
                DecoKind::Outlive,
                local,
                outlive_text.as_str(),
            );
            assert(self@.decorations =~= old(self)@.decorations + decl_decos(decl@));
        }
    }

    fn visit_stmt(&mut self, stmt: &MirStatement) {
        if let MirStatement::Assign { rval, .. } = stmt {
            match rval {
                Some(MirRval::Move { target_local, range }) => {
                    if self.is_selected(*target_local) {
                        self.push_deco(DecoKind::Move, *target_local, *range, "variable moved");
                    }
                },
                Some(MirRval::Borrow { target_local, range, mutable, .. }) => {
                    if self.is_selected(*target_local) {
                        if *mutable {
                            self.push_deco(
                                DecoKind::MutBorrow,
                                *target_local,
                                *range,
                                "mutable borrow",
                            );
                        } else {
                            self.push_deco(
                                DecoKind::ImmBorrow,
                                *target_local,
                                *range,
                                "immutable borrow",
                            );
                        }
                    }
                },
                _ => {},
            }
        }
    }

    fn visit_term(&mut self, term: &MirTerminator) {
        if let MirTerminator::Call { destination_local, fn_span } = term {
            if self.is_selected(*destination_local) {
                if self.has_wider_call(*fn_span) {
                    return ;
                }
                self.drop_narrower_calls(*fn_span);
                self.push_deco(DecoKind::Call, *destination_local, *fn_span, "function call");
            }
        }
    }
}

impl CalcDecos {
    fn has_wider_call(&self, span: Range) -> (r: bool)
        ensures
            r == has_outer_call(self@.decorations, span),
    {
        let mut i: usize = 0;
        while i < self.decorations.len()
            invariant
                i <= self.decorations@.len(),
                forall|k: int|
                    0 <= k < i ==> !((#[trigger] decos_view(self.decorations@)[k]).kind
                        == DecoKind::Call && spec_is_super_range(
                        decos_view(self.decorations@)[k].range,
                        span,
                    )),
            decreases self.decorations.len() - i,
        {
            let deco = &self.decorations[i];
            if deco.kind().order() == DecoKind::Call.order() && is_super_range(deco.range(), span) {
                assert(decos_view(self.decorations@)[i as int].kind == DecoKind::Call
                    && spec_is_super_range(decos_view(self.decorations@)[i as int].range, span));
                return true;
            }
            i += 1;
        }
        false
    }

    fn drop_narrower_calls(&mut self, span: Range)
        ensures
            final(self)@ == (CalcView {
                decorations: without_inner_calls(
                    old(self)@.decorations,
                    span,
                    old(self)@.decorations.len() as int,
                ),
                ..old(self)@
            }),
    {
        let mut kept: Vec<Deco> = Vec::new();
        let mut j: usize = 0;
        while j < self.decorations.len()
            invariant
                j <= self.decorations@.len(),
                self.decorations@ == old(self).decorations@,
                self.locals@ == old(self).locals@,
                self.current_fn_id == old(self).current_fn_id,
                decos_view(kept@) == without_inner_calls(
                    decos_view(self.decorations@),
                    span,
                    j as int,
                ),
            decreases self.decorations.len() - j,
        {
            let deco = &self.decorations[j];
            if !(deco.kind().order() == DecoKind::Call.order() && is_super_range(
                span,
                deco.range(),
            )) {
                let ghost before = decos_view(kept@);
                let copy = deco.clone();
                kept.push(copy);
                assert(decos_view(kept@) =~= before.push(copy@));
            }
            j += 1;
        }
        self.decorations = kept;
    }
}

} // verus!
