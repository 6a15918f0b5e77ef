//! Walking the analysis result of a function in a fixed order.

use crate::models::{
    BasicBlockView, Function, FunctionView, MirDecl, MirDeclView, MirStatement, MirTerminator,
};
use vstd::prelude::*;

verus! {

/// A visitor of a function's result.  Each method says, through the
/// matching spec function, how it changes the visitor's state.
pub trait MirVisitor {
    /// What the visitor has gathered, as plain values.
    type State;

    /// The state of the visitor.
    spec fn state(&self) -> Self::State;

    /// The state after the function itself was seen.
    spec fn on_func(s: Self::State, func: FunctionView) -> Self::State;

    /// The state after a declaration was seen.
    spec fn on_decl(s: Self::State, decl: MirDeclView) -> Self::State;

    /// The state after a statement was seen.
    spec fn on_stmt(s: Self::State, stmt: MirStatement) -> Self::State;

    /// The state after a terminator was seen.
    spec fn on_term(s: Self::State, term: MirTerminator) -> Self::State;

    fn visit_func(&mut self, func: &Function)
        ensures
            final(self).state() == Self::on_func(old(self).state(), func@),
    ;

    fn visit_decl(&mut self, decl: &MirDecl)
        ensures
            final(self).state() == Self::on_decl(old(self).state(), decl@),
    ;

    fn visit_stmt(&mut self, stmt: &MirStatement)
        ensures
            final(self).state() == Self::on_stmt(old(self).state(), *stmt),
    ;

    fn visit_term(&mut self, term: &MirTerminator)
        ensures
            final(self).state() == Self::on_term(old(self).state(), *term),
    ;
}

/// The state after the first `n` declarations were seen, in order.
pub open spec fn visit_decls<V: MirVisitor>(s: V::State, decls: Seq<MirDeclView>, n: int) -> V::State
    decreases n,
{
    if n <= 0 || n > decls.len() {
        s
    } else {
        V::on_decl(visit_decls::<V>(s, decls, n - 1), decls[n - 1])
    }
}

/// The state after the first `n` statements were seen, in order.
pub open spec fn visit_stmts<V: MirVisitor>(s: V::State, stmts: Seq<MirStatement>, n: int) -> V::State
    decreases n,
{
    if n <= 0 || n > stmts.len() {
        s
    } else {
        V::on_stmt(visit_stmts::<V>(s, stmts, n - 1), stmts[n - 1])
    }
}

/// The state after a block was seen: its statements in order, then its
/// terminator if it has one.
pub open spec fn visit_block<V: MirVisitor>(s: V::State, block: BasicBlockView) -> V::State {
    let after = visit_stmts::<V>(s, block.statements, block.statements.len() as int);
    match block.terminator {
        Some(term) => V::on_term(after, term),
        None => after,
    }
}

/// The state after the first `n` blocks were seen, in order.
pub open spec fn visit_blocks<V: MirVisitor>(s: V::State, blocks: Seq<BasicBlockView>, n: int) -> V::State
    decreases n,
{
    if n <= 0 || n > blocks.len() {
        s
    } else {
        visit_block::<V>(visit_blocks::<V>(s, blocks, n - 1), blocks[n - 1])
    }
}

/// The state after a whole function was seen: the function itself, its
/// declarations in order, then its blocks in order.
pub open spec fn spec_mir_visit<V: MirVisitor>(s: V::State, func: FunctionView) -> V::State {
    let after_func = V::on_func(s, func);
    let after_decls = visit_decls::<V>(after_func, func.decls, func.decls.len() as int);
    visit_blocks::<V>(after_decls, func.basic_blocks, func.basic_blocks.len() as int)
}

/// Shows the function to the visitor: the function itself, each
/// declaration in order, then for each block its statements in order and
/// its terminator.
pub fn mir_visit<V: MirVisitor>(func: &Function, visitor: &mut V)
    ensures
        final(visitor).state() == spec_mir_visit::<V>(old(visitor).state(), func@),
{
    visitor.visit_func(func);
    let mut i: usize = 0;
    while i < func.decls.len()
        invariant
            i <= func.decls@.len(),
            visitor.state() == visit_decls::<V>(
                V::on_func(old(visitor).state(), func@),
                func@.decls,
                i as int,
            ),
        decreases func.decls.len() - i,
    {
        visitor.visit_decl(&func.decls[i]);
        i += 1;
    }
    let ghost after_decls = visitor.state();
    let mut b: usize = 0;
    while b < func.basic_blocks.len()
        invariant
            b <= func.basic_blocks@.len(),
            visitor.state() == visit_blocks::<V>(after_decls, func@.basic_blocks, b as int),
        decreases func.basic_blocks.len() - b,
    {
        let block = &func.basic_blocks[b];
        let ghost before = visitor.state();
        let mut k: usize = 0;
        while k < block.statements.len()
            invariant
                k <= block.statements@.len(),
                visitor.state() == visit_stmts::<V>(before, block@.statements, k as int),
            decreases block.statements.len() - k,
        {
            visitor.visit_stmt(&block.statements[k]);
            k += 1;
        }
        if let Some(term) = &block.terminator {
            visitor.visit_term(term);
        }
        b += 1;
    }
}

} // verus!
