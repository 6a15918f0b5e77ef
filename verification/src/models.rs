//! The data model: positions, ranges, and the per-function analysis result.

use crate::assoc::{
    as_map, has_key, index_of_key, keys_unique, lemma_as_map_at, lemma_as_map_len,
    lemma_as_map_push, lemma_as_map_update,
};
use crate::strings::str_eq;
use crate::text_conversion::{char_offset, spec_char_offset};
use vstd::prelude::*;

verus! {

/// A local variable of one function: the slot index and the owning function.
#[derive(Debug, Clone, Copy, PartialEq, Eq, Hash, Structural)]
pub struct FnLocal {
    pub id: u32,
    pub fn_id: u32,
}

impl FnLocal {
    /// The variable in slot `id` of the function `fn_id`.
    #[must_use]
    pub fn new(id: u32, fn_id: u32) -> (r: Self)
        ensures
            r.id == id,
            r.fn_id == fn_id,
    {
        Self { id, fn_id }
    }
}

/// A character offset into a file's text.
#[derive(Clone, Copy, PartialEq, Eq, PartialOrd, Ord, Debug, Structural)]
pub struct Loc(pub u32);

impl Loc {
    /// The character offset of the byte position `byte_pos` in `source`,
    /// a file that starts at byte `offset`; carriage returns do not count.
    #[must_use]
    pub fn new(source: &str, byte_pos: u32, offset: u32) -> (r: Self)
        ensures
            r.0 == spec_char_offset(source@, byte_pos as int, offset as int),
    {
        Loc(char_offset(source, byte_pos, offset))
    }

    /// The offset moved by `rhs` characters, clamped to the `u32` range.
    pub open spec fn spec_add(self, rhs: int) -> Loc {
        let sum = self.0 + rhs;
        if sum < 0 {
            Loc(0)
        } else if sum > u32::MAX {
            Loc(u32::MAX)
        } else {
            Loc(sum as u32)
        }
    }

    /// Moves the offset forward by `rhs` (backward if negative), saturating
    /// at zero and at `u32::MAX`.
    pub fn add(self, rhs: i32) -> (r: Self)
        ensures
            r == self.spec_add(rhs as int),
    {
        let sum: i64 = self.0 as i64 + rhs as i64;
        Self::clamped(sum)
    }

    /// Moves the offset backward by `rhs` (forward if negative), saturating
    /// at zero and at `u32::MAX`.
    pub fn sub(self, rhs: i32) -> (r: Self)
        ensures
            r == self.spec_add(-(rhs as int)),
    {
        let diff: i64 = self.0 as i64 - rhs as i64;
        Self::clamped(diff)
    }

    fn clamped(value: i64) -> (r: Self)
        ensures
            r == Loc(0).spec_add(value as int),
    {
        if value < 0 {
            Loc(0)
        } else if value > u32::MAX as i64 {
            Loc(u32::MAX)
        } else {
            Loc(value as u32)
        }
    }
}

/// A half-open interval `[from, until)` of offsets; never empty.
#[derive(Clone, Copy, PartialEq, Eq, Debug, Structural)]
pub struct Range {
    from: Loc,
    until: Loc,
}

impl Range {
    #[verifier::type_invariant]
    spec fn inv(self) -> bool {
        self.from.0 < self.until.0
    }

    /// The first offset of the interval.
    pub closed spec fn lo(self) -> int {
        self.from.0 as int
    }

    /// The first offset past the interval.
    pub closed spec fn hi(self) -> int {
        self.until.0 as int
    }

    /// Whether the interval holds at least one offset.
    pub open spec fn wf(self) -> bool {
        self.lo() < self.hi()
    }

    /// The interval with the given bounds, which need not be in order.
    pub closed spec fn spec_new(lo: int, hi: int) -> Range {
        Range { from: Loc(lo as u32), until: Loc(hi as u32) }
    }

    /// The interval `[from, until)`, or `None` when it would be empty.
    #[must_use]
    pub fn new(from: Loc, until: Loc) -> (r: Option<Self>)
        ensures
            r is Some <==> from.0 < until.0,
            r is Some ==> r->0.lo() == from.0 && r->0.hi() == until.0,
    {
        if until.0 <= from.0 {
            None
        } else {
            Some(Self { from, until })
        }
    }

    /// The first offset of the range.
    #[must_use]
    pub fn from(self) -> (r: Loc)
        ensures
            r.0 == self.lo(),
            self.wf(),
    {
        proof {
            use_type_invariant(&self);
        }
        self.from
    }

    /// The first offset after the range.
    #[must_use]
    pub fn until(self) -> (r: Loc)
        ensures
            r.0 == self.hi(),
            self.wf(),
    {
        proof {
            use_type_invariant(&self);
        }
        self.until
    }

    /// The number of offsets in the interval.
    #[must_use]
    pub fn size(self) -> (r: u32)
        ensures
            r == self.hi() - self.lo(),
            r > 0,
    {
        proof {
            use_type_invariant(&self);
        }
        self.until.0 - self.from.0
    }
}

} // verus!

verus! {

/// Copies a list of ranges.
pub fn clone_ranges(v: &Vec<Range>) -> (r: Vec<Range>)
    ensures
        r@ == v@,
{
    let mut out: Vec<Range> = Vec::new();
    let mut i: usize = 0;
    while i < v.len()
        invariant
            i <= v.len(),
            out@ == v@.subrange(0, i as int),
        decreases v.len() - i,
    {
        out.push(v[i]);
        assert(out@ == v@.subrange(0, i + 1));
        i += 1;
    }
    assert(v@.subrange(0, v.len() as int) == v@);
    out
}

/// The live and dead spans of one variable slot.
#[derive(Clone, Copy, PartialEq, Eq, Debug, Structural)]
pub enum MirVariable {
    User { index: u32, live: Range, dead: Range },
    Other { index: u32, live: Range, dead: Range },
}

impl MirVariable {
    /// The slot index of the variable.
    pub open spec fn spec_index(self) -> u32 {
        match self {
            MirVariable::User { index, .. } => index,
            MirVariable::Other { index, .. } => index,
        }
    }

    /// The slot index of the variable.
    pub fn index(&self) -> (r: u32)
        ensures
            r == self.spec_index(),
    {
        match self {
            MirVariable::User { index, .. } => *index,
            MirVariable::Other { index, .. } => *index,
        }
    }
}

/// Whether some element of `vars` has slot index `index`.
pub open spec fn has_index(vars: Seq<MirVariable>, index: u32) -> bool {
    exists|i: int| 0 <= i < vars.len() && (#[trigger] vars[i]).spec_index() == index
}

/// A set of variables keyed by slot index; the first one pushed for an
/// index is the one kept.
#[derive(PartialEq, Eq, Debug)]
pub struct MirVariables {
    vars: Vec<MirVariable>,
}

impl Clone for MirVariables {
    fn clone(&self) -> (r: Self)
        ensures
            r@ == self@,
    {
        proof {
            use_type_invariant(self);
        }
        let mut vars: Vec<MirVariable> = Vec::new();
        let mut i: usize = 0;
        while i < self.vars.len()
            invariant
                i <= self.vars@.len(),
                vars@ == self.vars@.subrange(0, i as int),
            decreases self.vars.len() - i,
        {
            vars.push(self.vars[i]);
            assert(vars@ == self.vars@.subrange(0, i + 1));
            i += 1;
        }
        assert(self.vars@.subrange(0, self.vars@.len() as int) == self.vars@);
        Self { vars }
    }
}

impl View for MirVariables {
    type V = Seq<MirVariable>;

    closed spec fn view(&self) -> Seq<MirVariable> {
        self.vars@
    }
}

impl Default for MirVariables {
    fn default() -> (r: Self)
        ensures
            r@ == Seq::<MirVariable>::empty(),
    {
        Self::new()
    }
}

impl MirVariables {
    /// No two variables share a slot index.
    #[verifier::type_invariant]
    pub closed spec fn wf(&self) -> bool {
        forall|i: int, j: int|
            0 <= i < j < self.vars@.len() ==> (#[trigger] self.vars@[i]).spec_index() != (
            #[trigger] self.vars@[j]).spec_index()
    }

    /// An empty collection.
    #[must_use]
    pub fn new() -> (r: Self)
        ensures
            r@ == Seq::<MirVariable>::empty(),
    {
        Self { vars: Vec::new() }
    }

    /// Adds `var` unless a variable with the same slot index is present.
    pub fn push(&mut self, var: MirVariable)
        ensures
            final(self)@ == if has_index(old(self)@, var.spec_index()) {
                old(self)@
            } else {
                old(self)@.push(var)
            },
    {
        proof {
            use_type_invariant(&*self);
        }
        let index = var.index();
        let mut i: usize = 0;
        while i < self.vars.len()
            invariant
                i <= self.vars@.len(),
                self.vars@ == old(self).vars@,
                index == var.spec_index(),
                forall|k: int| 0 <= k < i ==> (#[trigger] self.vars@[k]).spec_index() != index,
            decreases self.vars.len() - i,
        {
            if self.vars[i].index() == index {
                return ;
            }
            i += 1;
        }
        let mut taken = Self::new();
        core::mem::swap(self, &mut taken);
        let mut vars = taken.vars;
        vars.push(var);
        *self = Self { vars };
    }

    /// The variables in the order in which they were first pushed; no two
    /// of them share a slot index.
    #[must_use]
    pub fn to_vec(self) -> (r: Vec<MirVariable>)
        ensures
            r@ == self@,
            forall|i: int, j: int|
                0 <= i < j < r@.len() ==> (#[trigger] r@[i]).spec_index() != (
                #[trigger] r@[j]).spec_index(),
    {
        proof {
            use_type_invariant(&self);
        }
        self.vars
    }
}

/// The right-hand side of an assignment that moves or borrows a variable.
#[derive(Clone, Copy, PartialEq, Eq, Debug, Structural)]
pub enum MirRval {
    Move { target_local: FnLocal, range: Range },
    Borrow { target_local: FnLocal, range: Range, mutable: bool, outlive: Option<Range> },
}

/// One statement of a basic block.
#[derive(Clone, Copy, PartialEq, Eq, Debug, Structural)]
pub enum MirStatement {
    StorageLive { target_local: FnLocal, range: Range },
    StorageDead { target_local: FnLocal, range: Range },
    Assign { target_local: FnLocal, range: Range, rval: Option<MirRval> },
    Other { range: Range },
}

impl MirStatement {
    /// The source range of the statement.
    pub open spec fn spec_range(self) -> Range {
        match self {
            MirStatement::StorageLive { range, .. } => range,
            MirStatement::StorageDead { range, .. } => range,
            MirStatement::Assign { range, .. } => range,
            MirStatement::Other { range } => range,
        }
    }

    /// The source range of the statement.
    #[must_use]
    pub fn range(&self) -> (r: Range)
        ensures
            r == self.spec_range(),
    {
        match self {
            MirStatement::StorageLive { range, .. } => *range,
            MirStatement::StorageDead { range, .. } => *range,
            MirStatement::Assign { range, .. } => *range,
            MirStatement::Other { range } => *range,
        }
    }
}

/// The terminator of a basic block.
#[derive(Clone, Copy, PartialEq, Eq, Debug, Structural)]
pub enum MirTerminator {
    Drop { local: FnLocal, range: Range },
    Call { destination_local: FnLocal, fn_span: Range },
    Other { range: Range },
}

impl MirTerminator {
    /// The source range of the terminator; for a call, the call expression.
    pub open spec fn spec_range(self) -> Range {
        match self {
            MirTerminator::Call { fn_span, .. } => fn_span,
            MirTerminator::Drop { range, .. } => range,
            MirTerminator::Other { range } => range,
        }
    }

    /// The source range of the terminator; for a call, the call expression.
    #[must_use]
    pub fn range(&self) -> (r: Range)
        ensures
            r == self.spec_range(),
    {
        match self {
            MirTerminator::Call { fn_span, .. } => *fn_span,
            MirTerminator::Drop { range, .. } => *range,
            MirTerminator::Other { range } => *range,
        }
    }
}

/// One basic block: its statements in order and its terminator.
#[derive(Debug)]
pub struct MirBasicBlock {
    pub statements: Vec<MirStatement>,
    pub terminator: Option<MirTerminator>,
}

/// What a basic block holds, as plain values.
pub struct BasicBlockView {
    pub statements: Seq<MirStatement>,
    pub terminator: Option<MirTerminator>,
}

impl View for MirBasicBlock {
    type V = BasicBlockView;

    open spec fn view(&self) -> BasicBlockView {
        BasicBlockView { statements: self.statements@, terminator: self.terminator }
    }
}

impl Clone for MirBasicBlock {
    fn clone(&self) -> (r: Self)
        ensures
            r@ == self@,
    {
        let mut statements: Vec<MirStatement> = Vec::new();
        let mut i: usize = 0;
        while i < self.statements.len()
            invariant
                i <= self.statements@.len(),
                statements@ == self.statements@.subrange(0, i as int),
            decreases self.statements.len() - i,
        {
            statements.push(self.statements[i]);
            assert(statements@ == self.statements@.subrange(0, i + 1));
            i += 1;
        }
        assert(self.statements@.subrange(0, self.statements@.len() as int) == self.statements@);
        MirBasicBlock { statements, terminator: self.terminator }
    }
}

/// The declaration of one variable with the ranges computed for it.
#[derive(Debug)]
pub enum MirDecl {
    User {
        local: FnLocal,
        name: String,
        span: Range,
        ty: String,
        lives: Vec<Range>,
        shared_borrow: Vec<Range>,
        mutable_borrow: Vec<Range>,
        drop: bool,
        drop_range: Vec<Range>,
        must_live_at: Vec<Range>,
    },
    Other {
        local: FnLocal,
        ty: String,
        lives: Vec<Range>,
        shared_borrow: Vec<Range>,
        mutable_borrow: Vec<Range>,
        drop: bool,
        drop_range: Vec<Range>,
        must_live_at: Vec<Range>,
    },
}

/// What a declaration holds, as plain values.  A user-named variable has a
/// name and a declaration site; a compiler-made one has neither.
pub struct MirDeclView {
    pub local: FnLocal,
    pub name: Option<Seq<char>>,
    pub span: Option<Range>,
    pub ty: Seq<char>,
    pub lives: Seq<Range>,
    pub shared_borrow: Seq<Range>,
    pub mutable_borrow: Seq<Range>,
    pub drop: bool,
    pub drop_range: Seq<Range>,
    pub must_live_at: Seq<Range>,
}

impl View for MirDecl {
    type V = MirDeclView;

    open spec fn view(&self) -> MirDeclView {
        match *self {
            MirDecl::User {
                local,
                name,
                span,
                ty,
                lives,
                shared_borrow,
                mutable_borrow,
                drop,
                drop_range,
                must_live_at,
            } => MirDeclView {
                local,
                name: Some(name@),
                span: Some(span),
                ty: ty@,
                lives: lives@,
                shared_borrow: shared_borrow@,
                mutable_borrow: mutable_borrow@,
                drop,
                drop_range: drop_range@,
                must_live_at: must_live_at@,
            },
            MirDecl::Other {
                local,
                ty,
                lives,
                shared_borrow,
                mutable_borrow,
                drop,
                drop_range,
                must_live_at,
            } => MirDeclView {
                local,
                name: None,
                span: None,
                ty: ty@,
                lives: lives@,
                shared_borrow: shared_borrow@,
                mutable_borrow: mutable_borrow@,
                drop,
                drop_range: drop_range@,
                must_live_at: must_live_at@,
            },
        }
    }
}

impl Clone for MirDecl {
    fn clone(&self) -> (r: Self)
        ensures
            r@ == self@,
    {
        match self {
            MirDecl::User {
                local,
                name,
                span,
                ty,
                lives,
                shared_borrow,
                mutable_borrow,
                drop,
                drop_range,
                must_live_at,
            } => MirDecl::User {
                local: *local,
                name: name.clone(),
                span: *span,
                ty: ty.clone(),
                lives: clone_ranges(lives),
                shared_borrow: clone_ranges(shared_borrow),
                mutable_borrow: clone_ranges(mutable_borrow),
                drop: *drop,
                drop_range: clone_ranges(drop_range),
                must_live_at: clone_ranges(must_live_at),
            },
            MirDecl::Other {
                local,
                ty,
                lives,
                shared_borrow,
                mutable_borrow,
                drop,
                drop_range,
                must_live_at,
            } => MirDecl::Other {
                local: *local,
                ty: ty.clone(),
                lives: clone_ranges(lives),
                shared_borrow: clone_ranges(shared_borrow),
                mutable_borrow: clone_ranges(mutable_borrow),
                drop: *drop,
                drop_range: clone_ranges(drop_range),
                must_live_at: clone_ranges(must_live_at),
            },
        }
    }
}

/// The basic blocks of a list, as plain values.
pub open spec fn blocks_view(s: Seq<MirBasicBlock>) -> Seq<BasicBlockView> {
    s.map_values(|b: MirBasicBlock| b@)
}

/// The declarations of a list, as plain values.
pub open spec fn decls_view(s: Seq<MirDecl>) -> Seq<MirDeclView> {
    s.map_values(|d: MirDecl| d@)
}

/// The analysis result of one function.
#[derive(Debug)]
pub struct Function {
    pub fn_id: u32,
    pub basic_blocks: Vec<MirBasicBlock>,
    pub decls: Vec<MirDecl>,
}

/// What a function's result holds, as plain values.
pub struct FunctionView {
    pub fn_id: u32,
    pub basic_blocks: Seq<BasicBlockView>,
    pub decls: Seq<MirDeclView>,
}

impl View for Function {
    type V = FunctionView;

    open spec fn view(&self) -> FunctionView {
        FunctionView {
            fn_id: self.fn_id,
            basic_blocks: blocks_view(self.basic_blocks@),
            decls: decls_view(self.decls@),
        }
    }
}

impl Clone for Function {
    fn clone(&self) -> (r: Self)
        ensures
            r@ == self@,
    {
        let mut basic_blocks: Vec<MirBasicBlock> = Vec::new();
        let mut i: usize = 0;
        while i < self.basic_blocks.len()
            invariant
                i <= self.basic_blocks@.len(),
                basic_blocks@.len() == i,
                forall|k: int| 0 <= k < i ==> (#[trigger] basic_blocks@[k])@ == self.basic_blocks@[k]@,
            decreases self.basic_blocks.len() - i,
        {
            basic_blocks.push(self.basic_blocks[i].clone());
            i += 1;
        }
        let mut decls: Vec<MirDecl> = Vec::new();
        let mut j: usize = 0;
        while j < self.decls.len()
            invariant
                j <= self.decls@.len(),
                decls@.len() == j,
                forall|k: int| 0 <= k < j ==> (#[trigger] decls@[k])@ == self.decls@[k]@,
            decreases self.decls.len() - j,
        {
            decls.push(self.decls[j].clone());
            j += 1;
        }
        assert(blocks_view(basic_blocks@) =~= blocks_view(self.basic_blocks@));
        assert(decls_view(decls@) =~= decls_view(self.decls@));
        Function { fn_id: self.fn_id, basic_blocks, decls }
    }
}

/// An item of a file with its source span.
#[derive(Clone, Debug)]
pub enum Item {
    Function { span: Range, mir: Function },
}

/// The functions of a list, as plain values.
pub open spec fn functions_view(s: Seq<Function>) -> Seq<FunctionView> {
    s.map_values(|f: Function| f@)
}

/// The index of the first function before index `n` with identifier
/// `fn_id`, searching from index `j`.
pub open spec fn first_with_id(items: Seq<FunctionView>, fn_id: u32, j: int) -> Option<int>
    decreases items.len() - j,
{
    if j < 0 || j >= items.len() {
        None
    } else if items[j].fn_id == fn_id {
        Some(j)
    } else {
        first_with_id(items, fn_id, j + 1)
    }
}

/// The list with `g` in the place of the function that has its identifier,
/// or at the end if there is none.
pub open spec fn upsert_fn(items: Seq<FunctionView>, g: FunctionView) -> Seq<FunctionView> {
    match first_with_id(items, g.fn_id, 0) {
        Some(i) => items.update(i, g),
        None => items.push(g),
    }
}

/// The list with the first `n` functions of `new` put in, one after the
/// other.
pub open spec fn merge_items(items: Seq<FunctionView>, new: Seq<FunctionView>, n: int) -> Seq<
    FunctionView,
>
    decreases n,
{
    if n <= 0 || n > new.len() {
        items
    } else {
        upsert_fn(merge_items(items, new, n - 1), new[n - 1])
    }
}

/// No two functions of the list have the same identifier.
pub open spec fn ids_unique(items: Seq<FunctionView>) -> bool {
    forall|i: int, j: int|
        0 <= i < j < items.len() ==> (#[trigger] items[i]).fn_id != (#[trigger] items[j]).fn_id
}

/// What `first_with_id` finds has the identifier, and nothing before it has.
pub proof fn lemma_first_with_id(items: Seq<FunctionView>, fn_id: u32, j: int)
    requires
        0 <= j,
    ensures
        match first_with_id(items, fn_id, j) {
            Some(k) => j <= k < items.len() && items[k].fn_id == fn_id,
            None => forall|m: int| j <= m < items.len() ==> (#[trigger] items[m]).fn_id != fn_id,
        },
    decreases items.len() - j,
{
    if j < items.len() && items[j].fn_id != fn_id {
        lemma_first_with_id(items, fn_id, j + 1);
    }
}

/// Putting a function into a list without repeated identifiers leaves it
/// without repeated identifiers.
pub proof fn law_upsert_keeps_ids_unique(items: Seq<FunctionView>, g: FunctionView)
    requires
        ids_unique(items),
    ensures
        ids_unique(upsert_fn(items, g)),
{
    lemma_first_with_id(items, g.fn_id, 0);
    let out = upsert_fn(items, g);
    assert forall|i: int, j: int| 0 <= i < j < out.len() implies (#[trigger] out[i]).fn_id != (
    #[trigger] out[j]).fn_id by {
        match first_with_id(items, g.fn_id, 0) {
            Some(k) => {
                assert(out[i].fn_id == items[i].fn_id);
                assert(out[j].fn_id == items[j].fn_id);
            },
            None => {
                if j < items.len() {
                    assert(out[i] == items[i]);
                    assert(out[j] == items[j]);
                } else {
                    assert(out[i] == items[i]);
                }
            },
        }
    }
}

/// Merging into a list without repeated identifiers leaves it without
/// repeated identifiers: a function that comes again replaces the earlier
/// entry.
pub proof fn law_merge_keeps_ids_unique(items: Seq<FunctionView>, new: Seq<FunctionView>, n: int)
    requires
        ids_unique(items),
    ensures
        ids_unique(merge_items(items, new, n)),
    decreases n,
{
    if 0 < n <= new.len() {
        law_merge_keeps_ids_unique(items, new, n - 1);
        law_upsert_keeps_ids_unique(merge_items(items, new, n - 1), new[n - 1]);
    }
}

/// The analysed functions of one source file.
#[derive(Debug)]
pub struct File {
    pub items: Vec<Function>,
}

impl View for File {
    type V = Seq<FunctionView>;

    open spec fn view(&self) -> Seq<FunctionView> {
        functions_view(self.items@)
    }
}

impl Clone for File {
    fn clone(&self) -> (r: Self)
        ensures
            r@ == self@,
    {
        let mut items: Vec<Function> = Vec::new();
        let mut i: usize = 0;
        while i < self.items.len()
            invariant
                i <= self.items@.len(),
                items@.len() == i,
                forall|k: int| 0 <= k < i ==> (#[trigger] items@[k])@ == self.items@[k]@,
            decreases self.items.len() - i,
        {
            items.push(self.items[i].clone());
            i += 1;
        }
        assert(functions_view(items@) =~= functions_view(self.items@));
        File { items }
    }
}

impl File {
    /// Puts `f` in the place of the function with its identifier, or at the
    /// end if the file has none.
    pub fn upsert(&mut self, f: Function)
        ensures
            final(self)@ == upsert_fn(old(self)@, f@),
    {
        let mut i: usize = 0;
        while i < self.items.len()
            invariant
                i <= self.items@.len(),
                self.items@ == old(self).items@,
                first_with_id(self@, f.fn_id, 0) == first_with_id(self@, f.fn_id, i as int),
            decreases self.items.len() - i,
        {
            if self.items[i].fn_id == f.fn_id {
                let ghost before = self@;
                self.items.set(i, f);
                assert(self@ =~= before.update(i as int, f@));
                return ;
            }
            i += 1;
        }
        let ghost before = self@;
        self.items.push(f);
        assert(self@ =~= before.push(f@));
    }

    /// Puts a copy of every function of `other` into this file, in order.
    pub fn merge(&mut self, other: &File)
        ensures
            final(self)@ == merge_items(old(self)@, other@, other@.len() as int),
    {
        let mut n: usize = 0;
        while n < other.items.len()
            invariant
                n <= other.items@.len(),
                self@ == merge_items(old(self)@, other@, n as int),
            decreases other.items.len() - n,
        {
            self.upsert(other.items[n].clone());
            n += 1;
        }
    }
}

/// The pairs of a crate's list, as plain values.
pub open spec fn files_view(s: Seq<(String, File)>) -> Seq<(Seq<char>, Seq<FunctionView>)> {
    s.map_values(|e: (String, File)| (e.0@, e.1@))
}

/// The files of both crates.  Each file of the second is merged into the
/// file that the first holds at its path, or into an empty file: so a
/// function that comes twice is kept once, in its last form.
pub open spec fn merge_crates(
    a: Map<Seq<char>, Seq<FunctionView>>,
    b: Map<Seq<char>, Seq<FunctionView>>,
) -> Map<Seq<char>, Seq<FunctionView>> {
    Map::new(
        |k: Seq<char>| a.dom().contains(k) || b.dom().contains(k),
        |k: Seq<char>|
            if b.dom().contains(k) {
                merge_items(
                    if a.dom().contains(k) {
                        a[k]
                    } else {
                        Seq::empty()
                    },
                    b[k],
                    b[k].len() as int,
                )
            } else {
                a[k]
            },
    )
}

/// In every file of the crate, no two functions have the same identifier.
pub open spec fn crate_ids_unique(c: Map<Seq<char>, Seq<FunctionView>>) -> bool {
    forall|k: Seq<char>| c.dom().contains(k) ==> ids_unique(#[trigger] c[k])
}

/// Merging a crate into one whose files hold each function once gives a
/// crate whose files hold each function once, whatever the second crate
/// holds.
pub proof fn law_merge_crates_ids_unique(
    a: Map<Seq<char>, Seq<FunctionView>>,
    b: Map<Seq<char>, Seq<FunctionView>>,
)
    requires
        crate_ids_unique(a),
    ensures
        crate_ids_unique(merge_crates(a, b)),
{
    let m = merge_crates(a, b);
    assert forall|k: Seq<char>| m.dom().contains(k) implies ids_unique(#[trigger] m[k]) by {
        if b.dom().contains(k) {
            let base = if a.dom().contains(k) {
                a[k]
            } else {
                Seq::<FunctionView>::empty()
            };
            law_merge_keeps_ids_unique(base, b[k], b[k].len() as int);
        }
    }
}

/// The analysed files of one crate, by path.
#[derive(Debug)]
pub struct Crate {
    files: Vec<(String, File)>,
}

impl View for Crate {
    type V = Map<Seq<char>, Seq<FunctionView>>;

    closed spec fn view(&self) -> Map<Seq<char>, Seq<FunctionView>> {
        as_map(files_view(self.files@))
    }
}

impl Crate {
    /// No path occurs twice.
    #[verifier::type_invariant]
    pub closed spec fn wf(&self) -> bool {
        keys_unique(files_view(self.files@))
    }

    /// A crate without files.
    #[must_use]
    pub fn new() -> (r: Self)
        ensures
            r@ == Map::<Seq<char>, Seq<FunctionView>>::empty(),
    {
        let r = Crate { files: Vec::new() };
        assert(r@ =~= Map::<Seq<char>, Seq<FunctionView>>::empty());
        r
    }

    fn position(&self, path: &str) -> (r: Option<usize>)
        ensures
            match r {
                Some(i) => i < self.files@.len() && self.files@[i as int].0@ == path@,
                None => !has_key(files_view(self.files@), path@),
            },
    {
        let mut i: usize = 0;
        while i < self.files.len()
            invariant
                i <= self.files@.len(),
                forall|k: int| 0 <= k < i ==> (#[trigger] files_view(self.files@)[k]).0 != path@,
            decreases self.files.len() - i,
        {
            if str_eq(self.files[i].0.as_str(), path) {
                return Some(i);
            }
            i += 1;
        }
        None
    }

    /// The number of files.
    pub fn len(&self) -> (r: usize)
        ensures
            r == self@.dom().len(),
            self@.dom().finite(),
    {
        proof {
            use_type_invariant(self);
            lemma_as_map_len(files_view(self.files@));
        }
        self.files.len()
    }

    /// Whether the crate has no file.
    pub fn is_empty(&self) -> (r: bool)
        ensures
            r == (self@.dom().len() == 0),
            self@.dom().finite(),
    {
        self.len() == 0
    }

    /// Whether the crate has a file at `path`.
    pub fn contains_key(&self, path: &str) -> (r: bool)
        ensures
            r == self@.dom().contains(path@),
    {
        match self.position(path) {
            Some(i) => {
                assert(files_view(self.files@)[i as int].0 == path@);
                true
            },
            None => false,
        }
    }

    /// The file at `path`, if the crate has it.
    pub fn get(&self, path: &str) -> (r: Option<&File>)
        ensures
            r is Some == self@.dom().contains(path@),
            r is Some ==> r->0@ == self@[path@],
    {
        match self.position(path) {
            Some(i) => {
                proof {
                    use_type_invariant(self);
                    lemma_as_map_at(files_view(self.files@), i as int);
                }
                Some(&self.files[i].1)
            },
            None => None,
        }
    }

    /// Sets the file at `path`, replacing the one that was there.
    pub fn insert(&mut self, path: String, file: File)
        ensures
            final(self)@ == old(self)@.insert(path@, file@),
    {
        proof {
            use_type_invariant(&*self);
        }
        let found = self.position(path.as_str());
        let mut taken = Self::new();
        core::mem::swap(self, &mut taken);
        let mut files = taken.files;
        let ghost before = files_view(files@);
        match found {
            Some(i) => {
                proof {
                    lemma_as_map_update(before, i as int, file@);
                }
                files.set(i, (path, file));
                assert(files_view(files@) =~= before.update(i as int, (before[i as int].0, file@)));
            },
            None => {
                proof {
                    lemma_as_map_push(before, path@, file@);
                }
                files.push((path, file));
                assert(files_view(files@) =~= before.push((path@, file@)));
            },
        }
        *self = Crate { files };
    }

    /// The paths and files in the order in which the paths first came.
    pub closed spec fn spec_entries(&self) -> Seq<(String, File)> {
        self.files@
    }

    /// The paths and files in the order in which the paths first came; no
    /// path comes twice.
    pub fn entries(&self) -> (r: &Vec<(String, File)>)
        ensures
            r@ == self.spec_entries(),
            as_map(files_view(r@)) == self@,
            keys_unique(files_view(r@)),
    {
        proof {
            use_type_invariant(self);
        }
        &self.files
    }

    /// Takes the files of `other` in: each function of a file of `other`
    /// replaces the function with its identifier in the file at the same
    /// path, or joins the end of that file.
    pub fn merge(&mut self, other: Self)
        ensures
            final(self)@ == merge_crates(old(self)@, other@),
    {
        proof {
            use_type_invariant(&other);
        }
        let ghost theirs = files_view(other.files@);
        let mut n: usize = 0;
        while n < other.files.len()
            invariant
                n <= other.files@.len(),
                theirs == files_view(other.files@),
                keys_unique(theirs),
                self@ == merge_crates(old(self)@, as_map(theirs.take(n as int))),
            decreases other.files.len() - n,
        {
            let ghost done = theirs.take(n as int);
            let path = other.files[n].0.clone();
            let mut merged = match self.get(path.as_str()) {
                Some(file) => file.clone(),
                None => {
                    let empty = File { items: Vec::new() };
                    assert(empty@ =~= Seq::<FunctionView>::empty());
                    empty
                },
            };
            merged.merge(&other.files[n].1);
            self.insert(path, merged);
            proof {
                let k = theirs[n as int].0;
                let v = theirs[n as int].1;
                assert(!has_key(done, k)) by {
                    if has_key(done, k) {
                        let i = index_of_key(done, k);
                        assert(theirs[i].0 != theirs[n as int].0);
                    }
                }
                assert forall|i: int, j: int| 0 <= i < j < done.len() implies (#[trigger] done[i]).0
                    != (#[trigger] done[j]).0 by {
                    assert(done[i] == theirs[i]);
                    assert(done[j] == theirs[j]);
                }
                lemma_as_map_push(done, k, v);
                assert(theirs.take(n + 1) =~= done.push((k, v)));
                assert(self@ =~= merge_crates(old(self)@, as_map(theirs.take(n + 1))));
            }
            n += 1;
        }
        assert(theirs.take(other.files@.len() as int) =~= theirs);
    }
}

impl Clone for Crate {
    fn clone(&self) -> (r: Self)
        ensures
            r@ == self@,
    {
        proof {
            use_type_invariant(self);
        }
        let mut files: Vec<(String, File)> = Vec::new();
        let mut i: usize = 0;
        while i < self.files.len()
            invariant
                i <= self.files@.len(),
                files@.len() == i,
                forall|k: int|
                    0 <= k < i ==> (#[trigger] files@[k]).0@ == self.files@[k].0@ && files@[k].1@
                        == self.files@[k].1@,
            decreases self.files.len() - i,
        {
            files.push((self.files[i].0.clone(), self.files[i].1.clone()));
            i += 1;
        }
        assert(files_view(files@) =~= files_view(self.files@));
        Crate { files }
    }
}

impl Default for Crate {
    fn default() -> (r: Self)
        ensures
            r@ == Map::<Seq<char>, Seq<FunctionView>>::empty(),
    {
        Self::new()
    }
}

/// The pairs of a workspace's list, as plain values.
pub open spec fn crates_view(s: Seq<(String, Crate)>) -> Seq<
    (Seq<char>, Map<Seq<char>, Seq<FunctionView>>),
> {
    s.map_values(|e: (String, Crate)| (e.0@, e.1@))
}

/// The crates of both workspaces.  Each crate of the second is merged into
/// the crate that the first holds under its name, or into an empty crate.
pub open spec fn merge_workspaces(
    a: Map<Seq<char>, Map<Seq<char>, Seq<FunctionView>>>,
    b: Map<Seq<char>, Map<Seq<char>, Seq<FunctionView>>>,
) -> Map<Seq<char>, Map<Seq<char>, Seq<FunctionView>>> {
    Map::new(
        |k: Seq<char>| a.dom().contains(k) || b.dom().contains(k),
        |k: Seq<char>|
            if b.dom().contains(k) {
                merge_crates(
                    if a.dom().contains(k) {
                        a[k]
                    } else {
                        Map::empty()
                    },
                    b[k],
                )
            } else {
                a[k]
            },
    )
}

/// The analysed crates of a workspace, by crate name.
#[derive(Debug)]
pub struct Workspace {
    crates: Vec<(String, Crate)>,
}

impl View for Workspace {
    type V = Map<Seq<char>, Map<Seq<char>, Seq<FunctionView>>>;

    closed spec fn view(&self) -> Map<Seq<char>, Map<Seq<char>, Seq<FunctionView>>> {
        as_map(crates_view(self.crates@))
    }
}

impl Workspace {
    /// No crate name occurs twice.
    #[verifier::type_invariant]
    pub closed spec fn wf(&self) -> bool {
        keys_unique(crates_view(self.crates@))
    }

    /// A workspace without crates.
    #[must_use]
    pub fn new() -> (r: Self)
        ensures
            r@ == Map::<Seq<char>, Map<Seq<char>, Seq<FunctionView>>>::empty(),
    {
        let r = Workspace { crates: Vec::new() };
        assert(r@ =~= Map::<Seq<char>, Map<Seq<char>, Seq<FunctionView>>>::empty());
        r
    }

    fn position(&self, name: &str) -> (r: Option<usize>)
        ensures
            match r {
                Some(i) => i < self.crates@.len() && self.crates@[i as int].0@ == name@,
                None => !has_key(crates_view(self.crates@), name@),
            },
    {
        let mut i: usize = 0;
        while i < self.crates.len()
            invariant
                i <= self.crates@.len(),
                forall|k: int| 0 <= k < i ==> (#[trigger] crates_view(self.crates@)[k]).0 != name@,
            decreases self.crates.len() - i,
        {
            if str_eq(self.crates[i].0.as_str(), name) {
                return Some(i);
            }
            i += 1;
        }
        None
    }

    /// The number of crates.
    pub fn len(&self) -> (r: usize)
        ensures
            r == self@.dom().len(),
            self@.dom().finite(),
    {
        proof {
            use_type_invariant(self);
            lemma_as_map_len(crates_view(self.crates@));
        }
        self.crates.len()
    }

    /// Whether the workspace has a crate named `name`.
    pub fn contains_key(&self, name: &str) -> (r: bool)
        ensures
            r == self@.dom().contains(name@),
    {
        match self.position(name) {
            Some(i) => {
                assert(crates_view(self.crates@)[i as int].0 == name@);
                true
            },
            None => false,
        }
    }

    /// The crate named `name`, if the workspace has it.
    pub fn get(&self, name: &str) -> (r: Option<&Crate>)
        ensures
            r is Some == self@.dom().contains(name@),
            r is Some ==> r->0@ == self@[name@],
    {
        match self.position(name) {
            Some(i) => {
                proof {
                    use_type_invariant(self);
                    lemma_as_map_at(crates_view(self.crates@), i as int);
                }
                Some(&self.crates[i].1)
            },
            None => None,
        }
    }

    /// Sets the crate named `name`, replacing the one that was there.
    pub fn insert(&mut self, name: String, krate: Crate)
        ensures
            final(self)@ == old(self)@.insert(name@, krate@),
    {
        proof {
            use_type_invariant(&*self);
        }
        let found = self.position(name.as_str());
        let mut taken = Self::new();
        core::mem::swap(self, &mut taken);
        let mut crates = taken.crates;
        let ghost before = crates_view(crates@);
        match found {
            Some(i) => {
                proof {
                    lemma_as_map_update(before, i as int, krate@);
                }
                crates.set(i, (name, krate));
                assert(crates_view(crates@) =~= before.update(
                    i as int,
                    (before[i as int].0, krate@),
                ));
            },
            None => {
                proof {
                    lemma_as_map_push(before, name@, krate@);
                }
                crates.push((name, krate));
                assert(crates_view(crates@) =~= before.push((name@, krate@)));
            },
        }
        *self = Workspace { crates };
    }

    /// The names and crates in the order in which the names first came.
    pub closed spec fn spec_entries(&self) -> Seq<(String, Crate)> {
        self.crates@
    }

    /// The names and crates in the order in which the names first came; no
    /// name comes twice.
    pub fn entries(&self) -> (r: &Vec<(String, Crate)>)
        ensures
            r@ == self.spec_entries(),
            as_map(crates_view(r@)) == self@,
            keys_unique(crates_view(r@)),
    {
        proof {
            use_type_invariant(self);
        }
        &self.crates
    }

    /// Takes the crates of `other` in: each is merged into the crate of
    /// the same name, or into an empty crate.
    pub fn merge(&mut self, other: Self)
        ensures
            final(self)@ == merge_workspaces(old(self)@, other@),
    {
        proof {
            use_type_invariant(&other);
        }
        let ghost theirs = crates_view(other.crates@);
        let mut n: usize = 0;
        while n < other.crates.len()
            invariant
                n <= other.crates@.len(),
                theirs == crates_view(other.crates@),
                keys_unique(theirs),
                self@ == merge_workspaces(old(self)@, as_map(theirs.take(n as int))),
            decreases other.crates.len() - n,
        {
            let ghost done = theirs.take(n as int);
            let name = other.crates[n].0.clone();
            let mut merged = match self.get(name.as_str()) {
                Some(krate) => krate.clone(),
                None => Crate::new(),
            };
            merged.merge(other.crates[n].1.clone());
            self.insert(name, merged);
            proof {
                let k = theirs[n as int].0;
                let v = theirs[n as int].1;
                assert(!has_key(done, k)) by {
                    if has_key(done, k) {
                        let i = index_of_key(done, k);
                        assert(theirs[i].0 != theirs[n as int].0);
                    }
                }
                assert forall|i: int, j: int| 0 <= i < j < done.len() implies (#[trigger] done[i]).0
                    != (#[trigger] done[j]).0 by {
                    assert(done[i] == theirs[i]);
                    assert(done[j] == theirs[j]);
                }
                lemma_as_map_push(done, k, v);
                assert(theirs.take(n + 1) =~= done.push((k, v)));
                assert(self@ =~= merge_workspaces(old(self)@, as_map(theirs.take(n + 1))));
            }
            n += 1;
        }
        assert(theirs.take(other.crates@.len() as int) =~= theirs);
    }
}

impl Clone for Workspace {
    fn clone(&self) -> (r: Self)
        ensures
            r@ == self@,
    {
        proof {
            use_type_invariant(self);
        }
        let mut crates: Vec<(String, Crate)> = Vec::new();
        let mut i: usize = 0;
        while i < self.crates.len()
            invariant
                i <= self.crates@.len(),
                crates@.len() == i,
                forall|k: int|
                    0 <= k < i ==> (#[trigger] crates@[k]).0@ == self.crates@[k].0@ && crates@[k].1@
                        == self.crates@[k].1@,
            decreases self.crates.len() - i,
        {
            crates.push((self.crates[i].0.clone(), self.crates[i].1.clone()));
            i += 1;
        }
        assert(crates_view(crates@) =~= crates_view(self.crates@));
        Workspace { crates }
    }
}

impl Default for Workspace {
    fn default() -> (r: Self)
        ensures
            r@ == Map::<Seq<char>, Map<Seq<char>, Seq<FunctionView>>>::empty(),
    {
        Self::new()
    }
}

/// The bounds of an interval are `u32` values.
pub broadcast proof fn lemma_range_bounds(r: Range)
    ensures
        0 <= #[trigger] r.lo() <= u32::MAX,
        0 <= r.hi() <= u32::MAX,
{
}

/// The upper bound of an interval is a `u32` value.
pub broadcast proof fn lemma_range_hi_bounds(r: Range)
    ensures
        0 <= #[trigger] r.hi() <= u32::MAX,
{
}

/// An interval is the one that its two bounds name.
pub broadcast proof fn lemma_range_ext(r: Range)
    ensures
        r == Range::spec_new(#[trigger] r.lo(), r.hi()),
{
}

/// `spec_new` keeps bounds that are `u32` values.
pub broadcast proof fn lemma_range_spec_new(lo: int, hi: int)
    requires
        0 <= lo <= u32::MAX,
        0 <= hi <= u32::MAX,
    ensures
        (#[trigger] Range::spec_new(lo, hi)).lo() == lo,
        Range::spec_new(lo, hi).hi() == hi,
{
}

pub broadcast group group_range_axioms {
    lemma_range_bounds,
    lemma_range_hi_bounds,
    lemma_range_ext,
    lemma_range_spec_new,
}

} // verus!