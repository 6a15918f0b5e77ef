//! From the compiler's control-flow graph to the model of this crate: basic
//! blocks with source ranges, user variables, and the borrow map.

use crate::groups::groups_view;
use crate::models::{
    blocks_view, group_range_axioms, BasicBlockView, FnLocal, Loc, MirBasicBlock, MirRval,
    MirStatement, MirTerminator, Range,
};
use crate::text_conversion::spec_char_offset;
use rayon::iter::{IndexedParallelIterator, IntoParallelRefIterator, ParallelIterator};
use vstd::prelude::*;

verus! {

broadcast use group_range_axioms;

/// A statement of the control-flow graph: a block and an index in it.  The
/// index past the last statement stands for the terminator.
#[derive(Clone, Copy, Debug, PartialEq, Eq, Hash, Structural)]
pub struct Location {
    pub block: usize,
    pub statement_index: usize,
}

/// A point of the borrow facts: the start or the middle of a statement.
#[derive(Clone, Copy, Debug, PartialEq, Eq, Hash, Structural)]
pub enum RichLocation {
    Start(Location),
    Mid(Location),
}

/// A span of the source text in bytes, from `lo` up to `hi`.
#[derive(Clone, Copy, Debug, PartialEq, Eq, Hash, Structural)]
pub struct SourceSpan {
    pub lo: u32,
    pub hi: u32,
}

/// The range of characters that a span of bytes covers, if it covers any.
pub open spec fn spec_range_from_span(text: Seq<char>, span: SourceSpan, offset: int) -> Option<
    Range,
> {
    let from = spec_char_offset(text, span.lo as int, offset);
    let until = spec_char_offset(text, span.hi as int, offset);
    if from < until {
        Some(Range::spec_new(from, until))
    } else {
        None
    }
}

/// The range of characters that `span` covers in `source`, a file that
/// starts at byte `offset`; `None` if the span covers no character.
pub fn range_from_span(source: &str, span: SourceSpan, offset: u32) -> (r: Option<Range>)
    ensures
        r == spec_range_from_span(source@, span, offset as int),
{
    let from = Loc::new(source, span.lo, offset);
    let until = Loc::new(source, span.hi, offset);
    Range::new(from, until)
}

/// The right-hand side of an assignment, as far as it matters here.
#[derive(Clone, Copy, Debug, PartialEq, Eq, Structural)]
pub enum RawRvalue {
    /// A use that moves out of the variable `local`.
    Move { local: u32 },
    /// A reference to the variable `local`.
    Ref { mutable: bool, local: u32 },
    /// Anything else.
    Other,
}

/// The kind of a statement, as far as it matters here.
#[derive(Clone, Copy, Debug, PartialEq, Eq, Structural)]
pub enum RawStatementKind {
    Assign { target: u32, rvalue: RawRvalue },
    Other,
}

/// A statement of the control-flow graph with its span; `visible` says
/// whether the span is part of the source as written.
#[derive(Clone, Copy, Debug, PartialEq, Eq, Structural)]
pub struct RawStatement {
    pub span: SourceSpan,
    pub visible: bool,
    pub kind: RawStatementKind,
}

/// The kind of a terminator, as far as it matters here.
#[derive(Clone, Copy, Debug, PartialEq, Eq, Structural)]
pub enum RawTerminatorKind {
    Drop { local: u32 },
    Call { destination: u32, fn_span: SourceSpan },
    Other,
}

/// A terminator of the control-flow graph with its span.
#[derive(Clone, Copy, Debug, PartialEq, Eq, Structural)]
pub struct RawTerminator {
    pub span: SourceSpan,
    pub kind: RawTerminatorKind,
}

/// A basic block of the control-flow graph.
#[derive(Debug)]
pub struct RawBasicBlock {
    pub statements: Vec<RawStatement>,
    pub terminator: Option<RawTerminator>,
}

/// The move or borrow that a right-hand side is, on the range of the
/// statement; none for another right-hand side or a span without
/// characters.
pub open spec fn spec_convert_rvalue(
    fn_id: u32,
    text: Seq<char>,
    offset: int,
    span: SourceSpan,
    rval: RawRvalue,
) -> Option<MirRval> {
    match spec_range_from_span(text, span, offset) {
        None => None,
        Some(range) => match rval {
            RawRvalue::Move { local } => Some(
                MirRval::Move { target_local: FnLocal { id: local, fn_id }, range },
            ),
            RawRvalue::Ref { mutable, local } => Some(
                MirRval::Borrow {
                    target_local: FnLocal { id: local, fn_id },
                    range,
                    mutable,
                    outlive: None,
                },
            ),
            RawRvalue::Other => None,
        },
    }
}

/// Classifies the right-hand side of an assignment as a move, a borrow
/// or neither.
pub fn convert_rvalue(fn_id: u32, source: &str, offset: u32, span: SourceSpan, rval: &RawRvalue) -> (r:
    Option<MirRval>)
    ensures
        r == spec_convert_rvalue(fn_id, source@, offset as int, span, *rval),
{
    match rval {
        RawRvalue::Move { local } => match range_from_span(source, span, offset) {
            Some(range) => Some(MirRval::Move { target_local: FnLocal::new(*local, fn_id), range }),
            None => None,
        },
        RawRvalue::Ref { mutable, local } => match range_from_span(source, span, offset) {
            Some(range) => Some(
                MirRval::Borrow {
                    target_local: FnLocal::new(*local, fn_id),
                    range,
                    mutable: *mutable,
                    outlive: None,
                },
            ),
            None => None,
        },
        RawRvalue::Other => None,
    }
}

/// The statement on its range of characters; none for a span without
/// characters.
pub open spec fn spec_convert_statement(
    fn_id: u32,
    text: Seq<char>,
    offset: int,
    statement: RawStatement,
) -> Option<MirStatement> {
    match spec_range_from_span(text, statement.span, offset) {
        None => None,
        Some(range) => match statement.kind {
            RawStatementKind::Assign { target, rvalue } => Some(
                MirStatement::Assign {
                    target_local: FnLocal { id: target, fn_id },
                    range,
                    rval: spec_convert_rvalue(fn_id, text, offset, statement.span, rvalue),
                },
            ),
            RawStatementKind::Other => Some(MirStatement::Other { range }),
        },
    }
}

/// Converts a statement with its span to a statement with its range.
pub fn convert_statement(fn_id: u32, source: &str, offset: u32, statement: &RawStatement) -> (r:
    Option<MirStatement>)
    ensures
        r == spec_convert_statement(fn_id, source@, offset as int, *statement),
{
    let span = statement.span;
    match &statement.kind {
        RawStatementKind::Assign { target, rvalue } => {
            let rv = convert_rvalue(fn_id, source, offset, span, rvalue);
            match range_from_span(source, span, offset) {
                Some(range) => Some(
                    MirStatement::Assign {
                        target_local: FnLocal::new(*target, fn_id),
                        range,
                        rval: rv,
                    },
                ),
                None => None,
            }
        },
        RawStatementKind::Other => match range_from_span(source, span, offset) {
            Some(range) => Some(MirStatement::Other { range }),
            None => None,
        },
    }
}

/// The statement if its span is part of the source as written.
pub open spec fn spec_convert_visible(
    fn_id: u32,
    text: Seq<char>,
    offset: int,
    statement: RawStatement,
) -> Option<MirStatement> {
    if statement.visible {
        spec_convert_statement(fn_id, text, offset, statement)
    } else {
        None
    }
}

/// Converts a statement whose span is part of the source as written.
pub fn convert_visible(fn_id: u32, source: &str, offset: u32, statement: &RawStatement) -> (r:
    Option<MirStatement>)
    ensures
        r == spec_convert_visible(fn_id, source@, offset as int, *statement),
{
    if statement.visible {
        convert_statement(fn_id, source, offset, statement)
    } else {
        None
    }
}

/// The terminator on its range of characters: a drop and any other
/// terminator on its own span, a call on the span of the call expression.
pub open spec fn spec_convert_terminator(
    fn_id: u32,
    text: Seq<char>,
    offset: int,
    terminator: RawTerminator,
) -> Option<MirTerminator> {
    match terminator.kind {
        RawTerminatorKind::Drop { local } => match spec_range_from_span(
            text,
            terminator.span,
            offset,
        ) {
            Some(range) => Some(MirTerminator::Drop { local: FnLocal { id: local, fn_id }, range }),
            None => None,
        },
        RawTerminatorKind::Call { destination, fn_span } => match spec_range_from_span(
            text,
            fn_span,
            offset,
        ) {
            Some(range) => Some(
                MirTerminator::Call {
                    destination_local: FnLocal { id: destination, fn_id },
                    fn_span: range,
                },
            ),
            None => None,
        },
        RawTerminatorKind::Other => match spec_range_from_span(text, terminator.span, offset) {
            Some(range) => Some(MirTerminator::Other { range }),
            None => None,
        },
    }
}

/// Converts a terminator with its span to a terminator with its range.
pub fn convert_terminator(fn_id: u32, source: &str, offset: u32, terminator: &RawTerminator) -> (r:
    Option<MirTerminator>)
    ensures
        r == spec_convert_terminator(fn_id, source@, offset as int, *terminator),
{
    match &terminator.kind {
        RawTerminatorKind::Drop { local } => match range_from_span(
            source,
            terminator.span,
            offset,
        ) {
            Some(range) => Some(MirTerminator::Drop { local: FnLocal::new(*local, fn_id), range }),
            None => None,
        },
        RawTerminatorKind::Call { destination, fn_span } => match range_from_span(
            source,
            *fn_span,
            offset,
        ) {
            Some(range) => Some(
                MirTerminator::Call {
                    destination_local: FnLocal::new(*destination, fn_id),
                    fn_span: range,
                },
            ),
            None => None,
        },
        RawTerminatorKind::Other => match range_from_span(source, terminator.span, offset) {
            Some(range) => Some(MirTerminator::Other { range }),
            None => None,
        },
    }
}

/// The first `n` statements converted, in order, without those that are
/// not part of the source as written or cover no character.
pub open spec fn spec_convert_statements(
    fn_id: u32,
    text: Seq<char>,
    offset: int,
    statements: Seq<RawStatement>,
    n: int,
) -> Seq<MirStatement>
    decreases n,
{
    if n <= 0 || n > statements.len() {
        Seq::empty()
    } else {
        let before = spec_convert_statements(fn_id, text, offset, statements, n - 1);
        match spec_convert_visible(fn_id, text, offset, statements[n - 1]) {
            Some(s) => before.push(s),
            None => before,
        }
    }
}

/// The block converted: its statements as [`spec_convert_statements`]
/// gives them, and its terminator.
pub open spec fn spec_convert_block(
    fn_id: u32,
    text: Seq<char>,
    offset: int,
    statements: Seq<RawStatement>,
    terminator: Option<RawTerminator>,
) -> BasicBlockView {
    BasicBlockView {
        statements: spec_convert_statements(
            fn_id,
            text,
            offset,
            statements,
            statements.len() as int,
        ),
        terminator: match terminator {
            Some(t) => spec_convert_terminator(fn_id, text, offset, t),
            None => None,
        },
    }
}

/// Converts the statements of a block in parallel.  Rayon's `par_iter`,
/// `filter_map` and `collect` are taken to give what the sequential
/// iterator gives: the converted statements in the order of the block.
#[verifier::external_body]
fn par_convert_statements(fn_id: u32, source: &str, offset: u32, statements: &Vec<RawStatement>) -> (r:
    Vec<MirStatement>)
    ensures
        r@ == spec_convert_statements(
            fn_id,
            source@,
            offset as int,
            statements@,
            statements@.len() as int,
        ),
{
    statements.par_iter().filter_map(
        |statement| convert_visible(fn_id, source, offset, statement),
    ).collect()
}

/// Converts the basic blocks of a function: each block keeps its place,
/// its statements lose those that are hidden or empty, and its terminator
/// is dropped if it covers no character.
pub fn collect_basic_blocks(
    fn_id: u32,
    source: &str,
    offset: u32,
    basic_blocks: &Vec<RawBasicBlock>,
) -> (r: Vec<MirBasicBlock>)
    ensures
        r@.len() == basic_blocks@.len(),
        forall|i: int|
            0 <= i < r@.len() ==> (#[trigger] r@[i])@ == spec_convert_block(
                fn_id,
                source@,
                offset as int,
                basic_blocks@[i].statements@,
                basic_blocks@[i].terminator,
            ),
{
    let mut out: Vec<MirBasicBlock> = Vec::new();
    let mut i: usize = 0;
    while i < basic_blocks.len()
        invariant
            i <= basic_blocks@.len(),
            out@.len() == i,
            forall|k: int|
                0 <= k < i ==> (#[trigger] out@[k])@ == spec_convert_block(
                    fn_id,
                    source@,
                    offset as int,
                    basic_blocks@[k].statements@,
                    basic_blocks@[k].terminator,
                ),
        decreases basic_blocks.len() - i,
    {
        let statements = par_convert_statements(fn_id, source, offset, &basic_blocks[i].statements);
        let terminator = match &basic_blocks[i].terminator {
            Some(term) => convert_terminator(fn_id, source, offset, term),
            None => None,
        };
        out.push(MirBasicBlock { statements, terminator });
        i += 1;
    }
    out
}

/// The debug entry of a variable: its name, the span of its declaration,
/// and the slot that holds it, if a slot does.
#[derive(Debug)]
pub struct RawVarDebugInfo {
    pub name: String,
    pub span: SourceSpan,
    pub local: Option<u32>,
}

/// A user-named variable: its slot, the range of its declaration, and its
/// name.
#[derive(Debug)]
pub struct UserVar {
    pub local: u32,
    pub range: Range,
    pub name: String,
}

/// What a user variable holds, as plain values.
pub struct UserVarView {
    pub local: u32,
    pub range: Range,
    pub name: Seq<char>,
}

impl View for UserVar {
    type V = UserVarView;

    open spec fn view(&self) -> UserVarView {
        UserVarView { local: self.local, range: self.range, name: self.name@ }
    }
}

/// The user variables of a list, as plain values.
pub open spec fn user_vars_view(s: Seq<UserVar>) -> Seq<UserVarView> {
    s.map_values(|v: UserVar| v@)
}

/// The user variables among the first `n` debug entries, in order: those
/// that are held in a slot and whose declaration covers a character.
pub open spec fn spec_collect_user_vars(
    text: Seq<char>,
    offset: int,
    infos: Seq<RawVarDebugInfo>,
    n: int,
) -> Seq<UserVarView>
    decreases n,
{
    if n <= 0 || n > infos.len() {
        Seq::empty()
    } else {
        let before = spec_collect_user_vars(text, offset, infos, n - 1);
        match (infos[n - 1].local, spec_range_from_span(text, infos[n - 1].span, offset)) {
            (Some(local), Some(range)) => before.push(
                UserVarView { local, range, name: infos[n - 1].name@ },
            ),
            _ => before,
        }
    }
}

/// Collects the user-named variables from the debug entries of a function.
pub fn collect_user_vars(source: &str, offset: u32, infos: &Vec<RawVarDebugInfo>) -> (r: Vec<UserVar>)
    ensures
        user_vars_view(r@) == spec_collect_user_vars(
            source@,
            offset as int,
            infos@,
            infos@.len() as int,
        ),
{
    let mut out: Vec<UserVar> = Vec::new();
    assert(user_vars_view(out@) =~= Seq::empty());
    let mut i: usize = 0;
    while i < infos.len()
        invariant
            i <= infos@.len(),
            user_vars_view(out@) == spec_collect_user_vars(source@, offset as int, infos@, i as int),
        decreases infos.len() - i,
    {
        if let Some(local) = infos[i].local {
            if let Some(range) = range_from_span(source, infos[i].span, offset) {
                let ghost before = user_vars_view(out@);
                let var = UserVar { local, range, name: infos[i].name.clone() };
                out.push(var);
                assert(user_vars_view(out@) =~= before.push(var@));
            }
        }
        i += 1;
    }
    out
}

/// The index of the last user variable before index `n` that is held in
/// the slot `local`.
pub open spec fn last_user_var(vars: Seq<UserVarView>, local: u32, n: int) -> Option<int>
    decreases n,
{
    if n <= 0 || n > vars.len() {
        None
    } else if vars[n - 1].local == local {
        Some(n - 1)
    } else {
        last_user_var(vars, local, n - 1)
    }
}

/// The user variable held in the slot `local`; the last one, if several
/// entries name the slot.
pub fn find_user_var(vars: &Vec<UserVar>, local: u32) -> (r: Option<&UserVar>)
    ensures
        match r {
            Some(v) => last_user_var(user_vars_view(vars@), local, vars@.len() as int) is Some
                && v@ == user_vars_view(vars@)[last_user_var(
                user_vars_view(vars@),
                local,
                vars@.len() as int,
            )->0],
            None => last_user_var(user_vars_view(vars@), local, vars@.len() as int) is None,
        },
{
    let mut n: usize = vars.len();
    while n > 0
        invariant
            n <= vars@.len(),
            last_user_var(user_vars_view(vars@), local, vars@.len() as int) == last_user_var(
                user_vars_view(vars@),
                local,
                n as int,
            ),
        decreases n,
    {
        if vars[n - 1].local == local {
            return Some(&vars[n - 1]);
        }
        n -= 1;
    }
    None
}

/// `a` comes no later than `b`: by block, then by statement.
pub open spec fn loc_le(a: (usize, usize), b: (usize, usize)) -> bool {
    a.0 < b.0 || (a.0 == b.0 && a.1 <= b.1)
}

/// The place at which `x` goes into the sorted list `s`: after the last
/// element that comes no later than `x`.
pub open spec fn insert_pos(s: Seq<(usize, usize)>, x: (usize, usize)) -> int
    decreases s.len(),
{
    if s.len() == 0 {
        0
    } else if loc_le(s.last(), x) {
        s.len() as int
    } else {
        insert_pos(s.drop_last(), x)
    }
}

/// The first `n` locations of `s` in order of block, then of statement.
pub open spec fn sort_upto(s: Seq<(usize, usize)>, n: int) -> Seq<(usize, usize)>
    decreases n,
{
    if n <= 0 || n > s.len() {
        Seq::empty()
    } else {
        let before = sort_upto(s, n - 1);
        before.insert(insert_pos(before, s[n - 1]), s[n - 1])
    }
}

/// The locations in order of block, then of statement.
pub open spec fn spec_sort_locs(s: Seq<(usize, usize)>) -> Seq<(usize, usize)> {
    sort_upto(s, s.len() as int)
}

/// Each location comes no later than the next.
pub open spec fn locs_sorted(s: Seq<(usize, usize)>) -> bool {
    forall|i: int, j: int| 0 <= i < j < s.len() ==> loc_le(#[trigger] s[i], #[trigger] s[j])
}

/// The place of insertion is in the list, with nothing later before it and
/// nothing earlier after it.
pub proof fn lemma_insert_pos(s: Seq<(usize, usize)>, x: (usize, usize))
    requires
        locs_sorted(s),
    ensures
        0 <= insert_pos(s, x) <= s.len(),
        forall|i: int| 0 <= i < insert_pos(s, x) ==> loc_le(#[trigger] s[i], x),
        forall|i: int| insert_pos(s, x) <= i < s.len() ==> loc_le(x, #[trigger] s[i]),
    decreases s.len(),
{
    if s.len() > 0 {
        if loc_le(s.last(), x) {
            assert forall|i: int| 0 <= i < s.len() implies loc_le(#[trigger] s[i], x) by {
                if i < s.len() - 1 {
                    assert(loc_le(s[i], s[s.len() - 1]));
                }
            }
        } else {
            let p = s.drop_last();
            assert forall|i: int, j: int| 0 <= i < j < p.len() implies loc_le(
                #[trigger] p[i],
                #[trigger] p[j],
            ) by {
                assert(p[i] == s[i] && p[j] == s[j]);
            }
            lemma_insert_pos(p, x);
            assert forall|i: int| 0 <= i < insert_pos(s, x) implies loc_le(#[trigger] s[i], x) by {
                assert(p[i] == s[i]);
            }
            assert forall|i: int| insert_pos(s, x) <= i < s.len() implies loc_le(
                x,
                #[trigger] s[i],
            ) by {
                if i < p.len() {
                    assert(p[i] == s[i]);
                }
            }
        }
    }
}

/// Sorting gives the same locations, each no later than the next.
pub proof fn law_sort_locs(s: Seq<(usize, usize)>, n: int)
    requires
        0 <= n <= s.len(),
    ensures
        locs_sorted(sort_upto(s, n)),
        sort_upto(s, n).to_multiset() == s.take(n).to_multiset(),
        sort_upto(s, n).len() == n,
    decreases n,
{
    broadcast use vstd::seq_lib::group_to_multiset_ensures;

    if n > 0 {
        let before = sort_upto(s, n - 1);
        let x = s[n - 1];
        law_sort_locs(s, n - 1);
        lemma_insert_pos(before, x);
        let pos = insert_pos(before, x);
        let out = before.insert(pos, x);
        before.insert_ensures(pos, x);
        assert forall|i: int, j: int| 0 <= i < j < out.len() implies loc_le(
            #[trigger] out[i],
            #[trigger] out[j],
        ) by {
            if j < pos {
                assert(out[i] == before[i] && out[j] == before[j]);
            } else if j == pos {
                assert(out[i] == before[i]);
            } else if i < pos {
                assert(out[i] == before[i] && out[j] == before[j - 1]);
            } else if i == pos {
                assert(out[j] == before[j - 1]);
            } else {
                assert(out[i] == before[i - 1] && out[j] == before[j - 1]);
            }
        }
        assert(s.take(n) =~= s.take(n - 1).push(x));
        vstd::seq_lib::lemma_multiset_commutative(before.subrange(0, pos).push(x), before.subrange(pos, before.len() as int));
        vstd::seq_lib::lemma_multiset_commutative(before.subrange(0, pos), before.subrange(pos, before.len() as int));
        assert(before.subrange(0, pos) + before.subrange(pos, before.len() as int) =~= before);
    } else {
        assert(s.take(0) =~= Seq::empty());
    }
}

/// Sorts the locations by block, then by statement.
pub fn sort_locs(v: &mut Vec<(usize, usize)>)
    ensures
        final(v)@ == spec_sort_locs(old(v)@),
{
    let mut out: Vec<(usize, usize)> = Vec::new();
    let mut i: usize = 0;
    while i < v.len()
        invariant
            i <= v@.len(),
            v@ == old(v)@,
            out@ == sort_upto(v@, i as int),
            out@.len() == i,
        decreases v.len() - i,
    {
        let x = v[i];
        let mut k: usize = out.len();
        assert(out@.take(out@.len() as int) =~= out@);
        while k > 0 && !(out[k - 1].0 < x.0 || (out[k - 1].0 == x.0 && out[k - 1].1 <= x.1))
            invariant
                k <= out@.len(),
                insert_pos(out@, x) == insert_pos(out@.take(k as int), x),
            decreases k,
        {
            assert(out@.take(k as int).drop_last() =~= out@.take(k - 1));
            k -= 1;
        }
        proof {
            if k > 0 {
                assert(out@.take(k as int).last() == out@[k - 1]);
            }
        }
        out.insert(k, x);
        i += 1;
    }
    *v = out;
}

/// The source range of the statement at index `statement` of block
/// `block`, or of the block's terminator if the index is past the
/// statements; none if there is no such block, or no terminator.
pub open spec fn spec_statement_range(blocks: Seq<BasicBlockView>, block: int, statement: int) -> Option<
    Range,
> {
    if 0 <= block < blocks.len() {
        if 0 <= statement < blocks[block].statements.len() {
            Some(blocks[block].statements[statement].spec_range())
        } else {
            match blocks[block].terminator {
                Some(t) => Some(t.spec_range()),
                None => None,
            }
        }
    } else {
        None
    }
}

fn statement_location_to_range(basic_blocks: &Vec<MirBasicBlock>, basic_block: usize, statement: usize) -> (r:
    Option<Range>)
    ensures
        r == spec_statement_range(blocks_view(basic_blocks@), basic_block as int, statement as int),
{
    if basic_block < basic_blocks.len() {
        let bb = &basic_blocks[basic_block];
        if statement < bb.statements.len() {
            Some(bb.statements[statement].range())
        } else {
            match &bb.terminator {
                Some(t) => Some(t.range()),
                None => None,
            }
        }
    } else {
        None
    }
}

/// The range from the start of the statement at `start` to the end of the
/// statement at `mid`; none if one of them is missing or the range would
/// be empty.
pub open spec fn spec_pair_range(
    blocks: Seq<BasicBlockView>,
    start: (usize, usize),
    mid: (usize, usize),
) -> Option<Range> {
    match (
        spec_statement_range(blocks, start.0 as int, start.1 as int),
        spec_statement_range(blocks, mid.0 as int, mid.1 as int),
    ) {
        (Some(s), Some(m)) => if s.lo() < m.hi() {
            Some(Range::spec_new(s.lo(), m.hi()))
        } else {
            None
        },
        _ => None,
    }
}

/// The range that a start location and a mid location span.
pub fn pair_range(basic_blocks: &Vec<MirBasicBlock>, start: (usize, usize), mid: (usize, usize)) -> (r:
    Option<Range>)
    ensures
        r == spec_pair_range(blocks_view(basic_blocks@), start, mid),
{
    let sr = statement_location_to_range(basic_blocks, start.0, start.1);
    let mr = statement_location_to_range(basic_blocks, mid.0, mid.1);
    match (sr, mr) {
        (Some(s), Some(m)) => Range::new(s.from(), m.until()),
        _ => None,
    }
}

/// The ranges of the first `n` pairs of a start and a mid location, in
/// order, without the pairs that give none.
pub open spec fn spec_pair_ranges(
    blocks: Seq<BasicBlockView>,
    starts: Seq<(usize, usize)>,
    mids: Seq<(usize, usize)>,
    n: int,
) -> Seq<Range>
    decreases n,
{
    if n <= 0 || n > starts.len() || n > mids.len() {
        Seq::empty()
    } else {
        let before = spec_pair_ranges(blocks, starts, mids, n - 1);
        match spec_pair_range(blocks, starts[n - 1], mids[n - 1]) {
            Some(r) => before.push(r),
            None => before,
        }
    }
}

/// The block and statement of the start locations among the first `n`
/// locations, in order.
pub open spec fn starts_of(locations: Seq<RichLocation>, n: int) -> Seq<(usize, usize)>
    decreases n,
{
    if n <= 0 || n > locations.len() {
        Seq::empty()
    } else {
        match locations[n - 1] {
            RichLocation::Start(l) => starts_of(locations, n - 1).push((l.block, l.statement_index)),
            RichLocation::Mid(_) => starts_of(locations, n - 1),
        }
    }
}

/// The block and statement of the mid locations among the first `n`
/// locations, in order.
pub open spec fn mids_of(locations: Seq<RichLocation>, n: int) -> Seq<(usize, usize)>
    decreases n,
{
    if n <= 0 || n > locations.len() {
        Seq::empty()
    } else {
        match locations[n - 1] {
            RichLocation::Mid(l) => mids_of(locations, n - 1).push((l.block, l.statement_index)),
            RichLocation::Start(_) => mids_of(locations, n - 1),
        }
    }
}

/// The smaller of two lengths.
pub open spec fn shorter(a: nat, b: nat) -> int {
    if a < b {
        a as int
    } else {
        b as int
    }
}

/// The ranges that a set of locations stands for: the start locations and
/// the mid locations are sorted, the first start is paired with the first
/// mid and so on, and each pair gives the range from the start of the one
/// statement to the end of the other.  A pair that names a missing
/// statement gives nothing.
pub open spec fn spec_rich_locations_to_ranges(
    blocks: Seq<BasicBlockView>,
    locations: Seq<RichLocation>,
) -> Seq<Range> {
    let starts = spec_sort_locs(starts_of(locations, locations.len() as int));
    let mids = spec_sort_locs(mids_of(locations, locations.len() as int));
    spec_pair_ranges(blocks, starts, mids, shorter(starts.len(), mids.len()))
}

/// Pairs the start and mid locations in parallel.  Rayon's `par_iter`,
/// `zip`, `filter_map` and `collect` are taken to give what the sequential
/// iterators give: the ranges of the pairs, in the order of the pairs, as
/// far as the shorter list reaches.
#[verifier::external_body]
fn par_pair_ranges(
    basic_blocks: &Vec<MirBasicBlock>,
    starts: &Vec<(usize, usize)>,
    mids: &Vec<(usize, usize)>,
) -> (r: Vec<Range>)
    ensures
        r@ == spec_pair_ranges(
            blocks_view(basic_blocks@),
            starts@,
            mids@,
            shorter(starts@.len(), mids@.len()),
        ),
{
    starts.par_iter().zip(mids.par_iter()).filter_map(
        |pair| pair_range(basic_blocks, *pair.0, *pair.1),
    ).collect()
}

/// Converts the locations of a variable to the ranges that they stand
/// for.
#[must_use]
pub fn rich_locations_to_ranges(basic_blocks: &Vec<MirBasicBlock>, locations: &Vec<RichLocation>) -> (r:
    Vec<Range>)
    ensures
        r@ == spec_rich_locations_to_ranges(blocks_view(basic_blocks@), locations@),
{
    let mut starts: Vec<(usize, usize)> = Vec::new();
    let mut mids: Vec<(usize, usize)> = Vec::new();
    let mut i: usize = 0;
    while i < locations.len()
        invariant
            i <= locations@.len(),
            starts@ == starts_of(locations@, i as int),
            mids@ == mids_of(locations@, i as int),
        decreases locations.len() - i,
    {
        match locations[i] {
            RichLocation::Start(l) => {
                starts.push((l.block, l.statement_index));
            },
            RichLocation::Mid(l) => {
                mids.push((l.block, l.statement_index));
            },
        }
        i += 1;
    }
    sort_locs(&mut starts);
    sort_locs(&mut mids);
    par_pair_ranges(basic_blocks, &starts, &mids)
}

/// A borrow: the variable that is borrowed and the variable that holds the
/// reference, by kind of borrow.
#[derive(Clone, Copy, Debug, PartialEq, Eq, Structural)]
pub enum BorrowData {
    Shared { borrowed: u32, assigned: u32 },
    Mutable { borrowed: u32, assigned: u32 },
}

impl BorrowData {
    /// The variable that is borrowed.
    pub open spec fn spec_borrowed(self) -> u32 {
        match self {
            BorrowData::Shared { borrowed, .. } => borrowed,
            BorrowData::Mutable { borrowed, .. } => borrowed,
        }
    }

    /// The variable that is borrowed.
    pub fn borrowed(&self) -> (r: u32)
        ensures
            r == self.spec_borrowed(),
    {
        match self {
            BorrowData::Shared { borrowed, .. } => *borrowed,
            BorrowData::Mutable { borrowed, .. } => *borrowed,
        }
    }
}

/// A borrow as the compiler reports it.
#[derive(Clone, Copy, Debug, PartialEq, Eq, Structural)]
pub struct RawBorrow {
    pub location: Location,
    pub mutable: bool,
    pub borrowed: u32,
    pub assigned: u32,
}

/// The borrow with its location, by kind.
pub open spec fn classify(b: RawBorrow) -> (Location, BorrowData) {
    if b.mutable {
        (b.location, BorrowData::Mutable { borrowed: b.borrowed, assigned: b.assigned })
    } else {
        (b.location, BorrowData::Shared { borrowed: b.borrowed, assigned: b.assigned })
    }
}

/// The borrows of a function by index, and for each variable the indices
/// of the borrows that are assigned to it.
#[derive(Debug)]
pub struct BorrowMap {
    location_map: Vec<(Location, BorrowData)>,
    local_map: Vec<(u32, Vec<u32>)>,
}

/// What a borrow map holds, as plain values.
pub struct BorrowMapView {
    pub borrows: Seq<(Location, BorrowData)>,
    pub local_map: Seq<(u32, Seq<u32>)>,
}

impl View for BorrowMap {
    type V = BorrowMapView;

    closed spec fn view(&self) -> BorrowMapView {
        BorrowMapView { borrows: self.location_map@, local_map: groups_view(self.local_map@) }
    }
}

impl BorrowMap {
    /// The map of the borrows `borrows`, whose index is their place in the
    /// list, with the given indices by variable.
    #[must_use]
    pub fn new(borrows: &Vec<RawBorrow>, local_map: Vec<(u32, Vec<u32>)>) -> (r: Self)
        ensures
            r@.borrows == borrows@.map_values(|b: RawBorrow| classify(b)),
            r@.local_map == groups_view(local_map@),
    {
        let mut location_map: Vec<(Location, BorrowData)> = Vec::new();
        let mut i: usize = 0;
        while i < borrows.len()
            invariant
                i <= borrows@.len(),
                location_map@.len() == i,
                forall|k: int| 0 <= k < i ==> #[trigger] location_map@[k] == classify(borrows@[k]),
            decreases borrows.len() - i,
        {
            let b = &borrows[i];
            let data = if b.mutable {
                BorrowData::Mutable { borrowed: b.borrowed, assigned: b.assigned }
            } else {
                BorrowData::Shared { borrowed: b.borrowed, assigned: b.assigned }
            };
            location_map.push((b.location, data));
            i += 1;
        }
        assert(location_map@ =~= borrows@.map_values(|b: RawBorrow| classify(b)));
        Self { location_map, local_map }
    }

    /// The borrow with the index `borrow`, if there is one.
    #[must_use]
    pub fn get_from_borrow_index(&self, borrow: usize) -> (r: Option<&(Location, BorrowData)>)
        ensures
            r is Some == (borrow < self@.borrows.len()),
            r is Some ==> *r->0 == self@.borrows[borrow as int],
    {
        if borrow < self.location_map.len() {
            Some(&self.location_map[borrow])
        } else {
            None
        }
    }

    /// For each variable, the indices of the borrows assigned to it.
    #[must_use]
    pub fn local_map(&self) -> (r: &Vec<(u32, Vec<u32>)>)
        ensures
            groups_view(r@) == self@.local_map,
    {
        &self.local_map
    }

    /// The borrows, each with its index.
    pub fn iter_with_index(&self) -> (r: Vec<(usize, (Location, BorrowData))>)
        ensures
            r@.len() == self@.borrows.len(),
            forall|i: int| 0 <= i < r@.len() ==> #[trigger] r@[i] == (i as usize, self@.borrows[i]),
    {
        let mut out: Vec<(usize, (Location, BorrowData))> = Vec::new();
        let mut i: usize = 0;
        while i < self.location_map.len()
            invariant
                i <= self.location_map@.len(),
                out@.len() == i,
                forall|k: int|
                    0 <= k < i ==> #[trigger] out@[k] == (k as usize, self.location_map@[k]),
            decreases self.location_map.len() - i,
        {
            out.push((i, self.location_map[i]));
            i += 1;
        }
        out
    }
}

} // verus!
