//! The stored form of analysis results: a sequence of numbers and texts
//! from which the results can be read back as they were.

use crate::models::{
    blocks_view, decls_view, group_range_axioms, BasicBlockView, FnLocal, Function, FunctionView,
    Loc, MirBasicBlock, MirDecl, MirDeclView, MirRval, MirStatement, MirTerminator, Range,
};
use crate::assoc::{as_map, has_key, index_of_key, keys_unique, lemma_as_map_push};
use vstd::prelude::*;

verus! {

broadcast use group_range_axioms;

/// One item of the stored form: a number or a text.
#[derive(Debug, PartialEq, Eq)]
pub enum Token {
    Num(u64),
    Text(String),
}

/// What a token holds, as plain values.
pub enum TokenView {
    Num(u64),
    Text(Seq<char>),
}

impl View for Token {
    type V = TokenView;

    open spec fn view(&self) -> TokenView {
        match *self {
            Token::Num(v) => TokenView::Num(v),
            Token::Text(t) => TokenView::Text(t@),
        }
    }
}

impl Clone for Token {
    fn clone(&self) -> (r: Self)
        ensures
            r@ == self@,
    {
        match self {
            Token::Num(v) => Token::Num(*v),
            Token::Text(t) => Token::Text(t.clone()),
        }
    }
}

/// The tokens of a list, as plain values.
pub open spec fn tokens_view(s: Seq<Token>) -> Seq<TokenView> {
    s.map_values(|t: Token| t@)
}

/// The tokens `s` stand in `ts` from index `at` on.
pub open spec fn holds_at(ts: Seq<TokenView>, at: int, s: Seq<TokenView>) -> bool {
    &&& 0 <= at
    &&& at + s.len() <= ts.len()
    &&& forall|i: int| 0 <= i < s.len() ==> ts[at + i] == #[trigger] s[i]
}

/// Where two lists stand one after the other, each stands in its place.
pub proof fn lemma_holds_split(ts: Seq<TokenView>, at: int, a: Seq<TokenView>, b: Seq<TokenView>)
    requires
        holds_at(ts, at, a + b),
    ensures
        holds_at(ts, at, a),
        holds_at(ts, at + a.len(), b),
{
    assert forall|i: int| 0 <= i < a.len() implies ts[at + i] == #[trigger] a[i] by {
        assert((a + b)[i] == a[i]);
    }
    assert forall|i: int| 0 <= i < b.len() implies ts[at + a.len() + i] == #[trigger] b[i] by {
        assert((a + b)[a.len() + i] == b[i]);
    }
}

/// The number at index `at`.
pub open spec fn num_at(ts: Seq<TokenView>, at: int) -> Option<u64> {
    if 0 <= at < ts.len() {
        match ts[at] {
            TokenView::Num(v) => Some(v),
            TokenView::Text(_) => None,
        }
    } else {
        None
    }
}

/// The number at index `at`, if it is a `u32`.
pub open spec fn small_at(ts: Seq<TokenView>, at: int) -> Option<u32> {
    match num_at(ts, at) {
        Some(v) => if v <= u32::MAX {
            Some(v as u32)
        } else {
            None
        },
        None => None,
    }
}

/// The flag at index `at`: the number 0 for no, 1 for yes.
pub open spec fn flag_at(ts: Seq<TokenView>, at: int) -> Option<bool> {
    match num_at(ts, at) {
        Some(v) => if v == 0 {
            Some(false)
        } else if v == 1 {
            Some(true)
        } else {
            None
        },
        None => None,
    }
}

/// The text at index `at`.
pub open spec fn text_at(ts: Seq<TokenView>, at: int) -> Option<Seq<char>> {
    if 0 <= at < ts.len() {
        match ts[at] {
            TokenView::Text(t) => Some(t),
            TokenView::Num(_) => None,
        }
    } else {
        None
    }
}

/// The number for a flag.
pub open spec fn flag(b: bool) -> TokenView {
    TokenView::Num(
        if b {
            1
        } else {
            0
        },
    )
}

/// The number at index `at` of the tokens.
pub fn number_of(ts: &Vec<Token>, at: usize) -> (r: Option<u64>)
    ensures
        r == num_at(tokens_view(ts@), at as int),
        r is Some ==> at < ts@.len() && at < usize::MAX,
{
    read_num(ts, at)
}

/// The text at index `at` of the tokens.
pub fn text_of(ts: &Vec<Token>, at: usize) -> (r: Option<String>)
    ensures
        match r {
            Some(t) => text_at(tokens_view(ts@), at as int) == Some(t@) && at < ts@.len() && at
                < usize::MAX,
            None => text_at(tokens_view(ts@), at as int) is None,
        },
{
    read_text(ts, at)
}

fn read_num(ts: &Vec<Token>, at: usize) -> (r: Option<u64>)
    ensures
        r == num_at(tokens_view(ts@), at as int),
        r is Some ==> at < ts@.len() && at < usize::MAX,
{
    if at < ts.len() {
        match &ts[at] {
            Token::Num(v) => Some(*v),
            Token::Text(_) => None,
        }
    } else {
        None
    }
}

fn read_small(ts: &Vec<Token>, at: usize) -> (r: Option<u32>)
    ensures
        r == small_at(tokens_view(ts@), at as int),
        r is Some ==> at < ts@.len() && at < usize::MAX,
{
    match read_num(ts, at) {
        Some(v) => if v <= u32::MAX as u64 {
            Some(v as u32)
        } else {
            None
        },
        None => None,
    }
}

fn read_flag(ts: &Vec<Token>, at: usize) -> (r: Option<bool>)
    ensures
        r == flag_at(tokens_view(ts@), at as int),
        r is Some ==> at < ts@.len() && at < usize::MAX,
{
    match read_num(ts, at) {
        Some(v) => if v == 0 {
            Some(false)
        } else if v == 1 {
            Some(true)
        } else {
            None
        },
        None => None,
    }
}

fn read_text(ts: &Vec<Token>, at: usize) -> (r: Option<String>)
    ensures
        match r {
            Some(t) => text_at(tokens_view(ts@), at as int) == Some(t@) && at < ts@.len() && at
                < usize::MAX,
            None => text_at(tokens_view(ts@), at as int) is None,
        },
{
    if at < ts.len() {
        match &ts[at] {
            Token::Text(t) => Some(t.clone()),
            Token::Num(_) => None,
        }
    } else {
        None
    }
}

fn put(out: &mut Vec<Token>, token: Token)
    ensures
        tokens_view(final(out)@) == tokens_view(old(out)@) + seq![token@],
{
    let ghost before = tokens_view(out@);
    out.push(token);
    assert(tokens_view(out@) =~= before + seq![token@]);
}

fn put_num(out: &mut Vec<Token>, v: u64)
    ensures
        tokens_view(final(out)@) == tokens_view(old(out)@) + seq![TokenView::Num(v)],
{
    put(out, Token::Num(v));
}

fn put_flag(out: &mut Vec<Token>, b: bool)
    ensures
        tokens_view(final(out)@) == tokens_view(old(out)@) + seq![flag(b)],
{
    put(out, Token::Num(if b {
        1
    } else {
        0
    }));
}

fn put_text(out: &mut Vec<Token>, t: &String)
    ensures
        tokens_view(final(out)@) == tokens_view(old(out)@) + seq![TokenView::Text(t@)],
{
    put(out, Token::Text(t.clone()));
}

/// The stored form of a range: its two bounds.
pub open spec fn ser_range(r: Range) -> Seq<TokenView> {
    seq![TokenView::Num(r.lo() as u64), TokenView::Num(r.hi() as u64)]
}

/// The range that is stored at index `at`, with the index after it.
pub open spec fn parse_range(ts: Seq<TokenView>, at: int) -> Option<(Range, int)> {
    match (small_at(ts, at), small_at(ts, at + 1)) {
        (Some(lo), Some(hi)) => if lo < hi {
            Some((Range::spec_new(lo as int, hi as int), at + 2))
        } else {
            None
        },
        _ => None,
    }
}

/// A stored range is read back as it was.
pub proof fn lemma_range(r: Range, ts: Seq<TokenView>, at: int)
    requires
        r.wf(),
        holds_at(ts, at, ser_range(r)),
    ensures
        parse_range(ts, at) == Some((r, at + ser_range(r).len())),
{
    assert(ts[at + 0] == ser_range(r)[0]);
    assert(ts[at + 1] == ser_range(r)[1]);
}

fn write_range(out: &mut Vec<Token>, r: Range)
    ensures
        tokens_view(final(out)@) == tokens_view(old(out)@) + ser_range(r),
{
    let ghost before = tokens_view(out@);
    put_num(out, r.from().0 as u64);
    put_num(out, r.until().0 as u64);
    assert(tokens_view(out@) =~= before + ser_range(r));
}

fn read_range(ts: &Vec<Token>, at: usize) -> (r: Option<(Range, usize)>)
    ensures
        match r {
            Some((x, next)) => parse_range(tokens_view(ts@), at as int) == Some((x, next as int))
                && next <= ts@.len(),
            None => parse_range(tokens_view(ts@), at as int) is None,
        },
{
    if at >= ts.len() || at + 1 >= ts.len() {
        return None;
    }
    match (read_small(ts, at), read_small(ts, at + 1)) {
        (Some(lo), Some(hi)) => match Range::new(Loc(lo), Loc(hi)) {
            Some(r) => Some((r, at + 2)),
            None => None,
        },
        _ => None,
    }
}

/// The stored form of a variable: its slot and its function.
pub open spec fn ser_local(l: FnLocal) -> Seq<TokenView> {
    seq![TokenView::Num(l.id as u64), TokenView::Num(l.fn_id as u64)]
}

/// The variable that is stored at index `at`, with the index after it.
pub open spec fn parse_local(ts: Seq<TokenView>, at: int) -> Option<(FnLocal, int)> {
    match (small_at(ts, at), small_at(ts, at + 1)) {
        (Some(id), Some(fn_id)) => Some((FnLocal { id, fn_id }, at + 2)),
        _ => None,
    }
}

/// A stored variable is read back as it was.
pub proof fn lemma_local(l: FnLocal, ts: Seq<TokenView>, at: int)
    requires
        holds_at(ts, at, ser_local(l)),
    ensures
        parse_local(ts, at) == Some((l, at + ser_local(l).len())),
{
    assert(ts[at + 0] == ser_local(l)[0]);
    assert(ts[at + 1] == ser_local(l)[1]);
}

fn write_local(out: &mut Vec<Token>, l: FnLocal)
    ensures
        tokens_view(final(out)@) == tokens_view(old(out)@) + ser_local(l),
{
    let ghost before = tokens_view(out@);
    put_num(out, l.id as u64);
    put_num(out, l.fn_id as u64);
    assert(tokens_view(out@) =~= before + ser_local(l));
}

fn read_local(ts: &Vec<Token>, at: usize) -> (r: Option<(FnLocal, usize)>)
    ensures
        match r {
            Some((x, next)) => parse_local(tokens_view(ts@), at as int) == Some((x, next as int))
                && next <= ts@.len(),
            None => parse_local(tokens_view(ts@), at as int) is None,
        },
{
    if at >= ts.len() || at + 1 >= ts.len() {
        return None;
    }
    match (read_small(ts, at), read_small(ts, at + 1)) {
        (Some(id), Some(fn_id)) => Some((FnLocal { id, fn_id }, at + 2)),
        _ => None,
    }
}

/// The stored form of an optional range: a flag, and the range if there
/// is one.
pub open spec fn ser_opt_range(o: Option<Range>) -> Seq<TokenView> {
    match o {
        Some(r) => seq![flag(true)] + ser_range(r),
        None => seq![flag(false)],
    }
}

/// The optional range that is stored at index `at`.
pub open spec fn parse_opt_range(ts: Seq<TokenView>, at: int) -> Option<(Option<Range>, int)> {
    match flag_at(ts, at) {
        Some(true) => match parse_range(ts, at + 1) {
            Some((r, next)) => Some((Some(r), next)),
            None => None,
        },
        Some(false) => Some((None, at + 1)),
        None => None,
    }
}

/// Whether the range, if there is one, holds an offset.
pub open spec fn valid_opt_range(o: Option<Range>) -> bool {
    match o {
        Some(r) => r.wf(),
        None => true,
    }
}

/// A stored optional range is read back as it was.
pub proof fn lemma_opt_range(o: Option<Range>, ts: Seq<TokenView>, at: int)
    requires
        valid_opt_range(o),
        holds_at(ts, at, ser_opt_range(o)),
    ensures
        parse_opt_range(ts, at) == Some((o, at + ser_opt_range(o).len())),
{
    assert(ts[at + 0] == ser_opt_range(o)[0]);
    if let Some(r) = o {
        lemma_holds_split(ts, at, seq![flag(true)], ser_range(r));
        lemma_range(r, ts, at + 1);
    }
}

fn write_opt_range(out: &mut Vec<Token>, o: Option<Range>)
    ensures
        tokens_view(final(out)@) == tokens_view(old(out)@) + ser_opt_range(o),
{
    let ghost before = tokens_view(out@);
    match o {
        Some(r) => {
            put_flag(out, true);
            write_range(out, r);
            assert(tokens_view(out@) =~= before + ser_opt_range(o));
        },
        None => {
            put_flag(out, false);
        },
    }
}

fn read_opt_range(ts: &Vec<Token>, at: usize) -> (r: Option<(Option<Range>, usize)>)
    ensures
        match r {
            Some((x, next)) => parse_opt_range(tokens_view(ts@), at as int) == Some(
                (x, next as int),
            ) && next <= ts@.len(),
            None => parse_opt_range(tokens_view(ts@), at as int) is None,
        },
{
    match read_flag(ts, at) {
        Some(true) => match read_range(ts, at + 1) {
            Some((r, next)) => Some((Some(r), next)),
            None => None,
        },
        Some(false) => Some((None, at + 1)),
        None => None,
    }
}

/// The number of a kind.
pub open spec fn tag(v: u64) -> Seq<TokenView> {
    seq![TokenView::Num(v)]
}

/// The stored form of a move or a borrow: its kind, the variable, the
/// range, and for a borrow whether it is mutable and the optional range.
pub open spec fn ser_rval(v: MirRval) -> Seq<TokenView> {
    match v {
        MirRval::Move { target_local, range } => tag(0) + ser_local(target_local) + ser_range(
            range,
        ),
        MirRval::Borrow { target_local, range, mutable, outlive } => tag(1) + ser_local(
            target_local,
        ) + ser_range(range) + seq![flag(mutable)] + ser_opt_range(outlive),
    }
}

/// The move or borrow that is stored at index `at`.
pub open spec fn parse_rval(ts: Seq<TokenView>, at: int) -> Option<(MirRval, int)> {
    match (num_at(ts, at), parse_local(ts, at + 1), parse_range(ts, at + 3)) {
        (Some(kind), Some((target_local, _)), Some((range, _))) => if kind == 0 {
            Some((MirRval::Move { target_local, range }, at + 5))
        } else if kind == 1 {
            match (flag_at(ts, at + 5), parse_opt_range(ts, at + 6)) {
                (Some(mutable), Some((outlive, next))) => Some(
                    (MirRval::Borrow { target_local, range, mutable, outlive }, next),
                ),
                _ => None,
            }
        } else {
            None
        },
        _ => None,
    }
}

/// Whether every range of the move or borrow holds an offset.
pub open spec fn valid_rval(v: MirRval) -> bool {
    match v {
        MirRval::Move { range, .. } => range.wf(),
        MirRval::Borrow { range, outlive, .. } => range.wf() && valid_opt_range(outlive),
    }
}

/// A stored move or borrow is read back as it was.
pub proof fn lemma_rval(v: MirRval, ts: Seq<TokenView>, at: int)
    requires
        valid_rval(v),
        holds_at(ts, at, ser_rval(v)),
    ensures
        parse_rval(ts, at) == Some((v, at + ser_rval(v).len())),
{
    match v {
        MirRval::Move { target_local, range } => {
            lemma_holds_split(ts, at, tag(0) + ser_local(target_local), ser_range(range));
            lemma_holds_split(ts, at, tag(0), ser_local(target_local));
            assert(ts[at + 0] == tag(0)[0]);
            lemma_local(target_local, ts, at + 1);
            lemma_range(range, ts, at + 3);
        },
        MirRval::Borrow { target_local, range, mutable, outlive } => {
            let head = tag(1) + ser_local(target_local) + ser_range(range);
            lemma_holds_split(ts, at, head + seq![flag(mutable)], ser_opt_range(outlive));
            lemma_holds_split(ts, at, head, seq![flag(mutable)]);
            lemma_holds_split(ts, at, tag(1) + ser_local(target_local), ser_range(range));
            lemma_holds_split(ts, at, tag(1), ser_local(target_local));
            assert(ts[at + 0] == tag(1)[0]);
            assert(ts[at + 5 + 0] == seq![flag(mutable)][0]);
            lemma_local(target_local, ts, at + 1);
            lemma_range(range, ts, at + 3);
            lemma_opt_range(outlive, ts, at + 6);
        },
    }
}

fn write_rval(out: &mut Vec<Token>, v: &MirRval)
    ensures
        tokens_view(final(out)@) == tokens_view(old(out)@) + ser_rval(*v),
{
    let ghost before = tokens_view(out@);
    match v {
        MirRval::Move { target_local, range } => {
            put_num(out, 0);
            write_local(out, *target_local);
            write_range(out, *range);
        },
        MirRval::Borrow { target_local, range, mutable, outlive } => {
            put_num(out, 1);
            write_local(out, *target_local);
            write_range(out, *range);
            put_flag(out, *mutable);
            write_opt_range(out, *outlive);
        },
    }
    assert(tokens_view(out@) =~= before + ser_rval(*v));
}

fn read_rval(ts: &Vec<Token>, at: usize) -> (r: Option<(MirRval, usize)>)
    ensures
        match r {
            Some((x, next)) => parse_rval(tokens_view(ts@), at as int) == Some((x, next as int))
                && next <= ts@.len(),
            None => parse_rval(tokens_view(ts@), at as int) is None,
        },
{
    let kind = match read_num(ts, at) {
        Some(kind) => kind,
        None => {
            return None;
        },
    };
    let (target_local, after_local) = match read_local(ts, at + 1) {
        Some(found) => found,
        None => {
            return None;
        },
    };
    let (range, after_range) = match read_range(ts, after_local) {
        Some(found) => found,
        None => {
            return None;
        },
    };
    if kind == 0 {
        Some((MirRval::Move { target_local, range }, after_range))
    } else if kind == 1 {
        match read_flag(ts, after_range) {
            Some(mutable) => match read_opt_range(ts, after_range + 1) {
                Some((outlive, next)) => Some(
                    (MirRval::Borrow { target_local, range, mutable, outlive }, next),
                ),
                None => None,
            },
            None => None,
        }
    } else {
        None
    }
}

/// The stored form of an optional move or borrow.
pub open spec fn ser_opt_rval(o: Option<MirRval>) -> Seq<TokenView> {
    match o {
        Some(v) => seq![flag(true)] + ser_rval(v),
        None => seq![flag(false)],
    }
}

/// The optional move or borrow that is stored at index `at`.
pub open spec fn parse_opt_rval(ts: Seq<TokenView>, at: int) -> Option<(Option<MirRval>, int)> {
    match flag_at(ts, at) {
        Some(true) => match parse_rval(ts, at + 1) {
            Some((v, next)) => Some((Some(v), next)),
            None => None,
        },
        Some(false) => Some((None, at + 1)),
        None => None,
    }
}

/// Whether every range of the move or borrow, if there is one, holds an
/// offset.
pub open spec fn valid_opt_rval(o: Option<MirRval>) -> bool {
    match o {
        Some(v) => valid_rval(v),
        None => true,
    }
}

/// A stored optional move or borrow is read back as it was.
pub proof fn lemma_opt_rval(o: Option<MirRval>, ts: Seq<TokenView>, at: int)
    requires
        valid_opt_rval(o),
        holds_at(ts, at, ser_opt_rval(o)),
    ensures
        parse_opt_rval(ts, at) == Some((o, at + ser_opt_rval(o).len())),
{
    assert(ts[at + 0] == ser_opt_rval(o)[0]);
    if let Some(v) = o {
        lemma_holds_split(ts, at, seq![flag(true)], ser_rval(v));
        lemma_rval(v, ts, at + 1);
    }
}

fn write_opt_rval(out: &mut Vec<Token>, o: &Option<MirRval>)
    ensures
        tokens_view(final(out)@) == tokens_view(old(out)@) + ser_opt_rval(*o),
{
    let ghost before = tokens_view(out@);
    match o {
        Some(v) => {
            put_flag(out, true);
            write_rval(out, v);
            assert(tokens_view(out@) =~= before + ser_opt_rval(*o));
        },
        None => {
            put_flag(out, false);
        },
    }
}

fn read_opt_rval(ts: &Vec<Token>, at: usize) -> (r: Option<(Option<MirRval>, usize)>)
    ensures
        match r {
            Some((x, next)) => parse_opt_rval(tokens_view(ts@), at as int) == Some(
                (x, next as int),
            ) && next <= ts@.len(),
            None => parse_opt_rval(tokens_view(ts@), at as int) is None,
        },
{
    match read_flag(ts, at) {
        Some(true) => match read_rval(ts, at + 1) {
            Some((v, next)) => Some((Some(v), next)),
            None => None,
        },
        Some(false) => Some((None, at + 1)),
        None => None,
    }
}

/// The stored form of a statement: its kind and what it holds.
pub open spec fn ser_statement(v: MirStatement) -> Seq<TokenView> {
    match v {
        MirStatement::StorageLive { target_local, range } => tag(0) + ser_local(target_local)
            + ser_range(range),
        MirStatement::StorageDead { target_local, range } => tag(1) + ser_local(target_local)
            + ser_range(range),
        MirStatement::Assign { target_local, range, rval } => tag(2) + ser_local(target_local)
            + ser_range(range) + ser_opt_rval(rval),
        MirStatement::Other { range } => tag(3) + ser_range(range),
    }
}

/// The statement that is stored at index `at`.
pub open spec fn parse_statement(ts: Seq<TokenView>, at: int) -> Option<(MirStatement, int)> {
    match num_at(ts, at) {
        Some(kind) => if kind == 3 {
            match parse_range(ts, at + 1) {
                Some((range, next)) => Some((MirStatement::Other { range }, next)),
                None => None,
            }
        } else {
            match (parse_local(ts, at + 1), parse_range(ts, at + 3)) {
                (Some((target_local, _)), Some((range, _))) => if kind == 0 {
                    Some((MirStatement::StorageLive { target_local, range }, at + 5))
                } else if kind == 1 {
                    Some((MirStatement::StorageDead { target_local, range }, at + 5))
                } else if kind == 2 {
                    match parse_opt_rval(ts, at + 5) {
                        Some((rval, next)) => Some(
                            (MirStatement::Assign { target_local, range, rval }, next),
                        ),
                        None => None,
                    }
                } else {
                    None
                },
                _ => None,
            }
        },
        None => None,
    }
}

/// Whether every range of the statement holds an offset.
pub open spec fn valid_statement(v: MirStatement) -> bool {
    match v {
        MirStatement::Assign { range, rval, .. } => range.wf() && valid_opt_rval(rval),
        _ => v.spec_range().wf(),
    }
}

/// A stored statement is read back as it was.
pub proof fn lemma_statement(v: MirStatement, ts: Seq<TokenView>, at: int)
    requires
        valid_statement(v),
        holds_at(ts, at, ser_statement(v)),
    ensures
        parse_statement(ts, at) == Some((v, at + ser_statement(v).len())),
{
    match v {
        MirStatement::StorageLive { target_local, range } => {
            lemma_holds_split(ts, at, tag(0) + ser_local(target_local), ser_range(range));
            lemma_holds_split(ts, at, tag(0), ser_local(target_local));
            assert(ts[at + 0] == tag(0)[0]);
            lemma_local(target_local, ts, at + 1);
            lemma_range(range, ts, at + 3);
        },
        MirStatement::StorageDead { target_local, range } => {
            lemma_holds_split(ts, at, tag(1) + ser_local(target_local), ser_range(range));
            lemma_holds_split(ts, at, tag(1), ser_local(target_local));
            assert(ts[at + 0] == tag(1)[0]);
            lemma_local(target_local, ts, at + 1);
            lemma_range(range, ts, at + 3);
        },
        MirStatement::Assign { target_local, range, rval } => {
            let head = tag(2) + ser_local(target_local) + ser_range(range);
            lemma_holds_split(ts, at, head, ser_opt_rval(rval));
            lemma_holds_split(ts, at, tag(2) + ser_local(target_local), ser_range(range));
            lemma_holds_split(ts, at, tag(2), ser_local(target_local));
            assert(ts[at + 0] == tag(2)[0]);
            lemma_local(target_local, ts, at + 1);
            lemma_range(range, ts, at + 3);
            lemma_opt_rval(rval, ts, at + 5);
        },
        MirStatement::Other { range } => {
            lemma_holds_split(ts, at, tag(3), ser_range(range));
            assert(ts[at + 0] == tag(3)[0]);
            lemma_range(range, ts, at + 1);
        },
    }
}

fn write_statement(out: &mut Vec<Token>, v: &MirStatement)
    ensures
        tokens_view(final(out)@) == tokens_view(old(out)@) + ser_statement(*v),
{
    let ghost before = tokens_view(out@);
    match v {
        MirStatement::StorageLive { target_local, range } => {
            put_num(out, 0);
            write_local(out, *target_local);
            write_range(out, *range);
        },
        MirStatement::StorageDead { target_local, range } => {
            put_num(out, 1);
            write_local(out, *target_local);
            write_range(out, *range);
        },
        MirStatement::Assign { target_local, range, rval } => {
            put_num(out, 2);
            write_local(out, *target_local);
            write_range(out, *range);
            write_opt_rval(out, rval);
        },
        MirStatement::Other { range } => {
            put_num(out, 3);
            write_range(out, *range);
        },
    }
    assert(tokens_view(out@) =~= before + ser_statement(*v));
}

fn read_statement(ts: &Vec<Token>, at: usize) -> (r: Option<(MirStatement, usize)>)
    ensures
        match r {
            Some((x, next)) => parse_statement(tokens_view(ts@), at as int) == Some(
                (x, next as int),
            ) && next <= ts@.len(),
            None => parse_statement(tokens_view(ts@), at as int) is None,
        },
{
    let kind = match read_num(ts, at) {
        Some(kind) => kind,
        None => {
            return None;
        },
    };
    if kind == 3 {
        return match read_range(ts, at + 1) {
            Some((range, next)) => Some((MirStatement::Other { range }, next)),
            None => None,
        };
    }
    let (target_local, after_local) = match read_local(ts, at + 1) {
        Some(found) => found,
        None => {
            return None;
        },
    };
    let (range, after_range) = match read_range(ts, after_local) {
        Some(found) => found,
        None => {
            return None;
        },
    };
    if kind == 0 {
        Some((MirStatement::StorageLive { target_local, range }, after_range))
    } else if kind == 1 {
        Some((MirStatement::StorageDead { target_local, range }, after_range))
    } else if kind == 2 {
        match read_opt_rval(ts, after_range) {
            Some((rval, next)) => Some((MirStatement::Assign { target_local, range, rval }, next)),
            None => None,
        }
    } else {
        None
    }
}

/// The stored form of a terminator: its kind and what it holds.
pub open spec fn ser_terminator(v: MirTerminator) -> Seq<TokenView> {
    match v {
        MirTerminator::Drop { local, range } => tag(0) + ser_local(local) + ser_range(range),
        MirTerminator::Call { destination_local, fn_span } => tag(1) + ser_local(
            destination_local,
        ) + ser_range(fn_span),
        MirTerminator::Other { range } => tag(2) + ser_range(range),
    }
}

/// The terminator that is stored at index `at`.
pub open spec fn parse_terminator(ts: Seq<TokenView>, at: int) -> Option<(MirTerminator, int)> {
    match num_at(ts, at) {
        Some(kind) => if kind == 2 {
            match parse_range(ts, at + 1) {
                Some((range, next)) => Some((MirTerminator::Other { range }, next)),
                None => None,
            }
        } else {
            match (parse_local(ts, at + 1), parse_range(ts, at + 3)) {
                (Some((local, _)), Some((range, _))) => if kind == 0 {
                    Some((MirTerminator::Drop { local, range }, at + 5))
                } else if kind == 1 {
                    Some(
                        (MirTerminator::Call { destination_local: local, fn_span: range }, at + 5),
                    )
                } else {
                    None
                },
                _ => None,
            }
        },
        None => None,
    }
}

/// A stored terminator is read back as it was.
pub proof fn lemma_terminator(v: MirTerminator, ts: Seq<TokenView>, at: int)
    requires
        v.spec_range().wf(),
        holds_at(ts, at, ser_terminator(v)),
    ensures
        parse_terminator(ts, at) == Some((v, at + ser_terminator(v).len())),
{
    match v {
        MirTerminator::Drop { local, range } => {
            lemma_holds_split(ts, at, tag(0) + ser_local(local), ser_range(range));
            lemma_holds_split(ts, at, tag(0), ser_local(local));
            assert(ts[at + 0] == tag(0)[0]);
            lemma_local(local, ts, at + 1);
            lemma_range(range, ts, at + 3);
        },
        MirTerminator::Call { destination_local, fn_span } => {
            lemma_holds_split(ts, at, tag(1) + ser_local(destination_local), ser_range(fn_span));
            lemma_holds_split(ts, at, tag(1), ser_local(destination_local));
            assert(ts[at + 0] == tag(1)[0]);
            lemma_local(destination_local, ts, at + 1);
            lemma_range(fn_span, ts, at + 3);
        },
        MirTerminator::Other { range } => {
            lemma_holds_split(ts, at, tag(2), ser_range(range));
            assert(ts[at + 0] == tag(2)[0]);
            lemma_range(range, ts, at + 1);
        },
    }
}

fn write_terminator(out: &mut Vec<Token>, v: &MirTerminator)
    ensures
        tokens_view(final(out)@) == tokens_view(old(out)@) + ser_terminator(*v),
{
    let ghost before = tokens_view(out@);
    match v {
        MirTerminator::Drop { local, range } => {
            put_num(out, 0);
            write_local(out, *local);
            write_range(out, *range);
        },
        MirTerminator::Call { destination_local, fn_span } => {
            put_num(out, 1);
            write_local(out, *destination_local);
            write_range(out, *fn_span);
        },
        MirTerminator::Other { range } => {
            put_num(out, 2);
            write_range(out, *range);
        },
    }
    assert(tokens_view(out@) =~= before + ser_terminator(*v));
}

fn read_terminator(ts: &Vec<Token>, at: usize) -> (r: Option<(MirTerminator, usize)>)
    ensures
        match r {
            Some((x, next)) => parse_terminator(tokens_view(ts@), at as int) == Some(
                (x, next as int),
            ) && next <= ts@.len(),
            None => parse_terminator(tokens_view(ts@), at as int) is None,
        },
{
    let kind = match read_num(ts, at) {
        Some(kind) => kind,
        None => {
            return None;
        },
    };
    if kind == 2 {
        return match read_range(ts, at + 1) {
            Some((range, next)) => Some((MirTerminator::Other { range }, next)),
            None => None,
        };
    }
    let (local, after_local) = match read_local(ts, at + 1) {
        Some(found) => found,
        None => {
            return None;
        },
    };
    let (range, after_range) = match read_range(ts, after_local) {
        Some(found) => found,
        None => {
            return None;
        },
    };
    if kind == 0 {
        Some((MirTerminator::Drop { local, range }, after_range))
    } else if kind == 1 {
        Some((MirTerminator::Call { destination_local: local, fn_span: range }, after_range))
    } else {
        None
    }
}

/// The stored form of an optional terminator.
pub open spec fn ser_opt_terminator(o: Option<MirTerminator>) -> Seq<TokenView> {
    match o {
        Some(v) => seq![flag(true)] + ser_terminator(v),
        None => seq![flag(false)],
    }
}

/// The optional terminator that is stored at index `at`.
pub open spec fn parse_opt_terminator(ts: Seq<TokenView>, at: int) -> Option<
    (Option<MirTerminator>, int),
> {
    match flag_at(ts, at) {
        Some(true) => match parse_terminator(ts, at + 1) {
            Some((v, next)) => Some((Some(v), next)),
            None => None,
        },
        Some(false) => Some((None, at + 1)),
        None => None,
    }
}

/// Whether the range of the terminator, if there is one, holds an offset.
pub open spec fn valid_opt_terminator(o: Option<MirTerminator>) -> bool {
    match o {
        Some(v) => v.spec_range().wf(),
        None => true,
    }
}

/// A stored optional terminator is read back as it was.
pub proof fn lemma_opt_terminator(o: Option<MirTerminator>, ts: Seq<TokenView>, at: int)
    requires
        valid_opt_terminator(o),
        holds_at(ts, at, ser_opt_terminator(o)),
    ensures
        parse_opt_terminator(ts, at) == Some((o, at + ser_opt_terminator(o).len())),
{
    assert(ts[at + 0] == ser_opt_terminator(o)[0]);
    if let Some(v) = o {
        lemma_holds_split(ts, at, seq![flag(true)], ser_terminator(v));
        lemma_terminator(v, ts, at + 1);
    }
}

fn write_opt_terminator(out: &mut Vec<Token>, o: &Option<MirTerminator>)
    ensures
        tokens_view(final(out)@) == tokens_view(old(out)@) + ser_opt_terminator(*o),
{
    let ghost before = tokens_view(out@);
    match o {
        Some(v) => {
            put_flag(out, true);
            write_terminator(out, v);
            assert(tokens_view(out@) =~= before + ser_opt_terminator(*o));
        },
        None => {
            put_flag(out, false);
        },
    }
}

fn read_opt_terminator(ts: &Vec<Token>, at: usize) -> (r: Option<(Option<MirTerminator>, usize)>)
    ensures
        match r {
            Some((x, next)) => parse_opt_terminator(tokens_view(ts@), at as int) == Some(
                (x, next as int),
            ) && next <= ts@.len(),
            None => parse_opt_terminator(tokens_view(ts@), at as int) is None,
        },
{
    match read_flag(ts, at) {
        Some(true) => match read_terminator(ts, at + 1) {
            Some((v, next)) => Some((Some(v), next)),
            None => None,
        },
        Some(false) => Some((None, at + 1)),
        None => None,
    }
}

/// The stored forms of the values of a list, one after the other.
pub open spec fn ser_all<T>(f: spec_fn(T) -> Seq<TokenView>, s: Seq<T>) -> Seq<TokenView>
    decreases s.len(),
{
    if s.len() == 0 {
        Seq::empty()
    } else {
        ser_all(f, s.drop_last()) + f(s.last())
    }
}

/// The `n` values that are stored one after the other from index `at` on,
/// with the index after them.
pub open spec fn parse_n<T>(
    p: spec_fn(Seq<TokenView>, int) -> Option<(T, int)>,
    ts: Seq<TokenView>,
    at: int,
    n: nat,
) -> Option<(Seq<T>, int)>
    decreases n,
{
    if n == 0 {
        Some((Seq::empty(), at))
    } else {
        match parse_n(p, ts, at, (n - 1) as nat) {
            Some((prefix, mid)) => match p(ts, mid) {
                Some((x, next)) => Some((prefix.push(x), next)),
                None => None,
            },
            None => None,
        }
    }
}

/// The stored form of a list: the number of its values, then the values.
pub open spec fn ser_counted<T>(f: spec_fn(T) -> Seq<TokenView>, s: Seq<T>) -> Seq<TokenView> {
    seq![TokenView::Num(s.len() as u64)] + ser_all(f, s)
}

/// The list that is stored at index `at`, with the index after it.
pub open spec fn parse_counted<T>(
    p: spec_fn(Seq<TokenView>, int) -> Option<(T, int)>,
    ts: Seq<TokenView>,
    at: int,
) -> Option<(Seq<T>, int)> {
    match num_at(ts, at) {
        Some(n) => parse_n(p, ts, at + 1, n as nat),
        None => None,
    }
}

/// Every valid value that `f` stores is read back by `p` as it was.
pub open spec fn reads_back<T>(
    f: spec_fn(T) -> Seq<TokenView>,
    p: spec_fn(Seq<TokenView>, int) -> Option<(T, int)>,
    valid: spec_fn(T) -> bool,
) -> bool {
    forall|x: T, ts: Seq<TokenView>, at: int|
        valid(x) && #[trigger] holds_at(ts, at, f(x)) ==> p(ts, at) == Some((x, at + f(x).len()))
}

/// Every value of the list is valid.
pub open spec fn all_valid<T>(valid: spec_fn(T) -> bool, s: Seq<T>) -> bool {
    forall|i: int| 0 <= i < s.len() ==> valid(#[trigger] s[i])
}

/// Stored values that stand one after the other are read back as they
/// were.
pub proof fn lemma_all<T>(
    f: spec_fn(T) -> Seq<TokenView>,
    p: spec_fn(Seq<TokenView>, int) -> Option<(T, int)>,
    valid: spec_fn(T) -> bool,
    s: Seq<T>,
    ts: Seq<TokenView>,
    at: int,
)
    requires
        reads_back(f, p, valid),
        all_valid(valid, s),
        holds_at(ts, at, ser_all(f, s)),
    ensures
        parse_n(p, ts, at, s.len()) == Some((s, at + ser_all(f, s).len())),
    decreases s.len(),
{
    if s.len() > 0 {
        let init = s.drop_last();
        lemma_holds_split(ts, at, ser_all(f, init), f(s.last()));
        assert(all_valid(valid, init)) by {
            assert forall|i: int| 0 <= i < init.len() implies valid(#[trigger] init[i]) by {
                assert(init[i] == s[i]);
            }
        }
        lemma_all(f, p, valid, init, ts, at);
        let mid = at + ser_all(f, init).len();
        assert(valid(s[s.len() - 1]));
        assert(holds_at(ts, mid, f(s.last())));
        assert(p(ts, mid) == Some((s.last(), mid + f(s.last()).len())));
        assert(init.push(s.last()) =~= s);
    }
}

/// A stored list is read back as it was.
pub proof fn lemma_counted<T>(
    f: spec_fn(T) -> Seq<TokenView>,
    p: spec_fn(Seq<TokenView>, int) -> Option<(T, int)>,
    valid: spec_fn(T) -> bool,
    s: Seq<T>,
    ts: Seq<TokenView>,
    at: int,
)
    requires
        reads_back(f, p, valid),
        all_valid(valid, s),
        s.len() <= u64::MAX,
        holds_at(ts, at, ser_counted(f, s)),
    ensures
        parse_counted(p, ts, at) == Some((s, at + ser_counted(f, s).len())),
{
    lemma_holds_split(ts, at, seq![TokenView::Num(s.len() as u64)], ser_all(f, s));
    assert(ts[at + 0] == seq![TokenView::Num(s.len() as u64)][0]);
    lemma_all(f, p, valid, s, ts, at + 1);
}

/// Where fewer values cannot be read, more cannot be read.
pub proof fn lemma_parse_n_none<T>(
    p: spec_fn(Seq<TokenView>, int) -> Option<(T, int)>,
    ts: Seq<TokenView>,
    at: int,
    k: nat,
    n: nat,
)
    requires
        k <= n,
        parse_n(p, ts, at, k) is None,
    ensures
        parse_n(p, ts, at, n) is None,
    decreases n,
{
    if k < n {
        lemma_parse_n_none(p, ts, at, k, (n - 1) as nat);
    }
}

/// How a range is stored.
pub open spec fn range_writer() -> spec_fn(Range) -> Seq<TokenView> {
    |r: Range| ser_range(r)
}

/// How a range is read.
pub open spec fn range_parser() -> spec_fn(Seq<TokenView>, int) -> Option<(Range, int)> {
    |ts: Seq<TokenView>, at: int| parse_range(ts, at)
}

/// Whether a range holds an offset.
pub open spec fn range_valid() -> spec_fn(Range) -> bool {
    |r: Range| r.wf()
}

/// The stored form of a list of ranges.
pub open spec fn ser_ranges(s: Seq<Range>) -> Seq<TokenView> {
    ser_counted(range_writer(), s)
}

/// The list of ranges that is stored at index `at`.
pub open spec fn parse_ranges(ts: Seq<TokenView>, at: int) -> Option<(Seq<Range>, int)> {
    parse_counted(range_parser(), ts, at)
}

/// Whether the list can be stored and read back: each range holds an
/// offset, and the length of the list is a number of the stored form.
pub open spec fn valid_ranges(s: Seq<Range>) -> bool {
    s.len() <= u64::MAX && all_valid(range_valid(), s)
}

/// A stored list of ranges is read back as it was.
pub proof fn lemma_ranges(s: Seq<Range>, ts: Seq<TokenView>, at: int)
    requires
        valid_ranges(s),
        holds_at(ts, at, ser_ranges(s)),
    ensures
        parse_ranges(ts, at) == Some((s, at + ser_ranges(s).len())),
{
    assert(reads_back(range_writer(), range_parser(), range_valid())) by {
        assert forall|x: Range, ts: Seq<TokenView>, at: int|
            (range_valid())(x) && #[trigger] holds_at(ts, at, (range_writer())(x)) implies (
        range_parser())(ts, at) == Some((x, at + (range_writer())(x).len())) by {
            lemma_range(x, ts, at);
        }
    }
    lemma_counted(range_writer(), range_parser(), range_valid(), s, ts, at);
}

fn write_ranges(out: &mut Vec<Token>, ranges: &Vec<Range>)
    ensures
        tokens_view(final(out)@) == tokens_view(old(out)@) + ser_ranges(ranges@),
{
    let ghost before = tokens_view(out@);
    put_num(out, ranges.len() as u64);
    let ghost head = tokens_view(out@);
    let mut i: usize = 0;
    while i < ranges.len()
        invariant
            i <= ranges@.len(),
            tokens_view(out@) == head + ser_all(range_writer(), ranges@.take(i as int)),
        decreases ranges.len() - i,
    {
        write_range(out, ranges[i]);
        assert(ranges@.take(i + 1).drop_last() =~= ranges@.take(i as int));
        assert(tokens_view(out@) =~= head + ser_all(range_writer(), ranges@.take(i + 1)));
        i += 1;
    }
    assert(ranges@.take(ranges@.len() as int) =~= ranges@);
    assert(tokens_view(out@) =~= before + ser_ranges(ranges@));
}

fn read_ranges(ts: &Vec<Token>, at: usize) -> (r: Option<(Vec<Range>, usize)>)
    ensures
        match r {
            Some((x, next)) => parse_ranges(tokens_view(ts@), at as int) == Some(
                (x@, next as int),
            ) && next <= ts@.len(),
            None => parse_ranges(tokens_view(ts@), at as int) is None,
        },
{
    let count = match read_num(ts, at) {
        Some(count) => count,
        None => {
            return None;
        },
    };
    let mut out: Vec<Range> = Vec::new();
    let mut pos: usize = at + 1;
    let mut i: u64 = 0;
    while i < count
        invariant
            i <= count,
            pos <= ts@.len(),
            num_at(tokens_view(ts@), at as int) == Some(count),
            parse_n(range_parser(), tokens_view(ts@), at + 1, i as nat) == Some(
                (out@, pos as int),
            ),
        decreases count - i,
    {
        match read_range(ts, pos) {
            Some((x, next)) => {
                out.push(x);
                pos = next;
            },
            None => {
                proof {
                    lemma_parse_n_none(
                        range_parser(),
                        tokens_view(ts@),
                        at + 1,
                        (i + 1) as nat,
                        count as nat,
                    );
                }
                return None;
            },
        }
        i += 1;
    }
    Some((out, pos))
}

/// How a statement is stored.
pub open spec fn statement_writer() -> spec_fn(MirStatement) -> Seq<TokenView> {
    |v: MirStatement| ser_statement(v)
}

/// How a statement is read.
pub open spec fn statement_parser() -> spec_fn(Seq<TokenView>, int) -> Option<(MirStatement, int)> {
    |ts: Seq<TokenView>, at: int| parse_statement(ts, at)
}

/// Whether every range of a statement holds an offset.
pub open spec fn statement_valid() -> spec_fn(MirStatement) -> bool {
    |v: MirStatement| valid_statement(v)
}

/// The stored form of a block: its statements as a list, then its
/// optional terminator.
pub open spec fn ser_block(b: BasicBlockView) -> Seq<TokenView> {
    ser_counted(statement_writer(), b.statements) + ser_opt_terminator(b.terminator)
}

/// The block that is stored at index `at`.
pub open spec fn parse_block(ts: Seq<TokenView>, at: int) -> Option<(BasicBlockView, int)> {
    match parse_counted(statement_parser(), ts, at) {
        Some((statements, mid)) => match parse_opt_terminator(ts, mid) {
            Some((terminator, next)) => Some((BasicBlockView { statements, terminator }, next)),
            None => None,
        },
        None => None,
    }
}

/// Whether the block can be stored and read back.
pub open spec fn valid_block(b: BasicBlockView) -> bool {
    &&& b.statements.len() <= u64::MAX
    &&& all_valid(statement_valid(), b.statements)
    &&& valid_opt_terminator(b.terminator)
}

/// A stored block is read back as it was.
pub proof fn lemma_block(b: BasicBlockView, ts: Seq<TokenView>, at: int)
    requires
        valid_block(b),
        holds_at(ts, at, ser_block(b)),
    ensures
        parse_block(ts, at) == Some((b, at + ser_block(b).len())),
{
    assert(reads_back(statement_writer(), statement_parser(), statement_valid())) by {
        assert forall|x: MirStatement, ts: Seq<TokenView>, at: int|
            (statement_valid())(x) && #[trigger] holds_at(ts, at, (statement_writer())(x)) implies (
        statement_parser())(ts, at) == Some((x, at + (statement_writer())(x).len())) by {
            lemma_statement(x, ts, at);
        }
    }
    let head = ser_counted(statement_writer(), b.statements);
    lemma_holds_split(ts, at, head, ser_opt_terminator(b.terminator));
    lemma_counted(statement_writer(), statement_parser(), statement_valid(), b.statements, ts, at);
    lemma_opt_terminator(b.terminator, ts, at + head.len());
}

fn write_block(out: &mut Vec<Token>, block: &MirBasicBlock)
    ensures
        tokens_view(final(out)@) == tokens_view(old(out)@) + ser_block(block@),
{
    let ghost before = tokens_view(out@);
    put_num(out, block.statements.len() as u64);
    let ghost head = tokens_view(out@);
    let mut i: usize = 0;
    while i < block.statements.len()
        invariant
            i <= block.statements@.len(),
            tokens_view(out@) == head + ser_all(
                statement_writer(),
                block.statements@.take(i as int),
            ),
        decreases block.statements.len() - i,
    {
        write_statement(out, &block.statements[i]);
        assert(block.statements@.take(i + 1).drop_last() =~= block.statements@.take(i as int));
        assert(tokens_view(out@) =~= head + ser_all(
            statement_writer(),
            block.statements@.take(i + 1),
        ));
        i += 1;
    }
    assert(block.statements@.take(block.statements@.len() as int) =~= block.statements@);
    write_opt_terminator(out, &block.terminator);
    assert(tokens_view(out@) =~= before + ser_block(block@));
}

fn read_block(ts: &Vec<Token>, at: usize) -> (r: Option<(MirBasicBlock, usize)>)
    ensures
        match r {
            Some((x, next)) => parse_block(tokens_view(ts@), at as int) == Some(
                (x@, next as int),
            ) && next <= ts@.len(),
            None => parse_block(tokens_view(ts@), at as int) is None,
        },
{
    let count = match read_num(ts, at) {
        Some(count) => count,
        None => {
            return None;
        },
    };
    let mut statements: Vec<MirStatement> = Vec::new();
    let mut pos: usize = at + 1;
    let mut i: u64 = 0;
    while i < count
        invariant
            i <= count,
            pos <= ts@.len(),
            num_at(tokens_view(ts@), at as int) == Some(count),
            parse_n(statement_parser(), tokens_view(ts@), at + 1, i as nat) == Some(
                (statements@, pos as int),
            ),
        decreases count - i,
    {
        match read_statement(ts, pos) {
            Some((x, next)) => {
                statements.push(x);
                pos = next;
            },
            None => {
                proof {
                    lemma_parse_n_none(
                        statement_parser(),
                        tokens_view(ts@),
                        at + 1,
                        (i + 1) as nat,
                        count as nat,
                    );
                }
                return None;
            },
        }
        i += 1;
    }
    match read_opt_terminator(ts, pos) {
        Some((terminator, next)) => Some((MirBasicBlock { statements, terminator }, next)),
        None => None,
    }
}

/// The stored form of the ranges of a declaration, after its type as
/// text: where the variable lives, is borrowed shared and mutably,
/// whether it is dropped, where its drop lives and where it must live.
pub open spec fn ser_decl_body(d: MirDeclView) -> Seq<TokenView> {
    seq![TokenView::Text(d.ty)] + ser_ranges(d.lives) + ser_ranges(d.shared_borrow) + ser_ranges(
        d.mutable_borrow,
    ) + seq![flag(d.drop)] + ser_ranges(d.drop_range) + ser_ranges(d.must_live_at)
}

/// The stored form of what names a declaration: whether the variable is
/// user-named, the variable, and for a user-named one its name and the
/// range of its declaration.
pub open spec fn ser_decl_head(d: MirDeclView) -> Seq<TokenView> {
    match (d.name, d.span) {
        (Some(name), Some(span)) => seq![flag(true)] + ser_local(d.local) + seq![
            TokenView::Text(name),
        ] + ser_range(span),
        _ => seq![flag(false)] + ser_local(d.local),
    }
}

/// The stored form of a declaration.
pub open spec fn ser_decl(d: MirDeclView) -> Seq<TokenView> {
    ser_decl_head(d) + ser_decl_body(d)
}

/// The declaration that is stored at index `at`, given what names it.
pub open spec fn parse_decl_body(
    ts: Seq<TokenView>,
    at: int,
    local: FnLocal,
    name: Option<Seq<char>>,
    span: Option<Range>,
) -> Option<(MirDeclView, int)> {
    match (text_at(ts, at), parse_ranges(ts, at + 1)) {
        (Some(ty), Some((lives, after_lives))) => match parse_ranges(ts, after_lives) {
            Some((shared_borrow, after_shared)) => match parse_ranges(ts, after_shared) {
                Some((mutable_borrow, after_mutable)) => match (
                    flag_at(ts, after_mutable),
                    parse_ranges(ts, after_mutable + 1),
                ) {
                    (Some(drop), Some((drop_range, after_drop))) => match parse_ranges(
                        ts,
                        after_drop,
                    ) {
                        Some((must_live_at, next)) => Some(
                            (
                                MirDeclView {
                                    local,
                                    name,
                                    span,
                                    ty,
                                    lives,
                                    shared_borrow,
                                    mutable_borrow,
                                    drop,
                                    drop_range,
                                    must_live_at,
                                },
                                next,
                            ),
                        ),
                        None => None,
                    },
                    _ => None,
                },
                None => None,
            },
            None => None,
        },
        _ => None,
    }
}

/// The declaration that is stored at index `at`.
pub open spec fn parse_decl(ts: Seq<TokenView>, at: int) -> Option<(MirDeclView, int)> {
    match (flag_at(ts, at), parse_local(ts, at + 1)) {
        (Some(user), Some((local, _))) => if user {
            match (text_at(ts, at + 3), parse_range(ts, at + 4)) {
                (Some(name), Some((span, _))) => parse_decl_body(
                    ts,
                    at + 6,
                    local,
                    Some(name),
                    Some(span),
                ),
                _ => None,
            }
        } else {
            parse_decl_body(ts, at + 3, local, None, None)
        },
        _ => None,
    }
}

/// Whether the declaration can be stored and read back: it has a name
/// and a declaration site or neither, and its lists of ranges are valid.
pub open spec fn valid_decl(d: MirDeclView) -> bool {
    &&& d.name is Some == d.span is Some
    &&& valid_opt_range(d.span)
    &&& valid_ranges(d.lives)
    &&& valid_ranges(d.shared_borrow)
    &&& valid_ranges(d.mutable_borrow)
    &&& valid_ranges(d.drop_range)
    &&& valid_ranges(d.must_live_at)
}

/// The stored ranges of a declaration are read back as they were.
proof fn lemma_decl_body(d: MirDeclView, ts: Seq<TokenView>, at: int)
    requires
        valid_decl(d),
        holds_at(ts, at, ser_decl_body(d)),
    ensures
        parse_decl_body(ts, at, d.local, d.name, d.span) == Some(
            (d, at + ser_decl_body(d).len()),
        ),
{
    let ty = seq![TokenView::Text(d.ty)];
    let a = ty + ser_ranges(d.lives);
    let b = a + ser_ranges(d.shared_borrow);
    let c = b + ser_ranges(d.mutable_borrow);
    let e = c + seq![flag(d.drop)];
    let f = e + ser_ranges(d.drop_range);
    lemma_holds_split(ts, at, f, ser_ranges(d.must_live_at));
    lemma_holds_split(ts, at, e, ser_ranges(d.drop_range));
    lemma_holds_split(ts, at, c, seq![flag(d.drop)]);
    lemma_holds_split(ts, at, b, ser_ranges(d.mutable_borrow));
    lemma_holds_split(ts, at, a, ser_ranges(d.shared_borrow));
    lemma_holds_split(ts, at, ty, ser_ranges(d.lives));
    assert(ts[at + 0] == ty[0]);
    assert(ts[at + c.len() + 0] == seq![flag(d.drop)][0]);
    lemma_ranges(d.lives, ts, at + 1);
    lemma_ranges(d.shared_borrow, ts, at + a.len());
    lemma_ranges(d.mutable_borrow, ts, at + b.len());
    lemma_ranges(d.drop_range, ts, at + e.len());
    lemma_ranges(d.must_live_at, ts, at + f.len());
}

/// A stored declaration is read back as it was.
pub proof fn lemma_decl(d: MirDeclView, ts: Seq<TokenView>, at: int)
    requires
        valid_decl(d),
        holds_at(ts, at, ser_decl(d)),
    ensures
        parse_decl(ts, at) == Some((d, at + ser_decl(d).len())),
{
    lemma_holds_split(ts, at, ser_decl_head(d), ser_decl_body(d));
    match (d.name, d.span) {
        (Some(name), Some(span)) => {
            let a = seq![flag(true)] + ser_local(d.local);
            let b = a + seq![TokenView::Text(name)];
            lemma_holds_split(ts, at, b, ser_range(span));
            lemma_holds_split(ts, at, a, seq![TokenView::Text(name)]);
            lemma_holds_split(ts, at, seq![flag(true)], ser_local(d.local));
            assert(ts[at + 0] == seq![flag(true)][0]);
            assert(ts[at + 3 + 0] == seq![TokenView::Text(name)][0]);
            lemma_local(d.local, ts, at + 1);
            lemma_range(span, ts, at + 4);
            lemma_decl_body(d, ts, at + 6);
        },
        _ => {
            lemma_holds_split(ts, at, seq![flag(false)], ser_local(d.local));
            assert(ts[at + 0] == seq![flag(false)][0]);
            lemma_local(d.local, ts, at + 1);
            lemma_decl_body(d, ts, at + 3);
        },
    }
}

fn write_decl_body(
    out: &mut Vec<Token>,
    ty: &String,
    lives: &Vec<Range>,
    shared_borrow: &Vec<Range>,
    mutable_borrow: &Vec<Range>,
    drop: bool,
    drop_range: &Vec<Range>,
    must_live_at: &Vec<Range>,
)
    ensures
        tokens_view(final(out)@) == tokens_view(old(out)@) + (seq![TokenView::Text(ty@)]
            + ser_ranges(lives@) + ser_ranges(shared_borrow@) + ser_ranges(mutable_borrow@) + seq![
            flag(drop),
        ] + ser_ranges(drop_range@) + ser_ranges(must_live_at@)),
{
    let ghost before = tokens_view(out@);
    put_text(out, ty);
    write_ranges(out, lives);
    write_ranges(out, shared_borrow);
    write_ranges(out, mutable_borrow);
    put_flag(out, drop);
    write_ranges(out, drop_range);
    write_ranges(out, must_live_at);
    assert(tokens_view(out@) =~= before + (seq![TokenView::Text(ty@)] + ser_ranges(lives@)
        + ser_ranges(shared_borrow@) + ser_ranges(mutable_borrow@) + seq![flag(drop)] + ser_ranges(
        drop_range@,
    ) + ser_ranges(must_live_at@)));
}

fn write_decl(out: &mut Vec<Token>, decl: &MirDecl)
    ensures
        tokens_view(final(out)@) == tokens_view(old(out)@) + ser_decl(decl@),
{
    let ghost before = tokens_view(out@);
    match decl {
        MirDecl::User {
            local,
            name,
            span,
            ty,
            lives,
            shared_borrow,
            mutable_borrow,
            drop,
            drop_range,
            must_live_at,
        } => {
            put_flag(out, true);
            write_local(out, *local);
            put_text(out, name);
            write_range(out, *span);
            assert(tokens_view(out@) =~= before + ser_decl_head(decl@));
            write_decl_body(
                out,
                ty,
                lives,
                shared_borrow,
                mutable_borrow,
                *drop,
                drop_range,
                must_live_at,
            );
        },
        MirDecl::Other {
            local,
            ty,
            lives,
            shared_borrow,
            mutable_borrow,
            drop,
            drop_range,
            must_live_at,
        } => {
            put_flag(out, false);
            write_local(out, *local);
            assert(tokens_view(out@) =~= before + ser_decl_head(decl@));
            write_decl_body(
                out,
                ty,
                lives,
                shared_borrow,
                mutable_borrow,
                *drop,
                drop_range,
                must_live_at,
            );
        },
    }
    assert(tokens_view(out@) =~= before + ser_decl(decl@));
}

fn read_decl(ts: &Vec<Token>, at: usize) -> (r: Option<(MirDecl, usize)>)
    ensures
        match r {
            Some((x, next)) => parse_decl(tokens_view(ts@), at as int) == Some((x@, next as int))
                && next <= ts@.len(),
            None => parse_decl(tokens_view(ts@), at as int) is None,
        },
{
    let user = match read_flag(ts, at) {
        Some(user) => user,
        None => {
            return None;
        },
    };
    let (local, after_local) = match read_local(ts, at + 1) {
        Some(found) => found,
        None => {
            return None;
        },
    };
    let (named, body_at) = if user {
        let name = match read_text(ts, after_local) {
            Some(name) => name,
            None => {
                return None;
            },
        };
        match read_range(ts, after_local + 1) {
            Some((span, next)) => (Some((name, span)), next),
            None => {
                return None;
            },
        }
    } else {
        (None, after_local)
    };
    let ty = match read_text(ts, body_at) {
        Some(ty) => ty,
        None => {
            return None;
        },
    };
    let (lives, after_lives) = match read_ranges(ts, body_at + 1) {
        Some(found) => found,
        None => {
            return None;
        },
    };
    let (shared_borrow, after_shared) = match read_ranges(ts, after_lives) {
        Some(found) => found,
        None => {
            return None;
        },
    };
    let (mutable_borrow, after_mutable) = match read_ranges(ts, after_shared) {
        Some(found) => found,
        None => {
            return None;
        },
    };
    let drop = match read_flag(ts, after_mutable) {
        Some(drop) => drop,
        None => {
            return None;
        },
    };
    let (drop_range, after_drop) = match read_ranges(ts, after_mutable + 1) {
        Some(found) => found,
        None => {
            return None;
        },
    };
    let (must_live_at, next) = match read_ranges(ts, after_drop) {
        Some(found) => found,
        None => {
            return None;
        },
    };
    let decl = match named {
        Some((name, span)) => MirDecl::User {
            local,
            name,
            span,
            ty,
            lives,
            shared_borrow,
            mutable_borrow,
            drop,
            drop_range,
            must_live_at,
        },
        None => MirDecl::Other {
            local,
            ty,
            lives,
            shared_borrow,
            mutable_borrow,
            drop,
            drop_range,
            must_live_at,
        },
    };
    Some((decl, next))
}

/// How a block is stored.
pub open spec fn block_writer() -> spec_fn(BasicBlockView) -> Seq<TokenView> {
    |b: BasicBlockView| ser_block(b)
}

/// How a block is read.
pub open spec fn block_parser() -> spec_fn(Seq<TokenView>, int) -> Option<(BasicBlockView, int)> {
    |ts: Seq<TokenView>, at: int| parse_block(ts, at)
}

/// Whether a block can be stored and read back.
pub open spec fn block_valid() -> spec_fn(BasicBlockView) -> bool {
    |b: BasicBlockView| valid_block(b)
}

/// How a declaration is stored.
pub open spec fn decl_writer() -> spec_fn(MirDeclView) -> Seq<TokenView> {
    |d: MirDeclView| ser_decl(d)
}

/// How a declaration is read.
pub open spec fn decl_parser() -> spec_fn(Seq<TokenView>, int) -> Option<(MirDeclView, int)> {
    |ts: Seq<TokenView>, at: int| parse_decl(ts, at)
}

/// Whether a declaration can be stored and read back.
pub open spec fn decl_valid() -> spec_fn(MirDeclView) -> bool {
    |d: MirDeclView| valid_decl(d)
}

/// The stored form of a function: its identifier, its blocks as a list
/// and its declarations as a list.
pub open spec fn ser_function(f: FunctionView) -> Seq<TokenView> {
    seq![TokenView::Num(f.fn_id as u64)] + ser_counted(block_writer(), f.basic_blocks)
        + ser_counted(decl_writer(), f.decls)
}

/// The function that is stored at index `at`.
pub open spec fn parse_function(ts: Seq<TokenView>, at: int) -> Option<(FunctionView, int)> {
    match (small_at(ts, at), parse_counted(block_parser(), ts, at + 1)) {
        (Some(fn_id), Some((basic_blocks, mid))) => match parse_counted(decl_parser(), ts, mid) {
            Some((decls, next)) => Some((FunctionView { fn_id, basic_blocks, decls }, next)),
            None => None,
        },
        _ => None,
    }
}

/// Whether the function can be stored and read back: every range in it
/// holds an offset, every user-named variable has a declaration site, and
/// the lengths of its lists are numbers of the stored form.
pub open spec fn valid_function(f: FunctionView) -> bool {
    &&& f.basic_blocks.len() <= u64::MAX
    &&& all_valid(block_valid(), f.basic_blocks)
    &&& f.decls.len() <= u64::MAX
    &&& all_valid(decl_valid(), f.decls)
}

/// A stored function is read back as it was.
pub proof fn lemma_function(f: FunctionView, ts: Seq<TokenView>, at: int)
    requires
        valid_function(f),
        holds_at(ts, at, ser_function(f)),
    ensures
        parse_function(ts, at) == Some((f, at + ser_function(f).len())),
{
    assert(reads_back(block_writer(), block_parser(), block_valid())) by {
        assert forall|x: BasicBlockView, ts: Seq<TokenView>, at: int|
            (block_valid())(x) && #[trigger] holds_at(ts, at, (block_writer())(x)) implies (
        block_parser())(ts, at) == Some((x, at + (block_writer())(x).len())) by {
            lemma_block(x, ts, at);
        }
    }
    assert(reads_back(decl_writer(), decl_parser(), decl_valid())) by {
        assert forall|x: MirDeclView, ts: Seq<TokenView>, at: int|
            (decl_valid())(x) && #[trigger] holds_at(ts, at, (decl_writer())(x)) implies (
        decl_parser())(ts, at) == Some((x, at + (decl_writer())(x).len())) by {
            lemma_decl(x, ts, at);
        }
    }
    let id = seq![TokenView::Num(f.fn_id as u64)];
    let head = id + ser_counted(block_writer(), f.basic_blocks);
    lemma_holds_split(ts, at, head, ser_counted(decl_writer(), f.decls));
    lemma_holds_split(ts, at, id, ser_counted(block_writer(), f.basic_blocks));
    assert(ts[at + 0] == id[0]);
    lemma_counted(block_writer(), block_parser(), block_valid(), f.basic_blocks, ts, at + 1);
    lemma_counted(decl_writer(), decl_parser(), decl_valid(), f.decls, ts, at + head.len());
}

/// Writes the stored form of a function at the end of `out`.
pub fn write_function(out: &mut Vec<Token>, function: &Function)
    ensures
        tokens_view(final(out)@) == tokens_view(old(out)@) + ser_function(function@),
{
    let ghost before = tokens_view(out@);
    put_num(out, function.fn_id as u64);
    put_num(out, function.basic_blocks.len() as u64);
    let ghost head = tokens_view(out@);
    let ghost blocks = blocks_view(function.basic_blocks@);
    let mut i: usize = 0;
    while i < function.basic_blocks.len()
        invariant
            i <= function.basic_blocks@.len(),
            blocks == blocks_view(function.basic_blocks@),
            tokens_view(out@) == head + ser_all(block_writer(), blocks.take(i as int)),
        decreases function.basic_blocks.len() - i,
    {
        write_block(out, &function.basic_blocks[i]);
        assert(blocks.take(i + 1).drop_last() =~= blocks.take(i as int));
        assert(blocks.take(i + 1).last() == function.basic_blocks@[i as int]@);
        assert(tokens_view(out@) =~= head + ser_all(block_writer(), blocks.take(i + 1)));
        i += 1;
    }
    assert(blocks.take(blocks.len() as int) =~= blocks);
    put_num(out, function.decls.len() as u64);
    let ghost middle = tokens_view(out@);
    let ghost decls = decls_view(function.decls@);
    let mut k: usize = 0;
    while k < function.decls.len()
        invariant
            k <= function.decls@.len(),
            decls == decls_view(function.decls@),
            tokens_view(out@) == middle + ser_all(decl_writer(), decls.take(k as int)),
        decreases function.decls.len() - k,
    {
        write_decl(out, &function.decls[k]);
        assert(decls.take(k + 1).drop_last() =~= decls.take(k as int));
        assert(decls.take(k + 1).last() == function.decls@[k as int]@);
        assert(tokens_view(out@) =~= middle + ser_all(decl_writer(), decls.take(k + 1)));
        k += 1;
    }
    assert(decls.take(decls.len() as int) =~= decls);
    assert(tokens_view(out@) =~= before + ser_function(function@));
}

/// Reads the function that is stored at index `at`; gives it with the
/// index after it, or nothing if no function is stored there.
pub fn read_function(ts: &Vec<Token>, at: usize) -> (r: Option<(Function, usize)>)
    ensures
        match r {
            Some((x, next)) => parse_function(tokens_view(ts@), at as int) == Some(
                (x@, next as int),
            ) && next <= ts@.len(),
            None => parse_function(tokens_view(ts@), at as int) is None,
        },
{
    let fn_id = match read_small(ts, at) {
        Some(fn_id) => fn_id,
        None => {
            return None;
        },
    };
    let (basic_blocks, after_blocks) = match read_blocks(ts, at + 1) {
        Some(found) => found,
        None => {
            return None;
        },
    };
    match read_decls(ts, after_blocks) {
        Some((decls, next)) => Some((Function { fn_id, basic_blocks, decls }, next)),
        None => None,
    }
}

fn read_blocks(ts: &Vec<Token>, at: usize) -> (r: Option<(Vec<MirBasicBlock>, usize)>)
    ensures
        match r {
            Some((x, next)) => parse_counted(block_parser(), tokens_view(ts@), at as int) == Some(
                (blocks_view(x@), next as int),
            ) && next <= ts@.len(),
            None => parse_counted(block_parser(), tokens_view(ts@), at as int) is None,
        },
{
    let count = match read_num(ts, at) {
        Some(count) => count,
        None => {
            return None;
        },
    };
    let mut out: Vec<MirBasicBlock> = Vec::new();
    assert(blocks_view(out@) =~= Seq::empty());
    let mut pos: usize = at + 1;
    let mut i: u64 = 0;
    while i < count
        invariant
            i <= count,
            pos <= ts@.len(),
            num_at(tokens_view(ts@), at as int) == Some(count),
            parse_n(block_parser(), tokens_view(ts@), at + 1, i as nat) == Some(
                (blocks_view(out@), pos as int),
            ),
        decreases count - i,
    {
        match read_block(ts, pos) {
            Some((x, next)) => {
                let ghost before = blocks_view(out@);
                out.push(x);
                assert(blocks_view(out@) =~= before.push(x@));
                pos = next;
            },
            None => {
                proof {
                    lemma_parse_n_none(
                        block_parser(),
                        tokens_view(ts@),
                        at + 1,
                        (i + 1) as nat,
                        count as nat,
                    );
                }
                return None;
            },
        }
        i += 1;
    }
    Some((out, pos))
}

fn read_decls(ts: &Vec<Token>, at: usize) -> (r: Option<(Vec<MirDecl>, usize)>)
    ensures
        match r {
            Some((x, next)) => parse_counted(decl_parser(), tokens_view(ts@), at as int) == Some(
                (decls_view(x@), next as int),
            ) && next <= ts@.len(),
            None => parse_counted(decl_parser(), tokens_view(ts@), at as int) is None,
        },
{
    let count = match read_num(ts, at) {
        Some(count) => count,
        None => {
            return None;
        },
    };
    let mut out: Vec<MirDecl> = Vec::new();
    assert(decls_view(out@) =~= Seq::empty());
    let mut pos: usize = at + 1;
    let mut i: u64 = 0;
    while i < count
        invariant
            i <= count,
            pos <= ts@.len(),
            num_at(tokens_view(ts@), at as int) == Some(count),
            parse_n(decl_parser(), tokens_view(ts@), at + 1, i as nat) == Some(
                (decls_view(out@), pos as int),
            ),
        decreases count - i,
    {
        match read_decl(ts, pos) {
            Some((x, next)) => {
                let ghost before = decls_view(out@);
                out.push(x);
                assert(decls_view(out@) =~= before.push(x@));
                pos = next;
            },
            None => {
                proof {
                    lemma_parse_n_none(
                        decl_parser(),
                        tokens_view(ts@),
                        at + 1,
                        (i + 1) as nat,
                        count as nat,
                    );
                }
                return None;
            },
        }
        i += 1;
    }
    Some((out, pos))
}

/// The stored form of a cached result: the two hashes, then the function.
pub open spec fn ser_entry(e: ((Seq<char>, Seq<char>), FunctionView)) -> Seq<TokenView> {
    seq![TokenView::Text(e.0.0), TokenView::Text(e.0.1)] + ser_function(e.1)
}

/// The cached result that is stored at index `at`.
pub open spec fn parse_entry(ts: Seq<TokenView>, at: int) -> Option<
    (((Seq<char>, Seq<char>), FunctionView), int),
> {
    match (text_at(ts, at), text_at(ts, at + 1), parse_function(ts, at + 2)) {
        (Some(file_hash), Some(mir_hash), Some((f, next))) => Some(
            (((file_hash, mir_hash), f), next),
        ),
        _ => None,
    }
}

/// How a cached result is stored.
pub open spec fn entry_writer() -> spec_fn(((Seq<char>, Seq<char>), FunctionView)) -> Seq<
    TokenView,
> {
    |e: ((Seq<char>, Seq<char>), FunctionView)| ser_entry(e)
}

/// How a cached result is read.
pub open spec fn entry_parser() -> spec_fn(Seq<TokenView>, int) -> Option<
    (((Seq<char>, Seq<char>), FunctionView), int),
> {
    |ts: Seq<TokenView>, at: int| parse_entry(ts, at)
}

/// Whether a cached result can be stored and read back.
pub open spec fn entry_valid() -> spec_fn(((Seq<char>, Seq<char>), FunctionView)) -> bool {
    |e: ((Seq<char>, Seq<char>), FunctionView)| valid_function(e.1)
}

/// A stored cached result is read back as it was.
pub proof fn lemma_entry(e: ((Seq<char>, Seq<char>), FunctionView), ts: Seq<TokenView>, at: int)
    requires
        valid_function(e.1),
        holds_at(ts, at, ser_entry(e)),
    ensures
        parse_entry(ts, at) == Some((e, at + ser_entry(e).len())),
{
    let hashes = seq![TokenView::Text(e.0.0), TokenView::Text(e.0.1)];
    lemma_holds_split(ts, at, hashes, ser_function(e.1));
    assert(ts[at + 0] == hashes[0]);
    assert(ts[at + 1] == hashes[1]);
    lemma_function(e.1, ts, at + 2);
}

/// The stored form of a cache: its results as a list.
pub open spec fn spec_write_cache(entries: Seq<((Seq<char>, Seq<char>), FunctionView)>) -> Seq<
    TokenView,
> {
    ser_counted(entry_writer(), entries)
}

/// The map that holds the first `n` results of a list, a later one in the
/// place of an earlier one with the same hashes.
pub open spec fn map_of(entries: Seq<((Seq<char>, Seq<char>), FunctionView)>, n: int) -> Map<
    (Seq<char>, Seq<char>),
    FunctionView,
>
    decreases n,
{
    if n <= 0 || n > entries.len() {
        Map::empty()
    } else {
        map_of(entries, n - 1).insert(entries[n - 1].0, entries[n - 1].1)
    }
}

/// The cache that a stored form holds: the map of the results that are
/// stored in it; none if the tokens are no list of results, or more.
pub open spec fn spec_read_cache(ts: Seq<TokenView>) -> Option<
    Map<(Seq<char>, Seq<char>), FunctionView>,
> {
    match parse_counted(entry_parser(), ts, 0) {
        Some((entries, next)) => if next == ts.len() {
            Some(map_of(entries, entries.len() as int))
        } else {
            None
        },
        None => None,
    }
}

/// The map of a list without repeated hashes holds each result under its
/// hashes.
pub proof fn lemma_map_of(entries: Seq<((Seq<char>, Seq<char>), FunctionView)>, n: int)
    requires
        keys_unique(entries),
        0 <= n <= entries.len(),
    ensures
        map_of(entries, n) == as_map(entries.take(n)),
    decreases n,
{
    if n == 0 {
        assert(as_map(entries.take(0)) =~= Map::<(Seq<char>, Seq<char>), FunctionView>::empty());
    } else {
        lemma_map_of(entries, n - 1);
        let before = entries.take(n - 1);
        let e = entries[n - 1];
        assert forall|i: int, j: int| 0 <= i < j < before.len() implies (#[trigger] before[i]).0 != (
        #[trigger] before[j]).0 by {
            assert(before[i] == entries[i] && before[j] == entries[j]);
        }
        if has_key(before, e.0) {
            let i = index_of_key(before, e.0);
            assert(entries[i].0 != entries[n - 1].0);
        }
        lemma_as_map_push(before, e.0, e.1);
        assert(entries.take(n) =~= before.push((e.0, e.1)));
    }
}

/// Writing a cache to its stored form and reading the stored form back
/// gives the cache again: the same result under each pair of hashes, and
/// nothing else.
pub proof fn law_cache_round_trip(entries: Seq<((Seq<char>, Seq<char>), FunctionView)>)
    requires
        keys_unique(entries),
        entries.len() <= u64::MAX,
        all_valid(entry_valid(), entries),
    ensures
        spec_read_cache(spec_write_cache(entries)) == Some(as_map(entries)),
{
    let ts = spec_write_cache(entries);
    assert(reads_back(entry_writer(), entry_parser(), entry_valid())) by {
        assert forall|x: ((Seq<char>, Seq<char>), FunctionView), ts: Seq<TokenView>, at: int|
            (entry_valid())(x) && #[trigger] holds_at(ts, at, (entry_writer())(x)) implies (
        entry_parser())(ts, at) == Some((x, at + (entry_writer())(x).len())) by {
            lemma_entry(x, ts, at);
        }
    }
    assert(holds_at(ts, 0, ts));
    lemma_counted(entry_writer(), entry_parser(), entry_valid(), entries, ts, 0);
    lemma_map_of(entries, entries.len() as int);
    assert(entries.take(entries.len() as int) =~= entries);
}

} // verus!
