//! The analysis of one function: from what the compiler gives and what the
//! solver computes to the function's result, through the cache.

use crate::groups::{get_group, groups_view, lookup};
use crate::mir_cache::CacheData;
use crate::mir_polonius::{
    drop_range, get_accurate_live, get_borrow_live, get_must_live, spec_borrow_live,
    spec_get_range, spec_must_live, BorrowFacts, LocationTable,
};
use crate::mir_transform::{
    collect_basic_blocks, collect_user_vars, find_user_var, last_user_var, spec_collect_user_vars, spec_convert_block, user_vars_view, BorrowMap, RawBasicBlock, RawBorrow, RawVarDebugInfo, RichLocation, UserVar,
};
use crate::models::{
    blocks_view, clone_ranges, FnLocal, Function, MirBasicBlock, MirDecl, MirDeclView, Range,
};
use vstd::prelude::*;

verus! {

/// The result of analysing one function, with the file it stands in and
/// the two hashes under which the result is cached.
#[derive(Debug)]
pub struct AnalyzeResult {
    pub file_name: String,
    pub file_hash: String,
    pub mir_hash: String,
    pub analyzed: Function,
}

/// What the compiler gives for one function.
#[derive(Debug)]
pub struct FunctionInput {
    pub fn_id: u32,
    pub file_name: String,
    /// The text of the file and the byte at which the file starts.
    pub source: String,
    pub offset: u32,
    /// The hash of the text and the hash of the control flow with regions
    /// erased.
    pub file_hash: String,
    pub mir_hash: String,
    /// Each variable slot with its type as text.
    pub local_decls: Vec<(u32, String)>,
    pub debug_info: Vec<RawVarDebugInfo>,
    pub basic_blocks: Vec<RawBasicBlock>,
    pub borrows: Vec<RawBorrow>,
    /// For each variable, the indices of the borrows assigned to it.
    pub borrow_local_map: Vec<(u32, Vec<u32>)>,
    /// The rich location of each point.
    pub points: Vec<RichLocation>,
    /// The variables that are dropped somewhere, each with the point.
    pub var_dropped_at: Vec<(u32, u32)>,
}

/// A function that was transformed and waits for the solver's output.
#[derive(Debug)]
pub struct PendingAnalysis {
    pub file_name: String,
    pub local_decls: Vec<(u32, String)>,
    pub user_vars: Vec<UserVar>,
    pub var_dropped_at: Vec<(u32, u32)>,
    pub basic_blocks: Vec<MirBasicBlock>,
    pub borrow_map: BorrowMap,
    pub location_table: LocationTable,
    pub fn_id: u32,
    pub file_hash: String,
    pub mir_hash: String,
}

/// How the analysis of a function begins: with a cached result, or with
/// the function transformed and waiting for the solver.
#[derive(Debug)]
pub enum MirAnalyzerInitResult {
    Cached(AnalyzeResult),
    Analyzer(PendingAnalysis),
}

/// A function with the ranges computed for its variables.
#[derive(Debug)]
pub struct MirAnalyzer {
    pub file_name: String,
    pub local_decls: Vec<(u32, String)>,
    pub user_vars: Vec<UserVar>,
    pub var_dropped_at: Vec<(u32, u32)>,
    pub basic_blocks: Vec<MirBasicBlock>,
    pub fn_id: u32,
    pub file_hash: String,
    pub mir_hash: String,
    pub accurate_live: Vec<(u32, Vec<Range>)>,
    pub must_live: Vec<(u32, Vec<Range>)>,
    pub shared_live: Vec<(u32, Vec<Range>)>,
    pub mutable_live: Vec<(u32, Vec<Range>)>,
    pub drop_range: Vec<(u32, Vec<Range>)>,
}

/// The ranges kept for a variable; none if nothing is kept for it.
pub open spec fn ranges_for(gs: Seq<(u32, Seq<Range>)>, local: u32) -> Seq<Range> {
    match lookup(gs, local) {
        Some(ranges) => ranges,
        None => Seq::empty(),
    }
}

/// Whether the variable is dropped at some point.
pub open spec fn spec_is_drop(var_dropped_at: Seq<(u32, u32)>, local: u32) -> bool {
    exists|i: int| 0 <= i < var_dropped_at.len() && (#[trigger] var_dropped_at[i]).0 == local
}

/// The declaration of the variable in slot `local` with type `ty`: the
/// ranges computed for it, whether it is dropped, and, if a debug entry
/// names the slot, its name and declaration site.
pub open spec fn spec_decl(a: MirAnalyzer, local: u32, ty: Seq<char>) -> MirDeclView {
    let vars = user_vars_view(a.user_vars@);
    let user = last_user_var(vars, local, vars.len() as int);
    MirDeclView {
        local: FnLocal { id: local, fn_id: a.fn_id },
        name: match user {
            Some(i) => Some(vars[i].name),
            None => None,
        },
        span: match user {
            Some(i) => Some(vars[i].range),
            None => None,
        },
        ty,
        lives: ranges_for(groups_view(a.accurate_live@), local),
        shared_borrow: ranges_for(groups_view(a.shared_live@), local),
        mutable_borrow: ranges_for(groups_view(a.mutable_live@), local),
        drop: spec_is_drop(a.var_dropped_at@, local),
        drop_range: ranges_for(groups_view(a.drop_range@), local),
        must_live_at: ranges_for(groups_view(a.must_live@), local),
    }
}

fn ranges_of(gs: &Vec<(u32, Vec<Range>)>, local: u32) -> (r: Vec<Range>)
    ensures
        r@ == ranges_for(groups_view(gs@), local),
{
    match get_group(gs, local) {
        Some(ranges) => clone_ranges(ranges),
        None => Vec::new(),
    }
}

impl MirAnalyzer {
    /// Begins the analysis of a function.  With a cache that holds a
    /// result under both hashes of the function, that result is the
    /// answer.  Otherwise the function is transformed: its user variables,
    /// its basic blocks and its borrow map are collected.
    pub fn init(input: FunctionInput, cache: Option<&CacheData>) -> (r: MirAnalyzerInitResult)
        ensures
            match r {
                MirAnalyzerInitResult::Cached(hit) => {
                    &&& cache is Some
                    &&& cache->0@.dom().contains((input.file_hash@, input.mir_hash@))
                    &&& hit.analyzed@ == cache->0@[(input.file_hash@, input.mir_hash@)]
                    &&& hit.file_name@ == input.file_name@
                    &&& hit.file_hash@ == input.file_hash@
                    &&& hit.mir_hash@ == input.mir_hash@
                },
                MirAnalyzerInitResult::Analyzer(pending) => {
                    &&& cache is Some ==> !cache->0@.dom().contains(
                        (input.file_hash@, input.mir_hash@),
                    )
                    &&& pending.fn_id == input.fn_id
                    &&& pending.file_name@ == input.file_name@
                    &&& pending.file_hash@ == input.file_hash@
                    &&& pending.mir_hash@ == input.mir_hash@
                    &&& pending.local_decls@ == input.local_decls@
                    &&& pending.var_dropped_at@ == input.var_dropped_at@
                    &&& user_vars_view(pending.user_vars@) == spec_collect_user_vars(
                        input.source@,
                        input.offset as int,
                        input.debug_info@,
                        input.debug_info@.len() as int,
                    )
                    &&& pending.basic_blocks@.len() == input.basic_blocks@.len()
                    &&& forall|i: int|
                        0 <= i < pending.basic_blocks@.len() ==> (
                        #[trigger] pending.basic_blocks@[i])@ == spec_convert_block(
                            input.fn_id,
                            input.source@,
                            input.offset as int,
                            input.basic_blocks@[i].statements@,
                            input.basic_blocks@[i].terminator,
                        )
                    &&& pending.borrow_map@.borrows == input.borrows@.map_values(
                        |b: RawBorrow| crate::mir_transform::classify(b),
                    )
                    &&& pending.borrow_map@.local_map == groups_view(input.borrow_local_map@)
                    &&& pending.location_table@ == input.points@
                },
            },
    {
        if let Some(cache) = cache {
            if let Some(analyzed) = cache.get_cache(
                input.file_hash.as_str(),
                input.mir_hash.as_str(),
            ) {
                return MirAnalyzerInitResult::Cached(
                    AnalyzeResult {
                        file_name: input.file_name,
                        file_hash: input.file_hash,
                        mir_hash: input.mir_hash,
                        analyzed,
                    },
                );
            }
        }
        let user_vars = collect_user_vars(input.source.as_str(), input.offset, &input.debug_info);
        let basic_blocks = collect_basic_blocks(
            input.fn_id,
            input.source.as_str(),
            input.offset,
            &input.basic_blocks,
        );
        let borrow_map = BorrowMap::new(&input.borrows, input.borrow_local_map);
        MirAnalyzerInitResult::Analyzer(
            PendingAnalysis {
                file_name: input.file_name,
                local_decls: input.local_decls,
                user_vars,
                var_dropped_at: input.var_dropped_at,
                basic_blocks,
                borrow_map,
                location_table: LocationTable::new(input.points),
                fn_id: input.fn_id,
                file_hash: input.file_hash,
                mir_hash: input.mir_hash,
            },
        )
    }

    /// Whether the variable is dropped at some point.
    pub fn is_drop(&self, local: u32) -> (r: bool)
        ensures
            r == spec_is_drop(self.var_dropped_at@, local),
    {
        let mut i: usize = 0;
        while i < self.var_dropped_at.len()
            invariant
                i <= self.var_dropped_at@.len(),
                forall|k: int| 0 <= k < i ==> (#[trigger] self.var_dropped_at@[k]).0 != local,
            decreases self.var_dropped_at.len() - i,
        {
            if self.var_dropped_at[i].0 == local {
                return true;
            }
            i += 1;
        }
        false
    }

    /// The declarations of the function's variables, in the order of the
    /// slots given.
    pub fn collect_decls(&self) -> (r: Vec<MirDecl>)
        ensures
            r@.len() == self.local_decls@.len(),
            forall|i: int|
                0 <= i < r@.len() ==> (#[trigger] r@[i])@ == spec_decl(
                    *self,
                    self.local_decls@[i].0,
                    self.local_decls@[i].1@,
                ),
    {
        let mut out: Vec<MirDecl> = Vec::new();
        let mut i: usize = 0;
        while i < self.local_decls.len()
            invariant
                i <= self.local_decls@.len(),
                out@.len() == i,
                forall|k: int|
                    0 <= k < i ==> (#[trigger] out@[k])@ == spec_decl(
                        *self,
                        self.local_decls@[k].0,
                        self.local_decls@[k].1@,
                    ),
            decreases self.local_decls.len() - i,
        {
            let local = self.local_decls[i].0;
            let ty = self.local_decls[i].1.clone();
            let must_live_at = ranges_of(&self.must_live, local);
            let lives = ranges_of(&self.accurate_live, local);
            let shared_borrow = ranges_of(&self.shared_live, local);
            let mutable_borrow = ranges_of(&self.mutable_live, local);
            let drop = self.is_drop(local);
            let drop_range = ranges_of(&self.drop_range, local);
            let fn_local = FnLocal::new(local, self.fn_id);
            let decl = match find_user_var(&self.user_vars, local) {
                Some(var) => MirDecl::User {
                    local: fn_local,
                    name: var.name.clone(),
                    span: var.range,
                    ty,
                    lives,
                    shared_borrow,
                    mutable_borrow,
                    drop,
                    drop_range,
                    must_live_at,
                },
                None => MirDecl::Other {
                    local: fn_local,
                    ty,
                    lives,
                    shared_borrow,
                    mutable_borrow,
                    drop,
                    drop_range,
                    must_live_at,
                },
            };
            out.push(decl);
            i += 1;
        }
        out
    }

    /// The result of the function: its blocks and the declarations of its
    /// variables, with the file name and the hashes.
    #[must_use]
    pub fn analyze(self) -> (r: AnalyzeResult)
        ensures
            r.file_name@ == self.file_name@,
            r.file_hash@ == self.file_hash@,
            r.mir_hash@ == self.mir_hash@,
            r.analyzed.fn_id == self.fn_id,
            r.analyzed.basic_blocks@ == self.basic_blocks@,
            r.analyzed.decls@.len() == self.local_decls@.len(),
            forall|i: int|
                0 <= i < r.analyzed.decls@.len() ==> (#[trigger] r.analyzed.decls@[i])@ == spec_decl(
                    self,
                    self.local_decls@[i].0,
                    self.local_decls@[i].1@,
                ),
    {
        let decls = self.collect_decls();
        AnalyzeResult {
            file_name: self.file_name,
            file_hash: self.file_hash,
            mir_hash: self.mir_hash,
            analyzed: Function { fn_id: self.fn_id, basic_blocks: self.basic_blocks, decls },
        }
    }
}

impl PendingAnalysis {
    /// Computes the ranges of the function's variables from the solver's
    /// output: where each is live, where it must live, where it is
    /// borrowed, shared and mutably, and where its drop is live.
    pub fn complete(self, facts: &BorrowFacts) -> (r: MirAnalyzer)
        ensures
            r.file_name@ == self.file_name@,
            r.file_hash@ == self.file_hash@,
            r.mir_hash@ == self.mir_hash@,
            r.fn_id == self.fn_id,
            r.local_decls@ == self.local_decls@,
            r.user_vars@ == self.user_vars@,
            r.var_dropped_at@ == self.var_dropped_at@,
            r.basic_blocks@ == self.basic_blocks@,
            groups_view(r.accurate_live@) == spec_get_range(
                groups_view(facts.var_live_on_entry@),
                self.location_table@,
                blocks_view(self.basic_blocks@),
            ),
            groups_view(r.drop_range@) == spec_get_range(
                groups_view(facts.var_drop_live_on_entry@),
                self.location_table@,
                blocks_view(self.basic_blocks@),
            ),
            groups_view(r.must_live@) == spec_must_live(
                groups_view(facts.origin_live_on_entry@),
                groups_view(facts.subset@),
                groups_view(facts.origin_contains_loan_at@),
                self.location_table@,
                self.borrow_map@,
                blocks_view(self.basic_blocks@),
            ),
            groups_view(r.shared_live@) == spec_borrow_live(
                groups_view(facts.loan_live_at@),
                self.location_table@,
                self.borrow_map@.borrows,
                false,
                blocks_view(self.basic_blocks@),
            ),
            groups_view(r.mutable_live@) == spec_borrow_live(
                groups_view(facts.loan_live_at@),
                self.location_table@,
                self.borrow_map@.borrows,
                true,
                blocks_view(self.basic_blocks@),
            ),
    {
        let accurate_live = get_accurate_live(facts, &self.location_table, &self.basic_blocks);
        let must_live = get_must_live(
            facts,
            &self.location_table,
            &self.borrow_map,
            &self.basic_blocks,
        );
        let (shared_live, mutable_live) = get_borrow_live(
            facts,
            &self.location_table,
            &self.borrow_map,
            &self.basic_blocks,
        );
        let drop_range = drop_range(facts, &self.location_table, &self.basic_blocks);
        MirAnalyzer {
            file_name: self.file_name,
            local_decls: self.local_decls,
            user_vars: self.user_vars,
            var_dropped_at: self.var_dropped_at,
            basic_blocks: self.basic_blocks,
            fn_id: self.fn_id,
            file_hash: self.file_hash,
            mir_hash: self.mir_hash,
            accurate_live,
            must_live,
            shared_live,
            mutable_live,
            drop_range,
        }
    }
}

} // verus!
