//! The job orchestrator as a state machine: which analyses run, what their
//! events do to the shared result, and what a cursor query answers.  The
//! caller performs the work that each step asks for and hands the events
//! back.

use crate::assoc::{as_map, has_key, keys_unique, lemma_as_map_at, lemma_as_map_push, lemma_as_map_update};
use crate::calc::{CalcDecos, CalcView};
use crate::decoration::{decos_view, Deco, DecoView, Diagnostic, LineRange, Position};
use crate::models::{
    crate_ids_unique, law_merge_crates_ids_unique, merge_crates, Crate, File, FnLocal, FunctionView, Loc, Range, Workspace,
};
use crate::overlap::spec_handle_overlapping;
use crate::select::{SelectLocal, SelectView};
use crate::strings::str_eq;
use crate::text_conversion::{line_char_to_index, spec_line_char_to_index};
use crate::visitor::{mir_visit, spec_mir_visit};
use vstd::prelude::*;
use vstd::string::StringExecFns;

verus! {

/// The request to analyse again; it holds nothing.
#[derive(Clone, Copy, Debug, Default, PartialEq, Eq)]
pub struct AnalyzeRequest {}

/// The answer to the request to analyse again; it holds nothing.
#[derive(Clone, Copy, Debug, Default, PartialEq, Eq)]
pub struct AnalyzeResponse {}

/// Where the analysis of the registered targets stands.
#[derive(Clone, Copy, Debug, PartialEq, Eq, Hash, Structural)]
pub enum AnalysisStatus {
    Idle,
    Analyzing,
    Finished,
    Error,
}

/// What a running analysis reports.
#[derive(Debug)]
pub enum AnalyzerEvent {
    /// One crate of the target was checked, of `package_count` in all.
    CrateChecked { package: String, package_count: usize },
    /// A fragment of the result.
    Analyzed(Workspace),
}

/// A running analysis of one target.
#[derive(Debug)]
pub struct Job {
    pub key: usize,
    pub target: String,
    pub checked: usize,
}

/// What a job holds, as plain values.
pub struct JobView {
    pub key: usize,
    pub target: Seq<char>,
    pub checked: usize,
}

impl View for Job {
    type V = JobView;

    open spec fn view(&self) -> JobView {
        JobView { key: self.key, target: self.target@, checked: self.checked }
    }
}

/// The jobs of a list, as plain values.
pub open spec fn jobs_view(s: Seq<Job>) -> Seq<JobView> {
    s.map_values(|j: Job| j@)
}

/// A job to start: its key and target, and how far the check reaches.
#[derive(Debug)]
pub struct JobStart {
    pub key: usize,
    pub target: String,
    pub all_targets: bool,
    pub all_features: bool,
}

/// What a new round of analysis asks of the caller: the jobs to cancel, all
/// of them before any start, and the jobs to start.
#[derive(Debug)]
pub struct AnalysisPlan {
    pub cancelled: Vec<usize>,
    pub started: Vec<JobStart>,
}

/// A progress report: a message and a percentage from 0 to 100.
#[derive(Debug)]
pub struct ProgressReport {
    pub message: String,
    pub percentage: u32,
}

/// The answer to a cursor query.
#[derive(Debug)]
pub struct Decorations {
    pub is_analyzed: bool,
    pub status: AnalysisStatus,
    pub path: Option<String>,
    pub items: Vec<Deco<LineRange>>,
}

/// What the caller does after a command.
#[derive(Debug, PartialEq, Eq)]
pub enum CommandOutcome {
    /// Publish the ownership diagnostics of the file for the position.
    Publish { path: String, position: Position, toggled: bool },
    /// Clear the ownership diagnostics of the file.
    Clear { path: String, toggled: bool },
    /// Start a new round of analysis.
    Analyze,
    /// The arguments were not a document, a line and a character.
    InvalidParams,
    /// The command is not one of this server.
    MethodNotFound,
}

/// The names of the commands.
pub const CMD_TOGGLE_OWNERSHIP: &'static str = "rustowl.toggleOwnership";

pub const CMD_ENABLE_OWNERSHIP: &'static str = "rustowl.enableOwnership";

pub const CMD_DISABLE_OWNERSHIP: &'static str = "rustowl.disableOwnership";

pub const CMD_ANALYZE: &'static str = "rustowl.analyze";

/// The state of the orchestrator, as plain values.
pub struct BackendView {
    pub targets: Seq<Seq<char>>,
    pub status: AnalysisStatus,
    pub analyzed: Option<Map<Seq<char>, Seq<FunctionView>>>,
    pub jobs: Seq<JobView>,
    pub work_done_progress: bool,
    pub ownership: Map<Seq<char>, (bool, Option<Position>)>,
    /// The largest key given to a job so far.
    pub issued: usize,
}

/// The orchestrator: the registered targets, the running jobs, the shared
/// result, and for each document whether its ownership diagnostics are
/// shown.
#[derive(Debug)]
pub struct Backend {
    targets: Vec<String>,
    status: AnalysisStatus,
    analyzed: Option<Crate>,
    jobs: Vec<Job>,
    work_done_progress: bool,
    ownership: Vec<(String, (bool, Option<Position>))>,
    issued: usize,
}

/// The targets of a list, as plain values.
pub open spec fn targets_view(s: Seq<String>) -> Seq<Seq<char>> {
    s.map_values(|t: String| t@)
}

/// The documents of a list with their state, as plain values.
pub open spec fn ownership_view(s: Seq<(String, (bool, Option<Position>))>) -> Seq<
    (Seq<char>, (bool, Option<Position>)),
> {
    s.map_values(|e: (String, (bool, Option<Position>))| (e.0@, e.1))
}

impl View for Backend {
    type V = BackendView;

    closed spec fn view(&self) -> BackendView {
        BackendView {
            targets: targets_view(self.targets@),
            status: self.status,
            analyzed: match self.analyzed {
                Some(c) => Some(c@),
                None => None,
            },
            jobs: jobs_view(self.jobs@),
            work_done_progress: self.work_done_progress,
            ownership: as_map(ownership_view(self.ownership@)),
            issued: self.issued,
        }
    }
}

/// No target occurs twice.
pub open spec fn targets_distinct(targets: Seq<Seq<char>>) -> bool {
    forall|i: int, j: int| 0 <= i < j < targets.len() ==> targets[i] != targets[j]
}

/// The keys of the jobs grow from job to job, and no two jobs have the
/// same target: at most one job runs for a target.
pub open spec fn jobs_in_order(jobs: Seq<JobView>) -> bool {
    forall|i: int, j: int|
        0 <= i < j < jobs.len() ==> (#[trigger] jobs[i]).key < (#[trigger] jobs[j]).key
            && jobs[i].target != jobs[j].target
}

/// The keys of the jobs, in order.
pub open spec fn job_keys(jobs: Seq<JobView>) -> Seq<usize> {
    jobs.map_values(|j: JobView| j.key)
}

/// The index of the job with the key `key`, searching from index `j`.
pub open spec fn job_index(jobs: Seq<JobView>, key: usize, j: int) -> Option<int>
    decreases jobs.len() - j,
{
    if j < 0 || j >= jobs.len() {
        None
    } else if jobs[j].key == key {
        Some(j)
    } else {
        job_index(jobs, key, j + 1)
    }
}

/// No job has a key beyond the largest key given out.
pub open spec fn keys_issued(jobs: Seq<JobView>, issued: usize) -> bool {
    forall|i: int| 0 <= i < jobs.len() ==> (#[trigger] jobs[i]).key <= issued
}

/// The key after which a round of `n` jobs is numbered: the largest key
/// given out so far, or 0 where the numbers of the machine do not reach
/// for `n` keys past it.
pub open spec fn key_base(issued: usize, n: nat) -> usize {
    if issued + n <= usize::MAX {
        issued
    } else {
        0
    }
}

/// One job for each target, in order, with the keys that follow `base`,
/// and nothing checked yet.
pub open spec fn fresh_jobs(base: usize, targets: Seq<Seq<char>>) -> Seq<JobView> {
    Seq::new(
        targets.len(),
        |i: int| JobView { key: (base + i + 1) as usize, target: targets[i], checked: 0 },
    )
}

/// The status at the start of a round of `n` jobs: `Analyzing`, but a
/// round without jobs has ended at once and is settled.
pub open spec fn round_status(
    n: nat,
    analyzed: Option<Map<Seq<char>, Seq<FunctionView>>>,
) -> AnalysisStatus {
    if n == 0 {
        settled(AnalysisStatus::Analyzing, analyzed)
    } else {
        AnalysisStatus::Analyzing
    }
}

/// The result with the first `n` crates of a fragment merged in, each
/// into the one crate that the result is.
pub open spec fn merge_all(
    base: Map<Seq<char>, Seq<FunctionView>>,
    crates: Seq<Map<Seq<char>, Seq<FunctionView>>>,
    n: int,
) -> Map<Seq<char>, Seq<FunctionView>>
    decreases n,
{
    if n <= 0 || n > crates.len() {
        base
    } else {
        merge_crates(merge_all(base, crates, n - 1), crates[n - 1])
    }
}

/// The status once the last job of a round has ended: an error stays;
/// else `Finished` if the result holds a file, `Error` if it holds none.
pub open spec fn settled(
    status: AnalysisStatus,
    analyzed: Option<Map<Seq<char>, Seq<FunctionView>>>,
) -> AnalysisStatus {
    if status == AnalysisStatus::Error {
        AnalysisStatus::Error
    } else {
        match analyzed {
            Some(files) => if files.dom().len() == 0 {
                AnalysisStatus::Error
            } else {
                AnalysisStatus::Finished
            },
            None => AnalysisStatus::Error,
        }
    }
}

/// The percentage of `checked` crates of `total`, at most 100; 100 when
/// there is nothing to check.
pub open spec fn spec_percentage(checked: nat, total: nat) -> nat {
    if total == 0 || checked * 100 / total > 100 {
        100
    } else {
        checked * 100 / total
    }
}

/// The percentage of `checked` crates of `total`, at most 100.
pub fn percentage(checked: usize, total: usize) -> (r: u32)
    ensures
        r == spec_percentage(checked as nat, total as nat),
        r <= 100,
{
    if total == 0 {
        return 100;
    }
    let scaled: u128 = (checked as u128) * 100;
    let share: u128 = scaled / (total as u128);
    if share > 100 {
        100
    } else {
        share as u32
    }
}

/// The selection after the first `n` functions of a file were walked.
pub open spec fn select_in(s: SelectView, items: Seq<FunctionView>, n: int) -> SelectView
    decreases n,
{
    if n <= 0 || n > items.len() {
        s
    } else {
        spec_mir_visit::<SelectLocal>(select_in(s, items, n - 1), items[n - 1])
    }
}

/// The synthesis after the first `n` functions of a file were walked.
pub open spec fn calc_in(s: CalcView, items: Seq<FunctionView>, n: int) -> CalcView
    decreases n,
{
    if n <= 0 || n > items.len() {
        s
    } else {
        spec_mir_visit::<CalcDecos>(calc_in(s, items, n - 1), items[n - 1])
    }
}

/// The variable under the cursor at `pos` in a file.
pub open spec fn spec_selected(items: Seq<FunctionView>, pos: Loc) -> Option<FnLocal> {
    match select_in(
        SelectView { pos, candidates: Seq::empty(), selected: None },
        items,
        items.len() as int,
    ).selected {
        Some(choice) => Some(choice.1),
        None => None,
    }
}

/// The variables that a choice selects: the chosen one, or none.
pub open spec fn chosen(selected: Option<FnLocal>) -> Seq<FnLocal> {
    match selected {
        Some(local) => seq![local],
        None => Seq::empty(),
    }
}

/// The decorations for the cursor at `pos` in a file: those of the
/// variable under the cursor, laid out.
pub open spec fn spec_file_decos(items: Seq<FunctionView>, pos: Loc) -> Seq<DecoView<Range>> {
    spec_handle_overlapping(
        calc_in(
            CalcView {
                locals: chosen(spec_selected(items, pos)).to_set(),
                decorations: Seq::empty(),
                current_fn_id: 0,
            },
            items,
            items.len() as int,
        ).decorations,
    )
}

/// The decorations for the cursor at `pos` in a file.
pub fn file_decos(file: &File, pos: Loc) -> (r: Vec<Deco>)
    ensures
        decos_view(r@) == spec_file_decos(file@, pos),
{
    let mut selected = SelectLocal::new(pos);
    let mut i: usize = 0;
    while i < file.items.len()
        invariant
            i <= file.items@.len(),
            selected@ == select_in(
                SelectView { pos, candidates: Seq::empty(), selected: None },
                file@,
                i as int,
            ),
        decreases file.items.len() - i,
    {
        mir_visit(&file.items[i], &mut selected);
        i += 1;
    }
    let mut locals: Vec<FnLocal> = Vec::new();
    if let Some(local) = selected.selected() {
        locals.push(local);
    }
    assert(locals@ =~= chosen(spec_selected(file@, pos)));
    let mut calc = CalcDecos::new(locals);
    let ghost start = calc@;
    let mut k: usize = 0;
    while k < file.items.len()
        invariant
            k <= file.items@.len(),
            calc@ == calc_in(start, file@, k as int),
        decreases file.items.len() - k,
    {
        mir_visit(&file.items[k], &mut calc);
        k += 1;
    }
    calc.handle_overlapping();
    calc.decorations()
}

/// The decorations for a cursor in a file of the result, or the status to
/// report in their place: `Finished` where the file was analysed and has
/// functions but nothing to show, `Error` where there is no result for
/// the file.
pub open spec fn spec_decos(
    analyzed: Option<Map<Seq<char>, Seq<FunctionView>>>,
    path: Seq<char>,
    pos: Loc,
) -> Result<Seq<DecoView<Range>>, AnalysisStatus> {
    match analyzed {
        None => Err(AnalysisStatus::Error),
        Some(files) => if files.dom().contains(path) {
            if spec_file_decos(files[path], pos).len() > 0 {
                Ok(spec_file_decos(files[path], pos))
            } else if files[path].len() > 0 {
                Err(AnalysisStatus::Finished)
            } else {
                Err(AnalysisStatus::Error)
            }
        } else {
            Err(AnalysisStatus::Error)
        },
    }
}

/// The status that a cursor query reports: the current one, unless the
/// analysis has finished and the query found nothing; then what the query
/// found out.
pub open spec fn spec_cursor_status(
    status: AnalysisStatus,
    found: Result<Seq<DecoView<Range>>, AnalysisStatus>,
) -> AnalysisStatus {
    match found {
        Ok(_) => status,
        Err(e) => if status == AnalysisStatus::Finished {
            e
        } else {
            status
        },
    }
}

/// The title of the action that shows or hides the ownership of a
/// document.
pub open spec fn spec_action_title(status: AnalysisStatus, is_analyzed: bool, is_enabled: bool) -> Seq<
    char,
> {
    if status == AnalysisStatus::Analyzing {
        "RustOwl: Show ownership (analyzing...)"@
    } else if !is_analyzed {
        "RustOwl: Show ownership (waiting for analysis)"@
    } else if is_enabled {
        "RustOwl: Hide ownership"@
    } else {
        "RustOwl: Show ownership"@
    }
}

/// The title of the action that shows or hides the ownership of a
/// document.
pub fn action_title(status: AnalysisStatus, is_analyzed: bool, is_enabled: bool) -> (r: &'static str)
    ensures
        r@ == spec_action_title(status, is_analyzed, is_enabled),
{
    match status {
        AnalysisStatus::Analyzing => "RustOwl: Show ownership (analyzing...)",
        _ => if !is_analyzed {
            "RustOwl: Show ownership (waiting for analysis)"
        } else if is_enabled {
            "RustOwl: Hide ownership"
        } else {
            "RustOwl: Show ownership"
        },
    }
}

/// The document and position that the arguments of a command name: the
/// path of the first argument, and the second and third as line and
/// character, zero where one is missing or no `u32`.
pub open spec fn spec_position_args(path: Option<Seq<char>>, line: Option<u64>, character: Option<u64>) -> Option<
    (Seq<char>, Position),
> {
    match path {
        None => None,
        Some(p) => Some(
            (
                p,
                Position {
                    line: match line {
                        Some(l) => if l <= u32::MAX {
                            l as u32
                        } else {
                            0
                        },
                        None => 0,
                    },
                    character: match character {
                        Some(c) => if c <= u32::MAX {
                            c as u32
                        } else {
                            0
                        },
                        None => 0,
                    },
                },
            ),
        ),
    }
}

fn small_or_zero(value: Option<u64>) -> (r: u32)
    ensures
        r == match value {
            Some(v) => if v <= u32::MAX {
                v as u32
            } else {
                0
            },
            None => 0,
        },
{
    match value {
        Some(v) => if v <= u32::MAX as u64 {
            v as u32
        } else {
            0
        },
        None => 0,
    }
}

/// The document and position of a command's arguments.
pub fn parse_position_args(path: Option<String>, line: Option<u64>, character: Option<u64>) -> (r:
    Option<(String, Position)>)
    ensures
        match r {
            Some((p, position)) => spec_position_args(
                match path {
                    Some(q) => Some(q@),
                    None => None,
                },
                line,
                character,
            ) == Some((p@, position)),
            None => path is None,
        },
{
    match path {
        None => None,
        Some(p) => Some(
            (p, Position { line: small_or_zero(line), character: small_or_zero(character) }),
        ),
    }
}

impl Backend {
    /// The targets are distinct, the jobs in order, and each file of the
    /// result holds each function once.
    #[verifier::type_invariant]
    pub closed spec fn wf(&self) -> bool {
        &&& targets_distinct(targets_view(self.targets@))
        &&& jobs_in_order(jobs_view(self.jobs@))
        &&& keys_issued(jobs_view(self.jobs@), self.issued)
        &&& keys_unique(ownership_view(self.ownership@))
        &&& match self.analyzed {
            Some(c) => crate_ids_unique(c@),
            None => true,
        }
    }

    /// An orchestrator with no target, no job and no result, idle.
    #[must_use]
    pub fn new() -> (r: Self)
        ensures
            r@.targets == Seq::<Seq<char>>::empty(),
            r@.status == AnalysisStatus::Idle,
            r@.analyzed is None,
            r@.jobs == Seq::<JobView>::empty(),
            !r@.work_done_progress,
            r@.ownership == Map::<Seq<char>, (bool, Option<Position>)>::empty(),
            r@.issued == 0,
    {
        let r = Self {
            targets: Vec::new(),
            status: AnalysisStatus::Idle,
            analyzed: None,
            jobs: Vec::new(),
            work_done_progress: false,
            ownership: Vec::new(),
            issued: 0,
        };
        assert(r@.targets =~= Seq::<Seq<char>>::empty());
        assert(r@.jobs =~= Seq::<JobView>::empty());
        assert(r@.ownership =~= Map::<Seq<char>, (bool, Option<Position>)>::empty());
        r
    }

    /// Notes whether the client shows progress reports.
    pub fn set_work_done_progress(&mut self, on: bool)
        ensures
            final(self)@ == (BackendView { work_done_progress: on, ..old(self)@ }),
    {
        proof {
            use_type_invariant(&*self);
        }
        self.work_done_progress = on;
    }

    /// The current status.
    pub fn status(&self) -> (r: AnalysisStatus)
        ensures
            r == self@.status,
    {
        self.status
    }

    /// Whether there is a result, be it empty.
    pub fn is_analyzed(&self) -> (r: bool)
        ensures
            r == self@.analyzed is Some,
    {
        self.analyzed.is_some()
    }

    /// Whether the result holds at least one file.
    pub fn has_results(&self) -> (r: bool)
        ensures
            r == match self@.analyzed {
                Some(files) => files.dom().len() > 0,
                None => false,
            },
    {
        match &self.analyzed {
            Some(c) => !c.is_empty(),
            None => false,
        }
    }

    /// Registers a target.  `target` is the path that the caller found
    /// for it, `None` if the path is no valid target; the answer says
    /// whether it is valid.  A target that is registered is not added
    /// again.
    pub fn add_analyze_target(&mut self, target: Option<String>) -> (r: bool)
        ensures
            r == target is Some,
            final(self)@ == (BackendView {
                targets: match target {
                    Some(t) => if old(self)@.targets.contains(t@) {
                        old(self)@.targets
                    } else {
                        old(self)@.targets.push(t@)
                    },
                    None => old(self)@.targets,
                },
                ..old(self)@
            }),
    {
        match target {
            None => false,
            Some(t) => {
                proof {
                    use_type_invariant(&*self);
                }
                if !self.has_target(t.as_str()) {
                    let mut taken = Self::new();
                    core::mem::swap(self, &mut taken);
                    let Backend { targets, status, analyzed, jobs, work_done_progress, ownership, issued } =
                        taken;
                    let mut targets = targets;
                    let ghost before = targets_view(targets@);
                    targets.push(t);
                    assert(targets_view(targets@) =~= before.push(t@));
                    *self = Backend { targets, status, analyzed, jobs, work_done_progress, ownership, issued };
                }
                true
            },
        }
    }

    fn has_target(&self, target: &str) -> (r: bool)
        ensures
            r == self@.targets.contains(target@),
    {
        let mut i: usize = 0;
        while i < self.targets.len()
            invariant
                i <= self.targets@.len(),
                forall|k: int| 0 <= k < i ==> targets_view(self.targets@)[k] != target@,
            decreases self.targets.len() - i,
        {
            if str_eq(self.targets[i].as_str(), target) {
                assert(targets_view(self.targets@)[i as int] == target@);
                return true;
            }
            i += 1;
        }
        false
    }

    fn collect_keys(&self) -> (r: Vec<usize>)
        ensures
            r@ == job_keys(self@.jobs),
    {
        let mut keys: Vec<usize> = Vec::new();
        let mut i: usize = 0;
        while i < self.jobs.len()
            invariant
                i <= self.jobs@.len(),
                keys@.len() == i,
                forall|k: int| 0 <= k < i ==> keys@[k] == self.jobs@[k].key,
            decreases self.jobs.len() - i,
        {
            keys.push(self.jobs[i].key);
            i += 1;
        }
        assert(keys@ =~= job_keys(jobs_view(self.jobs@)));
        keys
    }

    /// Ends every job: the caller cancels the jobs with the keys given
    /// and waits until they have stopped.
    pub fn shutdown_subprocesses(&mut self) -> (r: Vec<usize>)
        ensures
            r@ == job_keys(old(self)@.jobs),
            final(self)@ == (BackendView { jobs: Seq::empty(), ..old(self)@ }),
    {
        proof {
            use_type_invariant(&*self);
        }
        let keys = self.collect_keys();
        self.jobs = Vec::new();
        assert(jobs_view(self.jobs@) =~= Seq::<JobView>::empty());
        keys
    }

    /// Starts a new round of analysis.  Every running job is cancelled
    /// first; then one job is started for each target, and the status is
    /// `Analyzing`.  Without a target the round has ended at once, and
    /// the status is settled: see [`settled`].  The new jobs are numbered
    /// past the largest key given out so far, so that no key of a started
    /// job is the key of a cancelled one; only where the numbers of the
    /// machine run out does the numbering start again at 1.
    pub fn analyze_with_options(&mut self, all_targets: bool, all_features: bool) -> (r: AnalysisPlan)
        ensures
            r.cancelled@ == job_keys(old(self)@.jobs),
            final(self)@ == (BackendView {
                status: round_status(old(self)@.targets.len(), old(self)@.analyzed),
                jobs: fresh_jobs(
                    key_base(old(self)@.issued, old(self)@.targets.len()),
                    old(self)@.targets,
                ),
                issued: (key_base(old(self)@.issued, old(self)@.targets.len())
                    + old(self)@.targets.len()) as usize,
                ..old(self)@
            }),
            r.started@.len() == old(self)@.targets.len(),
            forall|i: int|
                0 <= i < r.started@.len() ==> {
                    &&& (#[trigger] r.started@[i]).key == key_base(
                        old(self)@.issued,
                        old(self)@.targets.len(),
                    ) + i + 1
                    &&& r.started@[i].target@ == old(self)@.targets[i]
                    &&& r.started@[i].all_targets == all_targets
                    &&& r.started@[i].all_features == all_features
                },
            old(self)@.issued + old(self)@.targets.len() <= usize::MAX ==> forall|i: int, j: int|
                0 <= i < r.started@.len() && 0 <= j < r.cancelled@.len() ==> (
                #[trigger] r.started@[i]).key != #[trigger] r.cancelled@[j],
    {
        proof {
            use_type_invariant(&*self);
        }
        let cancelled = self.collect_keys();
        let count: usize = self.targets.len();
        let base: usize = if self.issued <= usize::MAX - count {
            self.issued
        } else {
            0
        };
        let mut jobs: Vec<Job> = Vec::new();
        let mut started: Vec<JobStart> = Vec::new();
        let mut i: usize = 0;
        while i < self.targets.len()
            invariant
                count == self.targets@.len(),
                base + count <= usize::MAX,
                i <= self.targets@.len(),
                jobs@.len() == i,
                started@.len() == i,
                forall|k: int|
                    0 <= k < i ==> {
                        &&& (#[trigger] jobs@[k]).key == base + k + 1
                        &&& jobs@[k].target@ == self.targets@[k]@
                        &&& jobs@[k].checked == 0
                    },
                forall|k: int|
                    0 <= k < i ==> {
                        &&& (#[trigger] started@[k]).key == base + k + 1
                        &&& started@[k].target@ == self.targets@[k]@
                        &&& started@[k].all_targets == all_targets
                        &&& started@[k].all_features == all_features
                    },
            decreases self.targets.len() - i,
        {
            let key: usize = base + i + 1;
            jobs.push(Job { key, target: self.targets[i].clone(), checked: 0 });
            started.push(
                JobStart { key, target: self.targets[i].clone(), all_targets, all_features },
            );
            i += 1;
        }
        proof {
            let view = jobs_view(jobs@);
            let targets = targets_view(self.targets@);
            assert(base == key_base(self.issued, targets.len()));
            assert(view =~= fresh_jobs(base, targets));
            assert forall|a: int, b: int| 0 <= a < b < view.len() implies (#[trigger] view[a]).key < (
            #[trigger] view[b]).key && view[a].target != view[b].target by {
                assert(targets[a] != targets[b]);
            }
            assert forall|a: int| 0 <= a < view.len() implies (#[trigger] view[a]).key <= base
                + count by {
                assert(view[a].key == jobs@[a].key);
            }
            let before = jobs_view(self.jobs@);
            assert forall|a: int, b: int|
                self.issued + count <= usize::MAX && 0 <= a < started@.len() && 0 <= b
                    < cancelled@.len() implies (#[trigger] started@[a]).key
                != #[trigger] cancelled@[b] by {
                assert(cancelled@[b] == before[b].key);
                assert(before[b].key <= self.issued);
            }
        }
        let round_status = if count > 0 {
            AnalysisStatus::Analyzing
        } else if self.has_results() {
            AnalysisStatus::Finished
        } else {
            AnalysisStatus::Error
        };
        let mut taken = Self::new();
        core::mem::swap(self, &mut taken);
        let Backend { targets, analyzed, work_done_progress, ownership, .. } = taken;
        *self = Backend {
            targets,
            status: round_status,
            analyzed,
            jobs,
            work_done_progress,
            ownership,
            issued: base + count,
        };
        AnalysisPlan { cancelled, started }
    }

    /// Starts a new round of analysis of all targets of each package, with
    /// the features that are active.
    pub fn analyze(&mut self) -> (r: AnalysisPlan)
        ensures
            r.cancelled@ == job_keys(old(self)@.jobs),
            final(self)@ == (BackendView {
                status: round_status(old(self)@.targets.len(), old(self)@.analyzed),
                jobs: fresh_jobs(
                    key_base(old(self)@.issued, old(self)@.targets.len()),
                    old(self)@.targets,
                ),
                issued: (key_base(old(self)@.issued, old(self)@.targets.len())
                    + old(self)@.targets.len()) as usize,
                ..old(self)@
            }),
            r.started@.len() == old(self)@.targets.len(),
            forall|i: int|
                0 <= i < r.started@.len() ==> {
                    &&& (#[trigger] r.started@[i]).key == key_base(
                        old(self)@.issued,
                        old(self)@.targets.len(),
                    ) + i + 1
                    &&& r.started@[i].target@ == old(self)@.targets[i]
                    &&& r.started@[i].all_targets
                    &&& !r.started@[i].all_features
                },
            old(self)@.issued + old(self)@.targets.len() <= usize::MAX ==> forall|i: int, j: int|
                0 <= i < r.started@.len() && 0 <= j < r.cancelled@.len() ==> (
                #[trigger] r.started@[i]).key != #[trigger] r.cancelled@[j],
    {
        self.analyze_with_options(true, false)
    }

    fn find_job(&self, key: usize) -> (r: Option<usize>)
        ensures
            match r {
                Some(i) => job_index(self@.jobs, key, 0) == Some(i as int) && i < self.jobs@.len()
                    && self.jobs@[i as int].key == key,
                None => job_index(self@.jobs, key, 0) is None,
            },
    {
        let mut i: usize = 0;
        while i < self.jobs.len()
            invariant
                i <= self.jobs@.len(),
                job_index(jobs_view(self.jobs@), key, 0) == job_index(
                    jobs_view(self.jobs@),
                    key,
                    i as int,
                ),
            decreases self.jobs.len() - i,
        {
            if self.jobs[i].key == key {
                return Some(i);
            }
            i += 1;
        }
        None
    }

    /// Takes a fragment of the result in: each of its crates is merged
    /// into the result.  No file of the result holds two functions with
    /// the same identifier, whatever the fragments hold.
    pub fn merge_result(&mut self, fragment: &Workspace)
        ensures
            final(self)@ == (BackendView {
                analyzed: Some(
                    merge_all(
                        match old(self)@.analyzed {
                            Some(files) => files,
                            None => Map::empty(),
                        },
                        fragment_crates(fragment),
                        fragment_crates(fragment).len() as int,
                    ),
                ),
                ..old(self)@
            }),
            crate_ids_unique(final(self)@.analyzed->0),
    {
        proof {
            use_type_invariant(&*self);
        }
        let entries = fragment.entries();
        let mut target = match &self.analyzed {
            Some(c) => c.clone(),
            None => Crate::new(),
        };
        let ghost base = target@;
        let mut i: usize = 0;
        while i < entries.len()
            invariant
                i <= entries@.len(),
                entries@ == fragment.spec_entries(),
                crate_ids_unique(target@),
                target@ == merge_all(base, fragment_crates(fragment), i as int),
            decreases entries.len() - i,
        {
            proof {
                law_merge_crates_ids_unique(target@, entries@[i as int].1@);
            }
            target.merge(entries[i].1.clone());
            i += 1;
        }
        self.analyzed = Some(target);
    }

    /// Takes an event of the job with the key `key` in.  An event of a
    /// job that was cancelled or has ended changes nothing.  A checked
    /// crate counts for the job and gives a progress report, if the
    /// client shows progress; a fragment is merged into the result.
    pub fn handle_event(&mut self, key: usize, event: AnalyzerEvent) -> (r: Option<ProgressReport>)
        ensures
            match job_index(old(self)@.jobs, key, 0) {
                None => final(self)@ == old(self)@ && r is None,
                Some(i) => match event {
                    AnalyzerEvent::CrateChecked { package, package_count } => {
                        let checked = if old(self)@.jobs[i].checked < usize::MAX {
                            (old(self)@.jobs[i].checked + 1) as usize
                        } else {
                            usize::MAX
                        };
                        &&& final(self)@ == (BackendView {
                            jobs: old(self)@.jobs.update(
                                i,
                                JobView { checked, ..old(self)@.jobs[i] },
                            ),
                            ..old(self)@
                        })
                        &&& r is Some == old(self)@.work_done_progress
                        &&& r is Some ==> r->0.message@ == package@ + " analyzed"@
                            && r->0.percentage == spec_percentage(
                            checked as nat,
                            package_count as nat,
                        )
                    },
                    AnalyzerEvent::Analyzed(ws) => {
                        &&& r is None
                        &&& final(self)@ == (BackendView {
                            analyzed: Some(
                                merge_all(
                                    match old(self)@.analyzed {
                                        Some(files) => files,
                                        None => Map::empty(),
                                    },
                                    fragment_crates(&ws),
                                    fragment_crates(&ws).len() as int,
                                ),
                            ),
                            ..old(self)@
                        })
                    },
                },
            },
    {
        match self.find_job(key) {
            None => None,
            Some(i) => match event {
                AnalyzerEvent::CrateChecked { package, package_count } => {
                    proof {
                        use_type_invariant(&*self);
                    }
                    let shows_progress = self.work_done_progress;
                    let mut taken = Self::new();
                    core::mem::swap(self, &mut taken);
                    let Backend { targets, status, analyzed, jobs, work_done_progress, ownership, issued } =
                        taken;
                    let mut jobs = jobs;
                    let ghost before = jobs_view(jobs@);
                    let checked = if jobs[i].checked < usize::MAX {
                        jobs[i].checked + 1
                    } else {
                        usize::MAX
                    };
                    jobs[i].checked = checked;
                    proof {
                        let after = jobs_view(jobs@);
                        assert(after =~= before.update(
                            i as int,
                            JobView { checked, ..before[i as int] },
                        ));
                        assert forall|a: int, b: int| 0 <= a < b < after.len() implies (
                        #[trigger] after[a]).key < (#[trigger] after[b]).key && after[a].target
                            != after[b].target by {
                            assert(before[a].key < before[b].key && before[a].target
                                != before[b].target);
                        }
                    }
                    *self = Backend { targets, status, analyzed, jobs, work_done_progress, ownership, issued };
                    if shows_progress {
                        let mut message = package;
                        message.append(" analyzed");
                        Some(ProgressReport { message, percentage: percentage(checked, package_count) })
                    } else {
                        None
                    }
                },
                AnalyzerEvent::Analyzed(ws) => {
                    self.merge_result(&ws);
                    None
                },
            },
        }
    }

    /// Notes that the job with the key `key` has ended.  When the last
    /// job of a round ends, the status settles: see [`settled`].
    pub fn finish_job(&mut self, key: usize)
        ensures
            match job_index(old(self)@.jobs, key, 0) {
                None => final(self)@ == old(self)@,
                Some(i) => final(self)@ == (BackendView {
                    jobs: old(self)@.jobs.remove(i),
                    status: if old(self)@.jobs.len() == 1 {
                        settled(old(self)@.status, old(self)@.analyzed)
                    } else {
                        old(self)@.status
                    },
                    ..old(self)@
                }),
            },
    {
        match self.find_job(key) {
            None => {},
            Some(i) => {
                proof {
                    use_type_invariant(&*self);
                }
                let mut taken = Self::new();
                core::mem::swap(self, &mut taken);
                let Backend { targets, status, analyzed, jobs, work_done_progress, ownership, issued } = taken;
                let mut jobs = jobs;
                let ghost before = jobs_view(jobs@);
                jobs.remove(i);
                proof {
                    let after = jobs_view(jobs@);
                    before.remove_ensures(i as int);
                    assert(after =~= before.remove(i as int));
                    assert forall|a: int, b: int| 0 <= a < b < after.len() implies (
                    #[trigger] after[a]).key < (#[trigger] after[b]).key && after[a].target
                        != after[b].target by {
                        let sa = if a < i {
                            a
                        } else {
                            a + 1
                        };
                        let sb = if b < i {
                            b
                        } else {
                            b + 1
                        };
                        assert(after[a] == before[sa] && after[b] == before[sb]);
                        assert(before[sa].key < before[sb].key && before[sa].target
                            != before[sb].target);
                    }
                }
                *self = Backend { targets, status, analyzed, jobs, work_done_progress, ownership, issued };
                if self.jobs.len() == 0 {
                    match self.status {
                        AnalysisStatus::Error => {},
                        _ => {
                            if self.has_results() {
                                self.status = AnalysisStatus::Finished;
                            } else {
                                self.status = AnalysisStatus::Error;
                            }
                        },
                    }
                }
            },
        }
    }

    /// Notes that a document has changed: the result is dropped, every
    /// job is ended, and the orchestrator is idle until the next round.
    pub fn did_change(&mut self) -> (r: Vec<usize>)
        ensures
            r@ == job_keys(old(self)@.jobs),
            final(self)@ == (BackendView {
                analyzed: None,
                jobs: Seq::empty(),
                status: AnalysisStatus::Idle,
                ..old(self)@
            }),
    {
        proof {
            use_type_invariant(&*self);
        }
        let keys = self.collect_keys();
        self.analyzed = None;
        self.status = AnalysisStatus::Idle;
        self.jobs = Vec::new();
        assert(jobs_view(self.jobs@) =~= Seq::<JobView>::empty());
        keys
    }

    /// The decorations for the cursor at `position` in the file at
    /// `filepath`, or the status to report in their place.
    pub fn decos(&self, filepath: &str, position: Loc) -> (r: Result<Vec<Deco>, AnalysisStatus>)
        ensures
            match r {
                Ok(v) => spec_decos(self@.analyzed, filepath@, position) == Ok::<
                    Seq<DecoView<Range>>,
                    AnalysisStatus,
                >(decos_view(v@)),
                Err(e) => spec_decos(self@.analyzed, filepath@, position) == Err::<
                    Seq<DecoView<Range>>,
                    AnalysisStatus,
                >(e),
            },
    {
        match &self.analyzed {
            None => Err(AnalysisStatus::Error),
            Some(analyzed) => match analyzed.get(filepath) {
                None => Err(AnalysisStatus::Error),
                Some(file) => {
                    let decos = file_decos(file, position);
                    if decos.len() > 0 {
                        Ok(decos)
                    } else if file.items.len() > 0 {
                        Err(AnalysisStatus::Finished)
                    } else {
                        Err(AnalysisStatus::Error)
                    }
                },
            },
        }
    }

    /// Answers a cursor query.  `document` is the path of the document
    /// and its text, `None` if the caller could not read it; `position`
    /// is the cursor.  The answer holds the decorations with their ranges
    /// in lines and columns, and the status to show.
    pub fn cursor(&self, document: Option<(&str, &str)>, position: Position) -> (r: Decorations)
        ensures
            r.is_analyzed == self@.analyzed is Some,
            match document {
                None => r.status == self@.status && r.path is None && r.items@.len() == 0,
                Some((path, text)) => {
                    let pos = Loc(
                        spec_line_char_to_index(
                            text@,
                            position.line as nat,
                            position.character as nat,
                        ) as u32,
                    );
                    let found = spec_decos(self@.analyzed, path@, pos);
                    &&& r.path is Some && r.path->0@ == path@
                    &&& r.status == spec_cursor_status(self@.status, found)
                    &&& match found {
                        Ok(decos) => r.items@.len() == decos.len() && forall|i: int|
                            0 <= i < decos.len() ==> (#[trigger] r.items@[i])@ == (DecoView {
                                kind: decos[i].kind,
                                local: decos[i].local,
                                range: crate::decoration::spec_convert_range(text@, decos[i].range),
                                hover_text: decos[i].hover_text,
                                overlapped: decos[i].overlapped,
                            }),
                        Err(_) => r.items@.len() == 0,
                    }
                },
            },
    {
        let is_analyzed = self.analyzed.is_some();
        let status = self.status;
        match document {
            None => Decorations { is_analyzed, status, path: None, items: Vec::new() },
            Some((path, text)) => {
                let pos = Loc(line_char_to_index(text, position.line, position.character));
                match self.decos(path, pos) {
                    Ok(decos) => {
                        let mut items: Vec<Deco<LineRange>> = Vec::new();
                        let mut i: usize = 0;
                        while i < decos.len()
                            invariant
                                i <= decos@.len(),
                                items@.len() == i,
                                forall|k: int|
                                    0 <= k < i ==> (#[trigger] items@[k])@ == (DecoView {
                                        kind: decos@[k]@.kind,
                                        local: decos@[k]@.local,
                                        range: crate::decoration::spec_convert_range(
                                            text@,
                                            decos@[k]@.range,
                                        ),
                                        hover_text: decos@[k]@.hover_text,
                                        overlapped: decos@[k]@.overlapped,
                                    }),
                            decreases decos.len() - i,
                        {
                            items.push(decos[i].to_lsp_range(text));
                            i += 1;
                        }
                        Decorations { is_analyzed, status, path: Some(path.to_owned()), items }
                    },
                    Err(e) => {
                        let shown = match status {
                            AnalysisStatus::Finished => e,
                            _ => status,
                        };
                        Decorations {
                            is_analyzed,
                            status: shown,
                            path: Some(path.to_owned()),
                            items: Vec::new(),
                        }
                    },
                }
            },
        }
    }
}

/// Whether the ownership diagnostics of a document are shown.
pub open spec fn spec_is_enabled(ownership: Map<Seq<char>, (bool, Option<Position>)>, path: Seq<char>) -> bool {
    ownership.dom().contains(path) && ownership[path].0
}

/// The state of the documents after a command with valid arguments.
/// Toggling turns the diagnostics of the document on if they were off or
/// never shown, and off if they were on, and notes the position; enabling
/// turns them on and notes the position; disabling turns them off and
/// forgets the position.
pub open spec fn spec_after_command(
    ownership: Map<Seq<char>, (bool, Option<Position>)>,
    command: Seq<char>,
    path: Seq<char>,
    position: Position,
) -> Map<Seq<char>, (bool, Option<Position>)> {
    if command == CMD_TOGGLE_OWNERSHIP@ {
        ownership.insert(path, (!spec_is_enabled(ownership, path), Some(position)))
    } else if command == CMD_ENABLE_OWNERSHIP@ {
        ownership.insert(path, (true, Some(position)))
    } else if command == CMD_DISABLE_OWNERSHIP@ {
        ownership.insert(path, (false, None))
    } else {
        ownership
    }
}

/// What the caller does after a command: publish the diagnostics of a
/// document that is now shown, clear those of one that is now hidden,
/// start an analysis; or answer that the arguments or the command are
/// wrong.
pub open spec fn spec_command_outcome(
    ownership: Map<Seq<char>, (bool, Option<Position>)>,
    command: Seq<char>,
    args: Option<(Seq<char>, Position)>,
) -> (int, bool) {
    if command == CMD_TOGGLE_OWNERSHIP@ {
        match args {
            Some((path, _)) => if !spec_is_enabled(ownership, path) {
                (0, true)
            } else {
                (1, false)
            },
            None => (3, false),
        }
    } else if command == CMD_ENABLE_OWNERSHIP@ {
        match args {
            Some(_) => (0, true),
            None => (3, false),
        }
    } else if command == CMD_DISABLE_OWNERSHIP@ {
        match args {
            Some(_) => (1, false),
            None => (3, false),
        }
    } else if command == CMD_ANALYZE@ {
        (2, false)
    } else {
        (4, false)
    }
}

/// The outcome as a number and a flag: 0 for publishing, 1 for clearing,
/// 2 for an analysis, 3 for wrong arguments, 4 for an unknown command; the
/// flag says whether the diagnostics are shown now.
pub open spec fn outcome_code(outcome: CommandOutcome) -> (int, bool) {
    match outcome {
        CommandOutcome::Publish { toggled, .. } => (0, toggled),
        CommandOutcome::Clear { toggled, .. } => (1, toggled),
        CommandOutcome::Analyze => (2, false),
        CommandOutcome::InvalidParams => (3, false),
        CommandOutcome::MethodNotFound => (4, false),
    }
}

impl Backend {
    /// In every state that the orchestrator reaches, at most one job runs
    /// for a target, the keys of the jobs differ and none lies beyond the
    /// largest key given out, and no file of the result holds two
    /// functions with the same identifier.
    pub proof fn law_state_invariants(&self)
        requires
            self.wf(),
        ensures
            jobs_in_order(self@.jobs),
            keys_issued(self@.jobs, self@.issued),
            targets_distinct(self@.targets),
            match self@.analyzed {
                Some(files) => crate_ids_unique(files),
                None => true,
            },
    {
    }

    fn ownership_position(&self, path: &str) -> (r: Option<usize>)
        ensures
            match r {
                Some(i) => i < self.ownership@.len() && self.ownership@[i as int].0@ == path@,
                None => !has_key(ownership_view(self.ownership@), path@),
            },
    {
        let mut i: usize = 0;
        while i < self.ownership.len()
            invariant
                i <= self.ownership@.len(),
                forall|k: int| 0 <= k < i ==> (#[trigger] ownership_view(self.ownership@)[k]).0 != path@,
            decreases self.ownership.len() - i,
        {
            if str_eq(self.ownership[i].0.as_str(), path) {
                return Some(i);
            }
            i += 1;
        }
        None
    }

    /// Whether the ownership diagnostics of the document are shown.
    pub fn is_enabled(&self, path: &str) -> (r: bool)
        ensures
            r == spec_is_enabled(self@.ownership, path@),
    {
        match self.ownership_position(path) {
            Some(i) => {
                proof {
                    use_type_invariant(self);
                    lemma_as_map_at(ownership_view(self.ownership@), i as int);
                }
                self.ownership[i].1.0
            },
            None => false,
        }
    }

    fn set_ownership(&mut self, path: String, state: (bool, Option<Position>))
        ensures
            final(self)@ == (BackendView {
                ownership: old(self)@.ownership.insert(path@, state),
                ..old(self)@
            }),
    {
        proof {
            use_type_invariant(&*self);
        }
        let found = self.ownership_position(path.as_str());
        let mut taken = Self::new();
        core::mem::swap(self, &mut taken);
        let Backend { targets, status, analyzed, jobs, work_done_progress, ownership, issued } = taken;
        let mut ownership = ownership;
        let ghost before = ownership_view(ownership@);
        match found {
            Some(i) => {
                proof {
                    lemma_as_map_update(before, i as int, state);
                }
                ownership.set(i, (path, state));
                assert(ownership_view(ownership@) =~= before.update(
                    i as int,
                    (before[i as int].0, state),
                ));
            },
            None => {
                proof {
                    lemma_as_map_push(before, path@, state);
                }
                ownership.push((path, state));
                assert(ownership_view(ownership@) =~= before.push((path@, state)));
            },
        }
        *self = Backend { targets, status, analyzed, jobs, work_done_progress, ownership, issued };
    }

    /// Handles a command of the client.  `args` is the document and the
    /// position that the arguments name, `None` if they name none.  The
    /// state of the document changes as [`spec_after_command`] says, and
    /// the answer tells the caller what to do.
    pub fn handle_execute_command(&mut self, command: &str, args: Option<(String, Position)>) -> (r:
        CommandOutcome)
        ensures
            outcome_code(r) == spec_command_outcome(
                old(self)@.ownership,
                command@,
                match args {
                    Some((path, position)) => Some((path@, position)),
                    None => None,
                },
            ),
            match args {
                Some((path, position)) => {
                    &&& final(self)@ == (BackendView {
                        ownership: spec_after_command(
                            old(self)@.ownership,
                            command@,
                            path@,
                            position,
                        ),
                        ..old(self)@
                    })
                    &&& match r {
                        CommandOutcome::Publish { path: p, position: q, .. } => p@ == path@ && q
                            == position,
                        CommandOutcome::Clear { path: p, .. } => p@ == path@,
                        _ => true,
                    }
                },
                None => final(self)@ == old(self)@,
            },
    {
        if str_eq(command, CMD_TOGGLE_OWNERSHIP) {
            match args {
                Some((path, position)) => {
                    let enabled = !self.is_enabled(path.as_str());
                    self.set_ownership(path.clone(), (enabled, Some(position)));
                    if enabled {
                        CommandOutcome::Publish { path, position, toggled: true }
                    } else {
                        CommandOutcome::Clear { path, toggled: false }
                    }
                },
                None => CommandOutcome::InvalidParams,
            }
        } else if str_eq(command, CMD_ENABLE_OWNERSHIP) {
            match args {
                Some((path, position)) => {
                    self.set_ownership(path.clone(), (true, Some(position)));
                    CommandOutcome::Publish { path, position, toggled: true }
                },
                None => CommandOutcome::InvalidParams,
            }
        } else if str_eq(command, CMD_DISABLE_OWNERSHIP) {
            match args {
                Some((path, _)) => {
                    self.set_ownership(path.clone(), (false, None));
                    CommandOutcome::Clear { path, toggled: false }
                },
                None => CommandOutcome::InvalidParams,
            }
        } else if str_eq(command, CMD_ANALYZE) {
            CommandOutcome::Analyze
        } else {
            CommandOutcome::MethodNotFound
        }
    }

    /// The title of the action that shows or hides the ownership of the
    /// document at `path`, `None` if the document has no path.
    pub fn code_action_title(&self, path: Option<&str>) -> (r: &'static str)
        ensures
            r@ == spec_action_title(
                self@.status,
                self@.analyzed is Some,
                match path {
                    Some(p) => spec_is_enabled(self@.ownership, p@),
                    None => false,
                },
            ),
    {
        let is_enabled = match path {
            Some(p) => self.is_enabled(p),
            None => false,
        };
        action_title(self.status, self.analyzed.is_some(), is_enabled)
    }

    /// The ownership diagnostics of a document for a cursor: the
    /// decorations for the cursor that are shown as diagnostics, each
    /// with its range in lines and columns.  None if there is nothing to
    /// show.
    pub fn ownership_diagnostics(&self, path: &str, text: &str, position: Position) -> (r: Vec<
        Diagnostic,
    >)
        ensures
            diagnostics_view(r@) == match spec_decos(
                self@.analyzed,
                path@,
                Loc(
                    spec_line_char_to_index(
                        text@,
                        position.line as nat,
                        position.character as nat,
                    ) as u32,
                ),
            ) {
                Ok(decos) => shown_diagnostics(text@, decos, decos.len() as int),
                Err(_) => Seq::empty(),
            },
    {
        let pos = Loc(line_char_to_index(text, position.line, position.character));
        let mut out: Vec<Diagnostic> = Vec::new();
        assert(diagnostics_view(out@) =~= Seq::empty());
        match self.decos(path, pos) {
            Ok(decos) => {
                let mut i: usize = 0;
                while i < decos.len()
                    invariant
                        i <= decos@.len(),
                        diagnostics_view(out@) == shown_diagnostics(
                            text@,
                            decos_view(decos@),
                            i as int,
                        ),
                    decreases decos.len() - i,
                {
                    if decos[i].should_show_as_diagnostic() {
                        let ghost before = diagnostics_view(out@);
                        let shown = decos[i].to_lsp_range(text).to_diagnostic();
                        out.push(shown);
                        assert(diagnostics_view(out@) =~= before.push(shown@));
                    }
                    i += 1;
                }
            },
            Err(_) => {},
        }
        out
    }
}

/// Nothing is selected and nothing was synthesised.
pub open spec fn quiet(s: CalcView) -> bool {
    s.locals =~= Set::<FnLocal>::empty() && s.decorations.len() == 0
}

/// Declarations add nothing where nothing is selected.
proof fn lemma_quiet_decls(s: CalcView, decls: Seq<crate::models::MirDeclView>, n: int)
    requires
        quiet(s),
    ensures
        quiet(crate::visitor::visit_decls::<CalcDecos>(s, decls, n)),
    decreases n,
{
    if 0 < n <= decls.len() {
        lemma_quiet_decls(s, decls, n - 1);
    }
}

/// Statements add nothing where nothing is selected.
proof fn lemma_quiet_stmts(s: CalcView, stmts: Seq<crate::models::MirStatement>, n: int)
    requires
        quiet(s),
    ensures
        quiet(crate::visitor::visit_stmts::<CalcDecos>(s, stmts, n)),
    decreases n,
{
    if 0 < n <= stmts.len() {
        lemma_quiet_stmts(s, stmts, n - 1);
    }
}

/// Blocks add nothing where nothing is selected.
proof fn lemma_quiet_blocks(s: CalcView, blocks: Seq<crate::models::BasicBlockView>, n: int)
    requires
        quiet(s),
    ensures
        quiet(crate::visitor::visit_blocks::<CalcDecos>(s, blocks, n)),
    decreases n,
{
    if 0 < n <= blocks.len() {
        lemma_quiet_blocks(s, blocks, n - 1);
        let before = crate::visitor::visit_blocks::<CalcDecos>(s, blocks, n - 1);
        lemma_quiet_stmts(
            before,
            blocks[n - 1].statements,
            blocks[n - 1].statements.len() as int,
        );
    }
}

/// Functions add nothing where nothing is selected.
proof fn lemma_quiet_functions(s: CalcView, items: Seq<FunctionView>, n: int)
    requires
        quiet(s),
    ensures
        quiet(calc_in(s, items, n)),
    decreases n,
{
    if 0 < n <= items.len() {
        lemma_quiet_functions(s, items, n - 1);
        let before = calc_in(s, items, n - 1);
        let f = items[n - 1];
        lemma_quiet_decls(before, f.decls, f.decls.len() as int);
        lemma_quiet_blocks(
            crate::visitor::visit_decls::<CalcDecos>(before, f.decls, f.decls.len() as int),
            f.basic_blocks,
            f.basic_blocks.len() as int,
        );
    }
}

/// A cursor that is on no candidate variable selects nothing, and then
/// nothing is shown for it.
pub proof fn law_no_selection_no_decorations(items: Seq<FunctionView>, pos: Loc)
    requires
        spec_selected(items, pos) is None,
    ensures
        spec_file_decos(items, pos) == Seq::<DecoView<Range>>::empty(),
{
    let start = CalcView {
        locals: chosen(spec_selected(items, pos)).to_set(),
        decorations: Seq::empty(),
        current_fn_id: 0,
    };
    assert(start.locals =~= Set::<FnLocal>::empty());
    lemma_quiet_functions(start, items, items.len() as int);
    let gathered = calc_in(start, items, items.len() as int).decorations;
    assert(gathered =~= Seq::<DecoView<Range>>::empty());
    assert(crate::overlap::spec_sort_by_kind(gathered) =~= Seq::<DecoView<Range>>::empty());
    assert(spec_file_decos(items, pos) =~= Seq::<DecoView<Range>>::empty());
}

/// The diagnostics of a list, as plain values.
pub open spec fn diagnostics_view(s: Seq<Diagnostic>) -> Seq<crate::decoration::DiagnosticView> {
    s.map_values(|d: Diagnostic| d@)
}

/// The diagnostics for the first `n` decorations, in order: one for each
/// decoration but the `Lifetime` ones, with its range in lines and columns
/// of the text.
pub open spec fn shown_diagnostics(text: Seq<char>, decos: Seq<DecoView<Range>>, n: int) -> Seq<
    crate::decoration::DiagnosticView,
>
    decreases n,
{
    if n <= 0 || n > decos.len() {
        Seq::empty()
    } else if decos[n - 1].kind != crate::decoration::DecoKind::Lifetime {
        shown_diagnostics(text, decos, n - 1).push(
            crate::decoration::spec_diagnostic(
                DecoView {
                    kind: decos[n - 1].kind,
                    local: decos[n - 1].local,
                    range: crate::decoration::spec_convert_range(text, decos[n - 1].range),
                    hover_text: decos[n - 1].hover_text,
                    overlapped: decos[n - 1].overlapped,
                },
            ),
        )
    } else {
        shown_diagnostics(text, decos, n - 1)
    }
}

/// The crates of a fragment, in the order of their names.
pub open spec fn fragment_crates(ws: &Workspace) -> Seq<Map<Seq<char>, Seq<FunctionView>>> {
    ws.spec_entries().map_values(|e: (String, Crate)| e.1@)
}

} // verus!
