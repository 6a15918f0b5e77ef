//! The orchestrator: targets, jobs, results, queries and commands.

use rustowl::backend::{
    action_title, parse_position_args, percentage, AnalysisStatus, AnalyzerEvent, Backend,
    CommandOutcome, CMD_ANALYZE, CMD_DISABLE_OWNERSHIP, CMD_ENABLE_OWNERSHIP,
    CMD_TOGGLE_OWNERSHIP,
};
use rustowl::decoration::{DecoKind, Position};
use rustowl::models::{
    Crate, File, FnLocal, Function, Loc, MirBasicBlock, MirDecl, MirRval, MirStatement, Range,
    Workspace,
};

fn r(from: u32, until: u32) -> Range {
    Range::new(Loc(from), Loc(until)).unwrap()
}

fn function(fn_id: u32, name: &str) -> Function {
    Function {
        fn_id,
        basic_blocks: vec![MirBasicBlock {
            statements: vec![MirStatement::Assign {
                target_local: FnLocal::new(2, fn_id),
                range: r(8, 9),
                rval: Some(MirRval::Move { target_local: FnLocal::new(1, fn_id), range: r(8, 9) }),
            }],
            terminator: None,
        }],
        decls: vec![MirDecl::User {
            local: FnLocal::new(1, fn_id),
            name: name.to_string(),
            span: r(0, 1),
            ty: "T".to_string(),
            lives: vec![r(0, 12)],
            shared_borrow: Vec::new(),
            mutable_borrow: Vec::new(),
            drop: false,
            drop_range: Vec::new(),
            must_live_at: Vec::new(),
        }],
    }
}

fn fragment(krate: &str, path: &str, functions: Vec<Function>) -> Workspace {
    let mut files = Crate::new();
    files.insert(path.to_string(), File { items: functions });
    let mut ws = Workspace::new();
    ws.insert(krate.to_string(), files);
    ws
}

#[test]
fn targets_are_registered_once() {
    let mut backend = Backend::new();
    assert!(!backend.add_analyze_target(None));
    assert!(backend.add_analyze_target(Some("/a".to_string())));
    assert!(backend.add_analyze_target(Some("/b".to_string())));
    assert!(backend.add_analyze_target(Some("/a".to_string())));
    let plan = backend.analyze_with_options(false, true);
    let started: Vec<(usize, &str, bool, bool)> = plan
        .started
        .iter()
        .map(|j| (j.key, j.target.as_str(), j.all_targets, j.all_features))
        .collect();
    assert_eq!(started, vec![(1, "/a", false, true), (2, "/b", false, true)]);
    assert!(plan.cancelled.is_empty());
    assert_eq!(backend.shutdown_subprocesses(), vec![1, 2]);
    assert_eq!(backend.shutdown_subprocesses(), Vec::<usize>::new());
}

#[test]
fn progress_is_a_percentage() {
    assert_eq!(percentage(0, 4), 0);
    assert_eq!(percentage(1, 4), 25);
    assert_eq!(percentage(1, 3), 33);
    assert_eq!(percentage(4, 4), 100);
    assert_eq!(percentage(9, 4), 100);
    assert_eq!(percentage(3, 0), 100);
    assert_eq!(percentage(usize::MAX, usize::MAX), 100);
    assert_eq!(percentage(usize::MAX / 2, usize::MAX), 49);

    let mut backend = Backend::new();
    backend.add_analyze_target(Some("/a".to_string()));
    let key = backend.analyze().started[0].key;
    let checked = |package: &str| AnalyzerEvent::CrateChecked {
        package: package.to_string(),
        package_count: 3,
    };
    // no report unless the client shows progress
    assert!(backend.handle_event(key, checked("one")).is_none());
    backend.set_work_done_progress(true);
    let report = backend.handle_event(key, checked("two")).unwrap();
    assert_eq!(report.message, "two analyzed");
    assert_eq!(report.percentage, 66);
    let report = backend.handle_event(key, checked("three")).unwrap();
    assert_eq!(report.percentage, 100);
    let report = backend.handle_event(key, checked("four")).unwrap();
    assert_eq!(report.percentage, 100);
    // an unknown job reports nothing
    assert!(backend.handle_event(key + 1, checked("five")).is_none());
}

#[test]
fn status_settles_when_the_last_job_ends() {
    let mut backend = Backend::new();
    assert_eq!(backend.status(), AnalysisStatus::Idle);
    assert!(!backend.is_analyzed());
    backend.add_analyze_target(Some("/a".to_string()));
    backend.add_analyze_target(Some("/b".to_string()));
    let plan = backend.analyze();
    assert_eq!(backend.status(), AnalysisStatus::Analyzing);
    backend.handle_event(1, AnalyzerEvent::Analyzed(fragment("a", "/a/lib.rs", vec![function(1, "x")])));
    assert!(backend.is_analyzed());
    backend.finish_job(plan.started[0].key);
    assert_eq!(backend.status(), AnalysisStatus::Analyzing);
    backend.finish_job(7);
    assert_eq!(backend.status(), AnalysisStatus::Analyzing);
    backend.finish_job(plan.started[1].key);
    assert_eq!(backend.status(), AnalysisStatus::Finished);
    assert!(backend.has_results());

    // a round that gives nothing ends in an error, and the error stays
    let mut empty = Backend::new();
    empty.add_analyze_target(Some("/a".to_string()));
    let key = empty.analyze().started[0].key;
    empty.finish_job(key);
    assert_eq!(empty.status(), AnalysisStatus::Error);
    assert!(!empty.has_results());
    let key = empty.analyze().started[0].key;
    assert_eq!(empty.status(), AnalysisStatus::Analyzing);
    empty.handle_event(key, AnalyzerEvent::Analyzed(Workspace::new()));
    empty.finish_job(key);
    assert_eq!(empty.status(), AnalysisStatus::Error);
    assert!(empty.is_analyzed());
}

#[test]
fn a_change_drops_the_result_and_ends_the_jobs() {
    let mut backend = Backend::new();
    backend.add_analyze_target(Some("/a".to_string()));
    let key = backend.analyze().started[0].key;
    backend.handle_event(key, AnalyzerEvent::Analyzed(fragment("a", "/a/lib.rs", vec![function(1, "x")])));
    assert_eq!(backend.did_change(), vec![key]);
    assert_eq!(backend.status(), AnalysisStatus::Idle);
    assert!(!backend.is_analyzed());
    // what the job that was ended still sends is not taken in
    backend.handle_event(key, AnalyzerEvent::Analyzed(fragment("a", "/a/lib.rs", vec![function(1, "x")])));
    assert!(!backend.is_analyzed());
    assert_eq!(backend.did_change(), Vec::<usize>::new());
    assert_eq!(backend.analyze().started.len(), 1);
}

#[test]
fn fragments_are_merged_by_function_identifier() {
    let mut backend = Backend::new();
    backend.add_analyze_target(Some("/a".to_string()));
    let key = backend.analyze().started[0].key;
    let send = |backend: &mut Backend, ws: Workspace| {
        assert!(backend.handle_event(key, AnalyzerEvent::Analyzed(ws)).is_none());
    };
    send(&mut backend, fragment("a", "/a/lib.rs", vec![function(1, "x"), function(2, "y")]));
    send(&mut backend, fragment("a", "/a/main.rs", vec![function(1, "m")]));
    send(&mut backend, fragment("b", "/a/lib.rs", vec![function(1, "z"), function(3, "w"), function(3, "v")]));
    backend.finish_job(key);

    // the cursor is on the declaration of the first function of the file:
    // its lifetime is shown in three parts, around the move
    let names = |backend: &Backend, path: &str| -> Vec<String> {
        backend
            .decos(path, Loc(0))
            .unwrap()
            .iter()
            .filter(|d| d.kind() == DecoKind::Lifetime)
            .map(|d| d.hover_text().to_string())
            .collect()
    };
    // function 1 of the file was replaced by the one that came last
    let shown = names(&backend, "/a/lib.rs");
    assert_eq!(shown, vec!["lifetime of variable `z`".to_string(); 3]);
    assert_eq!(names(&backend, "/a/main.rs"), vec!["lifetime of variable `m`".to_string(); 3]);
    let moves = backend.decos("/a/lib.rs", Loc(0)).unwrap();
    assert_eq!(moves.iter().filter(|d| d.kind() == DecoKind::Move).count(), 1);
}

#[test]
fn cursor_queries_report_decorations_or_a_status() {
    let text = "x = f();\ny(x);\n";
    let mut backend = Backend::new();
    let position = Position { line: 0, character: 0 };
    let answer = backend.cursor(None, position);
    assert_eq!((answer.is_analyzed, answer.status, answer.path.clone()), (false, AnalysisStatus::Idle, None));
    assert!(answer.items.is_empty());
    let answer = backend.cursor(Some(("/a/lib.rs", text)), position);
    assert_eq!(answer.status, AnalysisStatus::Idle);
    assert_eq!(answer.path, Some("/a/lib.rs".to_string()));
    assert!(backend.decos("/a/lib.rs", Loc(0)).is_err());

    backend.add_analyze_target(Some("/a".to_string()));
    let key = backend.analyze().started[0].key;
    backend.handle_event(key, AnalyzerEvent::Analyzed(fragment("a", "/a/lib.rs", vec![function(1, "x")])));
    backend.handle_event(key, AnalyzerEvent::Analyzed(fragment("a", "/a/empty.rs", Vec::new())));
    // while the analysis runs, the status is the running one
    assert_eq!(backend.cursor(Some(("/a/other.rs", text)), position).status, AnalysisStatus::Analyzing);
    backend.finish_job(key);

    let answer = backend.cursor(Some(("/a/lib.rs", text)), position);
    assert!(answer.is_analyzed);
    assert_eq!(answer.status, AnalysisStatus::Finished);
    let shown: Vec<(DecoKind, Position, Position, bool)> = answer
        .items
        .iter()
        .map(|d| {
            let diagnostic = d.to_diagnostic();
            (d.kind(), diagnostic.range.start, diagnostic.range.end, d.overlapped())
        })
        .collect();
    let at = |line, character| Position { line, character };
    assert_eq!(
        shown,
        vec![
            (DecoKind::Lifetime, at(0, 8), at(1, 0), true),
            (DecoKind::Lifetime, at(0, 0), at(0, 8), false),
            (DecoKind::Lifetime, at(1, 0), at(1, 3), false),
            (DecoKind::Move, at(0, 8), at(1, 0), false),
        ]
    );
    let diagnostics = backend.ownership_diagnostics("/a/lib.rs", text, position);
    assert_eq!(diagnostics.len(), 1);
    assert_eq!(diagnostics[0].code, "rustowl:move");
    assert_eq!(diagnostics[0].message, "variable moved");

    // a cursor on nothing in a file with functions
    let nothing = backend.cursor(Some(("/a/lib.rs", text)), at(1, 4));
    assert_eq!(nothing.status, AnalysisStatus::Finished);
    assert!(nothing.items.is_empty());
    assert_eq!(backend.decos("/a/lib.rs", Loc(13)), Err(AnalysisStatus::Finished));
    // a file without functions, and a file that was not analysed
    assert_eq!(backend.cursor(Some(("/a/empty.rs", text)), position).status, AnalysisStatus::Error);
    assert_eq!(backend.cursor(Some(("/a/other.rs", text)), position).status, AnalysisStatus::Error);
    assert!(backend.ownership_diagnostics("/a/other.rs", text, position).is_empty());
}

#[test]
fn commands_switch_the_ownership_diagnostics() {
    let mut backend = Backend::new();
    let position = Position { line: 3, character: 4 };
    let args = || Some(("/a/lib.rs".to_string(), position));
    assert!(!backend.is_enabled("/a/lib.rs"));
    assert_eq!(
        backend.handle_execute_command(CMD_TOGGLE_OWNERSHIP, args()),
        CommandOutcome::Publish { path: "/a/lib.rs".to_string(), position, toggled: true }
    );
    assert!(backend.is_enabled("/a/lib.rs"));
    assert!(!backend.is_enabled("/a/main.rs"));
    assert_eq!(
        backend.handle_execute_command(CMD_TOGGLE_OWNERSHIP, args()),
        CommandOutcome::Clear { path: "/a/lib.rs".to_string(), toggled: false }
    );
    assert!(!backend.is_enabled("/a/lib.rs"));
    assert_eq!(
        backend.handle_execute_command(CMD_ENABLE_OWNERSHIP, args()),
        CommandOutcome::Publish { path: "/a/lib.rs".to_string(), position, toggled: true }
    );
    assert_eq!(
        backend.handle_execute_command(CMD_ENABLE_OWNERSHIP, args()),
        CommandOutcome::Publish { path: "/a/lib.rs".to_string(), position, toggled: true }
    );
    assert!(backend.is_enabled("/a/lib.rs"));
    assert_eq!(
        backend.handle_execute_command(CMD_DISABLE_OWNERSHIP, args()),
        CommandOutcome::Clear { path: "/a/lib.rs".to_string(), toggled: false }
    );
    assert!(!backend.is_enabled("/a/lib.rs"));
    assert_eq!(backend.handle_execute_command(CMD_ANALYZE, None), CommandOutcome::Analyze);
    assert_eq!(backend.handle_execute_command(CMD_ANALYZE, args()), CommandOutcome::Analyze);
    for command in [CMD_TOGGLE_OWNERSHIP, CMD_ENABLE_OWNERSHIP, CMD_DISABLE_OWNERSHIP] {
        assert_eq!(backend.handle_execute_command(command, None), CommandOutcome::InvalidParams);
    }
    assert_eq!(backend.handle_execute_command("rustowl.other", args()), CommandOutcome::MethodNotFound);
    assert!(!backend.is_enabled("/a/lib.rs"));
}

#[test]
fn the_action_title_follows_the_state() {
    assert_eq!(action_title(AnalysisStatus::Analyzing, true, true), "RustOwl: Show ownership (analyzing...)");
    assert_eq!(action_title(AnalysisStatus::Idle, false, true), "RustOwl: Show ownership (waiting for analysis)");
    assert_eq!(action_title(AnalysisStatus::Finished, true, true), "RustOwl: Hide ownership");
    assert_eq!(action_title(AnalysisStatus::Error, true, false), "RustOwl: Show ownership");
    let mut backend = Backend::new();
    assert_eq!(backend.code_action_title(Some("/a/lib.rs")), "RustOwl: Show ownership (waiting for analysis)");
    backend.add_analyze_target(Some("/a".to_string()));
    let key = backend.analyze().started[0].key;
    assert_eq!(backend.code_action_title(None), "RustOwl: Show ownership (analyzing...)");
    backend.handle_event(key, AnalyzerEvent::Analyzed(fragment("a", "/a/lib.rs", vec![function(1, "x")])));
    backend.finish_job(key);
    assert_eq!(backend.code_action_title(Some("/a/lib.rs")), "RustOwl: Show ownership");
    backend.handle_execute_command(
        CMD_ENABLE_OWNERSHIP,
        Some(("/a/lib.rs".to_string(), Position { line: 0, character: 0 })),
    );
    assert_eq!(backend.code_action_title(Some("/a/lib.rs")), "RustOwl: Hide ownership");
    assert_eq!(backend.code_action_title(Some("/a/main.rs")), "RustOwl: Show ownership");
    assert_eq!(backend.code_action_title(None), "RustOwl: Show ownership");
}

#[test]
fn command_arguments_name_a_document_and_a_position() {
    assert_eq!(parse_position_args(None, Some(1), Some(2)), None);
    assert_eq!(
        parse_position_args(Some("/a".to_string()), Some(1), Some(2)),
        Some(("/a".to_string(), Position { line: 1, character: 2 }))
    );
    assert_eq!(
        parse_position_args(Some("/a".to_string()), None, Some(u64::from(u32::MAX) + 1)),
        Some(("/a".to_string(), Position { line: 0, character: 0 }))
    );
    assert_eq!(
        parse_position_args(Some("/a".to_string()), Some(u64::from(u32::MAX)), None),
        Some(("/a".to_string(), Position { line: u32::MAX, character: 0 }))
    );
}

#[test]
fn workspaces_merge_by_crate_and_file() {
    let mut all = fragment("a", "/a/lib.rs", vec![function(1, "x"), function(2, "y")]);
    all.merge(fragment("a", "/a/lib.rs", vec![function(2, "z"), function(3, "w")]));
    all.merge(fragment("a", "/a/main.rs", vec![function(1, "m"), function(1, "n")]));
    all.merge(fragment("b", "/b/lib.rs", Vec::new()));
    assert_eq!(all.len(), 2);
    let ids = |krate: &str, path: &str| -> Vec<(u32, String)> {
        all.get(krate)
            .unwrap()
            .get(path)
            .unwrap()
            .items
            .iter()
            .map(|f| match &f.decls[0] {
                MirDecl::User { name, .. } => (f.fn_id, name.clone()),
                MirDecl::Other { .. } => (f.fn_id, String::new()),
            })
            .collect()
    };
    assert_eq!(
        ids("a", "/a/lib.rs"),
        vec![(1, "x".to_string()), (2, "z".to_string()), (3, "w".to_string())]
    );
    assert_eq!(ids("a", "/a/main.rs"), vec![(1, "n".to_string())]);
    assert!(ids("b", "/b/lib.rs").is_empty());
    assert_eq!(all.get("a").unwrap().len(), 2);
    assert!(all.get("a").unwrap().contains_key("/a/main.rs"));
    assert!(!all.get("b").unwrap().is_empty());
    assert!(all.get("c").is_none());
    // merging a workspace into itself changes nothing
    let before = format!("{all:?}");
    all.merge(all.clone());
    assert_eq!(format!("{all:?}"), before);
}

#[test]
fn ownership_diagnostics_show_function_call() {
    // line 172, counted from zero, holds `let state = SharedState::new();`,
    // and the cursor stands on `state`, at character 12
    let line = 172;
    let character = 12;
    let text = format!(
        "{}        let state = SharedState::new();\n        state.add(Container::new(\"a\"));\n",
        "//\n".repeat(172)
    );
    let offset = |needle: &str| text.find(needle).unwrap() as u32;
    let declared = offset("state = SharedState");
    let called = offset("SharedState::new()");
    let state = FnLocal::new(1, 9);
    let function = Function {
        fn_id: 9,
        basic_blocks: vec![MirBasicBlock {
            statements: Vec::new(),
            terminator: Some(rustowl::models::MirTerminator::Call {
                destination_local: state,
                fn_span: r(called, called + 18),
            }),
        }],
        decls: vec![MirDecl::User {
            local: state,
            name: "state".to_string(),
            span: r(declared, declared + 5),
            ty: "SharedState".to_string(),
            lives: vec![r(declared, text.len() as u32)],
            shared_borrow: Vec::new(),
            mutable_borrow: Vec::new(),
            drop: false,
            drop_range: Vec::new(),
            must_live_at: Vec::new(),
        }],
    };
    let path = "/perf-tests/src/lib.rs";
    let mut backend = Backend::new();
    backend.add_analyze_target(Some("/perf-tests".to_string()));
    let key = backend.analyze().started[0].key;
    backend.handle_event(key, AnalyzerEvent::Analyzed(fragment("perf_tests", path, vec![function])));
    backend.finish_job(key);

    // enabling the ownership display publishes the diagnostics
    let outcome = backend.handle_execute_command(
        CMD_TOGGLE_OWNERSHIP,
        parse_position_args(Some(path.to_string()), Some(line), Some(character)),
    );
    let position = match outcome {
        CommandOutcome::Publish { position, toggled: true, .. } => position,
        other => panic!("the ownership display was not enabled: {other:?}"),
    };
    let diagnostics = backend.ownership_diagnostics(path, &text, position);
    assert!(!diagnostics.is_empty(), "Should receive ownership diagnostics after enabling");

    let call_diagnostic = diagnostics.iter().find(|d| d.code == "rustowl:call");
    assert!(
        call_diagnostic.is_some(),
        "Should have a 'rustowl:call' diagnostic for SharedState::new(). Got diagnostics: \
         {diagnostics:?}"
    );
    let call_diag = call_diagnostic.unwrap();
    let message = &call_diag.message;
    assert!(
        message.contains("function call"),
        "Call diagnostic message should contain 'function call', got: {message}"
    );
    let severity = match call_diag.severity {
        rustowl::decoration::Severity::Error => 1,
        rustowl::decoration::Severity::Warning => 2,
        rustowl::decoration::Severity::Information => 3,
        rustowl::decoration::Severity::Hint => 4,
    };
    assert_eq!(
        severity, 3,
        "Call diagnostic severity should be INFORMATION (3), got: {severity}"
    );
    let start_line = call_diag.range.start.line;
    assert_eq!(start_line, 172, "Call diagnostic should be on line 172, got: {start_line}");
}

#[test]
fn a_round_without_targets_settles_at_once() {
    // nothing to analyse and no result: the round has ended in an error
    let mut backend = Backend::new();
    let plan = backend.analyze();
    assert!(plan.started.is_empty());
    assert!(plan.cancelled.is_empty());
    assert_eq!(backend.status(), AnalysisStatus::Error);
    backend.finish_job(1);
    assert_eq!(backend.status(), AnalysisStatus::Error);

    // nothing to analyse, but a result is there: the round has finished
    let mut backend = Backend::new();
    backend.merge_result(&fragment("a", "/a/lib.rs", vec![function(1, "x")]));
    assert_eq!(backend.status(), AnalysisStatus::Idle);
    let plan = backend.analyze_with_options(true, true);
    assert!(plan.started.is_empty());
    assert_eq!(backend.status(), AnalysisStatus::Finished);

    // with a target the round runs until its job ends
    backend.add_analyze_target(Some("/a".to_string()));
    let plan = backend.analyze();
    assert_eq!(plan.started.len(), 1);
    assert_eq!(backend.status(), AnalysisStatus::Analyzing);
}

#[test]
fn keys_are_not_given_out_twice() {
    let mut backend = Backend::new();
    backend.add_analyze_target(Some("/a".to_string()));
    backend.add_analyze_target(Some("/b".to_string()));
    let first = backend.analyze();
    let first_keys: Vec<usize> = first.started.iter().map(|j| j.key).collect();
    assert_eq!(first_keys, vec![1, 2]);

    let second = backend.analyze();
    let second_keys: Vec<usize> = second.started.iter().map(|j| j.key).collect();
    assert_eq!(second.cancelled, vec![1, 2]);
    assert_eq!(second_keys, vec![3, 4]);

    // a late call of a cancelled job meets no job
    backend.handle_event(1, AnalyzerEvent::Analyzed(fragment("a", "/a/lib.rs", vec![function(1, "x")])));
    assert!(!backend.is_analyzed());
    backend.finish_job(1);
    backend.finish_job(2);
    assert_eq!(backend.status(), AnalysisStatus::Analyzing);
    assert_eq!(backend.shutdown_subprocesses(), vec![3, 4]);

    // a change ends the jobs, and the next round goes on counting
    let third = backend.analyze();
    assert!(third.cancelled.is_empty());
    assert_eq!(backend.did_change(), vec![5, 6]);
    let fourth = backend.analyze();
    let fourth_keys: Vec<usize> = fourth.started.iter().map(|j| j.key).collect();
    assert_eq!(fourth_keys, vec![7, 8]);
    assert_eq!(third.started.len(), 2);
}
