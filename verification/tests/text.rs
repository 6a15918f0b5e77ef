//! Positions in text, strings, and the small decisions around them.

use rustowl::cli::{Check, Cli, CliAction, Commands};
use rustowl::compiler::{
    analysis_outcome, compiler_mode, worker_threads, AnalysisError, CompilerMode,
};
use rustowl::dedent::dedent;
use rustowl::lsp_client::{
    file_uri, frame_message, parse_content_length, title_is_ready, ReceivedDiagnostic,
};
use rustowl::lsp_workspace::{check_args, event_of, target_path, CargoCheckMessage, CargoCheckMessageTarget};
use rustowl::backend::AnalyzerEvent;
use rustowl::mir_cache::{cache_enabled, cache_file_name};
use rustowl::models::Loc;
use rustowl::shells::Shell;
use rustowl::strings::{contains, ends_with, is_space, str_eq, to_decimal};
use rustowl::test_framework::{ExpectedDeco, TestCase};
use rustowl::test_runner::{
    code_with_attrs, failure_report, resolve_cursor_position, verify_decorations,
    workspace_manifest, workspace_name, TestResult,
};
use rustowl::text_conversion::{index_to_line_char, line_char_to_index};
use rustowl::DecoKind;

#[test]
fn index_to_line_char_counts_lines_and_columns() {
    assert_eq!(index_to_line_char("ab\ncd", Loc(0)), (0, 0));
    assert_eq!(index_to_line_char("ab\ncd", Loc(1)), (0, 1));
    assert_eq!(index_to_line_char("ab\ncd", Loc(2)), (0, 2));
    assert_eq!(index_to_line_char("ab\ncd", Loc(3)), (1, 0));
    assert_eq!(index_to_line_char("ab\ncd", Loc(4)), (1, 1));
    // past the text
    assert_eq!(index_to_line_char("ab\ncd", Loc(5)), (0, 0));
    assert_eq!(index_to_line_char("", Loc(0)), (0, 0));
    // carriage returns do not count
    assert_eq!(index_to_line_char("ab\r\ncd", Loc(3)), (1, 0));
    assert_eq!(index_to_line_char("a\n\nb", Loc(3)), (2, 0));
}

#[test]
fn line_char_to_index_finds_the_offset() {
    assert_eq!(line_char_to_index("ab\ncd", 0, 0), 0);
    assert_eq!(line_char_to_index("ab\ncd", 0, 1), 1);
    assert_eq!(line_char_to_index("ab\ncd", 1, 0), 3);
    assert_eq!(line_char_to_index("ab\ncd", 1, 1), 4);
    assert_eq!(line_char_to_index("ab\r\ncd", 1, 1), 4);
    // the line feed counts as a character of the line that is looked for
    assert_eq!(line_char_to_index("ab\ncd", 0, 2), 2);
    assert_eq!(line_char_to_index("ab\ncd", 0, 4), 4);
    // past the text, or a line that the text does not have
    assert_eq!(line_char_to_index("ab\ncd", 1, 2), 0);
    assert_eq!(line_char_to_index("ab\ncd", 2, 0), 0);
    assert_eq!(line_char_to_index("ab\n", 1, 0), 0);
    assert_eq!(line_char_to_index("", 0, 0), 0);
}

#[test]
fn line_and_column_round_trip() {
    let text = "fn main() {\r\n    let x = 1;\n}\n";
    for index in 0..27u32 {
        let (line, column) = index_to_line_char(text, Loc(index));
        assert_eq!(line_char_to_index(text, line, column), index);
    }
}

#[test]
fn loc_new_counts_characters_not_bytes() {
    assert_eq!(Loc::new("héllo", 0, 0), Loc(0));
    assert_eq!(Loc::new("héllo", 1, 0), Loc(1));
    // a byte inside a character belongs to the next character
    assert_eq!(Loc::new("héllo", 2, 0), Loc(2));
    assert_eq!(Loc::new("héllo", 3, 0), Loc(2));
    assert_eq!(Loc::new("héllo", 6, 0), Loc(5));
    assert_eq!(Loc::new("héllo", 100, 0), Loc(5));
    // the file starts at byte `offset`
    assert_eq!(Loc::new("abc", 12, 10), Loc(2));
    assert_eq!(Loc::new("abc", 1, 5), Loc(0));
    // carriage returns do not count
    assert_eq!(Loc::new("a\r\nb", 2, 0), Loc(2));
    assert_eq!(Loc::new("", 3, 0), Loc(0));
}

#[test]
fn loc_arithmetic_saturates() {
    assert_eq!(Loc(10).add(-3), Loc(7));
    assert_eq!(Loc(10).add(-11), Loc(0));
    assert_eq!(Loc(10).sub(-5), Loc(15));
    assert_eq!(Loc(10).sub(i32::MIN), Loc(10 + (1u32 << 31)));
    assert_eq!(Loc(u32::MAX).add(1), Loc(u32::MAX));
    assert_eq!(Loc(u32::MAX - 1).add(i32::MAX), Loc(u32::MAX));
    assert_eq!(Loc(0).add(i32::MIN), Loc(0));
    assert_eq!(Loc(u32::MAX).sub(i32::MAX), Loc(u32::MAX - (i32::MAX as u32)));
}

#[test]
fn strings_compare_and_search() {
    assert!(str_eq("abc", "abc"));
    assert!(!str_eq("abc", "abd"));
    assert!(ends_with("rustowl:call", ":call"));
    assert!(!ends_with("rustowl:call", ":cal"));
    assert!(ends_with("x", ""));
    assert!(!ends_with("ll", "call"));
    assert!(contains("variable moved", "moved"));
    assert!(contains("variable moved", ""));
    assert!(!contains("variable moved", "borrow"));
    assert!(!contains("ab", "abc"));
    assert!(is_space(' ') && is_space('\t') && is_space('\u{3000}') && is_space('\u{a0}'));
    assert!(!is_space('a') && !is_space('\u{200b}'));
    assert_eq!(to_decimal(0), "0");
    assert_eq!(to_decimal(1234567890123), "1234567890123");
    assert_eq!(to_decimal(u64::MAX), "18446744073709551615");
}

#[test]
fn dedent_keeps_inner_structure() {
    assert_eq!(dedent("  a\r\n    b\r\n"), "a\n  b");
    assert_eq!(dedent("\n\n    x\n\n    y\n\n"), "x\n\ny");
    assert_eq!(dedent("\tfn f() {\n\t\tg();\n\t}"), "fn f() {\n\tg();\n}");
    assert_eq!(dedent("    a\n  \n    b"), "a\n\nb");
    assert_eq!(dedent("  a\n       \n  b"), "a\n     \nb");
    assert_eq!(dedent("x\n  y"), "x\n  y");
    assert_eq!(dedent("\n"), "");
}

#[test]
fn content_length_is_read_from_the_header() {
    assert_eq!(parse_content_length("Content-Length: 42\r\n"), 42);
    assert_eq!(parse_content_length("  Content-Length: 0  "), 0);
    assert_eq!(parse_content_length("Content-Length: +7"), 7);
    assert_eq!(parse_content_length("Content-Length: 007"), 7);
    assert_eq!(parse_content_length("Content-Length: abc"), 0);
    assert_eq!(parse_content_length("Content-Length: 4 2"), 0);
    assert_eq!(parse_content_length("Content-Length: -1"), 0);
    assert_eq!(parse_content_length("Content-Length: +"), 0);
    assert_eq!(parse_content_length("Content-Length:"), 0);
    assert_eq!(parse_content_length("content-length: 5"), 0);
    assert_eq!(parse_content_length("Content-Type: x"), 0);
    assert_eq!(parse_content_length(""), 0);
    assert_eq!(parse_content_length(&format!("Content-Length: {}", usize::MAX)), usize::MAX);
    assert_eq!(parse_content_length(&format!("Content-Length: {}0", usize::MAX)), 0);
    assert_eq!(parse_content_length("Content-Length: 99999999999999999999999999"), 0);
}

#[test]
fn file_uri_puts_the_scheme_in_front() {
    assert_eq!(file_uri("/tmp/a.rs"), "file:///tmp/a.rs");
    assert_eq!(file_uri(""), "file://");
}

#[test]
fn shells_are_known_by_their_executables() {
    assert_eq!(Shell::from_shell_path("/bin/bash"), Some(Shell::Bash));
    assert_eq!(Shell::from_shell_path("/usr/bin/zsh"), Some(Shell::Zsh));
    assert_eq!(Shell::from_shell_path("/opt/my_custom_shell"), None);
    assert_eq!(Shell::from_shell_path("fish"), Some(Shell::Fish));
    assert_eq!(Shell::from_shell_path("/usr/local/bin/elvish"), Some(Shell::Elvish));
    assert_eq!(Shell::from_shell_path("powershell.exe"), Some(Shell::Power));
    assert_eq!(Shell::from_shell_path("/x/powershell_ise.exe"), Some(Shell::Power));
    assert_eq!(Shell::from_shell_path("nushell"), Some(Shell::Nushell));
    assert_eq!(Shell::from_shell_path("/bin/"), None);
    assert_eq!(Shell::from_shell_path(""), None);
    assert_eq!(Shell::from_env(Some("/bin/zsh"), false), Some(Shell::Zsh));
    assert_eq!(Shell::from_env(None, false), None);
    assert_eq!(Shell::from_env(None, true), Some(Shell::Power));
    assert_eq!(Shell::from_env(Some("/bin/tcsh"), true), Some(Shell::Power));
}

#[test]
fn shells_have_names() {
    for shell in [Shell::Bash, Shell::Elvish, Shell::Fish, Shell::Power, Shell::Zsh, Shell::Nushell] {
        assert_eq!(Shell::from_str(&shell.to_string()), Ok(shell));
    }
    assert_eq!(Shell::Power.to_string(), "power");
    assert_eq!(Shell::from_str("tcsh"), Err("invalid variant: tcsh".to_string()));
    assert_eq!(Shell::from_str("Bash"), Err("invalid variant: Bash".to_string()));
}

#[test]
fn command_line_decides_what_to_do() {
    let check = Check { path: None, all_targets: false, all_features: true };
    let with_command = Cli { version: true, quiet: 0, command: Some(Commands::Check(check)) };
    assert_eq!(with_command.action(), CliAction::Execute);
    let version = Cli { version: true, quiet: 0, command: None };
    assert_eq!(version.action(), CliAction::PrintVersion { with_name: true });
    assert_eq!(version.version_text("1.2.3"), "RustOwl v1.2.3");
    let quiet = Cli { version: true, quiet: 2, command: None };
    assert_eq!(quiet.action(), CliAction::PrintVersion { with_name: false });
    assert_eq!(quiet.version_text("1.2.3"), "v1.2.3");
    let serve = Cli { version: false, quiet: 0, command: None };
    assert_eq!(serve.action(), CliAction::Serve);
    assert_eq!(Commands::check_exit_code(true), 0);
    assert_eq!(Commands::check_exit_code(false), 1);
}

#[test]
fn compiler_runs_in_the_mode_that_the_arguments_ask_for() {
    let args = |list: &[&str]| list.iter().map(|s| s.to_string()).collect::<Vec<String>>();
    assert_eq!(compiler_mode(&args(&["rustowl", "rustowl", "src/lib.rs"])), CompilerMode::Analyze);
    assert_eq!(compiler_mode(&args(&["rustowl", "rustowl", "--version"])), CompilerMode::Query);
    assert_eq!(compiler_mode(&args(&["rustowl", "rustowl", "-vV"])), CompilerMode::Query);
    assert_eq!(compiler_mode(&args(&["rustowl", "rustowl", "a", "--print=cfg"])), CompilerMode::Query);
    assert_eq!(compiler_mode(&args(&["rustowl", "rustc", "--version"])), CompilerMode::Plain);
    assert_eq!(compiler_mode(&args(&["rustowl"])), CompilerMode::Plain);
    assert_eq!(compiler_mode(&args(&["--print", "--print"])), CompilerMode::Query);
    assert_eq!(compiler_mode(&args(&[])), CompilerMode::Analyze);
    assert_eq!(analysis_outcome(Some(0)), Ok(0));
    assert_eq!(analysis_outcome(Some(101)), Err(AnalysisError::CompilationFailed(101)));
    assert_eq!(analysis_outcome(None), Err(AnalysisError::RustcPanic));
    assert_eq!(AnalysisError::RustcPanic.to_string(), "Rustc panicked during analysis");
    assert_eq!(
        AnalysisError::CompilationFailed(-1).to_string(),
        "Compilation failed with exit code -1"
    );
    assert_eq!(
        AnalysisError::CompilationFailed(i32::MIN).to_string(),
        "Compilation failed with exit code -2147483648"
    );
    assert_eq!(worker_threads(None), 4);
    assert_eq!(worker_threads(Some(1)), 2);
    assert_eq!(worker_threads(Some(12)), 6);
    assert_eq!(worker_threads(Some(64)), 8);
}

#[test]
fn build_messages_become_events() {
    assert_eq!(
        check_args(false, false),
        vec!["check", "--workspace", "--keep-going", "--message-format=json"]
    );
    assert_eq!(
        check_args(true, true),
        vec![
            "check",
            "--workspace",
            "--all-targets",
            "--all-features",
            "--keep-going",
            "--message-format=json"
        ]
    );
    let artifact = CargoCheckMessage::CompilerArtifact {
        target: CargoCheckMessageTarget { name: "demo".to_string() },
    };
    match event_of(artifact, 3) {
        Some(AnalyzerEvent::CrateChecked { package, package_count }) => {
            assert_eq!(package, "demo");
            assert_eq!(package_count, 3);
        }
        other => panic!("no crate was checked: {other:?}"),
    }
    assert!(event_of(CargoCheckMessage::BuildFinished {}, 3).is_none());
    assert_eq!(target_path(Some("/ws".to_string()), "/ws/a.rs".to_string(), true), Some("/ws".to_string()));
    assert_eq!(target_path(None, "/x/a.rs".to_string(), true), Some("/x/a.rs".to_string()));
    assert_eq!(target_path(None, "/x/a.txt".to_string(), false), None);
    assert!(cache_enabled(None));
    assert!(cache_enabled(Some("true")));
    assert!(cache_enabled(Some("")));
    assert!(!cache_enabled(Some("false")));
    assert!(!cache_enabled(Some("0")));
    assert_eq!(cache_file_name("demo"), "demo.json");
}

#[test]
fn cursor_is_resolved_from_position_or_text() {
    let code = "fn test() {\n    let s = String::new();\n    drop(s);\n}";
    let at = TestCase::new("at", code).cursor_at(2, 9).cursor_on("drop");
    assert_eq!(resolve_cursor_position(&at), (2, 9));
    let on = TestCase::new("on", code).cursor_on("s = String");
    assert_eq!(resolve_cursor_position(&on), (1, 8));
    let second_line = TestCase::new("second", code).cursor_on("drop");
    assert_eq!(resolve_cursor_position(&second_line), (2, 4));
    let missing = TestCase::new("missing", code).cursor_on("nowhere");
    assert_eq!(resolve_cursor_position(&missing), (0, 0));
    let none = TestCase::new("none", code);
    assert_eq!(resolve_cursor_position(&none), (0, 0));
    // the column counts bytes
    let wide = TestCase::new("wide", "let é = x;").cursor_on("= x");
    assert_eq!(resolve_cursor_position(&wide), (0, 7));
    // a text that spans two lines is not found
    let split = TestCase::new("split", "ab\ncd").cursor_on("b\nc");
    assert_eq!(resolve_cursor_position(&split), (0, 0));
    assert_eq!(code_with_attrs(&none), format!("#![allow(dead_code)]\n{code}"));
}

fn received(code: &str, line: u32, message: &str) -> ReceivedDiagnostic {
    ReceivedDiagnostic::from_lsp(Some(code), Some(line), Some(message)).unwrap()
}

#[test]
fn received_diagnostics_match_expectations() {
    let diagnostic = received("rustowl:mut-borrow", 3, "mutable borrow");
    assert!(diagnostic.matches(&ExpectedDeco::mut_borrow()));
    assert!(diagnostic.matches(&ExpectedDeco::mut_borrow().on_line(3)));
    assert!(!diagnostic.matches(&ExpectedDeco::mut_borrow().on_line(4)));
    assert!(diagnostic.matches(&ExpectedDeco::mut_borrow().at_text("mutable")));
    assert!(!diagnostic.matches(&ExpectedDeco::mut_borrow().at_text("moved")));
    assert!(diagnostic.matches(&ExpectedDeco::mut_borrow().with_message("borrow")));
    assert!(!diagnostic.matches(&ExpectedDeco::mut_borrow().at_text("mutable").with_message("x")));
    assert!(!diagnostic.matches(&ExpectedDeco::imm_borrow()));
    assert!(!diagnostic.matches(&ExpectedDeco::new(DecoKind::Move)));
    // the code must end with a colon and the kind
    assert!(!received("rustowl:immut-borrow", 0, "").matches(&ExpectedDeco::mut_borrow()));
    assert!(received("other:mut-borrow", 0, "").matches(&ExpectedDeco::mut_borrow()));
    assert!(ReceivedDiagnostic::from_lsp(None, Some(1), Some("m")).is_none());
    assert!(ReceivedDiagnostic::from_lsp(Some("c"), None, Some("m")).is_none());
    assert_eq!(ReceivedDiagnostic::from_lsp(Some("c"), Some(1), None).unwrap().message, "");
}

#[test]
fn verification_reports_what_is_missing_and_forbidden() {
    let test = TestCase::new("report", "fn f() {}")
        .expect_move()
        .expect_move()
        .expect(ExpectedDeco::call().on_line(4).at_text("call").with_message("fn"))
        .forbid_imm_borrow()
        .forbid_outlive();
    let shown = vec![
        received("rustowl:imm-borrow", 3, "immutable borrow"),
        received("rustowl:move", 2, "variable moved"),
        received("rustowl:call", 1, "function call"),
        received("rustowl:imm-borrow", 0, "immutable borrow"),
    ];
    let (passed, message) = verify_decorations(&test, &shown);
    assert!(!passed);
    assert_eq!(
        message,
        "Missing:\n\
         Expected move not found.\n\
         Expected call at line 4 with text 'call' with message 'fn' not found.\n\
         Forbidden:\n\
         Forbidden imm-borrow found at line 2 'immutable borrow'\n\
         Forbidden imm-borrow found at line 0 'immutable borrow'\n\
         Received:\n  \
         rustowl:imm-borrow at line 2 'immutable borrow'\n  \
         rustowl:call at line 0 'function call'\n  \
         rustowl:imm-borrow at line 0 'immutable borrow'"
    );
    let result = test.run(&shown);
    assert!(!result.passed);
    assert_eq!(result.name, "report");
    assert_eq!(result.error, Some(message));

    let fine = TestCase::new("fine", "fn f() {}").expect_move().expect_call().forbid_outlive();
    let (passed, message) = verify_decorations(&fine, &shown);
    assert!(passed);
    assert_eq!(message, "All decorations match");
    assert_eq!(fine.run(&shown).error, None);

    // only what is forbidden
    let strict = TestCase::new("strict", "fn f() {}").forbid_move();
    let (passed, message) = verify_decorations(&strict, &shown[1..2].to_vec());
    assert!(!passed);
    assert_eq!(
        message,
        "Forbidden:\nForbidden move found at line 1 'variable moved'\nReceived:\n  rustowl:move at line 1 'variable moved'"
    );
}

#[test]
fn each_expectation_takes_one_diagnostic() {
    let twice = TestCase::new("twice", "fn f() {}").expect_move().expect_move();
    let one = vec![received("rustowl:move", 1, "variable moved")];
    let (passed, message) = verify_decorations(&twice, &one);
    assert!(!passed);
    assert_eq!(message, "Missing:\nExpected move not found.");
    let two = vec![one[0].clone(), one[0].clone()];
    assert!(verify_decorations(&twice, &two).0);
    // lines are counted from the line that is put before the code
    let lined = TestCase::new("lined", "fn f() {}").expect(ExpectedDeco::move_deco().on_line(0));
    assert!(verify_decorations(&lined, &one).0);
    assert!(verify_decorations(&lined, &vec![received("rustowl:move", 0, "")]).0);
    assert!(!verify_decorations(&lined, &vec![received("rustowl:move", 2, "")]).0);
}

#[test]
fn builders_record_what_is_expected() {
    let test = TestCase::new("all", "  fn f() {}\n")
        .cursor_at(1, 2)
        .expect_move_at("a")
        .expect_imm_borrow_at("b")
        .expect_mut_borrow_at("c")
        .expect_call_at("d")
        .expect_lifetime()
        .expect_lifetime_at("e")
        .expect_shared_mut()
        .expect_outlive()
        .expect(ExpectedDeco::shared_mut().on_line(3))
        .expect(ExpectedDeco::lifetime().with_message("m"))
        .forbid_mut_borrow()
        .forbid(DecoKind::Call);
    assert_eq!(test.name, "all");
    assert_eq!(test.code, "fn f() {}");
    assert_eq!((test.cursor_text.clone(), test.cursor_line, test.cursor_char), (None, Some(1), Some(2)));
    let expected: Vec<(DecoKind, Option<&str>, Option<u32>, Option<&str>)> = test
        .expected_decos
        .iter()
        .map(|e| (e.kind, e.text_match.as_deref(), e.line, e.message_contains.as_deref()))
        .collect();
    assert_eq!(
        expected,
        vec![
            (DecoKind::Move, Some("a"), None, None),
            (DecoKind::ImmBorrow, Some("b"), None, None),
            (DecoKind::MutBorrow, Some("c"), None, None),
            (DecoKind::Call, Some("d"), None, None),
            (DecoKind::Lifetime, None, None, None),
            (DecoKind::Lifetime, Some("e"), None, None),
            (DecoKind::SharedMut, None, None, None),
            (DecoKind::Outlive, None, None, None),
            (DecoKind::SharedMut, None, Some(3), None),
            (DecoKind::Lifetime, None, None, Some("m")),
        ]
    );
    assert_eq!(test.forbidden_decos, vec![DecoKind::MutBorrow, DecoKind::Call]);
    let kinds = [
        (DecoKind::Lifetime, "lifetime"),
        (DecoKind::ImmBorrow, "imm-borrow"),
        (DecoKind::MutBorrow, "mut-borrow"),
        (DecoKind::Move, "move"),
        (DecoKind::Call, "call"),
        (DecoKind::SharedMut, "shared-mut"),
        (DecoKind::Outlive, "outlive"),
    ];
    for (kind, code) in kinds {
        assert_eq!(kind.as_code(), code);
        assert_eq!(kind.to_string(), code);
    }
}

#[test]
fn messages_are_framed_with_their_length_in_bytes() {
    assert_eq!(frame_message("{}"), "Content-Length: 2\r\n\r\n{}");
    assert_eq!(frame_message(""), "Content-Length: 0\r\n\r\n");
    assert_eq!(frame_message("héllo wörld"), "Content-Length: 13\r\n\r\nhéllo wörld");
    let framed = frame_message("{\"id\":1}");
    let header = framed.lines().next().unwrap();
    assert_eq!(parse_content_length(header), 8);
}

#[test]
fn the_action_title_says_when_the_analysis_has_ended() {
    assert!(title_is_ready("RustOwl: Show ownership"));
    assert!(title_is_ready("RustOwl: Hide ownership"));
    assert!(!title_is_ready("RustOwl: Show ownership (analyzing...)"));
    assert!(!title_is_ready("RustOwl: Show ownership (waiting for analysis)"));
    assert!(!title_is_ready("Show ownership"));
    assert!(!title_is_ready(""));
}

#[test]
fn failures_are_reported_with_their_details() {
    let result = |name: &str, passed: bool, error: Option<&str>| TestResult {
        name: name.to_string(),
        passed,
        error: error.map(str::to_string),
    };
    assert_eq!(failure_report(&Vec::new()), None);
    assert_eq!(failure_report(&vec![result("a", true, None), result("b", true, Some("x"))]), None);
    let results = vec![
        result("a", false, Some("Missing:\nExpected move not found.")),
        result("b", true, None),
        result("c", false, None),
    ];
    assert_eq!(
        failure_report(&results),
        Some(
            "2 test(s) failed:\n\n--- a ---\nMissing:\nExpected move not found.\n\n--- c ---\n\n"
                .to_string()
        )
    );
}

#[test]
fn test_workspaces_have_a_name_and_a_manifest() {
    assert_eq!(workspace_name("combined", 4242, 0), "combined_4242_0");
    assert_eq!(workspace_name("", u32::MAX, 17), "_4294967295_17");
    assert_eq!(
        workspace_manifest("demo"),
        "[package]\nname = \"demo\"\nversion = \"0.1.0\"\nedition = \"2021\"\n"
    );
}
