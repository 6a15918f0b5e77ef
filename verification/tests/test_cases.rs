//! Test cases end to end: a snippet of code, the model of its functions as
//! the front end gives it, a cursor, and the diagnostics shown for it.

use rustowl::backend::{AnalysisStatus, AnalyzerEvent, Backend};
use rustowl::decoration::{Deco, DecoKind, Position};
use rustowl::dedent::dedent;
use rustowl::lsp_client::ReceivedDiagnostic;
use rustowl::models::{
    Crate, File, FnLocal, Function, Loc, MirBasicBlock, MirDecl, MirRval, MirStatement,
    MirTerminator, Range, Workspace,
};
use rustowl::test_framework::{ExpectedDeco, TestCase};
use rustowl::test_runner::{code_with_attrs, resolve_cursor_position};

const PATH: &str = "/workspace/src/test_source.rs";

/// The range of the occurrence number `nth` of `needle` in `text`, in
/// characters.
fn span(text: &str, needle: &str, nth: usize) -> Range {
    let mut from = 0;
    let mut at = 0;
    for _ in 0..=nth {
        at = text[from..].find(needle).expect("the text holds the needle") + from;
        from = at + 1;
    }
    let start = text[..at].chars().count() as u32;
    let len = needle.chars().count() as u32;
    Range::new(Loc(start), Loc(start + len)).unwrap()
}

/// The range of the first character of the first occurrence of `needle`.
fn first(text: &str, needle: &str) -> Range {
    let whole = span(text, needle, 0);
    Range::new(whole.from(), whole.from().add(1)).unwrap()
}

/// The range of the first `part` inside the first occurrence of `outer`.
fn inner(text: &str, outer: &str, part: &str) -> Range {
    let offset = outer.find(part).expect("the outer text holds the part");
    part_at(text, outer, part, offset)
}

/// The range of the last `part` inside the first occurrence of `outer`.
fn inner_last(text: &str, outer: &str, part: &str) -> Range {
    let offset = outer.rfind(part).expect("the outer text holds the part");
    part_at(text, outer, part, offset)
}

fn part_at(text: &str, outer: &str, part: &str, offset: usize) -> Range {
    let whole = span(text, outer, 0);
    let start = whole.from().0 + outer[..offset].chars().count() as u32;
    Range::new(Loc(start), Loc(start + part.chars().count() as u32)).unwrap()
}

fn user_in(fn_id: u32, id: u32, name: &str, site: Range, live: Range) -> MirDecl {
    MirDecl::User {
        local: FnLocal::new(id, fn_id),
        name: name.to_string(),
        span: site,
        ty: "std::string::String".to_string(),
        lives: vec![live],
        shared_borrow: Vec::new(),
        mutable_borrow: Vec::new(),
        drop: false,
        drop_range: Vec::new(),
        must_live_at: Vec::new(),
    }
}

fn user(id: u32, name: &str, site: Range, live: Range) -> MirDecl {
    user_in(7, id, name, site, live)
}

fn block(statements: Vec<MirStatement>, terminator: Option<MirTerminator>) -> MirBasicBlock {
    MirBasicBlock { statements, terminator }
}

fn assign(fn_id: u32, range: Range, rval: MirRval) -> MirStatement {
    MirStatement::Assign { target_local: FnLocal::new(90, fn_id), range, rval: Some(rval) }
}

fn moved(id: u32, range: Range) -> MirStatement {
    assign(7, range, MirRval::Move { target_local: FnLocal::new(id, 7), range })
}

fn shared_in(fn_id: u32, id: u32, range: Range) -> MirStatement {
    assign(
        fn_id,
        range,
        MirRval::Borrow { target_local: FnLocal::new(id, fn_id), range, mutable: false, outlive: None },
    )
}

fn shared(id: u32, range: Range) -> MirStatement {
    shared_in(7, id, range)
}

fn exclusive(id: u32, range: Range) -> MirStatement {
    assign(
        7,
        range,
        MirRval::Borrow { target_local: FnLocal::new(id, 7), range, mutable: true, outlive: None },
    )
}

fn call_in(fn_id: u32, id: u32, fn_span: Range) -> MirTerminator {
    MirTerminator::Call { destination_local: FnLocal::new(id, fn_id), fn_span }
}

fn call(id: u32, fn_span: Range) -> MirTerminator {
    call_in(7, id, fn_span)
}

/// The model of a function with one user variable, declared at the first
/// character of `site`: a call that assigns to it, if there is one, and
/// the statements that use it.
fn single(
    text: &str,
    name: &str,
    site: &str,
    uses: Vec<MirStatement>,
    bound_by: Option<MirTerminator>,
) -> Vec<Function> {
    let start = first(text, site).from();
    let end = Loc(text.chars().count() as u32);
    vec![Function {
        fn_id: 7,
        basic_blocks: vec![block(Vec::new(), bound_by), block(uses, None)],
        decls: vec![user(1, name, first(text, site), Range::new(start, end).unwrap())],
    }]
}

/// The model of a function that binds a variable to the result of a call
/// and moves it into another call at once.
fn call_then_move(text: &str, name: &str, site: &str, made_by: &str, taken_by: &str) -> Vec<Function> {
    single(
        text,
        name,
        site,
        vec![moved(1, inner(text, taken_by, name))],
        Some(call(1, span(text, made_by, 0))),
    )
}

/// The decorations that the orchestrator gives for the cursor of the test
/// once the functions were analysed.
fn decorations(test: &TestCase, model: impl Fn(&str) -> Vec<Function>) -> Vec<Deco> {
    let text = code_with_attrs(test);
    let backend = analysed(&text, model(&text));
    let (line, character) = resolve_cursor_position(test);
    let index = rustowl::text_conversion::line_char_to_index(&text, line + 1, character);
    backend.decos(PATH, Loc(index)).unwrap_or_default()
}

/// An orchestrator that has finished the analysis of the functions.
fn analysed(_text: &str, functions: Vec<Function>) -> Backend {
    let mut krate = Crate::new();
    krate.insert(PATH.to_string(), File { items: functions });
    let mut fragment = Workspace::new();
    fragment.insert("test_source".to_string(), krate);
    let mut backend = Backend::new();
    assert!(backend.add_analyze_target(Some("/workspace".to_string())));
    let plan = backend.analyze();
    assert_eq!(plan.started.len(), 1);
    let key = plan.started[0].key;
    assert!(backend.handle_event(key, AnalyzerEvent::Analyzed(fragment)).is_none());
    backend.finish_job(key);
    assert_eq!(backend.status(), AnalysisStatus::Finished);
    backend
}

/// The diagnostics that a client receives for the cursor of the test.
fn show(test: &TestCase, model: impl Fn(&str) -> Vec<Function>) -> Vec<ReceivedDiagnostic> {
    let text = code_with_attrs(test);
    let backend = analysed(&text, model(&text));
    let (line, character) = resolve_cursor_position(test);
    let position = Position { line: line + 1, character };
    backend
        .ownership_diagnostics(PATH, &text, position)
        .iter()
        .map(|d| {
            ReceivedDiagnostic::from_lsp(
                Some(d.code.as_str()),
                Some(d.range.start.line),
                Some(d.message.as_str()),
            )
            .unwrap()
        })
        .collect()
}

fn count(decos: &[Deco], kind: DecoKind) -> usize {
    decos.iter().filter(|d| d.kind() == kind).count()
}

#[test]
fn test_dedent_basic() {
    let code = r#"
        fn test() {
            let x = 1;
        }
    "#;
    let result = dedent(code);
    assert_eq!(result, "fn test() {\n    let x = 1;\n}");
}

#[test]
fn test_dedent_empty() {
    assert_eq!(dedent(""), "");
    assert_eq!(dedent("   \n   \n"), "");
}

#[test]
fn test_dedent_no_indent() {
    let code = "fn test() {}";
    assert_eq!(dedent(code), "fn test() {}");
}

#[test]
fn combined_call_and_move() {
    let test = TestCase::new("combined_call_and_move", r#"
        fn test() {
            let s = String::new();
            drop(s);
        }
    "#)
    .cursor_on("s = String")
    .expect_call()
    .expect_move();
    let received = show(&test, |text| {
        call_then_move(text, "s", "s = String", "String::new()", "drop(s)")
    });
    let result = test.run(&received);
    assert!(result.passed, "{}", result.error.unwrap_or_default());
}

#[test]
fn combined_call_and_borrow() {
    let test = TestCase::new("combined_call_and_borrow", r#"
        fn test() {
            let s = String::from("hello");
            println!("{}", s);
        }
    "#)
    .cursor_on("s = String")
    .expect_call()
    .expect_imm_borrow();
    let received = show(&test, |text| {
        single(
            text,
            "s",
            "s = String",
            vec![shared(1, inner_last(text, "println!(\"{}\", s)", "s"))],
            Some(call(1, span(text, "String::from(\"hello\")", 0))),
        )
    });
    let result = test.run(&received);
    assert!(result.passed, "{}", result.error.unwrap_or_default());
}

#[test]
fn combined_call_and_mut_borrow() {
    let test = TestCase::new("combined_call_and_mut_borrow", r#"
        fn test() {
            let mut v = Vec::new();
            v.push(1);
        }
    "#)
    .cursor_on("v = Vec")
    .expect_call()
    .expect_mut_borrow();
    let received = show(&test, |text| {
        single(
            text,
            "v",
            "v = Vec",
            vec![exclusive(1, inner(text, "v.push(1)", "v"))],
            Some(call(1, span(text, "Vec::new()", 0))),
        )
    });
    let result = test.run(&received);
    assert!(result.passed, "{}", result.error.unwrap_or_default());
}

#[test]
fn combined_multiple_borrows() {
    let test = TestCase::new("combined_multiple_borrows", r#"
        fn test() {
            let s = String::from("hello");
            let _len = s.len();
            let _chars = s.chars().count();
            println!("{}", s);
        }
    "#)
    .cursor_on("s = String")
    .expect_imm_borrow();
    let received = show(&test, |text| {
        single(
            text,
            "s",
            "s = String",
            vec![
                shared(1, inner(text, "s.len()", "s")),
                shared(1, inner(text, "s.chars()", "s")),
                shared(1, inner_last(text, "println!(\"{}\", s)", "s")),
            ],
            Some(call(1, span(text, "String::from(\"hello\")", 0))),
        )
    });
    let result = test.run(&received);
    assert!(result.passed, "{}", result.error.unwrap_or_default());
}

#[test]
fn combined_borrow_then_move() {
    let test = TestCase::new("combined_borrow_then_move", r#"
        fn test() {
            let s = String::from("hello");
            let _len = s.len();
            drop(s);
        }
    "#)
    .cursor_on("s = String")
    .expect_imm_borrow()
    .expect_move();
    let received = show(&test, |text| {
        single(
            text,
            "s",
            "s = String",
            vec![shared(1, inner(text, "s.len()", "s")), moved(1, inner(text, "drop(s)", "s"))],
            Some(call(1, span(text, "String::from(\"hello\")", 0))),
        )
    });
    let result = test.run(&received);
    assert!(result.passed, "{}", result.error.unwrap_or_default());
}

#[test]
fn combined_mut_borrow_then_move() {
    let test = TestCase::new("combined_mut_borrow_then_move", r#"
        fn test() {
            let mut v = vec![1, 2, 3];
            v.push(4);
            drop(v);
        }
    "#)
    .cursor_on("v = vec!")
    .expect_mut_borrow()
    .expect_move();
    let received = show(&test, |text| {
        single(
            text,
            "v",
            "v = vec!",
            vec![exclusive(1, inner(text, "v.push(4)", "v")), moved(1, inner(text, "drop(v)", "v"))],
            None,
        )
    });
    let result = test.run(&received);
    assert!(result.passed, "{}", result.error.unwrap_or_default());
}

#[test]
fn combined_with_text_match() {
    let test = TestCase::new("combined_with_text_match", r#"
        fn test() {
            let s = String::new();
            drop(s);
        }
    "#)
    .cursor_on("s = String")
    .expect(ExpectedDeco::new(DecoKind::Move).with_message("moved"));
    let received = show(&test, |text| {
        call_then_move(text, "s", "s = String", "String::new()", "drop(s)")
    });
    let result = test.run(&received);
    assert!(result.passed, "{}", result.error.unwrap_or_default());
}

#[test]
fn combined_forbid_and_expect() {
    let test = TestCase::new("combined_forbid_and_expect", r#"
        fn test() {
            let s = String::from("hello");
            let _len = s.len();
        }
    "#)
    .cursor_on("s = String")
    .expect_imm_borrow()
    .forbid_move();
    let received = show(&test, |text| {
        single(
            text,
            "s",
            "s = String",
            vec![shared(1, inner(text, "s.len()", "s"))],
            Some(call(1, span(text, "String::from(\"hello\")", 0))),
        )
    });
    let result = test.run(&received);
    assert!(result.passed, "{}", result.error.unwrap_or_default());
}

#[test]
fn combined_multiple_variables() {
    let test = TestCase::new("combined_multiple_variables", r#"
        fn test() {
            let a = String::new();
            let b = String::new();
            drop(a);
            drop(b);
        }
    "#)
    .cursor_on("a = String")
    .expect_move();
    let received = show(&test, |text| {
        vec![Function {
            fn_id: 7,
            basic_blocks: vec![
                block(vec![], Some(call(1, span(text, "String::new()", 0)))),
                block(vec![], Some(call(2, span(text, "String::new()", 1)))),
                block(vec![moved(1, inner(text, "drop(a)", "a"))], None),
                block(vec![moved(2, inner(text, "drop(b)", "b"))], None),
            ],
            decls: vec![
                user(1, "a", first(text, "a = String"), span(text, "a = String::new();\n    let b = String::new();\n    drop(a)", 0)),
                user(2, "b", first(text, "b = String"), span(text, "b = String::new();\n    drop(a);\n    drop(b)", 0)),
            ],
        }]
    });
    let result = test.run(&received);
    assert!(result.passed, "{}", result.error.unwrap_or_default());
}

#[test]
fn combined_nested_function_calls() {
    let test = TestCase::new("combined_nested_function_calls", r#"
        fn process(s: String) -> String {
            s.to_uppercase()
        }

        fn test() {
            let s = String::from("hello");
            let _result = process(s);
        }
    "#)
    .cursor_on("s = String")
    .expect_call()
    .expect_move();
    let received = show(&test, |text| {
        vec![
            Function {
                fn_id: 3,
                basic_blocks: vec![block(
                    vec![shared_in(3, 1, inner(text, "s.to_uppercase()", "s"))],
                    Some(call_in(3, 0, span(text, "s.to_uppercase()", 0))),
                )],
                decls: vec![user_in(3, 1, "s", first(text, "s: String"), span(text, "s: String) -> String {\n    s.to_uppercase()", 0))],
            },
            Function {
                fn_id: 7,
                basic_blocks: vec![
                    block(vec![], Some(call(1, span(text, "String::from(\"hello\")", 0)))),
                    block(
                        vec![moved(1, inner_last(text, "process(s)", "s"))],
                        Some(call(2, span(text, "process(s)", 0))),
                    ),
                ],
                decls: vec![
                    user(1, "s", first(text, "s = String"), span(text, "s = String::from(\"hello\");\n    let _result = process(s)", 0)),
                    user(2, "_result", span(text, "_result", 0), span(text, "_result = process(s);", 0)),
                ],
            },
        ]
    });
    let result = test.run(&received);
    assert!(result.passed, "{}", result.error.unwrap_or_default());
}

#[test]
fn combined_struct_with_methods() {
    let test = TestCase::new("combined_struct_with_methods", r#"
        struct Counter {
            count: i32,
        }

        impl Counter {
            fn new() -> Self {
                Counter { count: 0 }
            }

            fn increment(&mut self) {
                self.count += 1;
            }

            fn get(&self) -> i32 {
                self.count
            }
        }

        fn test() {
            let mut c = Counter::new();
            c.increment();
            let _val = c.get();
        }
    "#)
    .cursor_on("c = Counter")
    .expect_call()
    .expect_mut_borrow()
    .expect_imm_borrow();
    let received = show(&test, |text| {
        single(
            text,
            "c",
            "c = Counter",
            vec![
                exclusive(1, inner(text, "c.increment()", "c")),
                shared(1, inner(text, "c.get()", "c")),
            ],
            Some(call(1, span(text, "Counter::new()", 0))),
        )
    });
    let result = test.run(&received);
    assert!(result.passed, "{}", result.error.unwrap_or_default());
}

#[test]
fn combined_option_methods() {
    // Some(...) is an enum variant constructor, not a function call
    // The methods is_some() and as_ref() create immutable borrows
    let test = TestCase::new("combined_option_methods", r#"
        fn test() {
            let opt = Some(String::from("hello"));
            let _is_some = opt.is_some();
            let _ref = opt.as_ref();
        }
    "#)
    .cursor_on("opt = Some")
    .expect_imm_borrow();
    let received = show(&test, |text| {
        single(
            text,
            "opt",
            "opt = Some",
            vec![
                shared(1, inner(text, "opt.is_some()", "opt")),
                shared(1, inner(text, "opt.as_ref()", "opt")),
            ],
            None,
        )
    });
    let result = test.run(&received);
    assert!(result.passed, "{}", result.error.unwrap_or_default());
}

#[test]
fn selector_prefers_the_declaration_site() {
    // a declaration on [0,10) and a narrower move on [2,4), cursor at 3
    let declared = FnLocal::new(1, 7);
    let other = FnLocal::new(2, 7);
    let function = Function {
        fn_id: 7,
        basic_blocks: vec![block(
            vec![MirStatement::Assign {
                target_local: FnLocal::new(3, 7),
                range: Range::new(Loc(2), Loc(4)).unwrap(),
                rval: Some(MirRval::Move {
                    target_local: other,
                    range: Range::new(Loc(2), Loc(4)).unwrap(),
                }),
            }],
            None,
        )],
        decls: vec![
            user(1, "x", Range::new(Loc(0), Loc(10)).unwrap(), Range::new(Loc(0), Loc(10)).unwrap()),
            MirDecl::Other {
                local: other,
                ty: "i32".to_string(),
                lives: Vec::new(),
                shared_borrow: Vec::new(),
                mutable_borrow: Vec::new(),
                drop: false,
                drop_range: Vec::new(),
                must_live_at: Vec::new(),
            },
        ],
    };
    let mut selected = rustowl::SelectLocal::new(Loc(3));
    rustowl::visitor::mir_visit(&function, &mut selected);
    assert_eq!(selected.selected(), Some(declared));

    // without a declaration site under the cursor, the move is chosen
    let mut elsewhere = rustowl::SelectLocal::new(Loc(3));
    let mut moved_only = function.clone();
    moved_only.decls.remove(0);
    rustowl::visitor::mir_visit(&moved_only, &mut elsewhere);
    assert_eq!(elsewhere.selected(), Some(other));
}

#[test]
fn selector_skips_async_plumbing_and_keeps_outer_calls() {
    let local = FnLocal::new(1, 7);
    let decl = |ty: &str| MirDecl::Other {
        local,
        ty: ty.to_string(),
        lives: Vec::new(),
        shared_borrow: Vec::new(),
        mutable_borrow: Vec::new(),
        drop: false,
        drop_range: Vec::new(),
        must_live_at: Vec::new(),
    };
    let calls = vec![
        block(Vec::new(), Some(call(1, Range::new(Loc(4), Loc(8)).unwrap()))),
        block(Vec::new(), Some(call(1, Range::new(Loc(2), Loc(12)).unwrap()))),
        block(Vec::new(), Some(call(1, Range::new(Loc(5), Loc(7)).unwrap()))),
    ];
    let plumbing = Function {
        fn_id: 7,
        basic_blocks: calls.clone(),
        decls: vec![decl("std::future::ResumeTy")],
    };
    let mut skipped = rustowl::SelectLocal::new(Loc(6));
    rustowl::visitor::mir_visit(&plumbing, &mut skipped);
    assert_eq!(skipped.selected(), None);

    let plain = Function { fn_id: 7, basic_blocks: calls, decls: vec![decl("i32")] };
    let mut chosen = rustowl::SelectLocal::new(Loc(6));
    rustowl::visitor::mir_visit(&plain, &mut chosen);
    assert_eq!(chosen.selected(), Some(local));

    // a cursor outside every range selects nothing, and nothing is shown
    let mut outside = rustowl::SelectLocal::new(Loc(40));
    rustowl::visitor::mir_visit(&plain, &mut outside);
    assert_eq!(outside.selected(), None);
}

#[test]
fn scenario_constructed_then_dropped() {
    let test = TestCase::new("constructed_then_dropped", r#"
        fn test() {
            let s = String::new();
            drop(s);
        }
    "#)
    .cursor_on("s = String");
    let decos = decorations(&test, |text| {
        call_then_move(text, "s", "s = String", "String::new()", "drop(s)")
    });
    assert_eq!(count(&decos, DecoKind::Call), 1);
    assert_eq!(count(&decos, DecoKind::Move), 1);
    assert_eq!(count(&decos, DecoKind::ImmBorrow), 0);
    assert_eq!(count(&decos, DecoKind::MutBorrow), 0);
}

#[test]
fn scenario_read_twice() {
    let test = TestCase::new("read_twice", r#"
        fn test() {
            let s = String::from("hello");
            let _len = s.len();
            let _empty = s.is_empty();
        }
    "#)
    .cursor_on("s = String");
    let text = code_with_attrs(&test);
    let reads = vec![inner(&text, "s.len()", "s"), inner(&text, "s.is_empty()", "s")];
    let decos = decorations(&test, |text| {
        single(
            text,
            "s",
            "s = String",
            vec![
                shared(1, inner(text, "s.len()", "s")),
                shared(1, inner(text, "s.is_empty()", "s")),
            ],
            Some(call(1, span(text, "String::from(\"hello\")", 0))),
        )
    });
    let borrows: Vec<Range> = decos
        .iter()
        .filter(|d| d.kind() == DecoKind::ImmBorrow)
        .map(|d| d.range())
        .collect();
    assert_eq!(borrows, reads);
    assert_eq!(count(&decos, DecoKind::Move), 0);
    assert_eq!(count(&decos, DecoKind::SharedMut), 0);
}

#[test]
fn scenario_shared_and_mutable_borrow_overlap() {
    let local = FnLocal::new(1, 7);
    let function = Function {
        fn_id: 7,
        basic_blocks: Vec::new(),
        decls: vec![MirDecl::User {
            local,
            name: "v".to_string(),
            span: Range::new(Loc(4), Loc(5)).unwrap(),
            ty: "Vec<i32>".to_string(),
            lives: vec![Range::new(Loc(4), Loc(60)).unwrap()],
            shared_borrow: vec![Range::new(Loc(10), Loc(30)).unwrap()],
            mutable_borrow: vec![Range::new(Loc(20), Loc(40)).unwrap()],
            drop: false,
            drop_range: Vec::new(),
            must_live_at: Vec::new(),
        }],
    };
    let mut calc = rustowl::CalcDecos::new(vec![local]);
    rustowl::visitor::mir_visit(&function, &mut calc);
    calc.handle_overlapping();
    let decos = calc.decorations();
    let shared_mut: Vec<&Deco> =
        decos.iter().filter(|d| d.kind() == DecoKind::SharedMut).collect();
    assert_eq!(shared_mut.len(), 1);
    assert_eq!(shared_mut[0].range(), Range::new(Loc(20), Loc(30)).unwrap());
    assert!(!shared_mut[0].overlapped());
    assert_eq!(
        shared_mut[0].hover_text(),
        "immutable and mutable borrows of variable `v` exist here"
    );
}

#[test]
fn scenario_reanalysis_cancels_the_running_job() {
    let function = |marker: u32| Function {
        fn_id: 42,
        basic_blocks: Vec::new(),
        decls: vec![user(
            marker,
            "x",
            Range::new(Loc(0), Loc(1)).unwrap(),
            Range::new(Loc(0), Loc(9)).unwrap(),
        )],
    };
    let fragment = |marker: u32| {
        let mut krate = Crate::new();
        krate.insert(PATH.to_string(), File { items: vec![function(marker)] });
        let mut ws = Workspace::new();
        ws.insert("demo".to_string(), krate);
        ws
    };
    let mut backend = Backend::new();
    assert_eq!(backend.status(), AnalysisStatus::Idle);
    backend.add_analyze_target(Some("/workspace".to_string()));
    let first_round = backend.analyze();
    assert!(first_round.cancelled.is_empty());
    assert_eq!(first_round.started.len(), 1);
    assert_eq!(backend.status(), AnalysisStatus::Analyzing);
    backend.handle_event(first_round.started[0].key, AnalyzerEvent::Analyzed(fragment(1)));

    // a second round while the first job runs: the first job is cancelled
    let second_round = backend.analyze();
    assert_eq!(second_round.cancelled, vec![first_round.started[0].key]);
    assert_eq!(second_round.started.len(), 1);
    assert_eq!(backend.status(), AnalysisStatus::Analyzing);
    assert_ne!(second_round.started[0].key, first_round.started[0].key);

    // what the cancelled job still sends is not taken in
    backend.handle_event(first_round.started[0].key, AnalyzerEvent::Analyzed(fragment(9)));
    backend.finish_job(first_round.started[0].key);
    assert_eq!(backend.status(), AnalysisStatus::Analyzing);

    // the same function comes again, twice over
    let key = second_round.started[0].key;
    backend.handle_event(key, AnalyzerEvent::Analyzed(fragment(2)));
    backend.handle_event(key, AnalyzerEvent::Analyzed(fragment(3)));
    backend.finish_job(key);
    assert_eq!(backend.status(), AnalysisStatus::Finished);

    // an event of a job that has ended changes nothing
    backend.handle_event(key, AnalyzerEvent::Analyzed(fragment(4)));
    let decos = backend.decos(PATH, Loc(0)).unwrap();
    assert!(decos.iter().all(|d| d.local() == FnLocal::new(3, 7)));
    assert_eq!(count(&decos, DecoKind::Lifetime), 1);
}
