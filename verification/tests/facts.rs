//! From what the compiler and the solver give to the result of a function.

use rustowl::compiler::send_result;
use rustowl::mir_analysis::{FunctionInput, MirAnalyzer, MirAnalyzerInitResult};
use rustowl::mir_cache::CacheData;
use rustowl::mir_polonius::{
    drop_range, get_accurate_live, get_borrow_live, get_must_live, get_range, BorrowFacts,
    LocationTable,
};
use rustowl::mir_transform::{
    collect_basic_blocks, collect_user_vars, convert_rvalue, convert_statement,
    convert_terminator, range_from_span, rich_locations_to_ranges, sort_locs, BorrowData,
    BorrowMap, Location, RawBasicBlock, RawBorrow, RawRvalue, RawStatement, RawStatementKind,
    RawTerminator, RawTerminatorKind, RawVarDebugInfo, RichLocation, SourceSpan,
};
use rustowl::models::{
    FnLocal, Loc, MirBasicBlock, MirDecl, MirRval, MirStatement, MirTerminator, Range,
};

const SOURCE: &str = "let a = 1;\nlet b = a;\n";

fn r(from: u32, until: u32) -> Range {
    Range::new(Loc(from), Loc(until)).unwrap()
}

fn sp(lo: u32, hi: u32) -> SourceSpan {
    SourceSpan { lo, hi }
}

fn start(block: usize, statement_index: usize) -> RichLocation {
    RichLocation::Start(Location { block, statement_index })
}

fn mid(block: usize, statement_index: usize) -> RichLocation {
    RichLocation::Mid(Location { block, statement_index })
}

fn raw_blocks() -> Vec<RawBasicBlock> {
    vec![
        RawBasicBlock {
            statements: vec![
                RawStatement {
                    span: sp(0, 10),
                    visible: true,
                    kind: RawStatementKind::Assign { target: 1, rvalue: RawRvalue::Other },
                },
                RawStatement { span: sp(4, 5), visible: false, kind: RawStatementKind::Other },
                RawStatement {
                    span: sp(11, 21),
                    visible: true,
                    kind: RawStatementKind::Assign {
                        target: 2,
                        rvalue: RawRvalue::Move { local: 1 },
                    },
                },
                RawStatement { span: sp(3, 3), visible: true, kind: RawStatementKind::Other },
            ],
            terminator: Some(RawTerminator { span: sp(20, 21), kind: RawTerminatorKind::Other }),
        },
        RawBasicBlock { statements: Vec::new(), terminator: None },
    ]
}

fn blocks() -> Vec<MirBasicBlock> {
    collect_basic_blocks(7, SOURCE, 0, &raw_blocks())
}

fn table() -> LocationTable {
    LocationTable::new(vec![start(0, 0), mid(0, 0), start(0, 1), mid(0, 1)])
}

fn facts() -> BorrowFacts {
    BorrowFacts {
        var_live_on_entry: vec![(0, vec![1, 2]), (1, vec![1]), (2, vec![1]), (3, vec![1]), (9, vec![1])],
        var_drop_live_on_entry: vec![(2, vec![2]), (3, vec![2])],
        origin_live_on_entry: vec![(0, vec![10]), (1, vec![10]), (2, vec![11]), (3, vec![11])],
        loan_live_at: vec![(2, vec![0, 1, 5]), (3, vec![0, 1])],
        subset: vec![(12, vec![10]), (12, vec![11, 10]), (13, vec![99])],
        origin_contains_loan_at: vec![(12, vec![0]), (13, vec![1])],
    }
}

fn raw_borrows() -> Vec<RawBorrow> {
    let location = Location { block: 0, statement_index: 1 };
    vec![
        RawBorrow { location, mutable: false, borrowed: 1, assigned: 2 },
        RawBorrow { location, mutable: true, borrowed: 3, assigned: 4 },
    ]
}

fn borrow_map() -> BorrowMap {
    BorrowMap::new(&raw_borrows(), vec![(2, vec![0])])
}

#[test]
fn spans_become_ranges_of_characters() {
    assert_eq!(range_from_span(SOURCE, sp(0, 10), 0), Some(r(0, 10)));
    assert_eq!(range_from_span(SOURCE, sp(105, 110), 100), Some(r(5, 10)));
    assert_eq!(range_from_span(SOURCE, sp(3, 3), 0), None);
    assert_eq!(range_from_span(SOURCE, sp(8, 2), 0), None);
    assert_eq!(range_from_span("é=1", sp(0, 2), 0), Some(r(0, 1)));
    assert_eq!(range_from_span("é=1", sp(2, 4), 0), Some(r(1, 3)));
    assert_eq!(range_from_span("a\r\nb", sp(0, 4), 0), Some(r(0, 3)));
}

#[test]
fn statements_and_terminators_are_classified() {
    let moved = convert_rvalue(7, SOURCE, 0, sp(11, 21), &RawRvalue::Move { local: 1 });
    assert_eq!(moved, Some(MirRval::Move { target_local: FnLocal::new(1, 7), range: r(11, 21) }));
    let borrowed = convert_rvalue(7, SOURCE, 0, sp(0, 5), &RawRvalue::Ref { mutable: true, local: 3 });
    assert_eq!(
        borrowed,
        Some(MirRval::Borrow {
            target_local: FnLocal::new(3, 7),
            range: r(0, 5),
            mutable: true,
            outlive: None
        })
    );
    assert_eq!(convert_rvalue(7, SOURCE, 0, sp(0, 5), &RawRvalue::Other), None);
    assert_eq!(convert_rvalue(7, SOURCE, 0, sp(5, 5), &RawRvalue::Move { local: 1 }), None);

    let other = RawStatement { span: sp(2, 4), visible: true, kind: RawStatementKind::Other };
    assert_eq!(convert_statement(7, SOURCE, 0, &other), Some(MirStatement::Other { range: r(2, 4) }));

    let drop = RawTerminator { span: sp(0, 3), kind: RawTerminatorKind::Drop { local: 4 } };
    assert_eq!(
        convert_terminator(7, SOURCE, 0, &drop),
        Some(MirTerminator::Drop { local: FnLocal::new(4, 7), range: r(0, 3) })
    );
    let call = RawTerminator {
        span: sp(0, 10),
        kind: RawTerminatorKind::Call { destination: 5, fn_span: sp(8, 9) },
    };
    assert_eq!(
        convert_terminator(7, SOURCE, 0, &call),
        Some(MirTerminator::Call { destination_local: FnLocal::new(5, 7), fn_span: r(8, 9) })
    );
    let empty_call = RawTerminator {
        span: sp(0, 10),
        kind: RawTerminatorKind::Call { destination: 5, fn_span: sp(9, 9) },
    };
    assert_eq!(convert_terminator(7, SOURCE, 0, &empty_call), None);
}

#[test]
fn basic_blocks_keep_what_is_visible() {
    let blocks = blocks();
    assert_eq!(blocks.len(), 2);
    assert_eq!(
        blocks[0].statements,
        vec![
            MirStatement::Assign { target_local: FnLocal::new(1, 7), range: r(0, 10), rval: None },
            MirStatement::Assign {
                target_local: FnLocal::new(2, 7),
                range: r(11, 21),
                rval: Some(MirRval::Move { target_local: FnLocal::new(1, 7), range: r(11, 21) }),
            },
        ]
    );
    assert_eq!(blocks[0].terminator, Some(MirTerminator::Other { range: r(20, 21) }));
    assert!(blocks[1].statements.is_empty());
    assert_eq!(blocks[1].terminator, None);
}

#[test]
fn user_variables_come_from_the_debug_entries() {
    let infos = vec![
        RawVarDebugInfo { name: "a".to_string(), span: sp(4, 5), local: Some(1) },
        RawVarDebugInfo { name: "k".to_string(), span: sp(1, 2), local: None },
        RawVarDebugInfo { name: "c".to_string(), span: sp(0, 0), local: Some(5) },
        RawVarDebugInfo { name: "b".to_string(), span: sp(15, 16), local: Some(2) },
    ];
    let vars = collect_user_vars(SOURCE, 0, &infos);
    let seen: Vec<(u32, Range, &str)> =
        vars.iter().map(|v| (v.local, v.range, v.name.as_str())).collect();
    assert_eq!(seen, vec![(1, r(4, 5), "a"), (2, r(15, 16), "b")]);
}

#[test]
fn locations_are_sorted_by_block_then_statement() {
    let mut locs = vec![(2, 0), (0, 5), (1, 1), (0, 0), (1, 0), (0, 5)];
    sort_locs(&mut locs);
    assert_eq!(locs, vec![(0, 0), (0, 5), (0, 5), (1, 0), (1, 1), (2, 0)]);
    let mut empty: Vec<(usize, usize)> = Vec::new();
    sort_locs(&mut empty);
    assert!(empty.is_empty());
}

#[test]
fn rich_locations_pair_up_into_ranges() {
    let blocks = blocks();
    let paired = rich_locations_to_ranges(&blocks, &vec![mid(0, 1), start(0, 0), start(0, 1), mid(0, 0)]);
    assert_eq!(paired, vec![r(0, 10), r(11, 21)]);
    // from the start of one statement to the end of a later one
    let wide = rich_locations_to_ranges(&blocks, &vec![start(0, 0), mid(0, 1)]);
    assert_eq!(wide, vec![r(0, 21)]);
    // an index past the statements stands for the terminator
    let term = rich_locations_to_ranges(&blocks, &vec![start(0, 2), mid(0, 7)]);
    assert_eq!(term, vec![r(20, 21)]);
    // a pair in a missing block gives nothing
    let one = rich_locations_to_ranges(&blocks, &vec![start(5, 0), mid(5, 0), start(0, 0), mid(0, 0)]);
    assert_eq!(one, vec![r(0, 10)]);
    // nor does a block without terminator, nor a start without a mid; the
    // pairs are made after sorting
    let none = rich_locations_to_ranges(
        &blocks,
        &vec![start(5, 0), mid(5, 0), start(1, 0), mid(1, 0), start(0, 0)],
    );
    assert!(none.is_empty());
    // a pair that ends before it starts gives nothing
    let backwards = rich_locations_to_ranges(&blocks, &vec![start(0, 1), mid(0, 0)]);
    assert!(backwards.is_empty());
}

#[test]
fn liveness_becomes_ranges_per_variable() {
    let blocks = blocks();
    let live = get_range(&facts().var_live_on_entry, &table(), &blocks);
    assert_eq!(live, vec![(1, vec![r(0, 10), r(11, 21)]), (2, Vec::new())]);
    assert_eq!(get_accurate_live(&facts(), &table(), &blocks), live);
    assert_eq!(drop_range(&facts(), &table(), &blocks), vec![(2, vec![r(11, 21)])]);
    assert!(get_range(&Vec::new(), &table(), &blocks).is_empty());
}

#[test]
fn loans_become_ranges_per_borrowed_variable() {
    let blocks = blocks();
    let (shared, mutable) = get_borrow_live(&facts(), &table(), &borrow_map(), &blocks);
    assert_eq!(shared, vec![(1, vec![r(11, 21)])]);
    assert_eq!(mutable, vec![(3, vec![r(11, 21)])]);
}

#[test]
fn subsets_become_ranges_in_which_variables_must_live() {
    let blocks = blocks();
    let must = get_must_live(&facts(), &table(), &borrow_map(), &blocks);
    assert_eq!(must, vec![(2, vec![r(0, 10), r(11, 21)]), (1, vec![r(0, 10), r(11, 21)])]);
}

#[test]
fn borrow_map_is_indexed_by_borrow() {
    let map = borrow_map();
    let location = Location { block: 0, statement_index: 1 };
    assert_eq!(
        map.get_from_borrow_index(0),
        Some(&(location, BorrowData::Shared { borrowed: 1, assigned: 2 }))
    );
    assert_eq!(
        map.get_from_borrow_index(1),
        Some(&(location, BorrowData::Mutable { borrowed: 3, assigned: 4 }))
    );
    assert_eq!(map.get_from_borrow_index(2), None);
    assert_eq!(map.local_map(), &vec![(2, vec![0])]);
    let indexed = map.iter_with_index();
    assert_eq!(indexed.len(), 2);
    assert_eq!(indexed[1], (1, (location, BorrowData::Mutable { borrowed: 3, assigned: 4 })));
}

fn input() -> FunctionInput {
    FunctionInput {
        fn_id: 7,
        file_name: "/ws/src/lib.rs".to_string(),
        source: SOURCE.to_string(),
        offset: 0,
        file_hash: "f1".to_string(),
        mir_hash: "m1".to_string(),
        local_decls: vec![(1, "i32".to_string()), (2, "i32".to_string()), (5, "()".to_string())],
        debug_info: vec![
            RawVarDebugInfo { name: "a".to_string(), span: sp(4, 5), local: Some(1) },
            RawVarDebugInfo { name: "b".to_string(), span: sp(15, 16), local: Some(2) },
        ],
        basic_blocks: raw_blocks(),
        borrows: raw_borrows(),
        borrow_local_map: vec![(2, vec![0])],
        points: vec![start(0, 0), mid(0, 0), start(0, 1), mid(0, 1)],
        var_dropped_at: vec![(2, 3)],
    }
}

#[test]
fn a_function_is_analysed_and_then_found_in_the_cache() {
    let mut cache = CacheData::new();
    let pending = match MirAnalyzer::init(input(), Some(&cache)) {
        MirAnalyzerInitResult::Analyzer(pending) => pending,
        MirAnalyzerInitResult::Cached(_) => panic!("an empty cache holds no result"),
    };
    let analyzer = pending.complete(&facts());
    assert!(analyzer.is_drop(2));
    assert!(!analyzer.is_drop(1));
    let result = analyzer.analyze();
    assert_eq!(result.file_name, "/ws/src/lib.rs");
    assert_eq!(result.file_hash, "f1");
    assert_eq!(result.mir_hash, "m1");
    assert_eq!(result.analyzed.fn_id, 7);
    assert_eq!(result.analyzed.basic_blocks.len(), 2);
    assert_eq!(result.analyzed.decls.len(), 3);
    match &result.analyzed.decls[0] {
        MirDecl::User {
            local,
            name,
            span,
            ty,
            lives,
            shared_borrow,
            mutable_borrow,
            drop,
            drop_range,
            must_live_at,
        } => {
            assert_eq!(*local, FnLocal::new(1, 7));
            assert_eq!(name, "a");
            assert_eq!(*span, r(4, 5));
            assert_eq!(ty, "i32");
            assert_eq!(lives, &vec![r(0, 10), r(11, 21)]);
            assert_eq!(shared_borrow, &vec![r(11, 21)]);
            assert!(mutable_borrow.is_empty());
            assert!(!*drop);
            assert!(drop_range.is_empty());
            assert_eq!(must_live_at, &vec![r(0, 10), r(11, 21)]);
        }
        other => panic!("the first variable has a name: {other:?}"),
    }
    match &result.analyzed.decls[1] {
        MirDecl::User { name, drop, drop_range, lives, .. } => {
            assert_eq!(name, "b");
            assert!(*drop);
            assert_eq!(drop_range, &vec![r(11, 21)]);
            assert!(lives.is_empty());
        }
        other => panic!("the second variable has a name: {other:?}"),
    }
    match &result.analyzed.decls[2] {
        MirDecl::Other { local, ty, lives, .. } => {
            assert_eq!(*local, FnLocal::new(5, 7));
            assert_eq!(ty, "()");
            assert!(lives.is_empty());
        }
        other => panic!("the third variable has no name: {other:?}"),
    }

    let fragment = send_result(Some(&mut cache), "demo", result);
    assert_eq!(fragment.len(), 1);
    let file = fragment.get("demo").unwrap().get("/ws/src/lib.rs").unwrap();
    assert_eq!(file.items.len(), 1);
    assert_eq!(file.items[0].fn_id, 7);

    match MirAnalyzer::init(input(), Some(&cache)) {
        MirAnalyzerInitResult::Cached(hit) => {
            assert_eq!(hit.analyzed.fn_id, 7);
            assert_eq!(hit.analyzed.decls.len(), 3);
            assert_eq!(hit.file_name, "/ws/src/lib.rs");
        }
        MirAnalyzerInitResult::Analyzer(_) => panic!("the cache holds the result"),
    }
    // another control flow under the same text is analysed again
    let mut changed = input();
    changed.mir_hash = "m2".to_string();
    assert!(matches!(
        MirAnalyzer::init(changed, Some(&cache)),
        MirAnalyzerInitResult::Analyzer(_)
    ));
    // without a cache every function is analysed
    assert!(matches!(MirAnalyzer::init(input(), None), MirAnalyzerInitResult::Analyzer(_)));
}
