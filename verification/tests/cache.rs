//! The result cache and the text of hashes.

use rustowl::mir_cache::{to_hex, CacheData, StableHashString};
use rustowl::models::{
    FnLocal, Function, Loc, MirBasicBlock, MirDecl, MirRval, MirStatement, MirTerminator, Range,
};
use rustowl::stored::Token;

fn function(fn_id: u32, blocks: usize) -> Function {
    let block = || MirBasicBlock {
        statements: vec![MirStatement::Other { range: Range::new(Loc(1), Loc(2)).unwrap() }],
        terminator: None,
    };
    Function { fn_id, basic_blocks: (0..blocks).map(|_| block()).collect(), decls: Vec::new() }
}

#[test]
fn cache_hits_only_when_both_hashes_match() {
    let mut cache = CacheData::new();
    assert_eq!(cache.len(), 0);
    assert!(cache.get_cache("file", "mir").is_none());
    cache.insert_cache("file".to_string(), "mir".to_string(), function(1, 2));
    let hit = cache.get_cache("file", "mir").unwrap();
    assert_eq!(hit.fn_id, 1);
    assert_eq!(hit.basic_blocks.len(), 2);
    assert_eq!(hit.basic_blocks[1].statements.len(), 1);
    assert!(cache.get_cache("file", "mir2").is_none());
    assert!(cache.get_cache("file2", "mir").is_none());
    assert!(cache.get_cache("mir", "file").is_none());
    assert!(cache.get_cache("", "").is_none());
    assert_eq!(cache.len(), 1);
}

#[test]
fn cache_insert_overwrites() {
    let mut cache = CacheData::default();
    cache.insert_cache("f".to_string(), "a".to_string(), function(1, 0));
    cache.insert_cache("f".to_string(), "b".to_string(), function(2, 0));
    cache.insert_cache("g".to_string(), "a".to_string(), function(3, 0));
    cache.insert_cache("f".to_string(), "a".to_string(), function(4, 1));
    assert_eq!(cache.len(), 3);
    assert_eq!(cache.get_cache("f", "a").unwrap().fn_id, 4);
    assert_eq!(cache.get_cache("f", "a").unwrap().basic_blocks.len(), 1);
    assert_eq!(cache.get_cache("f", "b").unwrap().fn_id, 2);
    assert_eq!(cache.get_cache("g", "a").unwrap().fn_id, 3);
    let keys: Vec<(&str, &str)> = cache
        .entries()
        .iter()
        .map(|e| (e.file_hash.as_str(), e.mir_hash.as_str()))
        .collect();
    assert_eq!(keys, vec![("f", "a"), ("f", "b"), ("g", "a")]);
}

#[test]
fn hashes_are_written_in_hexadecimal() {
    assert_eq!(to_hex(0), "0");
    assert_eq!(to_hex(9), "9");
    assert_eq!(to_hex(255), "ff");
    assert_eq!(to_hex(0xdead_beef), "deadbeef");
    assert_eq!(to_hex(u128::MAX), "f".repeat(32));
    assert_eq!(StableHashString::from_words(0, 0).get(), "0");
    assert_eq!(StableHashString::from_words(0, 0x1f).get(), "1f");
    assert_eq!(StableHashString::from_words(1, 0).get(), "10000000000000000");
    assert_eq!(StableHashString::from_words(0xdead, 0xbeef).get(), "dead000000000000beef");
    assert_eq!(StableHashString::from_words(u64::MAX, u64::MAX).get(), "f".repeat(32));
    for (high, low) in [(1u64, 2u64), (0x1234_5678_9abc_def0, 0x0fed_cba9_8765_4321)] {
        let value = (u128::from(high) << 64) | u128::from(low);
        assert_eq!(StableHashString::from_words(high, low).get(), format!("{value:x}"));
    }
}

fn decl(id: u32, name: Option<&str>) -> MirDecl {
    let r = |from, until| Range::new(Loc(from), Loc(until)).unwrap();
    match name {
        Some(name) => MirDecl::User {
            local: FnLocal::new(id, 7),
            name: name.to_string(),
            span: r(4, 5),
            ty: "Vec<\"quoted\">".to_string(),
            lives: vec![r(0, 10), r(20, 30)],
            shared_borrow: vec![r(2, 3)],
            mutable_borrow: Vec::new(),
            drop: true,
            drop_range: vec![r(0, u32::MAX)],
            must_live_at: vec![r(1, 2), r(3, 4), r(5, 6)],
        },
        None => MirDecl::Other {
            local: FnLocal::new(id, 7),
            ty: String::new(),
            lives: Vec::new(),
            shared_borrow: Vec::new(),
            mutable_borrow: vec![r(8, 9)],
            drop: false,
            drop_range: Vec::new(),
            must_live_at: Vec::new(),
        },
    }
}

fn rich_function(fn_id: u32) -> Function {
    let r = |from, until| Range::new(Loc(from), Loc(until)).unwrap();
    let local = FnLocal::new(1, fn_id);
    Function {
        fn_id,
        basic_blocks: vec![
            MirBasicBlock {
                statements: vec![
                    MirStatement::StorageLive { target_local: local, range: r(0, 1) },
                    MirStatement::Assign { target_local: local, range: r(1, 9), rval: None },
                    MirStatement::Assign {
                        target_local: local,
                        range: r(1, 9),
                        rval: Some(MirRval::Move { target_local: local, range: r(2, 3) }),
                    },
                    MirStatement::Assign {
                        target_local: local,
                        range: r(1, 9),
                        rval: Some(MirRval::Borrow {
                            target_local: local,
                            range: r(2, 3),
                            mutable: true,
                            outlive: Some(r(4, 5)),
                        }),
                    },
                    MirStatement::Assign {
                        target_local: local,
                        range: r(1, 9),
                        rval: Some(MirRval::Borrow {
                            target_local: local,
                            range: r(2, 3),
                            mutable: false,
                            outlive: None,
                        }),
                    },
                    MirStatement::StorageDead { target_local: local, range: r(9, 10) },
                    MirStatement::Other { range: r(0, 10) },
                ],
                terminator: Some(MirTerminator::Call { destination_local: local, fn_span: r(3, 7) }),
            },
            MirBasicBlock {
                statements: Vec::new(),
                terminator: Some(MirTerminator::Drop { local, range: r(3, 7) }),
            },
            MirBasicBlock {
                statements: Vec::new(),
                terminator: Some(MirTerminator::Other { range: r(3, 7) }),
            },
            MirBasicBlock { statements: Vec::new(), terminator: None },
        ],
        decls: vec![decl(1, Some("x")), decl(2, None), decl(3, Some(""))],
    }
}

#[test]
fn a_cache_is_read_back_from_its_stored_form() {
    let mut cache = CacheData::new();
    cache.insert_cache("file".to_string(), "mir".to_string(), rich_function(1));
    cache.insert_cache("file".to_string(), "other".to_string(), function(2, 3));
    cache.insert_cache(String::new(), String::new(), function(3, 0));
    let tokens = cache.to_tokens();
    let read = CacheData::from_tokens(&tokens).unwrap();
    assert_eq!(format!("{read:?}"), format!("{cache:?}"));
    assert_eq!(read.to_tokens(), tokens);
    assert_eq!(read.len(), 3);
    assert_eq!(format!("{:?}", read.get_cache("file", "mir")), format!("{:?}", Some(rich_function(1))));

    // an empty cache
    let empty = CacheData::new().to_tokens();
    assert_eq!(empty, vec![Token::Num(0)]);
    assert_eq!(CacheData::from_tokens(&empty).unwrap().len(), 0);

    // what is no stored form of a cache is not read
    assert!(CacheData::from_tokens(&Vec::new()).is_none());
    assert!(CacheData::from_tokens(&vec![Token::Text("0".to_string())]).is_none());
    assert!(CacheData::from_tokens(&vec![Token::Num(1)]).is_none());
    assert!(CacheData::from_tokens(&vec![Token::Num(0), Token::Num(0)]).is_none());
    let mut truncated = tokens.clone();
    truncated.pop();
    assert!(CacheData::from_tokens(&truncated).is_none());
    for at in 0..tokens.len() {
        let mut changed = tokens.clone();
        changed[at] = match &changed[at] {
            Token::Num(_) => Token::Text("x".to_string()),
            Token::Text(_) => Token::Num(0),
        };
        assert!(CacheData::from_tokens(&changed).is_none(), "token {at} was changed");
    }
    // a range that holds no offset is not read
    let small = {
        let mut cache = CacheData::new();
        cache.insert_cache("f".to_string(), "m".to_string(), function(1, 1));
        cache.to_tokens()
    };
    let at = small.iter().rposition(|t| *t == Token::Num(2)).unwrap();
    let mut empty_range = small.clone();
    empty_range[at] = Token::Num(1);
    assert!(CacheData::from_tokens(&small).is_some());
    assert!(CacheData::from_tokens(&empty_range).is_none());

    // results that are stored twice under the same hashes: the last stays
    let mut twice = vec![Token::Num(2)];
    twice.extend(small[1..].iter().cloned());
    twice.extend(small[1..].iter().cloned());
    assert_eq!(CacheData::from_tokens(&twice).unwrap().len(), 1);
}
