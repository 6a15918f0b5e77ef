//! The result cache: analysis results by the hash of the file's text and
//! the hash of the function's control flow.

use crate::assoc::{
    as_map, has_key, keys_unique, lemma_as_map_at, lemma_as_map_len, lemma_as_map_push,
    lemma_as_map_update,
};
use crate::models::{Function, FunctionView};
use crate::stored::{
    all_valid, entry_parser, entry_valid, entry_writer, law_cache_round_trip, lemma_parse_n_none, map_of, num_at, parse_entry, parse_n,
    read_function, ser_all, spec_read_cache, spec_write_cache, text_of, tokens_view,
    write_function, Token, TokenView,
};
use crate::strings::str_eq;
use vstd::prelude::*;
use vstd::string::StringExecFns;

verus! {

/// The lower-case hexadecimal digit for a value below 16.
pub open spec fn hex_digit(d: nat) -> char {
    if d == 0 {
        '0'
    } else if d == 1 {
        '1'
    } else if d == 2 {
        '2'
    } else if d == 3 {
        '3'
    } else if d == 4 {
        '4'
    } else if d == 5 {
        '5'
    } else if d == 6 {
        '6'
    } else if d == 7 {
        '7'
    } else if d == 8 {
        '8'
    } else if d == 9 {
        '9'
    } else if d == 10 {
        'a'
    } else if d == 11 {
        'b'
    } else if d == 12 {
        'c'
    } else if d == 13 {
        'd'
    } else if d == 14 {
        'e'
    } else {
        'f'
    }
}

/// The number in lower-case hexadecimal digits, without leading zeros.
pub open spec fn hex_digits(v: nat) -> Seq<char>
    decreases v,
{
    if v < 16 {
        seq![hex_digit(v)]
    } else {
        hex_digits(v / 16).push(hex_digit(v % 16))
    }
}

fn digit_str(d: u8) -> (r: &'static str)
    requires
        d < 16,
    ensures
        r@ == seq![hex_digit(d as nat)],
{
    proof {
        reveal_strlit("0");
        reveal_strlit("1");
        reveal_strlit("2");
        reveal_strlit("3");
        reveal_strlit("4");
        reveal_strlit("5");
        reveal_strlit("6");
        reveal_strlit("7");
        reveal_strlit("8");
        reveal_strlit("9");
        reveal_strlit("a");
        reveal_strlit("b");
        reveal_strlit("c");
        reveal_strlit("d");
        reveal_strlit("e");
        reveal_strlit("f");
    }
    let r = if d == 0 {
        "0"
    } else if d == 1 {
        "1"
    } else if d == 2 {
        "2"
    } else if d == 3 {
        "3"
    } else if d == 4 {
        "4"
    } else if d == 5 {
        "5"
    } else if d == 6 {
        "6"
    } else if d == 7 {
        "7"
    } else if d == 8 {
        "8"
    } else if d == 9 {
        "9"
    } else if d == 10 {
        "a"
    } else if d == 11 {
        "b"
    } else if d == 12 {
        "c"
    } else if d == 13 {
        "d"
    } else if d == 14 {
        "e"
    } else {
        "f"
    };
    assert(r@ =~= seq![hex_digit(d as nat)]);
    r
}

/// The number in lower-case hexadecimal digits, without leading zeros.
pub fn to_hex(v: u128) -> (r: String)
    ensures
        r@ == hex_digits(v as nat),
    decreases v,
{
    if v < 16 {
        digit_str(v as u8).to_owned()
    } else {
        let mut text = to_hex(v / 16);
        text.append(digit_str((v % 16) as u8));
        assert(text@ =~= hex_digits((v / 16) as nat).push(hex_digit((v % 16) as nat)));
        text
    }
}

/// A structural hash of 128 bits as text: its hexadecimal digits.
#[derive(Debug, Clone)]
pub struct StableHashString(String);

impl View for StableHashString {
    type V = Seq<char>;

    closed spec fn view(&self) -> Seq<char> {
        self.0@
    }
}

impl StableHashString {
    /// The text for the hash whose upper 64 bits are `high` and whose lower
    /// 64 bits are `low`.
    pub fn from_words(high: u64, low: u64) -> (r: Self)
        ensures
            r@ == hex_digits((high as nat) * 0x1_0000_0000_0000_0000 + low as nat),
    {
        let value: u128 = (high as u128) * 0x1_0000_0000_0000_0000u128 + (low as u128);
        StableHashString(to_hex(value))
    }

    /// The text of the hash.
    pub fn get(self) -> (r: String)
        ensures
            r@ == self@,
    {
        self.0
    }
}

/// One cached result with the two hashes under which it is kept.
#[derive(Debug)]
pub struct CacheEntry {
    pub file_hash: String,
    pub mir_hash: String,
    pub analyzed: Function,
}

/// The entries of a list as pairs of a key and a value, as plain values.
pub open spec fn entries_view(s: Seq<CacheEntry>) -> Seq<((Seq<char>, Seq<char>), FunctionView)> {
    s.map_values(|e: CacheEntry| ((e.file_hash@, e.mir_hash@), e.analyzed@))
}

/// The cache of one crate: from the hash of a file's text and the hash of a
/// function's control flow to the result that was computed for them.
#[derive(Debug)]
pub struct CacheData {
    entries: Vec<CacheEntry>,
}

impl View for CacheData {
    type V = Map<(Seq<char>, Seq<char>), FunctionView>;

    closed spec fn view(&self) -> Map<(Seq<char>, Seq<char>), FunctionView> {
        as_map(entries_view(self.entries@))
    }
}

impl CacheData {
    /// No pair of hashes occurs twice.
    #[verifier::type_invariant]
    pub closed spec fn wf(&self) -> bool {
        keys_unique(entries_view(self.entries@))
    }

    /// An empty cache.
    #[must_use]
    pub fn new() -> (r: Self)
        ensures
            r@ == Map::<(Seq<char>, Seq<char>), FunctionView>::empty(),
    {
        let r = CacheData { entries: Vec::new() };
        assert(r@ =~= Map::<(Seq<char>, Seq<char>), FunctionView>::empty());
        r
    }

    fn position(&self, file_hash: &str, mir_hash: &str) -> (r: Option<usize>)
        ensures
            match r {
                Some(i) => i < self.entries@.len() && entries_view(self.entries@)[i as int].0 == (
                    file_hash@,
                    mir_hash@,
                ),
                None => !has_key(entries_view(self.entries@), (file_hash@, mir_hash@)),
            },
    {
        let mut i: usize = 0;
        while i < self.entries.len()
            invariant
                i <= self.entries@.len(),
                forall|k: int|
                    0 <= k < i ==> (#[trigger] entries_view(self.entries@)[k]).0 != (
                        file_hash@,
                        mir_hash@,
                    ),
            decreases self.entries.len() - i,
        {
            if str_eq(self.entries[i].file_hash.as_str(), file_hash) && str_eq(
                self.entries[i].mir_hash.as_str(),
                mir_hash,
            ) {
                return Some(i);
            }
            i += 1;
        }
        None
    }

    /// The cached result for the two hashes: a hit only if both match.
    #[must_use]
    pub fn get_cache(&self, file_hash: &str, mir_hash: &str) -> (r: Option<Function>)
        ensures
            r is Some == self@.dom().contains((file_hash@, mir_hash@)),
            r is Some ==> r->0@ == self@[(file_hash@, mir_hash@)],
    {
        match self.position(file_hash, mir_hash) {
            Some(i) => {
                proof {
                    use_type_invariant(self);
                    lemma_as_map_at(entries_view(self.entries@), i as int);
                }
                Some(self.entries[i].analyzed.clone())
            },
            None => None,
        }
    }

    /// Keeps `analyzed` under the two hashes, in the place of what was kept
    /// under them.
    pub fn insert_cache(&mut self, file_hash: String, mir_hash: String, analyzed: Function)
        ensures
            final(self)@ == old(self)@.insert((file_hash@, mir_hash@), analyzed@),
    {
        proof {
            use_type_invariant(&*self);
        }
        let found = self.position(file_hash.as_str(), mir_hash.as_str());
        let mut taken = Self::new();
        core::mem::swap(self, &mut taken);
        let mut entries = taken.entries;
        let ghost before = entries_view(entries@);
        match found {
            Some(i) => {
                proof {
                    lemma_as_map_update(before, i as int, analyzed@);
                }
                entries.set(i, CacheEntry { file_hash, mir_hash, analyzed });
                assert(entries_view(entries@) =~= before.update(
                    i as int,
                    (before[i as int].0, analyzed@),
                ));
            },
            None => {
                proof {
                    lemma_as_map_push(before, (file_hash@, mir_hash@), analyzed@);
                }
                entries.push(CacheEntry { file_hash, mir_hash, analyzed });
                assert(entries_view(entries@) =~= before.push(
                    ((file_hash@, mir_hash@), analyzed@),
                ));
            },
        }
        *self = CacheData { entries };
    }

    /// The cached results with their hashes, in the order in which the
    /// hashes first came.
    pub closed spec fn spec_entries(&self) -> Seq<((Seq<char>, Seq<char>), FunctionView)> {
        entries_view(self.entries@)
    }

    /// The cache is the map of its results, and it holds no pair of hashes
    /// twice.
    pub proof fn lemma_entries(&self)
        ensures
            self@ == as_map(self.spec_entries()),
            self.wf() == keys_unique(self.spec_entries()),
    {
    }

    /// Writing the cache to its stored form and reading that back gives a
    /// cache with the same result under each pair of hashes, and nothing
    /// else.
    pub proof fn law_round_trip(&self)
        requires
            self.wf(),
            self.spec_entries().len() <= u64::MAX,
            all_valid(entry_valid(), self.spec_entries()),
        ensures
            spec_read_cache(spec_write_cache(self.spec_entries())) == Some(self@),
    {
        law_cache_round_trip(self.spec_entries());
    }

    /// The stored form of the cache.
    pub fn to_tokens(&self) -> (r: Vec<Token>)
        ensures
            tokens_view(r@) == spec_write_cache(self.spec_entries()),
    {
        let mut out: Vec<Token> = Vec::new();
        out.push(Token::Num(self.entries.len() as u64));
        let ghost head = tokens_view(out@);
        assert(head =~= seq![TokenView::Num(self.entries@.len() as u64)]);
        let ghost entries = entries_view(self.entries@);
        let mut i: usize = 0;
        while i < self.entries.len()
            invariant
                i <= self.entries@.len(),
                entries == entries_view(self.entries@),
                tokens_view(out@) == head + ser_all(entry_writer(), entries.take(i as int)),
            decreases self.entries.len() - i,
        {
            let ghost before = tokens_view(out@);
            let entry = &self.entries[i];
            out.push(Token::Text(entry.file_hash.clone()));
            out.push(Token::Text(entry.mir_hash.clone()));
            assert(tokens_view(out@) =~= before + seq![
                TokenView::Text(entry.file_hash@),
                TokenView::Text(entry.mir_hash@),
            ]);
            write_function(&mut out, &entry.analyzed);
            assert(entries.take(i + 1).drop_last() =~= entries.take(i as int));
            assert(entries.take(i + 1).last() == ((entry.file_hash@, entry.mir_hash@), entry.analyzed@));
            assert(tokens_view(out@) =~= head + ser_all(entry_writer(), entries.take(i + 1)));
            i += 1;
        }
        assert(entries.take(entries.len() as int) =~= entries);
        out
    }

    /// The cache that a stored form holds; none if the tokens are not the
    /// stored form of a cache.
    pub fn from_tokens(ts: &Vec<Token>) -> (r: Option<Self>)
        ensures
            match r {
                Some(cache) => spec_read_cache(tokens_view(ts@)) == Some(cache@),
                None => spec_read_cache(tokens_view(ts@)) is None,
            },
    {
        let count = match crate::stored::number_of(ts, 0) {
            Some(count) => count,
            None => {
                return None;
            },
        };
        let mut cache = CacheData::new();
        let ghost mut read: Seq<((Seq<char>, Seq<char>), FunctionView)> = Seq::empty();
        let mut pos: usize = 1;
        let mut i: u64 = 0;
        while i < count
            invariant
                i <= count,
                pos <= ts@.len(),
                num_at(tokens_view(ts@), 0) == Some(count),
                read.len() == i,
                parse_n(entry_parser(), tokens_view(ts@), 1, i as nat) == Some((read, pos as int)),
                cache@ == map_of(read, i as int),
            decreases count - i,
        {
            match read_entry(ts, pos) {
                Some((file_hash, mir_hash, analyzed, next)) => {
                    proof {
                        let added = read.push(((file_hash@, mir_hash@), analyzed@));
                        lemma_map_of_push(read, ((file_hash@, mir_hash@), analyzed@));
                        read = added;
                    }
                    cache.insert_cache(file_hash, mir_hash, analyzed);
                    pos = next;
                },
                None => {
                    proof {
                        lemma_parse_n_none(
                            entry_parser(),
                            tokens_view(ts@),
                            1,
                            (i + 1) as nat,
                            count as nat,
                        );
                    }
                    return None;
                },
            }
            i += 1;
        }
        if pos == ts.len() {
            Some(cache)
        } else {
            None
        }
    }

    /// The number of cached results.
    pub fn len(&self) -> (r: usize)
        ensures
            r == self@.dom().len(),
            self@.dom().finite(),
    {
        proof {
            use_type_invariant(self);
            lemma_as_map_len(entries_view(self.entries@));
        }
        self.entries.len()
    }

    /// The cached results in the order in which their hashes first came.
    pub fn entries(&self) -> (r: &Vec<CacheEntry>)
        ensures
            entries_view(r@) == self.spec_entries(),
            as_map(entries_view(r@)) == self@,
            keys_unique(entries_view(r@)),
    {
        proof {
            use_type_invariant(self);
        }
        &self.entries
    }
}

impl Default for CacheData {
    fn default() -> (r: Self)
        ensures
            r@ == Map::<(Seq<char>, Seq<char>), FunctionView>::empty(),
    {
        Self::new()
    }
}

/// Whether results are cached, for the value of the switch that the
/// caller read: always, unless the switch is set to `false` or `0`.
pub fn cache_enabled(switch: Option<&str>) -> (r: bool)
    ensures
        r == match switch {
            Some(v) => !(v@ == "false"@ || v@ == "0"@),
            None => true,
        },
{
    match switch {
        Some(v) => !(str_eq(v, "false") || str_eq(v, "0")),
        None => true,
    }
}

/// The name of the file in which the cache of the crate `krate` is kept.
pub fn cache_file_name(krate: &str) -> (r: String)
    ensures
        r@ == krate@ + ".json"@,
{
    let mut name = krate.to_owned();
    name.append(".json");
    name
}

/// The map of a list with one more result holds that result under its
/// hashes and the others as before.
pub proof fn lemma_map_of_push(
    entries: Seq<((Seq<char>, Seq<char>), FunctionView)>,
    e: ((Seq<char>, Seq<char>), FunctionView),
)
    ensures
        map_of(entries.push(e), entries.len() as int + 1) == map_of(
            entries,
            entries.len() as int,
        ).insert(
            e.0,
            e.1,
        ),
{
    lemma_map_of_prefix(entries.push(e), entries, entries.len() as int);
}

/// The map of the first results of a list is the map of any list that
/// begins with them.
proof fn lemma_map_of_prefix(
    a: Seq<((Seq<char>, Seq<char>), FunctionView)>,
    b: Seq<((Seq<char>, Seq<char>), FunctionView)>,
    n: int,
)
    requires
        0 <= n <= a.len(),
        n <= b.len(),
        forall|i: int| 0 <= i < n ==> a[i] == b[i],
    ensures
        map_of(a, n) == map_of(b, n),
    decreases n,
{
    if n > 0 {
        lemma_map_of_prefix(a, b, n - 1);
    }
}

fn read_entry(ts: &Vec<Token>, at: usize) -> (r: Option<(String, String, Function, usize)>)
    ensures
        match r {
            Some((file_hash, mir_hash, analyzed, next)) => parse_entry(
                tokens_view(ts@),
                at as int,
            ) == Some((((file_hash@, mir_hash@), analyzed@), next as int)) && next <= ts@.len(),
            None => parse_entry(tokens_view(ts@), at as int) is None,
        },
{
    let file_hash = match text_of(ts, at) {
        Some(text) => text,
        None => {
            return None;
        },
    };
    let mir_hash = match text_of(ts, at + 1) {
        Some(text) => text,
        None => {
            return None;
        },
    };
    match read_function(ts, at + 2) {
        Some((analyzed, next)) => Some((file_hash, mir_hash, analyzed, next)),
        None => None,
    }
}

/// After a result was kept under two hashes, asking with both hashes gives
/// that result, and asking with another file hash or another control-flow
/// hash gives what the cache gave before: a miss, if it held nothing for
/// them.
pub proof fn law_cache_insert_then_get(
    cache: Map<(Seq<char>, Seq<char>), FunctionView>,
    file_hash: Seq<char>,
    mir_hash: Seq<char>,
    analyzed: FunctionView,
    other_file_hash: Seq<char>,
    other_mir_hash: Seq<char>,
)
    ensures
        cache.insert((file_hash, mir_hash), analyzed).dom().contains((file_hash, mir_hash)),
        cache.insert((file_hash, mir_hash), analyzed)[(file_hash, mir_hash)] == analyzed,
        other_file_hash != file_hash || other_mir_hash != mir_hash ==> {
            &&& cache.insert((file_hash, mir_hash), analyzed).dom().contains(
                (other_file_hash, other_mir_hash),
            ) == cache.dom().contains((other_file_hash, other_mir_hash))
            &&& cache.dom().contains((other_file_hash, other_mir_hash)) ==> cache.insert(
                (file_hash, mir_hash),
                analyzed,
            )[(other_file_hash, other_mir_hash)] == cache[(other_file_hash, other_mir_hash)]
        },
{
}

} // verus!
