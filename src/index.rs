use vstd::prelude::*;
use crate::market::{market_of_mic, Market, Mic};
use crate::record::{decoded_row, SymbolData, ROW_COLUMNS};

verus! {

broadcast use vstd::seq_lib::group_seq_properties;

/// The identity of a listing: its ticker and its exchange.
pub open spec fn key_of(r: SymbolData) -> (Seq<char>, Mic) {
    (r.symbol@, r.mic)
}

/// No two records of `s` share a key.
pub open spec fn keys_unique(s: Seq<SymbolData>) -> bool {
    forall|i: int, j: int| 0 <= i < j < s.len() ==> key_of(#[trigger] s[i]) != key_of(#[trigger] s[j])
}

/// The keyed table that loading `s` in order gives: a later record with the
/// key of an earlier one replaces it.
pub open spec fn index_of(s: Seq<SymbolData>) -> Map<(Seq<char>, Mic), SymbolData>
    decreases s.len(),
{
    if s.len() == 0 {
        Map::empty()
    } else {
        index_of(s.drop_last()).insert(key_of(s.last()), s.last())
    }
}

/// Whether a raw row has the column count of the data source.
pub open spec fn complete_row() -> spec_fn(Vec<String>) -> bool {
    |row: Vec<String>| row@.len() == ROW_COLUMNS
}

/// The record that a complete raw row decodes to.
pub open spec fn decode_row() -> spec_fn(Vec<String>) -> SymbolData {
    |row: Vec<String>| decoded_row(row@)
}

/// The raw rows after the leading column-header row.
pub open spec fn data_rows(rows: Seq<Vec<String>>) -> Seq<Vec<String>> {
    if rows.len() == 0 {
        rows
    } else {
        rows.drop_first()
    }
}

/// The records that a run of data rows decodes to, incomplete rows left out.
pub open spec fn decoded_rows(rows: Seq<Vec<String>>) -> Seq<SymbolData> {
    rows.filter(complete_row()).map_values(decode_row())
}

/// The records loaded from a raw table: header dropped, incomplete rows
/// rejected, the others decoded in source order.
pub open spec fn loaded_records(rows: Seq<Vec<String>>) -> Seq<SymbolData> {
    decoded_rows(data_rows(rows))
}

/// How many data rows of a raw table are rejected as incomplete.
pub open spec fn rejected_row_count(rows: Seq<Vec<String>>) -> nat {
    (data_rows(rows).len() - data_rows(rows).filter(complete_row()).len()) as nat
}

/// A key is in the table loaded from `s` exactly when some record of `s`
/// has that key.
pub proof fn lemma_index_has_key(s: Seq<SymbolData>, k: (Seq<char>, Mic))
    ensures
        index_of(s).contains_key(k) <==> exists|i: int| 0 <= i < s.len() && key_of(#[trigger] s[i]) == k,
    decreases s.len(),
{
    if s.len() > 0 {
        lemma_index_has_key(s.drop_last(), k);
        if index_of(s.drop_last()).contains_key(k) {
            let i = choose|i: int| 0 <= i < s.drop_last().len() && key_of(#[trigger] s.drop_last()[i]) == k;
            assert(key_of(s[i]) == k);
        }
        if exists|i: int| 0 <= i < s.len() && key_of(#[trigger] s[i]) == k {
            let i = choose|i: int| 0 <= i < s.len() && key_of(#[trigger] s[i]) == k;
            if i < s.len() - 1 {
                assert(key_of(s.drop_last()[i]) == k);
            }
        }
    }
}

/// The table loaded from `s` holds, at the key of `s[j]`, the record `s[j]`
/// itself when no later record of `s` has that key.
pub proof fn lemma_index_keeps_last(s: Seq<SymbolData>, j: int)
    requires
        0 <= j < s.len(),
        forall|l: int| j < l < s.len() ==> key_of(#[trigger] s[l]) != key_of(s[j]),
    ensures
        index_of(s).contains_key(key_of(s[j])),
        index_of(s)[key_of(s[j])] == s[j],
    decreases s.len(),
{
    if j < s.len() - 1 {
        assert(key_of(s[s.len() - 1]) != key_of(s[j]));
        assert forall|l: int| j < l < s.drop_last().len() implies key_of(#[trigger] s.drop_last()[l]) != key_of(s.drop_last()[j]) by {
            assert(key_of(s[l]) != key_of(s[j]));
        }
        lemma_index_keeps_last(s.drop_last(), j);
    }
}

/// Replacing a record of a key-unique sequence by one with the same key
/// replaces that key's entry in the loaded table.
proof fn lemma_index_update(s: Seq<SymbolData>, p: int, r: SymbolData)
    requires
        keys_unique(s),
        0 <= p < s.len(),
        key_of(s[p]) == key_of(r),
    ensures
        index_of(s.update(p, r)) == index_of(s).insert(key_of(r), r),
    decreases s.len(),
{
    let t = s.update(p, r);
    if p == s.len() - 1 {
        assert(t.drop_last() =~= s.drop_last());
        assert(index_of(t) =~= index_of(s).insert(key_of(r), r));
    } else {
        assert(t.drop_last() =~= s.drop_last().update(p, r));
        assert(keys_unique(s.drop_last()));
        lemma_index_update(s.drop_last(), p, r);
        assert(key_of(s.last()) != key_of(r));
        assert(index_of(t) =~= index_of(s).insert(key_of(r), r));
    }
}

/// Appending a record to a sequence inserts it into the loaded table.
proof fn lemma_index_push(s: Seq<SymbolData>, r: SymbolData)
    ensures
        index_of(s.push(r)) == index_of(s).insert(key_of(r), r),
{
    assert(s.push(r).drop_last() =~= s);
}

/// The records that a list of borrowed records refers to.
pub open spec fn referenced(v: Seq<&SymbolData>) -> Seq<SymbolData> {
    v.map_values(|r: &SymbolData| *r)
}

/// Listings of the ticker `symbol`, compared exactly.
pub open spec fn with_symbol(symbol: Seq<char>) -> spec_fn(SymbolData) -> bool {
    |r: SymbolData| r.symbol@ == symbol
}

/// ISA-eligible listings of the ticker `symbol`, compared exactly.
pub open spec fn eligible_with_symbol(symbol: Seq<char>) -> spec_fn(SymbolData) -> bool {
    |r: SymbolData| r.symbol@ == symbol && r.isa_eligible
}

/// ISA-eligible listings.
pub open spec fn eligible() -> spec_fn(SymbolData) -> bool {
    |r: SymbolData| r.isa_eligible
}

/// Listings on the exchange `mic`.
pub open spec fn on_exchange(mic: Mic) -> spec_fn(SymbolData) -> bool {
    |r: SymbolData| r.mic == mic
}

/// Listings whose exchange maps to the market `market`.
pub open spec fn in_market(market: Market) -> spec_fn(SymbolData) -> bool {
    |r: SymbolData| market_of_mic(r.mic) == Some(market)
}

/// Listings whose exchange maps to a market among `markets`.
pub open spec fn in_markets(markets: Seq<Market>) -> spec_fn(SymbolData) -> bool {
    |r: SymbolData|
        match market_of_mic(r.mic) {
            Some(m) => markets.contains(m),
            None => false,
        }
}

/// The markets that a list of borrowed markets refers to.
pub open spec fn referenced_markets(v: Seq<&Market>) -> Seq<Market> {
    v.map_values(|m: &Market| *m)
}

/// One more element of `s` seen by a filtering loop.
proof fn lemma_filter_step<A>(s: Seq<A>, i: int, p: spec_fn(A) -> bool)
    requires
        0 <= i < s.len(),
    ensures
        s.take(i + 1).filter(p) == if p(s[i]) {
            s.take(i).filter(p).push(s[i])
        } else {
            s.take(i).filter(p)
        },
{
    assert(s.take(i + 1) =~= s.take(i).push(s[i]));
    s.take(i).lemma_filter_push(s[i], p);
}

/// Whether `market` is among `markets`.
fn listed(markets: &Vec<&Market>, market: Market) -> (r: bool)
    ensures
        r == referenced_markets(markets@).contains(market),
{
    let mut j: usize = 0;
    while j < markets.len()
        invariant
            j <= markets@.len(),
            forall|l: int| 0 <= l < j ==> *#[trigger] markets@[l] != market,
        decreases markets@.len() - j,
    {
        if *markets[j] == market {
            assert(referenced_markets(markets@)[j as int] == market);
            return true;
        }
        j += 1;
    }
    proof {
        if referenced_markets(markets@).contains(market) {
            let l = choose|l: int| 0 <= l < markets@.len() && referenced_markets(markets@)[l] == market;
            assert(*markets@[l] == market);
        }
    }
    false
}

/// A record is in a filtered sequence exactly when it is in the sequence
/// and passes the filter.
proof fn lemma_filter_member(s: Seq<SymbolData>, p: spec_fn(SymbolData) -> bool, x: SymbolData)
    ensures
        s.filter(p).contains(x) <==> s.contains(x) && p(x),
{
    if s.filter(p).contains(x) {
        s.lemma_filter_contains_rev(p, x);
        let i = choose|i: int| 0 <= i < s.filter(p).len() && s.filter(p)[i] == x;
        s.lemma_filter_pred(p, i);
    }
    if s.contains(x) && p(x) {
        let i = choose|i: int| 0 <= i < s.len() && s[i] == x;
        s.lemma_filter_contains(p, i);
    }
}

/// Lookup after loading: a ticker and exchange are held exactly when some
/// record loaded from the raw table, after the header row is dropped and
/// incomplete rows are rejected, has that ticker and exchange.
pub proof fn lemma_lookup_iff_loaded(rows: Seq<Vec<String>>, symbol: Seq<char>, mic: Mic)
    ensures
        index_of(loaded_records(rows)).contains_key((symbol, mic)) <==> exists|i: int|
            0 <= i < loaded_records(rows).len() && key_of(#[trigger] loaded_records(rows)[i]) == (symbol, mic),
{
    lemma_index_has_key(loaded_records(rows), (symbol, mic));
}

/// Last write wins: where a later loaded record repeats the ticker and
/// exchange of an earlier one, and no record after it does, the index holds
/// the later record under that key.
pub proof fn lemma_last_write_wins(rows: Seq<Vec<String>>, earlier: int, later: int)
    requires
        0 <= earlier < later < loaded_records(rows).len(),
        key_of(loaded_records(rows)[earlier]) == key_of(loaded_records(rows)[later]),
        forall|l: int|
            later < l < loaded_records(rows).len() ==> key_of(#[trigger] loaded_records(rows)[l])
                != key_of(loaded_records(rows)[later]),
    ensures
        index_of(loaded_records(rows))[key_of(loaded_records(rows)[earlier])] == loaded_records(rows)[later],
{
    lemma_index_keeps_last(loaded_records(rows), later);
}

/// The listings of a well-formed index are exactly the records it holds:
/// a record is listed when, and only when, it is the one held under its own
/// ticker and exchange.
pub proof fn lemma_listed_iff_held(index: FreetradeData, x: SymbolData)
    requires
        index.wf(),
    ensures
        index.records().contains(x) <==> (index@.contains_key(key_of(x)) && index@[key_of(x)] == x),
{
    let s = index.records();
    lemma_index_has_key(s, key_of(x));
    if s.contains(x) {
        let i = choose|i: int| 0 <= i < s.len() && s[i] == x;
        lemma_index_keeps_last(s, i);
    }
    if index@.contains_key(key_of(x)) {
        let i = choose|i: int| 0 <= i < s.len() && key_of(#[trigger] s[i]) == key_of(x);
        lemma_index_keeps_last(s, i);
    }
}

/// The US-dollar market is exactly the NASDAQ listings together with the
/// NYSE listings.
pub proof fn lemma_usd_is_nasdaq_and_nyse(index: FreetradeData)
    ensures
        index.records().filter(in_market(Market::USD)).to_set() == index.records().filter(
            on_exchange(Mic::XNAS),
        ).to_set().union(index.records().filter(on_exchange(Mic::XNYS)).to_set()),
{
    let s = index.records();
    assert forall|x: SymbolData|
        s.filter(in_market(Market::USD)).to_set().contains(x) == s.filter(on_exchange(Mic::XNAS)).to_set().union(
            s.filter(on_exchange(Mic::XNYS)).to_set(),
        ).contains(x) by {
        lemma_filter_member(s, in_market(Market::USD), x);
        lemma_filter_member(s, on_exchange(Mic::XNAS), x);
        lemma_filter_member(s, on_exchange(Mic::XNYS), x);
    }
    assert(s.filter(in_market(Market::USD)).to_set() =~= s.filter(on_exchange(Mic::XNAS)).to_set().union(
        s.filter(on_exchange(Mic::XNYS)).to_set(),
    ));
}

/// What `str::to_uppercase` gives for a text.
pub uninterp spec fn upper_of(s: Seq<char>) -> Seq<char>;

/// Relies on `str::to_uppercase`: the upper-case mapping of each character,
/// a function of the text alone.
#[verifier::external_body]
fn uppercase(s: &str) -> (r: String)
    ensures
        r@ == upper_of(s@),
{
    s.to_uppercase()
}

/// The identity of a listing: ticker and exchange, both compared exactly.
#[derive(Debug, PartialEq, Eq, PartialOrd, Ord, Hash)]
pub struct FreetradeDataKey {
    symbol: String,
    mic: Mic,
}

impl View for FreetradeDataKey {
    type V = (Seq<char>, Mic);

    closed spec fn view(&self) -> (Seq<char>, Mic) {
        (self.symbol@, self.mic)
    }
}

impl FreetradeDataKey {
    /// The key of the listing of `symbol` on `mic`.
    pub fn new(symbol: &str, mic: Mic) -> (r: FreetradeDataKey)
        ensures
            r@ == (symbol@, mic),
    {
        FreetradeDataKey { symbol: symbol.to_owned(), mic }
    }

    /// The key of a record.
    pub fn of(record: &SymbolData) -> (r: FreetradeDataKey)
        ensures
            r@ == key_of(*record),
    {
        FreetradeDataKey { symbol: record.symbol.clone(), mic: record.mic }
    }

    /// Whether `record` has this key.
    pub fn matches(&self, record: &SymbolData) -> (r: bool)
        ensures
            r == (self@ == key_of(*record)),
    {
        self.mic == record.mic && self.symbol == record.symbol
    }
}

/// The index of listings: at most one record per key, read-only once built.
pub struct FreetradeData {
    data: Vec<SymbolData>,
    rejected: usize,
}

impl View for FreetradeData {
    type V = Map<(Seq<char>, Mic), SymbolData>;

    /// The record held under each key.
    open spec fn view(&self) -> Map<(Seq<char>, Mic), SymbolData> {
        index_of(self.records())
    }
}

impl FreetradeData {
    /// The records held, in the order they are listed.
    pub closed spec fn records(&self) -> Seq<SymbolData> {
        self.data@
    }

    /// How many raw rows were rejected while building.
    pub closed spec fn rejected_count(&self) -> nat {
        self.rejected as nat
    }

    /// Whether the listing under `(symbol, mic)` is held and ISA eligible.
    pub open spec fn eligible_at(&self, symbol: Seq<char>, mic: Mic) -> bool {
        self@.contains_key((symbol, mic)) && self@[(symbol, mic)].isa_eligible
    }

    /// Well-formed: no two records held share a ticker and exchange.
    pub open spec fn wf(&self) -> bool {
        keys_unique(self.records())
    }

    /// Position in `data` of the record with key `key`, if there is one.
    fn position(&self, key: &FreetradeDataKey) -> (r: Option<usize>)
        requires
            self.wf(),
        ensures
            match r {
                Some(p) => p < self.records().len() && key_of(self.records()[p as int]) == key@,
                None => forall|i: int| 0 <= i < self.records().len() ==> key_of(#[trigger] self.records()[i]) != key@,
            },
    {
        let mut i: usize = 0;
        while i < self.data.len()
            invariant
                i <= self.data@.len(),
                forall|l: int| 0 <= l < i ==> key_of(#[trigger] self.data@[l]) != key@,
            decreases self.data@.len() - i,
        {
            if key.matches(&self.data[i]) {
                return Some(i);
            }
            i += 1;
        }
        None
    }

    /// Loads a record; it replaces the record already held under its key.
    fn insert(&mut self, record: SymbolData)
        requires
            old(self).wf(),
        ensures
            final(self).wf(),
            final(self)@ == old(self)@.insert(key_of(record), record),
            final(self).rejected_count() == old(self).rejected_count(),
    {
        let key = FreetradeDataKey::of(&record);
        match self.position(&key) {
            Some(p) => {
                proof {
                    lemma_index_update(self.data@, p as int, record);
                }
                self.data[p] = record;
            },
            None => {
                proof {
                    lemma_index_push(self.data@, record);
                }
                self.data.push(record);
            },
        }
    }

    /// Builds the index from a raw column-positional table whose first row
    /// echoes the column headers. The header row is dropped; a row with the
    /// wrong number of columns is rejected and counted; the others are
    /// decoded and loaded in order, a later row replacing an earlier one
    /// with the same ticker and exchange.
    pub fn new(rows: &Vec<Vec<String>>) -> (r: FreetradeData)
        ensures
            r.wf(),
            r@ == index_of(loaded_records(rows@)),
            r.rejected_count() == rejected_row_count(rows@),
    {
        let mut index = FreetradeData { data: Vec::new(), rejected: 0 };
        if rows.len() == 0 {
            proof {
                assert(index.data@ =~= Seq::<SymbolData>::empty());
                assert(index_of(index.records()) =~= index_of(loaded_records(rows@)));
            }
            return index;
        }
        let mut i: usize = 1;
        while i < rows.len()
            invariant
                1 <= i <= rows@.len(),
                index.wf(),
                index@ == index_of(decoded_rows(rows@.subrange(1, i as int))),
                index.rejected_count() == (i - 1) - rows@.subrange(1, i as int).filter(complete_row()).len(),
                index.rejected <= i,
            decreases rows@.len() - i,
        {
            let ghost before = rows@.subrange(1, i as int);
            proof {
                assert(rows@.subrange(1, i + 1) =~= before.push(rows@[i as int]));
                before.lemma_filter_push(rows@[i as int], complete_row());
            }
            match SymbolData::from_row(&rows[i]) {
                Ok(record) => {
                    proof {
                        before.filter(complete_row()).lemma_push_map_commute(decode_row(), rows@[i as int]);
                        lemma_index_push(decoded_rows(before), record);
                    }
                    index.insert(record);
                },
                Err(_) => {
                    index.rejected = index.rejected + 1;
                },
            }
            i += 1;
        }
        proof {
            assert(rows@.subrange(1, rows@.len() as int) =~= data_rows(rows@));
        }
        index
    }

    /// The record listed for `symbol` on `mic`, compared exactly.
    pub fn symbol_in_exchange(&self, symbol: &str, mic: Mic) -> (r: Option<&SymbolData>)
        requires
            self.wf(),
        ensures
            r is Some <==> self@.contains_key((symbol@, mic)),
            r is Some ==> *r->0 == self@[(symbol@, mic)],
    {
        let key = FreetradeDataKey::new(symbol, mic);
        proof {
            lemma_index_has_key(self.records(), key@);
        }
        match self.position(&key) {
            Some(p) => {
                proof {
                    lemma_index_keeps_last(self.records(), p as int);
                }
                Some(&self.data[p])
            },
            None => None,
        }
    }

    /// Whether the listing of `symbol` on `mic`, compared exactly, is held
    /// and is ISA eligible.
    pub fn isa_eligible_at(&self, symbol: &str, mic: Mic) -> (r: bool)
        requires
            self.wf(),
        ensures
            r == self.eligible_at(symbol@, mic),
    {
        match self.symbol_in_exchange(symbol, mic) {
            Some(record) => record.isa_eligible,
            None => false,
        }
    }

    /// Whether the listing of `symbol`, upper-cased, on `mic` is held and is
    /// ISA eligible; an absent listing is not eligible.
    pub fn is_isa_eligible(&self, symbol: &str, mic: Mic) -> (r: bool)
        requires
            self.wf(),
        ensures
            r == self.eligible_at(upper_of(symbol@), mic),
            r == (self@.contains_key((upper_of(symbol@), mic)) && self@[(upper_of(symbol@), mic)].isa_eligible),
    {
        let upper = uppercase(symbol);
        self.isa_eligible_at(upper.as_str(), mic)
    }

    /// All listings of the ticker `symbol`, on any exchange, compared exactly.
    pub fn symbol(&self, symbol: &str) -> (r: Vec<&SymbolData>)
        ensures
            referenced(r@) == self.records().filter(with_symbol(symbol@)),
    {
        let wanted = symbol.to_owned();
        let mut out: Vec<&SymbolData> = Vec::new();
        let mut i: usize = 0;
        while i < self.data.len()
            invariant
                i <= self.data@.len(),
                wanted@ == symbol@,
                referenced(out@) == self.data@.take(i as int).filter(with_symbol(symbol@)),
            decreases self.data@.len() - i,
        {
            proof {
                lemma_filter_step(self.data@, i as int, with_symbol(symbol@));
            }
            let record = &self.data[i];
            if record.symbol == wanted {
                let ghost before = out@;
                out.push(record);
                proof {
                    assert(referenced(out@) =~= referenced(before).push(*record));
                }
            }
            i += 1;
        }
        proof {
            assert(self.data@.take(self.data@.len() as int) =~= self.data@);
        }
        out
    }

    /// The ISA-eligible listings of the ticker `symbol`, compared exactly.
    pub fn isa_eligible_symbol(&self, symbol: &str) -> (r: Vec<&SymbolData>)
        ensures
            referenced(r@) == self.records().filter(eligible_with_symbol(symbol@)),
    {
        let wanted = symbol.to_owned();
        let mut out: Vec<&SymbolData> = Vec::new();
        let mut i: usize = 0;
        while i < self.data.len()
            invariant
                i <= self.data@.len(),
                wanted@ == symbol@,
                referenced(out@) == self.data@.take(i as int).filter(eligible_with_symbol(symbol@)),
            decreases self.data@.len() - i,
        {
            proof {
                lemma_filter_step(self.data@, i as int, eligible_with_symbol(symbol@));
            }
            let record = &self.data[i];
            if record.symbol == wanted && record.isa_eligible {
                let ghost before = out@;
                out.push(record);
                proof {
                    assert(referenced(out@) =~= referenced(before).push(*record));
                }
            }
            i += 1;
        }
        proof {
            assert(self.data@.take(self.data@.len() as int) =~= self.data@);
        }
        out
    }

    /// Every listing held, across all markets and exchanges.
    pub fn symbols(&self) -> (r: Vec<&SymbolData>)
        ensures
            referenced(r@) == self.records(),
    {
        let mut out: Vec<&SymbolData> = Vec::new();
        let mut i: usize = 0;
        while i < self.data.len()
            invariant
                i <= self.data@.len(),
                referenced(out@) == self.data@.take(i as int),
            decreases self.data@.len() - i,
        {
            let ghost before = out@;
            let record = &self.data[i];
            out.push(record);
            proof {
                assert(referenced(out@) =~= referenced(before).push(*record));
                assert(self.data@.take(i + 1) =~= self.data@.take(i as int).push(*record));
            }
            i += 1;
        }
        proof {
            assert(self.data@.take(self.data@.len() as int) =~= self.data@);
        }
        out
    }

    /// The listings on the exchange `exchange`.
    pub fn symbols_in_exchange(&self, exchange: &Mic) -> (r: Vec<&SymbolData>)
        ensures
            referenced(r@) == self.records().filter(on_exchange(*exchange)),
    {
        let mut out: Vec<&SymbolData> = Vec::new();
        let mut i: usize = 0;
        while i < self.data.len()
            invariant
                i <= self.data@.len(),
                referenced(out@) == self.data@.take(i as int).filter(on_exchange(*exchange)),
            decreases self.data@.len() - i,
        {
            proof {
                lemma_filter_step(self.data@, i as int, on_exchange(*exchange));
            }
            let record = &self.data[i];
            if record.mic == *exchange {
                let ghost before = out@;
                out.push(record);
                proof {
                    assert(referenced(out@) =~= referenced(before).push(*record));
                }
            }
            i += 1;
        }
        proof {
            assert(self.data@.take(self.data@.len() as int) =~= self.data@);
        }
        out
    }

    /// The listings whose exchange maps to `market`; listings on an exchange
    /// that maps to no market are left out.
    pub fn symbols_in_market(&self, market: &Market) -> (r: Vec<&SymbolData>)
        ensures
            referenced(r@) == self.records().filter(in_market(*market)),
    {
        let mut out: Vec<&SymbolData> = Vec::new();
        let mut i: usize = 0;
        while i < self.data.len()
            invariant
                i <= self.data@.len(),
                referenced(out@) == self.data@.take(i as int).filter(in_market(*market)),
            decreases self.data@.len() - i,
        {
            proof {
                lemma_filter_step(self.data@, i as int, in_market(*market));
            }
            let record = &self.data[i];
            if match record.market() {
                Ok(m) => m == *market,
                Err(_) => false,
            } {
                let ghost before = out@;
                out.push(record);
                proof {
                    assert(referenced(out@) =~= referenced(before).push(*record));
                }
            }
            i += 1;
        }
        proof {
            assert(self.data@.take(self.data@.len() as int) =~= self.data@);
        }
        out
    }

    /// The listings whose exchange maps to one of `markets`; listings on an
    /// exchange that maps to no market are left out.
    pub fn symbols_in_markets(&self, markets: Vec<&Market>) -> (r: Vec<&SymbolData>)
        ensures
            referenced(r@) == self.records().filter(in_markets(referenced_markets(markets@))),
    {
        let mut out: Vec<&SymbolData> = Vec::new();
        let mut i: usize = 0;
        while i < self.data.len()
            invariant
                i <= self.data@.len(),
                referenced(out@) == self.data@.take(i as int).filter(in_markets(referenced_markets(markets@))),
            decreases self.data@.len() - i,
        {
            proof {
                lemma_filter_step(self.data@, i as int, in_markets(referenced_markets(markets@)));
            }
            let record = &self.data[i];
            if match record.market() {
                Ok(m) => listed(&markets, m),
                Err(_) => false,
            } {
                let ghost before = out@;
                out.push(record);
                proof {
                    assert(referenced(out@) =~= referenced(before).push(*record));
                }
            }
            i += 1;
        }
        proof {
            assert(self.data@.take(self.data@.len() as int) =~= self.data@);
        }
        out
    }

    /// Every ISA-eligible listing, across all markets and exchanges.
    pub fn isa_eligible_symbols(&self) -> (r: Vec<&SymbolData>)
        ensures
            referenced(r@) == self.records().filter(eligible()),
    {
        let mut out: Vec<&SymbolData> = Vec::new();
        let mut i: usize = 0;
        while i < self.data.len()
            invariant
                i <= self.data@.len(),
                referenced(out@) == self.data@.take(i as int).filter(eligible()),
            decreases self.data@.len() - i,
        {
            proof {
                lemma_filter_step(self.data@, i as int, eligible());
            }
            let record = &self.data[i];
            if record.isa_eligible {
                let ghost before = out@;
                out.push(record);
                proof {
                    assert(referenced(out@) =~= referenced(before).push(*record));
                }
            }
            i += 1;
        }
        proof {
            assert(self.data@.take(self.data@.len() as int) =~= self.data@);
        }
        out
    }

    /// The number of raw rows rejected while building.
    pub fn rejected_rows(&self) -> (r: usize)
        ensures
            r == self.rejected_count(),
    {
        self.rejected
    }
}

} // verus!
