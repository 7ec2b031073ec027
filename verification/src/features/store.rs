//! Store of features by symbol and name. Values stand as the bits of floating-point numbers.
use crate::text::{chars_of, same_str};
use dashmap::DashMap;
use std::collections::hash_map::DefaultHasher;
use std::hash::Hasher;
use vstd::prelude::*;

verus! {

/// Maximum number of features per symbol
pub const MAX_FEATURES_PER_SYMBOL: usize = 2048;

/// The bits of one, in single precision.
pub const FULL_QUALITY: u32 = 0x3f80_0000;

/// Feature types supported by the store
#[derive(Debug, Clone, Copy, PartialEq, Eq, Hash, Structural)]
pub enum FeatureType {
    Technical,
    OrderFlow,
    OnChain,
    Sentiment,
    Volatility,
    Momentum,
}

impl FeatureType {
    /// The number of a type.
    pub open spec fn code(self) -> u8 {
        match self {
            FeatureType::Technical => 0,
            FeatureType::OrderFlow => 1,
            FeatureType::OnChain => 2,
            FeatureType::Sentiment => 3,
            FeatureType::Volatility => 4,
            FeatureType::Momentum => 5,
        }
    }

    /// The number of a type
    pub fn number(&self) -> (r: u8)
        ensures
            r == self.code(),
    {
        match self {
            FeatureType::Technical => 0,
            FeatureType::OrderFlow => 1,
            FeatureType::OnChain => 2,
            FeatureType::Sentiment => 3,
            FeatureType::Volatility => 4,
            FeatureType::Momentum => 5,
        }
    }

    pub fn as_str(&self) -> (s: &'static str)
        ensures
            s == match *self {
                FeatureType::Technical => "technical",
                FeatureType::OrderFlow => "order_flow",
                FeatureType::OnChain => "on_chain",
                FeatureType::Sentiment => "sentiment",
                FeatureType::Volatility => "volatility",
                FeatureType::Momentum => "momentum",
            },
    {
        match self {
            FeatureType::Technical => "technical",
            FeatureType::OrderFlow => "order_flow",
            FeatureType::OnChain => "on_chain",
            FeatureType::Sentiment => "sentiment",
            FeatureType::Volatility => "volatility",
            FeatureType::Momentum => "momentum",
        }
    }
}

/// Feature entry with metadata
#[derive(Debug, Clone, Copy, PartialEq, Eq, Structural)]
pub struct FeatureEntry {
    /// Feature value, as the bits of a double
    pub value: u64,
    /// Normalized value (-1 to 1), as the bits of a single
    pub normalized: u32,
    /// Feature type
    pub feature_type: FeatureType,
    /// Timestamp in nanoseconds
    pub timestamp_ns: u64,
    /// Sequence number for ordering
    pub sequence: u64,
    /// Quality score (0-1), as the bits of a single
    pub quality: u32,
}

impl Default for FeatureEntry {
    fn default() -> (e: Self)
        ensures
            e == (FeatureEntry {
                value: 0,
                normalized: 0,
                feature_type: FeatureType::Technical,
                timestamp_ns: 0,
                sequence: 0,
                quality: FULL_QUALITY,
            }),
    {
        Self {
            value: 0,
            normalized: 0,
            feature_type: FeatureType::Technical,
            timestamp_ns: 0,
            sequence: 0,
            quality: FULL_QUALITY,
        }
    }
}

/// Key for feature lookup
#[derive(Debug, Clone, PartialEq, Eq, Hash)]
pub struct FeatureKey {
    pub symbol: String,
    pub feature_name: String,
    pub feature_type: FeatureType,
}

/// What a key hands to the hasher: each text with a byte behind it that no text holds, and the
/// number of the type.
pub open spec fn hashed_parts(
    symbol: Seq<char>,
    feature_name: Seq<char>,
    feature_type: FeatureType,
) -> Seq<Seq<u8>> {
    seq![
        vstd::utf8::encode_utf8(symbol),
        seq![0xffu8],
        vstd::utf8::encode_utf8(feature_name),
        seq![0xffu8],
        seq![feature_type.code()],
    ]
}

/// The hash of a key.
pub open spec fn key_hash(
    symbol: Seq<char>,
    feature_name: Seq<char>,
    feature_type: FeatureType,
) -> u64 {
    <DefaultHasher as vstd::std_specs::hash::DefaultHasherAdditionalSpecFns>::spec_finish(
        hashed_parts(symbol, feature_name, feature_type),
    )
}

impl FeatureKey {
    pub fn new(symbol: &str, feature_name: &str, feature_type: FeatureType) -> (k: Self)
        ensures
            k.symbol@ == symbol@,
            k.feature_name@ == feature_name@,
            k.feature_type == feature_type,
    {
        Self {
            symbol: symbol.to_owned(),
            feature_name: feature_name.to_owned(),
            feature_type,
        }
    }

    /// Generate hash for the key
    pub fn hash(&self) -> (r: u64)
        ensures
            r == key_hash(self.symbol@, self.feature_name@, self.feature_type),
    {
        let mut end: Vec<u8> = Vec::new();
        end.push(0xff);
        let mut code: Vec<u8> = Vec::new();
        code.push(self.feature_type.number());
        let mut hasher = DefaultHasher::new();
        hasher.write(self.symbol.as_str().as_bytes());
        hasher.write(end.as_slice());
        hasher.write(self.feature_name.as_str().as_bytes());
        hasher.write(end.as_slice());
        hasher.write(code.as_slice());
        proof {
            assert(end@ =~= seq![0xffu8]);
            assert(code@ =~= seq![self.feature_type.code()]);
            assert(hasher@ =~= hashed_parts(
                self.symbol@,
                self.feature_name@,
                self.feature_type,
            ));
        }
        hasher.finish()
    }
}

/// Keys with the same parts have the same hash.
pub proof fn law_equal_keys_have_equal_hashes(a: FeatureKey, b: FeatureKey)
    requires
        a.symbol@ == b.symbol@,
        a.feature_name@ == b.feature_name@,
        a.feature_type == b.feature_type,
    ensures
        key_hash(a.symbol@, a.feature_name@, a.feature_type) == key_hash(
            b.symbol@,
            b.feature_name@,
            b.feature_type,
        ),
{
}

/// Feature set for a single symbol
#[derive(Debug, Default)]
pub struct SymbolFeatureSet {
    pub feature_names: Vec<String>,
    pub last_update_ns: u64,
    pub feature_count: usize,
}

/// Features of symbols.
pub type Features = Map<Seq<char>, Map<Seq<char>, FeatureEntry>>;

/// What the map of maps holds.
pub uninterp spec fn stored(m: DashMap<String, DashMap<String, FeatureEntry>>) -> Map<
    Seq<char>,
    Map<Seq<char>, FeatureEntry>,
>;

/// What the map of symbols holds.
pub uninterp spec fn registered(m: DashMap<String, SymbolFeatureSet>) -> Map<
    Seq<char>,
    SymbolFeatureSet,
>;

/// No features.
pub open spec fn no_features() -> Features {
    Map::empty()
}

/// No symbols.
pub open spec fn no_symbols() -> Map<Seq<char>, SymbolFeatureSet> {
    Map::empty()
}

/// The features of a symbol; none where it is unknown.
pub open spec fn features_for(all: Features, symbol: Seq<char>) -> Map<Seq<char>, FeatureEntry> {
    if all.contains_key(symbol) {
        all[symbol]
    } else {
        Map::empty()
    }
}

/// The features with one more, whatever stood in its place.
pub open spec fn with_feature(
    all: Features,
    symbol: Seq<char>,
    name: Seq<char>,
    entry: FeatureEntry,
) -> Features {
    all.insert(symbol, features_for(all, symbol).insert(name, entry))
}

/// The feature of a symbol, if there is one.
pub open spec fn feature_at(
    all: Features,
    symbol: Seq<char>,
    name: Seq<char>,
) -> Option<FeatureEntry> {
    if all.contains_key(symbol) && all[symbol].contains_key(name) {
        Some(all[symbol][name])
    } else {
        None
    }
}

/// True where names list keys, each once.
pub open spec fn lists(names: Seq<String>, keys: Set<Seq<char>>) -> bool {
    &&& forall|i: int| 0 <= i < names.len() ==> keys.contains(#[trigger] names[i]@)
    &&& forall|i: int, j: int|
        0 <= i < j < names.len() ==> (#[trigger] names[i])@ != (#[trigger] names[j])@
    &&& forall|k: Seq<char>| #[trigger]
        keys.contains(k) ==> exists|i: int| 0 <= i < names.len() && (#[trigger] names[i])@ == k
}

/// Calls `dashmap::DashMap::new`, which makes an empty map.
#[verifier::external_body]
fn new_store() -> (m: DashMap<String, DashMap<String, FeatureEntry>>)
    ensures
        stored(m) == no_features(),
{
    DashMap::new()
}

/// Calls `dashmap::DashMap::entry` and `or_insert_with` on the outer map, which find the map of the
/// symbol or put an empty one there, and `dashmap::DashMap::insert` on that map, which maps the name
/// to the entry whatever it was mapped to before.
#[verifier::external_body]
fn put_feature(
    m: &mut DashMap<String, DashMap<String, FeatureEntry>>,
    symbol: String,
    name: String,
    entry: FeatureEntry,
)
    ensures
        stored(*final(m)) == with_feature(stored(*old(m)), symbol@, name@, entry),
{
    m.entry(symbol).or_insert_with(DashMap::new).insert(name, entry);
}

/// Calls `dashmap::DashMap::get` on the outer map and on the map of the symbol, which find the value
/// that a key is mapped to.
#[verifier::external_body]
fn find_feature(
    m: &DashMap<String, DashMap<String, FeatureEntry>>,
    symbol: &str,
    name: &str,
) -> (r: Option<FeatureEntry>)
    ensures
        r == feature_at(stored(*m), symbol@, name@),
{
    m.get(symbol).and_then(|features| features.get(name).map(|e| *e))
}

/// Calls `dashmap::DashMap::get` on the outer map and `dashmap::DashMap::len` on the map of the
/// symbol, which counts its keys.
#[verifier::external_body]
fn count_features(m: &DashMap<String, DashMap<String, FeatureEntry>>, symbol: &str) -> (r: Option<
    usize,
>)
    ensures
        match r {
            Some(n) => stored(*m).contains_key(symbol@) && stored(*m)[symbol@].dom().finite() && n
                == stored(*m)[symbol@].dom().len(),
            None => !stored(*m).contains_key(symbol@),
        },
{
    m.get(symbol).map(|features| features.len())
}

/// Calls `dashmap::DashMap::iter`, which visits every key once, in no order that is stated.
#[verifier::external_body]
fn stored_symbols(m: &DashMap<String, DashMap<String, FeatureEntry>>) -> (r: Vec<String>)
    ensures
        lists(r@, stored(*m).dom()),
{
    m.iter().map(|e| e.key().clone()).collect()
}

/// Calls `dashmap::DashMap::get` on the outer map and `dashmap::DashMap::iter` on the map of the
/// symbol, which visits every key once, in no order that is stated.
#[verifier::external_body]
fn feature_names(m: &DashMap<String, DashMap<String, FeatureEntry>>, symbol: &str) -> (r: Option<
    Vec<String>,
>)
    ensures
        match r {
            Some(names) => stored(*m).contains_key(symbol@) && lists(
                names@,
                stored(*m)[symbol@].dom(),
            ),
            None => !stored(*m).contains_key(symbol@),
        },
{
    m.get(symbol).map(|features| features.iter().map(|e| e.key().clone()).collect())
}

/// Calls `dashmap::DashMap::get` on the outer map and `dashmap::DashMap::remove` on the map of the
/// symbol, which takes the name out where it is there.
#[verifier::external_body]
fn drop_feature(m: &mut DashMap<String, DashMap<String, FeatureEntry>>, symbol: &str, name: &str)
    ensures
        stored(*final(m)) == if stored(*old(m)).contains_key(symbol@) {
            stored(*old(m)).insert(symbol@, stored(*old(m))[symbol@].remove(name@))
        } else {
            stored(*old(m))
        },
{
    m.get(symbol).map(|features| features.remove(name));
}

/// Calls `dashmap::DashMap::new`, which makes an empty map.
#[verifier::external_body]
fn new_symbols() -> (m: DashMap<String, SymbolFeatureSet>)
    ensures
        registered(m) == no_symbols(),
{
    DashMap::new()
}

/// Calls `dashmap::DashMap::contains_key`, which says whether a key is mapped.
#[verifier::external_body]
fn has_symbol(m: &DashMap<String, SymbolFeatureSet>, symbol: &str) -> (r: bool)
    ensures
        r == registered(*m).contains_key(symbol@),
{
    m.contains_key(symbol)
}

/// Calls `dashmap::DashMap::insert`, which maps the key to the value whatever it was mapped to
/// before.
#[verifier::external_body]
fn put_symbol(m: &mut DashMap<String, SymbolFeatureSet>, symbol: String, set: SymbolFeatureSet)
    ensures
        registered(*final(m)) == registered(*old(m)).insert(symbol@, set),
{
    m.insert(symbol, set);
}

/// Calls `dashmap::DashMap::remove`, which takes the key out and hands back its value.
#[verifier::external_body]
fn take_symbol(m: &mut DashMap<String, SymbolFeatureSet>, symbol: &str) -> (r: Option<
    SymbolFeatureSet,
>)
    ensures
        registered(*final(m)) == registered(*old(m)).remove(symbol@),
        match r {
            Some(set) => registered(*old(m)).contains_key(symbol@) && set
                == registered(*old(m))[symbol@],
            None => !registered(*old(m)).contains_key(symbol@),
        },
{
    m.remove(symbol).map(|(_, set)| set)
}

/// Calls `dashmap::DashMap::iter`, which visits every key once, in no order that is stated.
#[verifier::external_body]
fn symbol_names(m: &DashMap<String, SymbolFeatureSet>) -> (r: Vec<String>)
    ensures
        lists(r@, registered(*m).dom()),
{
    m.iter().map(|e| e.key().clone()).collect()
}

/// The texts of strings.
pub open spec fn texts(names: Seq<String>) -> Seq<Seq<char>> {
    names.map_values(|s: String| s@)
}

/// Names with one more, unless it is among them.
pub open spec fn with_name(names: Seq<Seq<char>>, name: Seq<char>) -> Seq<Seq<char>> {
    if names.contains(name) {
        names
    } else {
        names.push(name)
    }
}

/// Names with more, each unless it is among them.
pub open spec fn with_names(names: Seq<Seq<char>>, more: Seq<Seq<char>>) -> Seq<Seq<char>>
    decreases more.len(),
{
    if more.len() == 0 {
        names
    } else {
        with_name(with_names(names, more.drop_last()), more.last())
    }
}

/// True where symbols are as before but for one that is there now: with nothing, where it is new.
pub open spec fn is_registered_once(
    before: Map<Seq<char>, SymbolFeatureSet>,
    now: Map<Seq<char>, SymbolFeatureSet>,
    symbol: Seq<char>,
) -> bool {
    if before.contains_key(symbol) {
        now == before
    } else {
        &&& now == before.insert(symbol, now[symbol])
        &&& now[symbol].feature_names@.len() == 0
        &&& now[symbol].last_update_ns == 0
        &&& now[symbol].feature_count == 0
    }
}

/// True where symbols are as before but for one, if it is among them, that has more names and new
/// figures.
pub open spec fn is_extended(
    before: Map<Seq<char>, SymbolFeatureSet>,
    now: Map<Seq<char>, SymbolFeatureSet>,
    symbol: Seq<char>,
    more: Seq<Seq<char>>,
    now_ns: u64,
    feature_count: nat,
) -> bool {
    if before.contains_key(symbol) {
        &&& now == before.insert(symbol, now[symbol])
        &&& texts(now[symbol].feature_names@) == with_names(
            texts(before[symbol].feature_names@),
            more,
        )
        &&& now[symbol].last_update_ns == now_ns
        &&& now[symbol].feature_count == feature_count
    } else {
        now == before
    }
}

/// True where a text comes before another, character by character.
pub open spec fn before(a: Seq<char>, b: Seq<char>) -> bool
    decreases b.len(),
{
    if b.len() == 0 {
        false
    } else if a.len() == 0 {
        true
    } else if a[0] == b[0] {
        before(a.skip(1), b.skip(1))
    } else {
        (a[0] as u32) < (b[0] as u32)
    }
}

/// True where names are in order, each before the next ones.
pub open spec fn in_order(names: Seq<Seq<char>>) -> bool {
    forall|i: int, j: int|
        0 <= i < j < names.len() ==> before(#[trigger] names[i], #[trigger] names[j])
}

/// True where names are all keys in order.
pub open spec fn is_listing(names: Seq<Seq<char>>, keys: Set<Seq<char>>) -> bool {
    &&& in_order(names)
    &&& forall|k: Seq<char>| #[trigger] keys.contains(k) == names.contains(k)
}

/// The normalized values of features by name.
pub open spec fn normalized_of(
    features: Map<Seq<char>, FeatureEntry>,
    names: Seq<Seq<char>>,
) -> Seq<u32> {
    Seq::new(names.len(), |i: int| features[names[i]].normalized)
}

/// The normalized value of a feature; zero where it is missing.
pub open spec fn normalized_or_zero(all: Features, symbol: Seq<char>, name: Seq<char>) -> u32 {
    match feature_at(all, symbol, name) {
        Some(e) => e.normalized,
        None => 0,
    }
}

/// The features that are older than is allowed.
pub open spec fn stale(all: Features, now_ns: u64, max_age_ns: u64) -> Set<
    (Seq<char>, Seq<char>),
> {
    Set::new(
        |p: (Seq<char>, Seq<char>)|
            match feature_at(all, p.0, p.1) {
                Some(e) => now_ns - e.timestamp_ns > max_age_ns,
                None => false,
            },
    )
}

/// The features without some of them.
pub open spec fn without(all: Features, gone: Set<(Seq<char>, Seq<char>)>) -> Features {
    Map::new(
        |s: Seq<char>| all.contains_key(s),
        |s: Seq<char>|
            Map::new(
                |n: Seq<char>| all[s].contains_key(n) && !gone.contains((s, n)),
                |n: Seq<char>| all[s][n],
            ),
    )
}

/// True where no feature is newer than the present.
pub open spec fn none_newer(all: Features, now_ns: u64) -> bool {
    forall|s: Seq<char>, n: Seq<char>|
        all.contains_key(s) && all[s].contains_key(n) ==> (#[trigger] all[s][n]).timestamp_ns
            <= now_ns
}

/// The concurrent map of features by symbol and name
pub struct FeatureTable {
    map: DashMap<String, DashMap<String, FeatureEntry>>,
}

impl View for FeatureTable {
    type V = Features;

    closed spec fn view(&self) -> Features {
        stored(self.map)
    }
}

/// The concurrent map of registered symbols
pub struct SymbolTable {
    map: DashMap<String, SymbolFeatureSet>,
}

impl View for SymbolTable {
    type V = Map<Seq<char>, SymbolFeatureSet>;

    closed spec fn view(&self) -> Map<Seq<char>, SymbolFeatureSet> {
        registered(self.map)
    }
}

/// Feature store
pub struct FeatureStore {
    /// Main storage: symbol -> feature_name -> FeatureEntry
    pub store: FeatureTable,
    /// Total feature count
    pub feature_count: usize,
    /// Last update timestamp
    pub last_update_ns: u64,
    /// Update counter for sequence generation
    pub update_counter: u64,
    /// Symbols registered
    pub symbols: SymbolTable,
}

impl FeatureStore {
    /// The features.
    pub open spec fn features(&self) -> Features {
        self.store@
    }

    /// The registered symbols.
    pub open spec fn known(&self) -> Map<Seq<char>, SymbolFeatureSet> {
        self.symbols@
    }

    /// Create a new feature store
    pub fn new() -> (s: Self)
        ensures
            s.features() == no_features(),
            s.known() == no_symbols(),
            s.feature_count == 0,
            s.last_update_ns == 0,
            s.update_counter == 0,
    {
        Self {
            store: FeatureTable { map: new_store() },
            feature_count: 0,
            last_update_ns: 0,
            update_counter: 0,
            symbols: SymbolTable { map: new_symbols() },
        }
    }

    /// Register a symbol; one that is registered stays as it is
    pub fn register_symbol(&mut self, symbol: &str)
        ensures
            final(self).features() == old(self).features(),
            final(self).feature_count == old(self).feature_count,
            final(self).last_update_ns == old(self).last_update_ns,
            final(self).update_counter == old(self).update_counter,
            is_registered_once(old(self).known(), final(self).known(), symbol@),
    {
        if !has_symbol(&self.symbols.map, symbol) {
            let set = SymbolFeatureSet {
                feature_names: Vec::new(),
                last_update_ns: 0,
                feature_count: 0,
            };
            put_symbol(&mut self.symbols.map, symbol.to_owned(), set);
        }
    }

    /// The entry that a new value makes.
    pub open spec fn entry_for(
        &self,
        feature_type: FeatureType,
        value: u64,
        normalized: u32,
        now_ns: u64,
    ) -> FeatureEntry {
        FeatureEntry {
            value,
            normalized,
            feature_type,
            timestamp_ns: now_ns,
            sequence: self.update_counter,
            quality: FULL_QUALITY,
        }
    }

    /// Set a feature value
    ///
    /// Updates are numbered and counted; the names of a registered symbol grow with its features.
    pub fn set_feature(
        &mut self,
        symbol: &str,
        feature_name: &str,
        feature_type: FeatureType,
        value: u64,
        normalized: u32,
        now_ns: u64,
    )
        ensures
            final(self).features() == with_feature(
                old(self).features(),
                symbol@,
                feature_name@,
                old(self).entry_for(feature_type, value, normalized, now_ns),
            ),
            final(self).feature_count == old(self).feature_count.wrapping_add(1),
            final(self).last_update_ns == now_ns,
            final(self).update_counter == old(self).update_counter.wrapping_add(1),
            is_extended(
                old(self).known(),
                final(self).known(),
                symbol@,
                seq![feature_name@],
                now_ns,
                final(self).features()[symbol@].dom().len(),
            ),
    {
        let entry = FeatureEntry {
            value,
            normalized,
            feature_type,
            timestamp_ns: now_ns,
            sequence: self.update_counter,
            quality: FULL_QUALITY,
        };
        self.update_counter = self.update_counter.wrapping_add(1);
        put_feature(&mut self.store.map, symbol.to_owned(), feature_name.to_owned(), entry);
        let count: usize = match count_features(&self.store.map, symbol) {
            Some(n) => n,
            None => 0,
        };
        let ghost known = self.known();
        match take_symbol(&mut self.symbols.map, symbol) {
            Some(set) => {
                let mut set = set;
                add_name(&mut set.feature_names, feature_name);
                set.last_update_ns = now_ns;
                set.feature_count = count;
                put_symbol(&mut self.symbols.map, symbol.to_owned(), set);
                proof {
                    assert(known.remove(symbol@).insert(symbol@, set) =~= known.insert(
                        symbol@,
                        set,
                    ));
                    let more = seq![feature_name@];
                    assert(more.drop_last() =~= Seq::<Seq<char>>::empty());
                    assert(more.last() == feature_name@);
                    reveal_with_fuel(with_names, 2);
                }
            },
            None => {
                assert(known.remove(symbol@) =~= known);
            },
        }
        self.feature_count = self.feature_count.wrapping_add(1);
        self.last_update_ns = now_ns;
    }

    /// Get a feature value
    pub fn get_feature(&self, symbol: &str, feature_name: &str) -> (r: Option<FeatureEntry>)
        ensures
            r == feature_at(self.features(), symbol@, feature_name@),
    {
        find_feature(&self.store.map, symbol, feature_name)
    }

    /// Get normalized feature value
    pub fn get_normalized(&self, symbol: &str, feature_name: &str) -> (r: Option<u32>)
        ensures
            r == match feature_at(self.features(), symbol@, feature_name@) {
                Some(e) => Some(e.normalized),
                None => None,
            },
    {
        match self.get_feature(symbol, feature_name) {
            Some(e) => Some(e.normalized),
            None => None,
        }
    }

    /// Get all features for a symbol as a vector, with zeros for missing ones
    pub fn get_features_vector(&self, symbol: &str, feature_names: &[&str]) -> (r: Vec<u32>)
        ensures
            r@ == Seq::new(
                feature_names@.len(),
                |i: int| normalized_or_zero(self.features(), symbol@, feature_names@[i]@),
            ),
    {
        let mut r: Vec<u32> = Vec::new();
        let mut i: usize = 0;
        while i < feature_names.len()
            invariant
                i <= feature_names@.len(),
                r@.len() == i,
                forall|j: int|
                    0 <= j < i ==> #[trigger] r@[j] == normalized_or_zero(
                        self.features(),
                        symbol@,
                        feature_names@[j]@,
                    ),
            decreases feature_names.len() - i,
        {
            let value: u32 = match self.get_feature(symbol, feature_names[i]) {
                Some(e) => e.normalized,
                None => 0,
            };
            r.push(value);
            i = i + 1;
        }
        assert(r@ =~= Seq::new(
            feature_names@.len(),
            |i: int| normalized_or_zero(self.features(), symbol@, feature_names@[i]@),
        ));
        r
    }

    /// Get feature count for a symbol
    pub fn get_symbol_feature_count(&self, symbol: &str) -> (r: usize)
        ensures
            self.features().contains_key(symbol@) ==> r == self.features()[symbol@].dom().len(),
            !self.features().contains_key(symbol@) ==> r == 0,
    {
        match count_features(&self.store.map, symbol) {
            Some(n) => n,
            None => 0,
        }
    }

    /// Get total feature count
    pub fn total_features(&self) -> (r: usize)
        ensures
            r == self.feature_count,
    {
        self.feature_count
    }

    /// Get last update timestamp
    pub fn last_update_ns(&self) -> (r: u64)
        ensures
            r == self.last_update_ns,
    {
        self.last_update_ns
    }

    /// Get all registered symbols, in no particular order
    pub fn get_symbols(&self) -> (r: Vec<String>)
        ensures
            lists(r@, self.known().dom()),
    {
        symbol_names(&self.symbols.map)
    }

    /// Remove stale features older than max_age_ns
    /// Returns how many there were
    pub fn remove_stale_features(&mut self, max_age_ns: u64, now_ns: u64) -> (removed: usize)
        requires
            none_newer(old(self).features(), now_ns),
        ensures
            final(self).features() == without(
                old(self).features(),
                stale(old(self).features(), now_ns, max_age_ns),
            ),
            stale(old(self).features(), now_ns, max_age_ns).finite(),
            stale(old(self).features(), now_ns, max_age_ns).len() <= usize::MAX ==> removed == stale(
                old(self).features(),
                now_ns,
                max_age_ns,
            ).len(),
            final(self).feature_count == old(self).feature_count.wrapping_sub(removed),
            final(self).known() == old(self).known(),
            final(self).last_update_ns == old(self).last_update_ns,
            final(self).update_counter == old(self).update_counter,
    {
        let ghost all = self.features();
        let ghost old_ones = stale(all, now_ns, max_age_ns);
        let ghost gone = Set::<(Seq<char>, Seq<char>)>::empty();
        let symbols = stored_symbols(&self.store.map);
        let mut removed: usize = 0;
        let mut i: usize = 0;
        proof {
            lemma_nothing_gone(all);
        }
        while i < symbols.len()
            invariant
                i <= symbols@.len(),
                all == old(self).features(),
                old_ones == stale(all, now_ns, max_age_ns),
                none_newer(all, now_ns),
                lists(symbols@, all.dom()),
                self.features() == without(all, gone),
                gone.finite(),
                gone.subset_of(old_ones),
                gone.len() <= usize::MAX ==> removed == gone.len(),
                forall|k: int, n: Seq<char>|
                    0 <= k < i ==> old_ones.contains((symbols@[k]@, n)) == #[trigger] gone.contains(
                        (symbols@[k]@, n),
                    ),
                forall|k: int, n: Seq<char>|
                    i <= k < symbols@.len() ==> !#[trigger] gone.contains((symbols@[k]@, n)),
                self.known() == old(self).known(),
                self.feature_count == old(self).feature_count,
                self.last_update_ns == old(self).last_update_ns,
                self.update_counter == old(self).update_counter,
            decreases symbols.len() - i,
        {
            let ghost symbol = symbols@[i as int]@;
            let names = match feature_names(&self.store.map, symbols[i].as_str()) {
                Some(names) => names,
                None => Vec::new(),
            };
            proof {
                assert(all.dom().contains(symbol));
                assert(self.features().contains_key(symbol));
                assert(self.features()[symbol].dom() =~= all[symbol].dom()) by {
                    assert forall|n: Seq<char>|
                        self.features()[symbol].dom().contains(n) == all[symbol].dom().contains(
                            n,
                        ) by {
                        assert(!gone.contains((symbols@[i as int]@, n)));
                    }
                }
                assert(lists(names@, all[symbol].dom()));
            }
            let mut k: usize = 0;
            while k < names.len()
                invariant
                    i < symbols@.len(),
                    k <= names@.len(),
                    symbol == symbols@[i as int]@,
                    all.contains_key(symbol),
                    all == old(self).features(),
                    old_ones == stale(all, now_ns, max_age_ns),
                        none_newer(all, now_ns),
                    lists(symbols@, all.dom()),
                    lists(names@, all[symbol].dom()),
                    self.features() == without(all, gone),
                    gone.finite(),
                    gone.subset_of(old_ones),
                    gone.len() <= usize::MAX ==> removed == gone.len(),
                    forall|j: int, n: Seq<char>|
                        0 <= j < i ==> old_ones.contains((symbols@[j]@, n))
                            == #[trigger] gone.contains((symbols@[j]@, n)),
                    forall|j: int, n: Seq<char>|
                        i < j < symbols@.len() ==> !#[trigger] gone.contains((symbols@[j]@, n)),
                    forall|j: int|
                        0 <= j < k ==> old_ones.contains((symbol, #[trigger] names@[j]@))
                            == gone.contains((symbol, names@[j]@)),
                    forall|j: int|
                        k <= j < names@.len() ==> !gone.contains((symbol, #[trigger] names@[j]@)),
                    forall|n: Seq<char>| #[trigger]
                        gone.contains((symbol, n)) ==> all[symbol].contains_key(n),
                    self.known() == old(self).known(),
                    self.feature_count == old(self).feature_count,
                    self.last_update_ns == old(self).last_update_ns,
                    self.update_counter == old(self).update_counter,
                decreases names.len() - k,
            {
                let ghost name = names@[k as int]@;
                proof {
                    assert(all[symbol].dom().contains(name));
                    assert(!gone.contains((symbol, names@[k as int]@)));
                    assert(all[symbol][name].timestamp_ns <= now_ns);
                }
                let found = find_feature(&self.store.map, symbols[i].as_str(), names[k].as_str());
                assert(found == Some(all[symbol][name]));
                if let Some(e) = found {
                    if now_ns - e.timestamp_ns > max_age_ns {
                        proof {
                            assert(old_ones.contains((symbol, name)));
                            lemma_one_more_gone(all, gone, symbol, name);
                        }
                        drop_feature(&mut self.store.map, symbols[i].as_str(), names[k].as_str());
                        removed = removed.wrapping_add(1);
                        proof {
                            let before = gone;
                            gone = before.insert((symbol, name));
                            assert forall|j: int, n: Seq<char>| 0 <= j < i implies old_ones.contains(
                                (symbols@[j]@, n),
                            ) == #[trigger] gone.contains((symbols@[j]@, n)) by {
                                assert(symbols@[j]@ != symbols@[i as int]@);
                                assert(old_ones.contains((symbols@[j]@, n)) == before.contains(
                                    (symbols@[j]@, n),
                                ));
                            }
                            assert forall|j: int, n: Seq<char>|
                                i < j < symbols@.len() implies !#[trigger] gone.contains(
                                (symbols@[j]@, n),
                            ) by {
                                assert(symbols@[i as int]@ != symbols@[j]@);
                                assert(!before.contains((symbols@[j]@, n)));
                            }
                            assert forall|j: int| k < j < names@.len() implies !gone.contains(
                                (symbol, #[trigger] names@[j]@),
                            ) by {
                                assert(names@[k as int]@ != names@[j]@);
                                assert(!before.contains((symbol, names@[j]@)));
                            }
                        }
                    }
                }
                k = k + 1;
            }
            proof {
                assert forall|n: Seq<char>| old_ones.contains((symbol, n)) == gone.contains(
                    (symbol, n),
                ) by {
                    if old_ones.contains((symbol, n)) {
                        assert(all[symbol].dom().contains(n));
                        let j = choose|j: int| 0 <= j < names@.len() && (#[trigger] names@[j])@ == n;
                        assert(old_ones.contains((symbol, names@[j]@)) == gone.contains(
                            (symbol, names@[j]@),
                        ));
                    }
                }
            }
            i = i + 1;
        }
        proof {
            assert forall|p: (Seq<char>, Seq<char>)| old_ones.contains(p) implies gone.contains(
                p,
            ) by {
                assert(all.dom().contains(p.0));
                let j = choose|j: int| 0 <= j < symbols@.len() && (#[trigger] symbols@[j])@ == p.0;
                assert(old_ones.contains((symbols@[j]@, p.1)) == gone.contains(
                    (symbols@[j]@, p.1),
                ));
            }
            assert(gone =~= old_ones);
        }
        self.feature_count = self.feature_count.wrapping_sub(removed);
        removed
    }

    /// Export features for a symbol to a flat array for ML inference: the normalized values, by
    /// name
    pub fn export_features(&self, symbol: &str) -> (r: Option<Vec<u32>>)
        ensures
            match r {
                Some(values) => self.features().contains_key(symbol@) && exists|
                    names: Seq<Seq<char>>,
                |
                    is_listing(names, self.features()[symbol@].dom()) && values@
                        == #[trigger] normalized_of(self.features()[symbol@], names),
                None => !self.features().contains_key(symbol@),
            },
    {
        let names = match feature_names(&self.store.map, symbol) {
            Some(names) => names,
            None => {
                return None;
            },
        };
        let ghost features = self.features()[symbol@];
        let sorted = sort_names(&names);
        proof {
            assert forall|k: Seq<char>| #[trigger]
                features.dom().contains(k) == texts(sorted@).contains(k) by {
                lemma_listed(names@, features.dom(), k);
            }
            assert(is_listing(texts(sorted@), features.dom()));
        }
        let mut values: Vec<u32> = Vec::new();
        let mut i: usize = 0;
        while i < sorted.len()
            invariant
                i <= sorted@.len(),
                self.features().contains_key(symbol@),
                features == self.features()[symbol@],
                is_listing(texts(sorted@), features.dom()),
                values@.len() == i,
                forall|j: int|
                    0 <= j < i ==> #[trigger] values@[j] == features[texts(sorted@)[j]].normalized,
            decreases sorted.len() - i,
        {
            let found = find_feature(&self.store.map, symbol, sorted[i].as_str());
            proof {
                assert(texts(sorted@)[i as int] == sorted@[i as int]@);
                assert(texts(sorted@).contains(sorted@[i as int]@));
                assert(features.dom().contains(sorted@[i as int]@));
            }
            let value: u32 = match found {
                Some(e) => e.normalized,
                None => 0,
            };
            values.push(value);
            i = i + 1;
        }
        assert(values@ =~= normalized_of(features, texts(sorted@)));
        Some(values)
    }
}

impl Default for FeatureStore {
    fn default() -> (s: Self)
        ensures
            s.features() == no_features(),
            s.known() == no_symbols(),
            s.feature_count == 0,
            s.last_update_ns == 0,
            s.update_counter == 0,
    {
        Self::new()
    }
}

/// Adds a name, unless it is there.
fn add_name(names: &mut Vec<String>, name: &str)
    ensures
        texts(final(names)@) == with_name(texts(old(names)@), name@),
{
    let mut i: usize = 0;
    while i < names.len()
        invariant
            i <= names@.len(),
            names@ == old(names)@,
            forall|j: int| 0 <= j < i ==> (#[trigger] names@[j])@ != name@,
        decreases names.len() - i,
    {
        if same_str(names[i].as_str(), name) {
            assert(texts(names@)[i as int] == name@);
            return ;
        }
        i = i + 1;
    }
    assert(!texts(names@).contains(name@)) by {
        if texts(names@).contains(name@) {
            let j = choose|j: int| 0 <= j < texts(names@).len() && texts(names@)[j] == name@;
            assert(names@[j]@ == name@);
        }
    }
    names.push(name.to_owned());
    assert(texts(names@) =~= texts(old(names)@).push(name@));
}

/// True where a text comes before another.
fn comes_before(a: &Vec<char>, b: &Vec<char>) -> (r: bool)
    ensures
        r == before(a@, b@),
{
    let mut i: usize = 0;
    assert(a@.skip(0) =~= a@);
    assert(b@.skip(0) =~= b@);
    while i < a.len() && i < b.len() && a[i] == b[i]
        invariant
            i <= a@.len(),
            i <= b@.len(),
            before(a@, b@) == before(a@.skip(i as int), b@.skip(i as int)),
        decreases a.len() - i,
    {
        proof {
            assert(a@.skip(i as int).skip(1) =~= a@.skip(i + 1));
            assert(b@.skip(i as int).skip(1) =~= b@.skip(i + 1));
        }
        i = i + 1;
    }
    if i >= b.len() {
        return false;
    }
    if i >= a.len() {
        return true;
    }
    (a[i] as u32) < (b[i] as u32)
}

/// Names in order.
fn sort_names(names: &Vec<String>) -> (r: Vec<String>)
    requires
        forall|i: int, j: int|
            0 <= i < j < names@.len() ==> (#[trigger] names@[i])@ != (#[trigger] names@[j])@,
    ensures
        in_order(texts(r@)),
        forall|k: Seq<char>| #[trigger] texts(r@).contains(k) == texts(names@).contains(k),
{
    let mut sorted: Vec<String> = Vec::new();
    let mut i: usize = 0;
    while i < names.len()
        invariant
            i <= names@.len(),
            forall|a: int, b: int|
                0 <= a < b < names@.len() ==> (#[trigger] names@[a])@ != (#[trigger] names@[b])@,
            in_order(texts(sorted@)),
            forall|k: Seq<char>| #[trigger]
                texts(sorted@).contains(k) == texts(names@.take(i as int)).contains(k),
        decreases names.len() - i,
    {
        let name = chars_of(names[i].as_str());
        let ghost old_texts = texts(sorted@);
        let mut k: usize = 0;
        let mut go = true;
        while go && k < sorted.len()
            invariant
                k <= sorted@.len(),
                name@ == names@[i as int]@,
                forall|a: int| 0 <= a < k ==> before((#[trigger] sorted@[a])@, name@),
                !go ==> k < sorted@.len() && !before(sorted@[k as int]@, name@),
            decreases sorted.len() - k,
                if go {
                    1int
                } else {
                    0
                },
        {
            let here = chars_of(sorted[k].as_str());
            if comes_before(&here, &name) {
                k = k + 1;
            } else {
                go = false;
            }
        }
        proof {
            assert(!old_texts.contains(name@)) by {
                if old_texts.contains(name@) {
                    assert(texts(names@.take(i as int)).contains(name@));
                    let j = choose|j: int|
                        0 <= j < texts(names@.take(i as int)).len() && texts(
                            names@.take(i as int),
                        )[j] == name@;
                    assert(names@.take(i as int)[j]@ == name@);
                    assert(names@[j]@ != names@[i as int]@);
                }
            }
            lemma_insert_in_order(old_texts, name@, k as int);
        }
        sorted.insert(k, names[i].clone());
        proof {
            assert(texts(sorted@) =~= old_texts.insert(k as int, name@));
            assert(texts(names@.take(i + 1)) =~= texts(names@.take(i as int)).push(name@));
            assert forall|t: Seq<char>| #[trigger]
                texts(sorted@).contains(t) == texts(names@.take(i + 1)).contains(t) by {
                lemma_contains_insert(old_texts, name@, k as int, t);
                lemma_contains_push(texts(names@.take(i as int)), name@, t);
                assert(old_texts.contains(t) == texts(names@.take(i as int)).contains(t));
            }
        }
        i = i + 1;
    }
    assert(names@.take(i as int) =~= names@);
    sorted
}

proof fn lemma_contains_insert(s: Seq<Seq<char>>, name: Seq<char>, k: int, t: Seq<char>)
    requires
        0 <= k <= s.len(),
    ensures
        s.insert(k, name).contains(t) == (s.contains(t) || t == name),
{
    let now = s.insert(k, name);
    assert(now[k] == name);
    if s.contains(t) {
        let j = choose|j: int| 0 <= j < s.len() && s[j] == t;
        if j < k {
            assert(now[j] == t);
        } else {
            assert(now[j + 1] == t);
        }
    }
    if now.contains(t) {
        let j = choose|j: int| 0 <= j < now.len() && now[j] == t;
        if j < k {
            assert(s[j] == t);
        } else if j > k {
            assert(s[j - 1] == t);
        }
    }
}

proof fn lemma_contains_push(s: Seq<Seq<char>>, name: Seq<char>, t: Seq<char>)
    ensures
        s.push(name).contains(t) == (s.contains(t) || t == name),
{
    let now = s.push(name);
    assert(now[s.len() as int] == name);
    if s.contains(t) {
        let j = choose|j: int| 0 <= j < s.len() && s[j] == t;
        assert(now[j] == t);
    }
    if now.contains(t) {
        let j = choose|j: int| 0 <= j < now.len() && now[j] == t;
        if j < s.len() {
            assert(s[j] == t);
        }
    }
}

proof fn lemma_code_tells_apart(a: char, b: char)
    requires
        a != b,
    ensures
        a as u32 != b as u32,
{
}

/// Of two different texts one comes before the other.
proof fn lemma_total(a: Seq<char>, b: Seq<char>)
    requires
        a != b,
    ensures
        before(a, b) || before(b, a),
    decreases a.len(),
{
    if a.len() > 0 && b.len() > 0 {
        if a[0] == b[0] {
            if a.skip(1) == b.skip(1) {
                assert(a =~= seq![a[0]] + a.skip(1));
                assert(b =~= seq![b[0]] + b.skip(1));
            }
            lemma_total(a.skip(1), b.skip(1));
        } else {
            lemma_code_tells_apart(a[0], b[0]);
        }
    } else {
        assert(a.len() != b.len()) by {
            if a.len() == b.len() {
                assert(a =~= b);
            }
        }
    }
}

/// What comes before a text comes before those behind it.
proof fn lemma_transitive(a: Seq<char>, b: Seq<char>, c: Seq<char>)
    requires
        before(a, b),
        before(b, c),
    ensures
        before(a, c),
    decreases a.len(),
{
    if a.len() > 0 && b.len() > 0 && c.len() > 0 && a[0] == b[0] && b[0] == c[0] {
        lemma_transitive(a.skip(1), b.skip(1), c.skip(1));
    }
}

proof fn lemma_insert_in_order(s: Seq<Seq<char>>, name: Seq<char>, k: int)
    requires
        in_order(s),
        0 <= k <= s.len(),
        !s.contains(name),
        forall|a: int| 0 <= a < k ==> before(#[trigger] s[a], name),
        k < s.len() ==> !before(s[k], name),
    ensures
        in_order(s.insert(k, name)),
{
    let now = s.insert(k, name);
    if k < s.len() {
        assert(s[k] != name);
        lemma_total(s[k], name);
    }
    assert forall|a: int, b: int| 0 <= a < b < now.len() implies before(
        #[trigger] now[a],
        #[trigger] now[b],
    ) by {
        if b < k {
            assert(now[a] == s[a] && now[b] == s[b]);
        } else if b == k {
            assert(now[a] == s[a]);
        } else if a < k {
            assert(now[a] == s[a] && now[b] == s[b - 1]);
        } else if a == k {
            assert(now[b] == s[b - 1]);
            if b - 1 > k {
                lemma_transitive(name, s[k], s[b - 1]);
            }
        } else {
            assert(now[a] == s[a - 1] && now[b] == s[b - 1]);
        }
    }
}

proof fn lemma_listed(names: Seq<String>, keys: Set<Seq<char>>, k: Seq<char>)
    requires
        lists(names, keys),
    ensures
        keys.contains(k) == texts(names).contains(k),
{
    if keys.contains(k) {
        let i = choose|i: int| 0 <= i < names.len() && (#[trigger] names[i])@ == k;
        assert(texts(names)[i] == k);
    }
    if texts(names).contains(k) {
        let i = choose|i: int| 0 <= i < texts(names).len() && texts(names)[i] == k;
        assert(keys.contains(names[i]@));
    }
}

proof fn lemma_nothing_gone(all: Features)
    ensures
        without(all, Set::empty()) == all,
{
    let now = without(all, Set::<(Seq<char>, Seq<char>)>::empty());
    assert forall|s: Seq<char>| #[trigger] all.dom().contains(s) implies now[s] == all[s] by {
        assert(now[s] =~= all[s]);
    }
    assert(now =~= all);
}

proof fn lemma_one_more_gone(
    all: Features,
    gone: Set<(Seq<char>, Seq<char>)>,
    symbol: Seq<char>,
    name: Seq<char>,
)
    requires
        all.contains_key(symbol),
    ensures
        without(all, gone.insert((symbol, name))) == without(all, gone).insert(
            symbol,
            without(all, gone)[symbol].remove(name),
        ),
{
    let a = without(all, gone.insert((symbol, name)));
    let b = without(all, gone).insert(symbol, without(all, gone)[symbol].remove(name));
    assert(a.dom() =~= b.dom());
    assert forall|s: Seq<char>| #[trigger] a.dom().contains(s) implies a[s] == b[s] by {
        assert(a[s] =~= b[s]);
    }
    assert(a =~= b);
}

/// A feature that was set is found, and no other is changed.
pub proof fn law_set_feature_is_found(
    all: Features,
    symbol: Seq<char>,
    name: Seq<char>,
    entry: FeatureEntry,
    other_symbol: Seq<char>,
    other_name: Seq<char>,
)
    ensures
        feature_at(with_feature(all, symbol, name, entry), symbol, name) == Some(entry),
        other_symbol != symbol || other_name != name ==> feature_at(
            with_feature(all, symbol, name, entry),
            other_symbol,
            other_name,
        ) == feature_at(all, other_symbol, other_name),
{
}

/// After stale features were removed, exactly the others are found.
pub proof fn law_stale_features_are_gone(
    all: Features,
    now_ns: u64,
    max_age_ns: u64,
    symbol: Seq<char>,
    name: Seq<char>,
)
    ensures
        feature_at(without(all, stale(all, now_ns, max_age_ns)), symbol, name) == match feature_at(
            all,
            symbol,
            name,
        ) {
            Some(e) => if now_ns - e.timestamp_ns > max_age_ns {
                None
            } else {
                Some(e)
            },
            None => None,
        },
{
}

/// There is one order of the names of a symbol's features.
pub proof fn law_listing_is_unique(a: Seq<Seq<char>>, b: Seq<Seq<char>>, keys: Set<Seq<char>>)
    requires
        is_listing(a, keys),
        is_listing(b, keys),
    ensures
        a == b,
    decreases a.len(),
{
    if a.len() == 0 {
        if b.len() > 0 {
            assert(b.contains(b[0]));
            assert(keys.contains(b[0]));
        }
        assert(a =~= b);
    } else {
        assert(a.contains(a[0]));
        assert(keys.contains(a[0]));
        assert(b.contains(a[0]));
        let i = choose|i: int| 0 <= i < b.len() && b[i] == a[0];
        assert(b.contains(b[0]));
        assert(keys.contains(b[0]));
        assert(a.contains(b[0]));
        let j = choose|j: int| 0 <= j < a.len() && a[j] == b[0];
        if i > 0 && j > 0 {
            assert(before(b[0], b[i]));
            assert(before(a[0], a[j]));
            lemma_transitive(a[0], b[0], a[0]);
            lemma_irreflexive(a[0]);
        }
        assert(a[0] == b[0]);
        let x = a.skip(1);
        let y = b.skip(1);
        let rest = keys.remove(a[0]);
        lemma_listing_tail(a, keys);
        lemma_listing_tail(b, keys);
        law_listing_is_unique(x, y, rest);
        assert(a =~= seq![a[0]] + x);
        assert(b =~= seq![b[0]] + y);
    }
}

proof fn lemma_irreflexive(a: Seq<char>)
    ensures
        !before(a, a),
    decreases a.len(),
{
    if a.len() > 0 {
        lemma_irreflexive(a.skip(1));
    }
}

proof fn lemma_listing_tail(a: Seq<Seq<char>>, keys: Set<Seq<char>>)
    requires
        is_listing(a, keys),
        a.len() > 0,
    ensures
        is_listing(a.skip(1), keys.remove(a[0])),
{
    let x = a.skip(1);
    assert forall|i: int, j: int| 0 <= i < j < x.len() implies before(
        #[trigger] x[i],
        #[trigger] x[j],
    ) by {
        assert(x[i] == a[i + 1] && x[j] == a[j + 1]);
    }
    assert forall|k: Seq<char>| #[trigger] keys.remove(a[0]).contains(k) == x.contains(k) by {
        assert(keys.contains(k) == a.contains(k));
        if x.contains(k) {
            let i = choose|i: int| 0 <= i < x.len() && x[i] == k;
            assert(a[i + 1] == k);
            assert(before(a[0], a[i + 1]));
            lemma_irreflexive(k);
        }
        if a.contains(k) && k != a[0] {
            let i = choose|i: int| 0 <= i < a.len() && a[i] == k;
            assert(x[i - 1] == k);
        }
    }
}

/// Texts are ordered as in a dictionary: by the first character in which they differ, a text before
/// its continuations.
pub proof fn law_texts_are_ordered_as_in_a_dictionary(
    prefix: Seq<char>,
    a: char,
    b: char,
    x: Seq<char>,
    y: Seq<char>,
)
    ensures
        a as u32 != b as u32 ==> before(prefix + (seq![a] + x), prefix + (seq![b] + y)) == ((
        a as u32) < (b as u32)),
        before(prefix, prefix + (seq![a] + x)),
        !before(prefix + (seq![a] + x), prefix),
        !before(prefix, prefix),
    decreases prefix.len(),
{
    lemma_irreflexive(prefix);
    let s = prefix + (seq![a] + x);
    let t = prefix + (seq![b] + y);
    if prefix.len() > 0 {
        law_texts_are_ordered_as_in_a_dictionary(prefix.skip(1), a, b, x, y);
        assert(s.skip(1) =~= prefix.skip(1) + (seq![a] + x));
        assert(t.skip(1) =~= prefix.skip(1) + (seq![b] + y));
    } else {
        assert(s =~= seq![a] + x);
        assert(t =~= seq![b] + y);
    }
}

/// Names are added at the end, each once; those that are there stay where they are.
pub proof fn law_names_are_added_once(names: Seq<Seq<char>>, more: Seq<Seq<char>>, name: Seq<char>)
    ensures
        with_names(names, more).contains(name) <==> names.contains(name) || more.contains(name),
        names.no_duplicates() ==> with_names(names, more).no_duplicates(),
        with_names(names, more).len() >= names.len(),
        with_names(names, more).take(names.len() as int) == names,
    decreases more.len(),
{
    if more.len() == 0 {
        assert(names.take(names.len() as int) =~= names);
    } else {
        let front = with_names(names, more.drop_last());
        law_names_are_added_once(names, more.drop_last(), name);
        assert(more =~= more.drop_last().push(more.last()));
        lemma_contains_push(more.drop_last(), more.last(), name);
        if front.contains(more.last()) {
        } else {
            lemma_contains_push(front, more.last(), name);
            assert(front.push(more.last()).take(names.len() as int) =~= front.take(
                names.len() as int,
            ));
            assert forall|i: int, j: int|
                0 <= i < front.push(more.last()).len() && 0 <= j < front.push(more.last()).len()
                    && i != j && names.no_duplicates() implies front.push(more.last())[i]
                != front.push(more.last())[j] by {
                if i < front.len() {
                    assert(front.contains(front[i]));
                }
                if j < front.len() {
                    assert(front.contains(front[j]));
                }
            }
        }
    }
}

/// A symbol that is not known becomes known without features; one that is known stays as it is, and so
/// does every other.
pub proof fn law_symbols_are_registered_once(
    was: Map<Seq<char>, SymbolFeatureSet>,
    now: Map<Seq<char>, SymbolFeatureSet>,
    symbol: Seq<char>,
    other: Seq<char>,
)
    requires
        is_registered_once(was, now, symbol),
    ensures
        now.contains_key(symbol),
        !was.contains_key(symbol) ==> now[symbol].feature_names@.len() == 0
            && now[symbol].feature_count == 0 && now[symbol].last_update_ns == 0,
        was.contains_key(symbol) ==> now[symbol] == was[symbol],
        other != symbol ==> now.contains_key(other) == was.contains_key(other),
        other != symbol && was.contains_key(other) ==> now[other] == was[other],
{
    if !was.contains_key(symbol) {
        assert(was.insert(symbol, now[symbol]).contains_key(symbol));
        if other != symbol {
            assert(was.insert(symbol, now[symbol]).contains_key(other) == was.contains_key(other));
        }
    }
}

/// An update of a known symbol leaves its names with those updated, its time and the number of its
/// features; no other symbol is changed, and none becomes known.
pub proof fn law_known_symbols_are_extended(
    was: Map<Seq<char>, SymbolFeatureSet>,
    now: Map<Seq<char>, SymbolFeatureSet>,
    symbol: Seq<char>,
    more: Seq<Seq<char>>,
    now_ns: u64,
    feature_count: nat,
    name: Seq<char>,
    other: Seq<char>,
)
    requires
        is_extended(was, now, symbol, more, now_ns, feature_count),
    ensures
        was.contains_key(symbol) ==> {
            &&& texts(now[symbol].feature_names@).contains(name) <==> texts(
                was[symbol].feature_names@,
            ).contains(name) || more.contains(name)
            &&& now[symbol].last_update_ns == now_ns
            &&& now[symbol].feature_count == feature_count
        },
        now.contains_key(other) == was.contains_key(other),
        other != symbol && was.contains_key(other) ==> now[other] == was[other],
{
    if was.contains_key(symbol) {
        law_names_are_added_once(texts(was[symbol].feature_names@), more, name);
        assert(was.insert(symbol, now[symbol]).contains_key(other) == was.contains_key(other));
    }
}

/// What a feature holds once it was set: what was given, when, and how many updates came before.
pub proof fn law_entry_holds_what_was_set(
    s: FeatureStore,
    feature_type: FeatureType,
    value: u64,
    normalized: u32,
    now_ns: u64,
)
    ensures
        s.entry_for(feature_type, value, normalized, now_ns).value == value,
        s.entry_for(feature_type, value, normalized, now_ns).normalized == normalized,
        s.entry_for(feature_type, value, normalized, now_ns).feature_type == feature_type,
        s.entry_for(feature_type, value, normalized, now_ns).timestamp_ns == now_ns,
        s.entry_for(feature_type, value, normalized, now_ns).sequence == s.update_counter,
        s.entry_for(feature_type, value, normalized, now_ns).quality == 0x3f80_0000,
{
}

/// The vector of a symbol holds what its features are normalized to: zero for one that is missing.
pub proof fn law_missing_features_count_as_zero(
    all: Features,
    symbol: Seq<char>,
    name: Seq<char>,
    entry: FeatureEntry,
)
    ensures
        normalized_or_zero(with_feature(all, symbol, name, entry), symbol, name)
            == entry.normalized,
        !all.contains_key(symbol) ==> normalized_or_zero(all, symbol, name) == 0,
        all.contains_key(symbol) && !all[symbol].contains_key(name) ==> normalized_or_zero(
            all,
            symbol,
            name,
        ) == 0,
        all.contains_key(symbol) && all[symbol].contains_key(name) ==> normalized_or_zero(
            all,
            symbol,
            name,
        ) == all[symbol][name].normalized,
{
}

/// The export of a symbol goes by the names of its features in order: a name that comes before
/// another in the alphabet has its value before that of the other.
pub proof fn law_export_is_alphabetical(
    features: Map<Seq<char>, FeatureEntry>,
    names: Seq<Seq<char>>,
    name: Seq<char>,
    other: Seq<char>,
)
    requires
        is_listing(names, features.dom()),
        features.contains_key(name),
        features.contains_key(other),
        before(name, other),
    ensures
        normalized_of(features, names).len() == names.len(),
        exists|i: int, j: int|
            0 <= i < j < names.len() && names[i] == name && names[j] == other && #[trigger] normalized_of(
                features,
                names,
            )[i] == features[name].normalized && #[trigger] normalized_of(features, names)[j]
                == features[other].normalized,
{
    assert(features.dom().contains(name) && features.dom().contains(other));
    assert(names.contains(name) && names.contains(other));
    let i = choose|i: int| 0 <= i < names.len() && names[i] == name;
    let j = choose|j: int| 0 <= j < names.len() && names[j] == other;
    lemma_irreflexive(name);
    if j < i {
        assert(before(names[j], names[i]));
        lemma_transitive(name, other, name);
    }
    assert(normalized_of(features, names)[i] == features[name].normalized);
    assert(normalized_of(features, names)[j] == features[other].normalized);
}

/// The types of features are numbered from zero in the order in which they are declared.
pub proof fn law_types_are_numbered()
    ensures
        FeatureType::Technical.code() == 0,
        FeatureType::OrderFlow.code() == 1,
        FeatureType::OnChain.code() == 2,
        FeatureType::Sentiment.code() == 3,
        FeatureType::Volatility.code() == 4,
        FeatureType::Momentum.code() == 5,
{
}

/// A key is hashed as its symbol, its name and its type, each text followed by a byte that no text
/// holds.
pub proof fn law_keys_are_hashed_in_parts(key: FeatureKey)
    ensures
        hashed_parts(key.symbol@, key.feature_name@, key.feature_type).len() == 5,
        hashed_parts(key.symbol@, key.feature_name@, key.feature_type)[0]
            == vstd::utf8::encode_utf8(key.symbol@),
        hashed_parts(key.symbol@, key.feature_name@, key.feature_type)[1] == seq![0xffu8],
        hashed_parts(key.symbol@, key.feature_name@, key.feature_type)[2]
            == vstd::utf8::encode_utf8(key.feature_name@),
        hashed_parts(key.symbol@, key.feature_name@, key.feature_type)[3] == seq![0xffu8],
        hashed_parts(key.symbol@, key.feature_name@, key.feature_type)[4] == seq![
            key.feature_type.code(),
        ],
{
}

} // verus!
