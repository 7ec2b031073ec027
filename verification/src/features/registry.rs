//! Feature schemas and the registry that fills the store tick by tick.
use crate::features::rolling::{ExportParts, RollingFeatures};
use crate::features::store::{FeatureEntry, FeatureStore, FeatureType, FULL_QUALITY};
use crate::features::windows::WindowTable;
use crate::doubles::ONE_BITS;
use dashmap::DashMap;
use vstd::prelude::*;

verus! {

/// Window of the indicators of a symbol
pub const WINDOW_SIZE: usize = 100;

/// Normalization types for features
#[derive(Debug, Clone, Copy, PartialEq, Eq, Structural)]
pub enum NormalizationType {
    MinMax,
    ZScore,
    Sigmoid,
    Tanh,
    NoNormalization,
}

/// Feature schema definition for ML models. The bounds are the bits of doubles.
#[derive(Debug, Clone)]
pub struct FeatureSchema {
    pub name: String,
    pub feature_type: FeatureType,
    pub normalization: NormalizationType,
    pub min_value: u64,
    pub max_value: u64,
    pub required: bool,
}

impl FeatureSchema {
    pub fn new(
        name: &str,
        feature_type: FeatureType,
        normalization: NormalizationType,
        min_value: u64,
        max_value: u64,
    ) -> (s: Self)
        ensures
            s.name@ == name@,
            s.feature_type == feature_type,
            s.normalization == normalization,
            s.min_value == min_value,
            s.max_value == max_value,
            s.required,
    {
        Self {
            name: name.to_owned(),
            feature_type,
            normalization,
            min_value,
            max_value,
            required: true,
        }
    }

    pub fn optional(self) -> (s: Self)
        ensures
            s == (FeatureSchema { required: false, ..self }),
    {
        Self {
            name: self.name,
            feature_type: self.feature_type,
            normalization: self.normalization,
            min_value: self.min_value,
            max_value: self.max_value,
            required: false,
        }
    }
}

/// What the map of schemas holds.
pub uninterp spec fn schemas_held(m: DashMap<String, Vec<FeatureSchema>>) -> Map<
    Seq<char>,
    Seq<FeatureSchema>,
>;

/// No schemas.
pub open spec fn no_schemas() -> Map<Seq<char>, Seq<FeatureSchema>> {
    Map::empty()
}

/// Calls `dashmap::DashMap::new`, which makes an empty map.
#[verifier::external_body]
fn new_schemas() -> (m: DashMap<String, Vec<FeatureSchema>>)
    ensures
        schemas_held(m) == no_schemas(),
{
    DashMap::new()
}

/// Calls `dashmap::DashMap::insert`, which maps the key to the value whatever it was mapped to
/// before.
#[verifier::external_body]
fn put_schemas(
    m: &mut DashMap<String, Vec<FeatureSchema>>,
    symbol: String,
    schemas: Vec<FeatureSchema>,
)
    ensures
        schemas_held(*final(m)) == schemas_held(*old(m)).insert(symbol@, schemas@),
{
    m.insert(symbol, schemas);
}

/// Calls `dashmap::DashMap::contains_key`, which says whether a key is mapped.
#[verifier::external_body]
fn has_schemas(m: &DashMap<String, Vec<FeatureSchema>>, symbol: &str) -> (r: bool)
    ensures
        r == schemas_held(*m).contains_key(symbol@),
{
    m.contains_key(symbol)
}

/// Calls `dashmap::DashMap::iter`, which visits every key once, in no order that is stated.
#[verifier::external_body]
fn schema_symbols(m: &DashMap<String, Vec<FeatureSchema>>) -> (r: Vec<String>)
    ensures
        crate::features::store::lists(r@, schemas_held(*m).dom()),
{
    m.iter().map(|e| e.key().clone()).collect()
}

/// A feature as it is stored: its value, as the bits of a double, and its normalized value, as the
/// bits of a single.
#[derive(Debug, Clone, Copy, PartialEq, Eq, Structural)]
pub struct Reading {
    pub value: u64,
    pub normalized: u32,
}

/// What the rolling windows of a symbol give after a tick.
#[derive(Debug, Clone, Copy, PartialEq, Eq, Structural)]
pub struct TickReadings {
    pub rsi: Reading,
    pub macd: Reading,
    pub volatility: Reading,
    pub momentum: Reading,
}

/// The entry that a reading makes.
pub open spec fn entry_of(
    reading: Reading,
    feature_type: FeatureType,
    sequence: u64,
    now_ns: u64,
) -> FeatureEntry {
    FeatureEntry {
        value: reading.value,
        normalized: reading.normalized,
        feature_type,
        timestamp_ns: now_ns,
        sequence,
        quality: FULL_QUALITY,
    }
}

/// The features after a tick: the four readings, numbered on from `sequence`.
pub open spec fn after_tick(
    all: crate::features::store::Features,
    symbol: Seq<char>,
    readings: TickReadings,
    sequence: u64,
    now_ns: u64,
) -> crate::features::store::Features {
    let second = sequence.wrapping_add(1);
    let third = second.wrapping_add(1);
    let fourth = third.wrapping_add(1);
    let a = crate::features::store::with_feature(
        all,
        symbol,
        "rsi"@,
        entry_of(readings.rsi, FeatureType::Technical, sequence, now_ns),
    );
    let b = crate::features::store::with_feature(
        a,
        symbol,
        "macd"@,
        entry_of(readings.macd, FeatureType::Technical, second, now_ns),
    );
    let c = crate::features::store::with_feature(
        b,
        symbol,
        "volatility"@,
        entry_of(readings.volatility, FeatureType::Volatility, third, now_ns),
    );
    crate::features::store::with_feature(
        c,
        symbol,
        "momentum"@,
        entry_of(readings.momentum, FeatureType::Momentum, fourth, now_ns),
    )
}

/// The names of the readings of a tick.
pub open spec fn tick_names() -> Seq<Seq<char>> {
    seq!["rsi"@, "macd"@, "volatility"@, "momentum"@]
}

proof fn lemma_tick_names(names: Seq<Seq<char>>)
    ensures
        ({
            let a = crate::features::store::with_names(names, seq!["rsi"@]);
            let b = crate::features::store::with_names(a, seq!["macd"@]);
            let c = crate::features::store::with_names(b, seq!["volatility"@]);
            crate::features::store::with_names(c, seq!["momentum"@])
                == crate::features::store::with_names(names, tick_names())
        }),
{
    let all = tick_names();
    assert(all.drop_last() =~= seq!["rsi"@, "macd"@, "volatility"@]);
    assert(all.drop_last().drop_last() =~= seq!["rsi"@, "macd"@]);
    assert(all.drop_last().drop_last().drop_last() =~= seq!["rsi"@]);
    assert(seq!["rsi"@].drop_last() =~= Seq::<Seq<char>>::empty());
    assert(seq!["macd"@].drop_last() =~= Seq::<Seq<char>>::empty());
    assert(seq!["volatility"@].drop_last() =~= Seq::<Seq<char>>::empty());
    assert(seq!["momentum"@].drop_last() =~= Seq::<Seq<char>>::empty());
    reveal_with_fuel(crate::features::store::with_names, 5);
}

/// A counter after four steps.
pub open spec fn four_on(n: u64) -> u64 {
    n.wrapping_add(1).wrapping_add(1).wrapping_add(1).wrapping_add(1)
}

/// The concurrent map of schemas by symbol
pub struct SchemaTable {
    map: DashMap<String, Vec<FeatureSchema>>,
}

impl View for SchemaTable {
    type V = Map<Seq<char>, Seq<FeatureSchema>>;

    closed spec fn view(&self) -> Map<Seq<char>, Seq<FeatureSchema>> {
        schemas_held(self.map)
    }
}

/// Feature registry managing schemas and rolling windows for all symbols. What the windows give is
/// handed in by the caller.
pub struct FeatureRegistry {
    /// Registered schemas per symbol
    pub schemas: SchemaTable,
    /// Feature store
    pub store: FeatureStore,
    /// Rolling windows per symbol
    pub windows: WindowTable,
    /// Running flag
    pub running: bool,
    /// Update counter
    pub update_count: u64,
}

impl FeatureRegistry {
    /// The schemas of the symbols.
    pub open spec fn registered(&self) -> Map<Seq<char>, Seq<FeatureSchema>> {
        self.schemas@
    }

    /// Each registered symbol, and no other, has windows of the usual size.
    pub open spec fn inv(&self) -> bool {
        &&& self.windows.inv()
        &&& self.windows@.dom() == self.registered().dom()
        &&& forall|s: Seq<char>| #[trigger]
            self.windows@.contains_key(s) ==> self.windows@[s].inv()
                && self.windows@[s].window_size == WINDOW_SIZE
    }

    /// True of a registry that knows no symbol and is not running.
    pub open spec fn blank(&self) -> bool {
        &&& self.registered() == no_schemas()
        &&& self.store.features() == crate::features::store::no_features()
        &&& self.store.known() == crate::features::store::no_symbols()
        &&& self.store.feature_count == 0
        &&& self.store.last_update_ns == 0
        &&& self.store.update_counter == 0
        &&& self.windows@ == crate::features::windows::no_windows()
        &&& !self.running
        &&& self.update_count == 0
    }

    /// True where a tick of a symbol is taken.
    pub open spec fn takes(&self, symbol: Seq<char>) -> bool {
        self.running && self.registered().contains_key(symbol)
    }

    /// Create a new feature registry
    pub fn new() -> (r: Self)
        ensures
            r.inv(),
            r.blank(),
    {
        let r = Self {
            schemas: SchemaTable { map: new_schemas() },
            store: FeatureStore::new(),
            windows: WindowTable::new(),
            running: false,
            update_count: 0,
        };
        assert(r.windows@.dom() =~= r.registered().dom());
        r
    }

    /// Register a symbol with its feature schemas, with empty windows
    pub fn register_symbol(&mut self, symbol: &str, schemas: Vec<FeatureSchema>)
        requires
            old(self).inv(),
        ensures
            final(self).inv(),
            final(self).windows@.contains_key(symbol@),
            final(self).windows@[symbol@].is_fresh(WINDOW_SIZE),
            final(self).windows@ == old(self).windows@.insert(
                symbol@,
                final(self).windows@[symbol@],
            ),
            final(self).registered() == old(self).registered().insert(symbol@, schemas@),
            crate::features::store::is_registered_once(
                old(self).store.known(),
                final(self).store.known(),
                symbol@,
            ),
            final(self).store.features() == old(self).store.features(),
            final(self).store.feature_count == old(self).store.feature_count,
            final(self).store.last_update_ns == old(self).store.last_update_ns,
            final(self).store.update_counter == old(self).store.update_counter,
            final(self).running == old(self).running,
            final(self).update_count == old(self).update_count,
    {
        put_schemas(&mut self.schemas.map, symbol.to_owned(), schemas);
        self.store.register_symbol(symbol);
        self.windows.put(symbol, RollingFeatures::new(WINDOW_SIZE));
        assert(self.windows@.dom() =~= self.registered().dom());
    }

    /// The windows of a symbol
    pub fn window_of(&self, symbol: &str) -> (r: Option<&RollingFeatures>)
        requires
            self.inv(),
        ensures
            match r {
                Some(w) => self.windows@.contains_key(symbol@) && *w == self.windows@[symbol@],
                None => !self.windows@.contains_key(symbol@),
            },
            r is Some <==> self.registered().contains_key(symbol@),
    {
        proof {
            assert(self.windows@.contains_key(symbol@) == self.windows@.dom().contains(symbol@));
            assert(self.registered().contains_key(symbol@) == self.registered().dom().contains(
                symbol@,
            ));
        }
        self.windows.get(symbol)
    }

    /// Take a tick into the windows of a symbol: its price, its volume and the change since the last
    /// price over that price
    ///
    /// A registry that is not running, or does not know the symbol, ignores the tick.
    pub fn observe(&mut self, symbol: &str, price: u64, volume: u64, change: u64, now_ns: u64)
        requires
            old(self).inv(),
            old(self).takes(symbol@) ==> old(self).windows@[symbol@].prices.write_pos < usize::MAX,
        ensures
            final(self).inv(),
            final(self).windows@.dom() == old(self).windows@.dom(),
            old(self).takes(symbol@) ==> final(self).windows@[symbol@].is_updated(
                old(self).windows@[symbol@],
                price,
                volume,
                change,
                now_ns,
            ),
            forall|s: Seq<char>| #[trigger]
                old(self).windows@.contains_key(s) && s != symbol@ ==> final(self).windows@[s]
                    == old(self).windows@[s],
            !old(self).takes(symbol@) ==> final(self).windows == old(self).windows,
            *final(self) == (FeatureRegistry { windows: final(self).windows, ..*old(self) }),
    {
        if !self.running {
            return ;
        }
        proof {
            assert(self.windows@.contains_key(symbol@) == self.windows@.dom().contains(symbol@));
            assert(self.registered().contains_key(symbol@) == self.registered().dom().contains(
                symbol@,
            ));
        }
        if self.windows.has(symbol) {
            self.windows.update(symbol, price, volume, change, now_ns);
            assert forall|s: Seq<char>| #[trigger] self.windows@.contains_key(s) implies
                self.windows@[s].inv() && self.windows@[s].window_size == WINDOW_SIZE by {
                assert(old(self).windows@.dom().contains(s));
                assert(old(self).windows@.contains_key(s));
            }
        }
    }

    /// Keep the indicators that the windows of a symbol give after a tick
    pub fn set_indicators(&mut self, symbol: &str, rsi: u64, macd: u64)
        requires
            old(self).inv(),
        ensures
            final(self).inv(),
            final(self).windows@ == if old(self).takes(symbol@) {
                old(self).windows@.insert(
                    symbol@,
                    old(self).windows@[symbol@].with_indicators(rsi, macd),
                )
            } else {
                old(self).windows@
            },
            *final(self) == (FeatureRegistry { windows: final(self).windows, ..*old(self) }),
    {
        proof {
            assert(self.windows@.contains_key(symbol@) == self.windows@.dom().contains(symbol@));
            assert(self.registered().contains_key(symbol@) == self.registered().dom().contains(
                symbol@,
            ));
        }
        if self.running {
            self.windows.set_indicators(symbol, rsi, macd);
        }
        assert(self.windows@.dom() =~= old(self).windows@.dom());
    }

    /// Process a new tick for a symbol
    ///
    /// The readings of a registered symbol are stored; a registry that is not running ignores the
    /// tick.
    pub fn process_tick(&mut self, symbol: &str, readings: &TickReadings, now_ns: u64)
        ensures
            old(self).inv() ==> final(self).inv(),
            final(self).windows == old(self).windows,
            final(self).registered() == old(self).registered(),
            final(self).running == old(self).running,
            final(self).update_count == if old(self).running {
                old(self).update_count.wrapping_add(1)
            } else {
                old(self).update_count
            },
            old(self).running && old(self).registered().contains_key(symbol@) ==> {
                &&& final(self).store.features() == after_tick(
                    old(self).store.features(),
                    symbol@,
                    *readings,
                    old(self).store.update_counter,
                    now_ns,
                )
                &&& final(self).store.last_update_ns == now_ns
                &&& final(self).store.update_counter == four_on(old(self).store.update_counter)
                &&& final(self).store.feature_count == old(self).store.feature_count.wrapping_add(
                    1,
                ).wrapping_add(1).wrapping_add(1).wrapping_add(1)
                &&& crate::features::store::is_extended(
                    old(self).store.known(),
                    final(self).store.known(),
                    symbol@,
                    tick_names(),
                    now_ns,
                    final(self).store.features()[symbol@].dom().len(),
                )
            },
            !(old(self).running && old(self).registered().contains_key(symbol@)) ==> final(self).store == old(self).store,
    {
        if !self.running {
            return ;
        }
        if has_schemas(&self.schemas.map, symbol) {
            let ghost known = self.store.known();
            self.store.set_feature(
                symbol,
                "rsi",
                FeatureType::Technical,
                readings.rsi.value,
                readings.rsi.normalized,
                now_ns,
            );
            self.store.set_feature(
                symbol,
                "macd",
                FeatureType::Technical,
                readings.macd.value,
                readings.macd.normalized,
                now_ns,
            );
            self.store.set_feature(
                symbol,
                "volatility",
                FeatureType::Volatility,
                readings.volatility.value,
                readings.volatility.normalized,
                now_ns,
            );
            self.store.set_feature(
                symbol,
                "momentum",
                FeatureType::Momentum,
                readings.momentum.value,
                readings.momentum.normalized,
                now_ns,
            );
            proof {
                let now = self.store.known();
                if known.contains_key(symbol@) {
                    assert(now =~= known.insert(symbol@, now[symbol@]));
                }
                lemma_tick_names(
                    crate::features::store::texts(known[symbol@].feature_names@),
                );
            }
        }
        self.update_count = self.update_count.wrapping_add(1);
    }

    /// Get feature vector for ML inference: the features that the rolling windows of a registered
    /// symbol give, and what the store exports for any other
    pub fn get_feature_vector(&self, symbol: &str, parts: ExportParts) -> (r: Option<Vec<u32>>)
        ensures
            self.registered().contains_key(symbol@) ==> r is Some && r->0@ == parts.listed(),
            !self.registered().contains_key(symbol@) ==> match r {
                Some(values) => self.store.features().contains_key(symbol@) && exists|
                    names: Seq<Seq<char>>,
                |
                    crate::features::store::is_listing(
                        names,
                        self.store.features()[symbol@].dom(),
                    ) && values@ == #[trigger] crate::features::store::normalized_of(
                        self.store.features()[symbol@],
                        names,
                    ),
                None => !self.store.features().contains_key(symbol@),
            },
    {
        if has_schemas(&self.schemas.map, symbol) {
            Some(RollingFeatures::export_features(parts))
        } else {
            self.store.export_features(symbol)
        }
    }

    /// Get all registered symbols, in no particular order
    pub fn get_symbols(&self) -> (r: Vec<String>)
        ensures
            crate::features::store::lists(r@, self.registered().dom()),
    {
        schema_symbols(&self.schemas.map)
    }

    /// Start the feature registry background tasks
    pub fn start(&mut self)
        ensures
            *final(self) == (FeatureRegistry { running: true, ..*old(self) }),
    {
        self.running = true;
    }

    /// Stop the feature registry
    pub fn stop(&mut self)
        ensures
            *final(self) == (FeatureRegistry { running: false, ..*old(self) }),
    {
        self.running = false;
    }

    /// Get update count
    pub fn get_update_count(&self) -> (n: u64)
        ensures
            n == self.update_count,
    {
        self.update_count
    }

    /// Get reference to feature store
    pub fn store(&self) -> (s: &FeatureStore)
        ensures
            *s == self.store,
    {
        &self.store
    }
}

impl Default for FeatureRegistry {
    fn default() -> (r: Self)
        ensures
            r.inv(),
            r.blank(),
    {
        Self::new()
    }
}

/// True where schemas are those of a trading pair.
pub open spec fn is_default_schemas(schemas: Seq<FeatureSchema>) -> bool {
    &&& schemas.len() == 5
    &&& is_schema(
        schemas[0],
        "rsi"@,
        FeatureType::Technical,
        NormalizationType::MinMax,
        ZERO_BITS,
        HUNDRED_BITS,
    )
    &&& is_schema(
        schemas[1],
        "macd"@,
        FeatureType::Technical,
        NormalizationType::ZScore,
        MINUS_FIFTY_BITS,
        FIFTY_BITS,
    )
    &&& is_schema(
        schemas[2],
        "volatility"@,
        FeatureType::Volatility,
        NormalizationType::Tanh,
        ZERO_BITS,
        ONE_BITS,
    )
    &&& is_schema(
        schemas[3],
        "momentum"@,
        FeatureType::Momentum,
        NormalizationType::Sigmoid,
        MINUS_ONE_BITS,
        ONE_BITS,
    )
    &&& is_schema(
        schemas[4],
        "volume_profile"@,
        FeatureType::OrderFlow,
        NormalizationType::MinMax,
        ZERO_BITS,
        ONE_BITS,
    )
}

/// True of a required schema with the given parts.
pub open spec fn is_schema(
    s: FeatureSchema,
    name: Seq<char>,
    feature_type: FeatureType,
    normalization: NormalizationType,
    min_value: u64,
    max_value: u64,
) -> bool {
    &&& s.name@ == name
    &&& s.feature_type == feature_type
    &&& s.normalization == normalization
    &&& s.min_value == min_value
    &&& s.max_value == max_value
    &&& s.required
}

/// The bits of 0, in double precision.
pub const ZERO_BITS: u64 = 0;

/// The bits of -1, in double precision.
pub const MINUS_ONE_BITS: u64 = 0xbff0_0000_0000_0000;

/// The bits of 50, in double precision.
pub const FIFTY_BITS: u64 = 0x4049_0000_0000_0000;

/// The bits of -50, in double precision.
pub const MINUS_FIFTY_BITS: u64 = 0xc049_0000_0000_0000;

/// The bits of 100, in double precision.
pub const HUNDRED_BITS: u64 = 0x4059_0000_0000_0000;

/// Features of a symbol, as they are written to shared memory
#[derive(Debug)]
pub struct FeatureFrame {
    pub symbol_id: u64,
    pub features: Vec<u32>,
    pub timestamp_ns: u64,
    pub flags: u32,
}

/// Feature manager coordinating all feature-related operations
pub struct FeatureManager {
    pub registry: FeatureRegistry,
    /// True where features are written to shared memory
    pub shared: bool,
    pub running: bool,
}

impl FeatureManager {
    /// Create a new feature manager
    pub fn new() -> (m: Self)
        ensures
            m.registry.inv(),
            m.registry.blank(),
            !m.shared,
            !m.running,
    {
        Self { registry: FeatureRegistry::new(), shared: false, running: false }
    }

    /// Initialize with shared memory
    pub fn with_shared_memory(self) -> (m: Self)
        ensures
            m == (FeatureManager { shared: true, ..self }),
    {
        Self { registry: self.registry, shared: true, running: self.running }
    }

    /// Register a trading pair
    pub fn register_symbol(&mut self, symbol: &str)
        requires
            old(self).registry.inv(),
        ensures
            final(self).registry.inv(),
            final(self).registry.windows@.contains_key(symbol@),
            final(self).registry.windows@[symbol@].is_fresh(WINDOW_SIZE),
            final(self).registry.windows@ == old(self).registry.windows@.insert(
                symbol@,
                final(self).registry.windows@[symbol@],
            ),
            final(self).registry.registered().contains_key(symbol@),
            is_default_schemas(final(self).registry.registered()[symbol@]),
            final(self).registry.registered() == old(self).registry.registered().insert(
                symbol@,
                final(self).registry.registered()[symbol@],
            ),
            crate::features::store::is_registered_once(
                old(self).registry.store.known(),
                final(self).registry.store.known(),
                symbol@,
            ),
            final(self).registry.store.features() == old(self).registry.store.features(),
            final(self).registry.store.feature_count == old(self).registry.store.feature_count,
            final(self).registry.store.last_update_ns == old(self).registry.store.last_update_ns,
            final(self).registry.store.update_counter == old(self).registry.store.update_counter,
            final(self).registry.running == old(self).registry.running,
            final(self).registry.update_count == old(self).registry.update_count,
            final(self).shared == old(self).shared,
            final(self).running == old(self).running,
    {
        let mut schemas: Vec<FeatureSchema> = Vec::new();
        schemas.push(
            FeatureSchema::new(
                "rsi",
                FeatureType::Technical,
                NormalizationType::MinMax,
                ZERO_BITS,
                HUNDRED_BITS,
            ),
        );
        schemas.push(
            FeatureSchema::new(
                "macd",
                FeatureType::Technical,
                NormalizationType::ZScore,
                MINUS_FIFTY_BITS,
                FIFTY_BITS,
            ),
        );
        schemas.push(
            FeatureSchema::new(
                "volatility",
                FeatureType::Volatility,
                NormalizationType::Tanh,
                ZERO_BITS,
                ONE_BITS,
            ),
        );
        schemas.push(
            FeatureSchema::new(
                "momentum",
                FeatureType::Momentum,
                NormalizationType::Sigmoid,
                MINUS_ONE_BITS,
                ONE_BITS,
            ),
        );
        schemas.push(
            FeatureSchema::new(
                "volume_profile",
                FeatureType::OrderFlow,
                NormalizationType::MinMax,
                ZERO_BITS,
                ONE_BITS,
            ),
        );
        self.registry.register_symbol(symbol, schemas);
    }

    /// Process market data tick
    ///
    /// Hands back what is to be written to shared memory, where there is any: the features of the
    /// symbol, if it has some.
    pub fn process_tick(
        &mut self,
        symbol: &str,
        readings: &TickReadings,
        parts: ExportParts,
        now_ns: u64,
    ) -> (frame: Option<FeatureFrame>)
        ensures
            old(self).registry.inv() ==> final(self).registry.inv(),
            final(self).registry.windows == old(self).registry.windows,
            final(self).shared == old(self).shared,
            final(self).running == old(self).running,
            final(self).registry.registered() == old(self).registry.registered(),
            final(self).registry.running == old(self).registry.running,
            final(self).registry.update_count == if old(self).registry.running {
                old(self).registry.update_count.wrapping_add(1)
            } else {
                old(self).registry.update_count
            },
            old(self).registry.running && old(self).registry.registered().contains_key(symbol@) ==> {
                &&& final(self).registry.store.features() == after_tick(
                    old(self).registry.store.features(),
                    symbol@,
                    *readings,
                    old(self).registry.store.update_counter,
                    now_ns,
                )
                &&& crate::features::store::is_extended(
                    old(self).registry.store.known(),
                    final(self).registry.store.known(),
                    symbol@,
                    tick_names(),
                    now_ns,
                    final(self).registry.store.features()[symbol@].dom().len(),
                )
                &&& final(self).registry.store.last_update_ns == now_ns
                &&& final(self).registry.store.update_counter == four_on(
                    old(self).registry.store.update_counter,
                )
                &&& final(self).registry.store.feature_count == old(self).registry.store.feature_count.wrapping_add(1).wrapping_add(1).wrapping_add(
                    1,
                ).wrapping_add(1)
            },
            !(old(self).registry.running && old(self).registry.registered().contains_key(symbol@))
                ==> final(self).registry.store == old(self).registry.store,
            frame is Some == (old(self).shared && (old(self).registry.registered().contains_key(
                symbol@,
            ) || old(self).registry.store.features().contains_key(symbol@))),
            match frame {
                Some(f) => {
                    &&& f.symbol_id == symbol_id(symbol@)
                    &&& f.timestamp_ns == now_ns
                    &&& f.flags == 0
                    &&& old(self).registry.registered().contains_key(symbol@) ==> f.features@
                        == parts.listed()
                    &&& !old(self).registry.registered().contains_key(symbol@) ==> exists|
                        names: Seq<Seq<char>>,
                    |
                        crate::features::store::is_listing(
                            names,
                            old(self).registry.store.features()[symbol@].dom(),
                        ) && f.features@ == #[trigger] crate::features::store::normalized_of(
                            old(self).registry.store.features()[symbol@],
                            names,
                        )
                },
                None => true,
            },
    {
        self.registry.process_tick(symbol, readings, now_ns);
        if !self.shared {
            return None;
        }
        match self.registry.get_feature_vector(symbol, parts) {
            Some(features) => Some(
                FeatureFrame {
                    symbol_id: symbol_to_u64(symbol),
                    features,
                    timestamp_ns: now_ns,
                    flags: 0,
                },
            ),
            None => None,
        }
    }

    /// Get feature vector for inference
    pub fn get_features(&self, symbol: &str, parts: ExportParts) -> (r: Option<Vec<u32>>)
        ensures
            self.registry.registered().contains_key(symbol@) ==> r is Some && r->0@
                == parts.listed(),
            !self.registry.registered().contains_key(symbol@) ==> match r {
                Some(values) => self.registry.store.features().contains_key(symbol@) && exists|
                    names: Seq<Seq<char>>,
                |
                    crate::features::store::is_listing(
                        names,
                        self.registry.store.features()[symbol@].dom(),
                    ) && values@ == #[trigger] crate::features::store::normalized_of(
                        self.registry.store.features()[symbol@],
                        names,
                    ),
                None => !self.registry.store.features().contains_key(symbol@),
            },
    {
        self.registry.get_feature_vector(symbol, parts)
    }

    /// Start the feature manager
    pub fn start(&mut self)
        ensures
            final(self).running,
            final(self).registry == (FeatureRegistry { running: true, ..old(self).registry }),
            final(self).shared == old(self).shared,
    {
        self.running = true;
        self.registry.start();
    }

    /// Stop the feature manager
    pub fn stop(&mut self)
        ensures
            !final(self).running,
            final(self).registry == (FeatureRegistry { running: false, ..old(self).registry }),
            final(self).shared == old(self).shared,
    {
        self.running = false;
        self.registry.stop();
    }

    /// Check if running
    pub fn is_running(&self) -> (r: bool)
        ensures
            r == self.running,
    {
        self.running
    }
}

impl Default for FeatureManager {
    fn default() -> (m: Self)
        ensures
            m.registry.inv(),
            m.registry.blank(),
            !m.shared,
            !m.running,
    {
        Self::new()
    }
}

/// The first eight bytes of a text, or all where there are fewer.
pub open spec fn leading_bytes(s: Seq<u8>) -> Seq<u8> {
    s.take(if s.len() < 8 {
        s.len() as int
    } else {
        8
    })
}

/// The identifier of a symbol: its first eight bytes as a number, least significant first.
pub open spec fn symbol_id(symbol: Seq<char>) -> nat {
    crate::bytes::le_number(leading_bytes(vstd::utf8::encode_utf8(symbol)))
}

/// Eight bytes or fewer denote a `u64`.
proof fn lemma_short_number(s: Seq<u8>)
    requires
        s.len() <= 8,
    ensures
        crate::bytes::le_number(s) <= u64::MAX,
{
    reveal_with_fuel(crate::bytes::le_number, 9);
}

/// The bytes from some place on denote no more than all of them.
proof fn lemma_tail_is_smaller(s: Seq<u8>, k: int)
    requires
        0 <= k <= s.len(),
    ensures
        crate::bytes::le_number(s.skip(k)) <= crate::bytes::le_number(s),
    decreases k,
{
    if k == 0 {
        assert(s.skip(0) =~= s);
    } else {
        lemma_tail_is_smaller(s.skip(1), k - 1);
        assert(s.skip(1).skip(k - 1) =~= s.skip(k));
    }
}

/// Convert symbol string to u64 ID
pub fn symbol_to_u64(symbol: &str) -> (id: u64)
    ensures
        id == symbol_id(symbol@),
{
    let bytes = symbol.as_bytes();
    let n: usize = if bytes.len() < 8 {
        bytes.len()
    } else {
        8
    };
    let ghost lead = leading_bytes(bytes@);
    let mut id: u64 = 0;
    let mut i: usize = n;
    assert(lead.skip(n as int) =~= Seq::<u8>::empty());
    while i > 0
        invariant
            i <= n <= bytes@.len(),
            n <= 8,
            lead == leading_bytes(bytes@),
            lead.len() == n,
            id == crate::bytes::le_number(lead.skip(i as int)),
        decreases i,
    {
        let ghost old_i = i as int;
        i = i - 1;
        proof {
            assert(lead.skip(i as int).skip(1) =~= lead.skip(old_i));
            assert(lead.skip(i as int)[0] == bytes@[i as int]);
            lemma_short_number(lead);
            lemma_tail_is_smaller(lead, i as int);
        }
        id = bytes[i] as u64 + 256 * id;
    }
    assert(lead.skip(0) =~= lead);
    id
}

/// Symbols of at most eight bytes, none of them zero, have different identifiers where they differ.
pub proof fn law_short_symbols_have_different_ids(a: Seq<char>, b: Seq<char>)
    requires
        vstd::utf8::encode_utf8(a).len() <= 8,
        vstd::utf8::encode_utf8(b).len() <= 8,
        !vstd::utf8::encode_utf8(a).contains(0),
        !vstd::utf8::encode_utf8(b).contains(0),
        a != b,
    ensures
        symbol_id(a) != symbol_id(b),
{
    let x = vstd::utf8::encode_utf8(a);
    let y = vstd::utf8::encode_utf8(b);
    assert(leading_bytes(x) =~= x);
    assert(leading_bytes(y) =~= y);
    if symbol_id(a) == symbol_id(b) {
        assert forall|i: int| 0 <= i < x.len() implies x[i] != 0 by {
            assert(x.contains(x[i]));
        }
        assert forall|i: int| 0 <= i < y.len() implies y[i] != 0 by {
            assert(y.contains(y[i]));
        }
        lemma_same_number(x, y);
        vstd::utf8::encode_utf8_decode_utf8(a);
        vstd::utf8::encode_utf8_decode_utf8(b);
    }
}

proof fn lemma_same_number(x: Seq<u8>, y: Seq<u8>)
    requires
        crate::bytes::le_number(x) == crate::bytes::le_number(y),
        forall|i: int| 0 <= i < x.len() ==> x[i] != 0,
        forall|i: int| 0 <= i < y.len() ==> y[i] != 0,
    ensures
        x == y,
    decreases x.len(),
{
    if x.len() == 0 {
        assert(y.len() == 0) by {
            if y.len() > 0 {
                assert(y[0] != 0);
            }
        }
        assert(x =~= y);
    } else {
        assert(x[0] != 0);
        assert(y.len() > 0);
        assert(y[0] != 0);
        assert(x[0] == y[0]);
        assert forall|i: int| 0 <= i < x.skip(1).len() implies x.skip(1)[i] != 0 by {
            assert(x[i + 1] != 0);
        }
        assert forall|i: int| 0 <= i < y.skip(1).len() implies y.skip(1)[i] != 0 by {
            assert(y[i + 1] != 0);
        }
        lemma_same_number(x.skip(1), y.skip(1));
        assert(x =~= seq![x[0]] + x.skip(1));
        assert(y =~= seq![y[0]] + y.skip(1));
    }
}

/// After a tick of a registered symbol its four readings are found, and nothing else has changed.
pub proof fn law_tick_is_found(
    all: crate::features::store::Features,
    symbol: Seq<char>,
    readings: TickReadings,
    sequence: u64,
    now_ns: u64,
    other_symbol: Seq<char>,
    name: Seq<char>,
)
    ensures
        ({
            let now = after_tick(all, symbol, readings, sequence, now_ns);
            &&& crate::features::store::feature_at(now, symbol, "rsi"@) == Some(
                entry_of(readings.rsi, FeatureType::Technical, sequence, now_ns),
            )
            &&& crate::features::store::feature_at(now, symbol, "macd"@) == Some(
                entry_of(readings.macd, FeatureType::Technical, sequence.wrapping_add(1), now_ns),
            )
            &&& crate::features::store::feature_at(now, symbol, "volatility"@) == Some(
                entry_of(
                    readings.volatility,
                    FeatureType::Volatility,
                    sequence.wrapping_add(1).wrapping_add(1),
                    now_ns,
                ),
            )
            &&& crate::features::store::feature_at(now, symbol, "momentum"@) == Some(
                entry_of(
                    readings.momentum,
                    FeatureType::Momentum,
                    sequence.wrapping_add(1).wrapping_add(1).wrapping_add(1),
                    now_ns,
                ),
            )
            &&& other_symbol != symbol || (name != "rsi"@ && name != "macd"@ && name
                != "volatility"@ && name != "momentum"@)
                ==> crate::features::store::feature_at(now, other_symbol, name)
                == crate::features::store::feature_at(all, other_symbol, name)
        }),
{
    reveal_strlit("rsi");
    reveal_strlit("macd");
    reveal_strlit("volatility");
    reveal_strlit("momentum");
    assert("rsi"@.len() == 3 && "macd"@.len() == 4 && "volatility"@.len() == 10
        && "momentum"@.len() == 8);
}

/// What a tick leaves of a reading: its two numbers, its type, when it came and its place among the
/// updates.
pub proof fn law_reading_is_kept(
    reading: Reading,
    feature_type: FeatureType,
    sequence: u64,
    now_ns: u64,
)
    ensures
        entry_of(reading, feature_type, sequence, now_ns).value == reading.value,
        entry_of(reading, feature_type, sequence, now_ns).normalized == reading.normalized,
        entry_of(reading, feature_type, sequence, now_ns).feature_type == feature_type,
        entry_of(reading, feature_type, sequence, now_ns).timestamp_ns == now_ns,
        entry_of(reading, feature_type, sequence, now_ns).sequence == sequence,
        entry_of(reading, feature_type, sequence, now_ns).quality == 0x3f80_0000,
{
}

/// A tick sets four features, so the counts go up by four.
pub proof fn law_tick_counts_four(n: u64)
    ensures
        tick_names().len() == 4,
        n as int + 4 <= u64::MAX ==> four_on(n) == n + 4,
        tick_names().contains("rsi"@),
        tick_names().contains("macd"@),
        tick_names().contains("volatility"@),
        tick_names().contains("momentum"@),
{
    assert(tick_names()[0] == "rsi"@);
    assert(tick_names()[1] == "macd"@);
    assert(tick_names()[2] == "volatility"@);
    assert(tick_names()[3] == "momentum"@);
}

/// Ticks are taken only while the registry runs, and only of symbols that were registered.
pub proof fn law_registered_symbols_are_taken(r: FeatureRegistry, symbol: Seq<char>)
    ensures
        !r.running ==> !r.takes(symbol),
        !r.registered().contains_key(symbol) ==> !r.takes(symbol),
        r.running && r.registered().contains_key(symbol) ==> r.takes(symbol),
{
}

/// The range of each default schema is not empty: relative strength lies between zero and a hundred,
/// the moving averages between minus fifty and fifty, momentum between minus one and one, the others
/// between zero and one.
pub proof fn law_default_ranges(schemas: Seq<FeatureSchema>)
    requires
        is_default_schemas(schemas),
    ensures
        schemas.len() == 5,
        schemas[0].name@ == "rsi"@ && crate::doubles::units(schemas[0].min_value) == 0
            && crate::doubles::units(schemas[0].max_value) == 100 * crate::doubles::units(ONE_BITS),
        schemas[1].name@ == "macd"@ && crate::doubles::units(schemas[1].min_value) == -50
            * crate::doubles::units(ONE_BITS) && crate::doubles::units(schemas[1].max_value) == 50
            * crate::doubles::units(ONE_BITS),
        schemas[2].name@ == "volatility"@ && crate::doubles::units(schemas[2].min_value) == 0
            && crate::doubles::units(schemas[2].max_value) == crate::doubles::units(ONE_BITS),
        schemas[3].name@ == "momentum"@ && crate::doubles::units(schemas[3].min_value)
            == -crate::doubles::units(ONE_BITS) && crate::doubles::units(schemas[3].max_value)
            == crate::doubles::units(ONE_BITS),
        schemas[4].name@ == "volume_profile"@ && crate::doubles::units(schemas[4].min_value) == 0
            && crate::doubles::units(schemas[4].max_value) == crate::doubles::units(ONE_BITS),
        schemas[0].feature_type == FeatureType::Technical && schemas[0].normalization
            == NormalizationType::MinMax,
        schemas[1].feature_type == FeatureType::Technical && schemas[1].normalization
            == NormalizationType::ZScore,
        schemas[2].feature_type == FeatureType::Volatility && schemas[2].normalization
            == NormalizationType::Tanh,
        schemas[3].feature_type == FeatureType::Momentum && schemas[3].normalization
            == NormalizationType::Sigmoid,
        schemas[4].feature_type == FeatureType::OrderFlow && schemas[4].normalization
            == NormalizationType::MinMax,
        forall|i: int| 0 <= i < 5 ==> (#[trigger] schemas[i]).required,
{
    crate::doubles::lemma_units_at(HUNDRED_BITS, 1029, 0x9_0000_0000_0000);
    crate::doubles::lemma_units_at(FIFTY_BITS, 1028, 0x9_0000_0000_0000);
    crate::doubles::lemma_units_at(ONE_BITS, 1023, 0);
    crate::doubles::law_signs_turn_values_round(FIFTY_BITS);
    crate::doubles::law_signs_turn_values_round(ONE_BITS);
    crate::doubles::law_values_are_ordered(ZERO_BITS, ZERO_BITS);
    assert(crate::doubles::negative(FIFTY_BITS) == MINUS_FIFTY_BITS);
    assert(crate::doubles::negative(ONE_BITS) == MINUS_ONE_BITS);
    vstd::arithmetic::power2::lemma_pow2_unfold(1023);
    vstd::arithmetic::power2::lemma_pow2_unfold(1024);
    vstd::arithmetic::power2::lemma_pow2_unfold(1025);
    vstd::arithmetic::power2::lemma_pow2_unfold(1026);
    vstd::arithmetic::power2::lemma_pow2_unfold(1027);
    vstd::arithmetic::power2::lemma_pow2_unfold(1028);
}

/// The identifier of a symbol is the little-endian number of its first eight bytes: the first byte
/// counts once, each later one 256 times as much as the one before it, and what comes after the eighth
/// not at all.
pub proof fn law_identifier_is_little_endian(symbol: Seq<char>)
    ensures
        ({
            let b = vstd::utf8::encode_utf8(symbol);
            let n = if b.len() < 8 { b.len() } else { 8 };
            symbol_id(symbol) == crate::tally::sum(
                n,
                |i: int| b[i] * vstd::arithmetic::power::pow(256, i as nat),
            )
        }),
{
    let b = vstd::utf8::encode_utf8(symbol);
    let n: nat = if b.len() < 8 { b.len() } else { 8 };
    let lead = leading_bytes(b);
    assert(lead =~= b.take(n as int));
    crate::bytes::law_little_endian_number(lead);
    crate::tally::lemma_sum_same(
        n,
        |i: int| lead[i] * vstd::arithmetic::power::pow(256, i as nat),
        |i: int| b[i] * vstd::arithmetic::power::pow(256, i as nat),
    );
}

} // verus!
