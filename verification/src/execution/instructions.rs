//! Execution instructions and the manager of the execution strategies.
use crate::execution::iceberg_refresh::{
    IcebergConfig, IcebergManager, IcebergStats, Side as IcebergSide,
};
use crate::execution::post_only::{
    PostOnlyConfig, PostOnlyManager, PostOnlyStats, Side as PostOnlySide,
};
use crate::names::NamedMap;
use crate::text::ascii_string;
use vstd::prelude::*;

verus! {

/// Unified side type that can be converted between modules
#[derive(Debug, Clone, Copy, PartialEq, Eq, Structural)]
pub enum Side {
    Buy,
    Sell,
}

impl Side {
    pub fn as_str(&self) -> (s: &'static str)
        ensures
            s == match *self {
                Side::Buy => "BUY",
                Side::Sell => "SELL",
            },
    {
        match self {
            Side::Buy => "BUY",
            Side::Sell => "SELL",
        }
    }

    pub fn is_buy(&self) -> (r: bool)
        ensures
            r == (*self == Side::Buy),
    {
        match self {
            Side::Buy => true,
            Side::Sell => false,
        }
    }

    pub fn is_sell(&self) -> (r: bool)
        ensures
            r == (*self == Side::Sell),
    {
        match self {
            Side::Buy => false,
            Side::Sell => true,
        }
    }
}

impl From<IcebergSide> for Side {
    fn from(side: IcebergSide) -> (r: Self) {
        match side {
            IcebergSide::Buy => Side::Buy,
            IcebergSide::Sell => Side::Sell,
        }
    }
}

impl vstd::std_specs::convert::FromSpecImpl<IcebergSide> for Side {
    open spec fn obeys_from_spec() -> bool {
        true
    }

    open spec fn from_spec(side: IcebergSide) -> Self {
        match side {
            IcebergSide::Buy => Side::Buy,
            IcebergSide::Sell => Side::Sell,
        }
    }
}

impl From<PostOnlySide> for Side {
    fn from(side: PostOnlySide) -> (r: Self) {
        match side {
            PostOnlySide::Buy => Side::Buy,
            PostOnlySide::Sell => Side::Sell,
        }
    }
}

impl vstd::std_specs::convert::FromSpecImpl<PostOnlySide> for Side {
    open spec fn obeys_from_spec() -> bool {
        true
    }

    open spec fn from_spec(side: PostOnlySide) -> Self {
        match side {
            PostOnlySide::Buy => Side::Buy,
            PostOnlySide::Sell => Side::Sell,
        }
    }
}

impl From<Side> for IcebergSide {
    fn from(side: Side) -> (r: Self) {
        match side {
            Side::Buy => IcebergSide::Buy,
            Side::Sell => IcebergSide::Sell,
        }
    }
}

impl vstd::std_specs::convert::FromSpecImpl<Side> for IcebergSide {
    open spec fn obeys_from_spec() -> bool {
        true
    }

    open spec fn from_spec(side: Side) -> Self {
        match side {
            Side::Buy => IcebergSide::Buy,
            Side::Sell => IcebergSide::Sell,
        }
    }
}

impl From<Side> for PostOnlySide {
    fn from(side: Side) -> (r: Self) {
        match side {
            Side::Buy => PostOnlySide::Buy,
            Side::Sell => PostOnlySide::Sell,
        }
    }
}

impl vstd::std_specs::convert::FromSpecImpl<Side> for PostOnlySide {
    open spec fn obeys_from_spec() -> bool {
        true
    }

    open spec fn from_spec(side: Side) -> Self {
        match side {
            Side::Buy => PostOnlySide::Buy,
            Side::Sell => PostOnlySide::Sell,
        }
    }
}

/// Exchange-specific matching engine quirks
#[derive(Debug, Clone, Copy, PartialEq, Eq, Structural)]
pub enum ExchangeQuirk {
    /// Binance: Minimum price/quantity precision varies by symbol
    BinancePrecision,
    /// Binance: Self-trade prevention behavior
    BinanceStp,
    /// Coinbase: Order size limits change with volatility
    CoinbaseSizeLimits,
    /// FTX-style: Liquidation engine behavior
    FtxLiquidation,
    /// OKX: Partial fill handling quirks
    OkxPartialFills,
    /// Bybit: Position mode (one-way vs hedge)
    BybitPositionMode,
    /// Kraken: Batch order rate limits
    KrakenBatchLimits,
    /// Generic: Unknown quirk, handle conservatively
    Unknown,
}

/// Time-in-force policies
#[derive(Debug, Clone, Copy, PartialEq, Eq, Structural)]
pub enum TimeInForce {
    /// Good till cancelled
    GTC,
    /// Immediate or cancel
    IOC,
    /// Fill or kill
    FOK,
    /// Good till date, in nanoseconds
    GTD(u64),
    /// Post only (will reject if would execute immediately)
    PostOnly,
}

impl TimeInForce {
    pub fn as_binance_str(&self) -> (s: &'static str)
        ensures
            s == match *self {
                TimeInForce::GTC => "GTC",
                TimeInForce::IOC => "IOC",
                TimeInForce::FOK => "FOK",
                TimeInForce::GTD(_) => "GTD",
                TimeInForce::PostOnly => "GTC",
            },
    {
        match self {
            TimeInForce::GTC => "GTC",
            TimeInForce::IOC => "IOC",
            TimeInForce::FOK => "FOK",
            TimeInForce::GTD(_) => "GTD",
            // A separate flag there
            TimeInForce::PostOnly => "GTC",
        }
    }
}

#[derive(Debug, Clone, Copy, PartialEq, Eq, Structural)]
pub enum OrderType {
    Market,
    Limit,
    StopLimit,
    StopMarket,
    TrailingStop,
}

#[derive(Debug, Clone, Copy, PartialEq, Eq, Structural)]
pub enum StpMode {
    /// Allow self-trades
    NoPrevention,
    /// Expire maker order
    ExpireMaker,
    /// Expire taker order
    ExpireTaker,
    /// Cancel both orders
    CancelBoth,
    /// Decrement and cancel (reduce quantity)
    DecrementCancel,
}

/// Order execution instruction
#[derive(Debug)]
pub struct ExecutionInstruction {
    /// Unique client order ID
    pub client_order_id: String,
    /// Symbol
    pub symbol: String,
    /// Side
    pub side: Side,
    /// Order type
    pub order_type: OrderType,
    /// Quantity
    pub quantity: i64,
    /// Price (for limit orders)
    pub price: Option<i64>,
    /// Time in force
    pub time_in_force: TimeInForce,
    /// Post-only flag
    pub post_only: bool,
    /// Reduce-only flag
    pub reduce_only: bool,
    /// Iceberg display quantity (if iceberg order)
    pub iceberg_qty: Option<i64>,
    /// Self-trade prevention mode
    pub stp_mode: StpMode,
}

/// An upper-case hexadecimal digit.
pub open spec fn upper_hex(d: nat) -> char {
    if d < 10 {
        (48 + d) as char
    } else {
        (55 + d) as char
    }
}

/// The four upper-case hexadecimal digits of a number.
pub open spec fn upper_hex4(n: u16) -> Seq<char> {
    seq![
        upper_hex((n / 4096) as nat),
        upper_hex((n / 256 % 16) as nat),
        upper_hex((n / 16 % 16) as nat),
        upper_hex((n % 16) as nat),
    ]
}

/// The identifier made of a time in microseconds and a suffix.
pub open spec fn client_order_id(timestamp_us: u64, suffix: u16) -> Seq<char> {
    seq!['H', 'F', 'T'] + crate::text::number(timestamp_us as nat) + upper_hex4(suffix)
}

/// Draws a number with `rand::random`; any number may come.
#[verifier::external_body]
fn random_suffix() -> (r: u16) {
    rand::random::<u16>()
}

/// An upper-case hexadecimal digit.
fn hex_byte(d: u16) -> (r: u8)
    requires
        d < 16,
    ensures
        r < 128,
        r as char == upper_hex(d as nat),
{
    if d < 10 {
        48 + d as u8
    } else {
        55 + d as u8
    }
}

/// Make the identifier of a time in microseconds and a suffix
pub fn make_client_order_id(timestamp_us: u64, suffix: u16) -> (r: String)
    ensures
        r@ == client_order_id(timestamp_us, suffix),
{
    let digits = crate::bytes::decimal_digits(timestamp_us);
    let mut out: Vec<u8> = Vec::new();
    out.push(72);
    out.push(70);
    out.push(84);
    proof {
        crate::bytes::lemma_decimal_roundtrip(timestamp_us as nat);
    }
    let mut i: usize = 0;
    while i < digits.len()
        invariant
            i <= digits@.len(),
            out@.len() == 3 + i,
            out@[0] == 72 && out@[1] == 70 && out@[2] == 84,
            crate::bytes::all_digits(digits@),
            forall|j: int| 0 <= j < i ==> #[trigger] out@[j + 3] == digits@[j],
            forall|j: int| 0 <= j < out@.len() ==> #[trigger] out@[j] < 128,
        decreases digits.len() - i,
    {
        assert(crate::bytes::is_digit(digits@[i as int]));
        out.push(digits[i]);
        i = i + 1;
    }
    let ghost front = out@;
    out.push(hex_byte(suffix / 4096));
    out.push(hex_byte(suffix / 256 % 16));
    out.push(hex_byte(suffix / 16 % 16));
    out.push(hex_byte(suffix % 16));
    proof {
        let n = digits@.len() as int;
        let all = client_order_id(timestamp_us, suffix);
        assert(crate::text::ascii(out@).len() == all.len());
        assert forall|j: int| 0 <= j < all.len() implies crate::text::ascii(out@)[j] == all[j] by {
            if j < 3 {
                assert(out@[j] == front[j]);
            } else if j < n + 3 {
                assert(out@[j] == front[j]);
                assert(front[(j - 3) + 3] == digits@[j - 3]);
                assert(all[j] == crate::text::number(timestamp_us as nat)[j - 3]);
            }
        }
        assert(crate::text::ascii(out@) =~= all);
    }
    ascii_string(out.as_slice())
}

/// Generate unique client order ID: a random suffix prevents collisions within a microsecond
pub fn generate_client_order_id(timestamp_us: u64) -> (r: String)
    ensures
        exists|suffix: u16| r@ == #[trigger] client_order_id(timestamp_us, suffix),
{
    let suffix: u16 = random_suffix();
    make_client_order_id(timestamp_us, suffix)
}

impl ExecutionInstruction {
    /// Create a new market order instruction
    pub fn market(symbol: String, side: Side, quantity: i64, timestamp_us: u64) -> (i: Self)
        ensures
            exists|suffix: u16|
                i.client_order_id@ == #[trigger] client_order_id(timestamp_us, suffix),
            i == (ExecutionInstruction {
                client_order_id: i.client_order_id,
                symbol,
                side,
                order_type: OrderType::Market,
                quantity,
                price: None,
                time_in_force: TimeInForce::IOC,
                post_only: false,
                reduce_only: false,
                iceberg_qty: None,
                stp_mode: StpMode::NoPrevention,
            }),
    {
        Self {
            client_order_id: generate_client_order_id(timestamp_us),
            symbol,
            side,
            order_type: OrderType::Market,
            quantity,
            price: None,
            time_in_force: TimeInForce::IOC,
            post_only: false,
            reduce_only: false,
            iceberg_qty: None,
            stp_mode: StpMode::NoPrevention,
        }
    }

    /// Create a new limit order instruction
    pub fn limit(
        symbol: String,
        side: Side,
        quantity: i64,
        price: i64,
        timestamp_us: u64,
    ) -> (i: Self)
        ensures
            exists|suffix: u16|
                i.client_order_id@ == #[trigger] client_order_id(timestamp_us, suffix),
            i == (ExecutionInstruction {
                client_order_id: i.client_order_id,
                symbol,
                side,
                order_type: OrderType::Limit,
                quantity,
                price: Some(price),
                time_in_force: TimeInForce::GTC,
                post_only: false,
                reduce_only: false,
                iceberg_qty: None,
                stp_mode: StpMode::NoPrevention,
            }),
    {
        Self {
            client_order_id: generate_client_order_id(timestamp_us),
            symbol,
            side,
            order_type: OrderType::Limit,
            quantity,
            price: Some(price),
            time_in_force: TimeInForce::GTC,
            post_only: false,
            reduce_only: false,
            iceberg_qty: None,
            stp_mode: StpMode::NoPrevention,
        }
    }

    /// Set post-only flag, and the time in force with it
    pub fn with_post_only(self, post_only: bool) -> (i: Self)
        ensures
            i == (ExecutionInstruction {
                post_only,
                time_in_force: if post_only {
                    TimeInForce::PostOnly
                } else {
                    self.time_in_force
                },
                ..self
            }),
    {
        let time_in_force = if post_only {
            TimeInForce::PostOnly
        } else {
            self.time_in_force
        };
        ExecutionInstruction { post_only, time_in_force, ..self }
    }

    /// Set iceberg quantity
    pub fn with_iceberg(self, display_qty: i64) -> (i: Self)
        ensures
            i == (ExecutionInstruction { iceberg_qty: Some(display_qty), ..self }),
    {
        ExecutionInstruction { iceberg_qty: Some(display_qty), ..self }
    }

    /// Set reduce-only flag
    pub fn with_reduce_only(self, reduce_only: bool) -> (i: Self)
        ensures
            i == (ExecutionInstruction { reduce_only, ..self }),
    {
        ExecutionInstruction { reduce_only, ..self }
    }

    /// Set self-trade prevention mode
    pub fn with_stp_mode(self, stp_mode: StpMode) -> (i: Self)
        ensures
            i == (ExecutionInstruction { stp_mode, ..self }),
    {
        ExecutionInstruction { stp_mode, ..self }
    }
}

/// Execution result after order submission
#[derive(Debug)]
pub struct ExecutionResult {
    /// Client order ID
    pub client_order_id: String,
    /// Exchange order ID
    pub exchange_order_id: Option<String>,
    /// Status
    pub status: ExecutionStatus,
    /// Filled quantity
    pub filled_qty: i64,
    /// Average fill price
    pub avg_fill_price: Option<i64>,
    /// Fees paid
    pub fees_paid: i64,
    /// Whether we were maker or taker
    pub maker_taker: Option<MakerTaker>,
    /// Error message if rejected
    pub error_message: Option<String>,
}

#[derive(Debug, Clone, Copy, PartialEq, Eq, Structural)]
pub enum ExecutionStatus {
    Pending,
    Submitted,
    PartiallyFilled,
    Filled,
    Cancelled,
    Rejected,
    Expired,
}

#[derive(Debug, Clone, Copy, PartialEq, Eq, Structural)]
pub enum MakerTaker {
    Maker,
    Taker,
}

/// Execution manager coordinating all execution strategies
#[derive(Debug)]
pub struct ExecutionManager {
    /// Iceberg manager
    pub iceberg_manager: IcebergManager,
    /// Post-only manager
    pub post_only_manager: PostOnlyManager,
    /// Active instructions
    pub pending_instructions: NamedMap<ExecutionInstruction>,
    /// Execution results
    pub results: NamedMap<ExecutionResult>,
}

impl ExecutionManager {
    pub open spec fn inv(&self) -> bool {
        &&& self.iceberg_manager.inv()
        &&& self.post_only_manager.inv()
        &&& self.pending_instructions.inv()
        &&& self.results.inv()
    }

    pub fn new(iceberg_config: IcebergConfig, post_only_config: PostOnlyConfig) -> (m: Self)
        requires
            post_only_config.spread_staleness_ms * 1_000_000 <= u64::MAX,
        ensures
            m.inv(),
            m.iceberg_manager.config == iceberg_config,
            m.iceberg_manager.orders@ == Map::<
                Seq<char>,
                crate::execution::iceberg_refresh::IcebergOrder,
            >::empty(),
            m.iceberg_manager.rng_seed == 0,
            m.iceberg_manager.stats == (IcebergStats {
                total_orders_created: 0,
                total_child_orders: 0,
                total_executed_value: 0,
                detected_sniff_attempts: 0,
                queue_preserved_refreshes: 0,
            }),
            m.post_only_manager.config == post_only_config,
            m.post_only_manager.orders@ == Map::<
                Seq<char>,
                crate::execution::post_only::PostOnlyOrder,
            >::empty(),
            m.post_only_manager.best_bid == 0,
            m.post_only_manager.best_ask == 0,
            m.post_only_manager.spread_last_updated == 0,
            m.post_only_manager.spread_staleness_ns == post_only_config.spread_staleness_ms
                * 1_000_000,
            m.post_only_manager.stats == (PostOnlyStats {
                total_orders_submitted: 0,
                orders_live_on_book: 0,
                orders_price_adjusted: 0,
                orders_cancelled_pre_fill: 0,
                maker_rebates_earned: 0,
                taker_fees_avoided: 0,
                circuit_breaker_trips: 0,
                spread_violations_prevented: 0,
            }),
            !m.post_only_manager.circuit_breaker,
            m.pending_instructions@ == Map::<Seq<char>, ExecutionInstruction>::empty(),
            m.results@ == Map::<Seq<char>, ExecutionResult>::empty(),
    {
        Self {
            iceberg_manager: IcebergManager::new(iceberg_config),
            post_only_manager: PostOnlyManager::new(post_only_config),
            pending_instructions: NamedMap::new(),
            results: NamedMap::new(),
        }
    }

    /// Get reference to iceberg manager
    pub fn iceberg(&self) -> (m: &IcebergManager)
        ensures
            *m == self.iceberg_manager,
    {
        &self.iceberg_manager
    }

    /// Get reference to post-only manager
    pub fn post_only(&self) -> (m: &PostOnlyManager)
        ensures
            *m == self.post_only_manager,
    {
        &self.post_only_manager
    }

    /// Record an execution result; the order is then no longer pending
    pub fn record_result(&mut self, result: ExecutionResult)
        requires
            old(self).inv(),
        ensures
            final(self).inv(),
            final(self).results@ == old(self).results@.insert(result.client_order_id@, result),
            final(self).pending_instructions@ == old(self).pending_instructions@.remove(
                result.client_order_id@,
            ),
            final(self).iceberg_manager == old(self).iceberg_manager,
            final(self).post_only_manager == old(self).post_only_manager,
    {
        let id = result.client_order_id.clone();
        let _ = self.pending_instructions.remove(id.as_str());
        self.results.insert(id, result);
    }

    /// Get result for an order
    pub fn get_result(&self, client_order_id: &str) -> (r: Option<&ExecutionResult>)
        ensures
            match r {
                Some(v) => self.results@.contains_key(client_order_id@) && *v
                    == self.results@[client_order_id@],
                None => !self.results@.contains_key(client_order_id@),
            },
    {
        self.results.get(client_order_id)
    }

    /// Check if circuit breakers are active
    pub fn any_circuit_breaker_active(&self) -> (r: bool)
        ensures
            r == self.post_only_manager.circuit_breaker,
    {
        self.post_only_manager.is_circuit_breaker_active()
    }

    /// Emergency stop - trip all circuit breakers
    pub fn emergency_stop(&mut self)
        ensures
            *final(self) == (ExecutionManager {
                post_only_manager: if old(self).post_only_manager.config.enable_circuit_breaker {
                    PostOnlyManager {
                        circuit_breaker: true,
                        stats: PostOnlyStats {
                            circuit_breaker_trips:
                                old(self).post_only_manager.stats.circuit_breaker_trips.wrapping_add(
                            1),
                            ..old(self).post_only_manager.stats
                        },
                        ..old(self).post_only_manager
                    }
                } else {
                    old(self).post_only_manager
                },
                ..*old(self)
            }),
    {
        self.post_only_manager.trip_circuit_breaker();
    }

    /// Reset all circuit breakers
    pub fn reset_circuit_breakers(&mut self)
        ensures
            *final(self) == (ExecutionManager {
                post_only_manager: PostOnlyManager {
                    circuit_breaker: false,
                    ..old(self).post_only_manager
                },
                ..*old(self)
            }),
    {
        self.post_only_manager.reset_circuit_breaker();
    }
}

/// Identifiers of one microsecond differ where their suffixes do.
pub proof fn law_suffix_tells_identifiers_apart(timestamp_us: u64, a: u16, b: u16)
    requires
        a != b,
    ensures
        client_order_id(timestamp_us, a) != client_order_id(timestamp_us, b),
{
    let front = seq!['H', 'F', 'T'] + crate::text::number(timestamp_us as nat);
    let x = client_order_id(timestamp_us, a);
    let y = client_order_id(timestamp_us, b);
    if x == y {
        assert(x.skip(front.len() as int) =~= upper_hex4(a));
        assert(y.skip(front.len() as int) =~= upper_hex4(b));
        lemma_suffix_injective(a, b);
    }
}

proof fn lemma_suffix_injective(a: u16, b: u16)
    requires
        upper_hex4(a) == upper_hex4(b),
    ensures
        a == b,
{
    let x = upper_hex4(a);
    let y = upper_hex4(b);
    assert(x[0] == y[0] && x[1] == y[1] && x[2] == y[2] && x[3] == y[3]);
    lemma_hex_injective((a / 4096) as nat, (b / 4096) as nat);
    lemma_hex_injective((a / 256 % 16) as nat, (b / 256 % 16) as nat);
    lemma_hex_injective((a / 16 % 16) as nat, (b / 16 % 16) as nat);
    lemma_hex_injective((a % 16) as nat, (b % 16) as nat);
    assert(a == b) by (bit_vector)
        requires
            a / 4096 == b / 4096,
            a / 256 % 16 == b / 256 % 16,
            a / 16 % 16 == b / 16 % 16,
            a % 16 == b % 16,
    ;
}

proof fn lemma_hex_injective(a: nat, b: nat)
    requires
        a < 16,
        b < 16,
        upper_hex(a) == upper_hex(b),
    ensures
        a == b,
{
    assert(upper_hex(a) as u32 == if a < 10 {
        48 + a
    } else {
        55 + a
    });
    assert(upper_hex(b) as u32 == if b < 10 {
        48 + b
    } else {
        55 + b
    });
}

/// Sides keep their meaning from module to module.
pub proof fn law_sides_keep_their_meaning(side: Side)
    ensures
        ({
            let i = <IcebergSide as vstd::std_specs::convert::FromSpec<Side>>::from_spec(side);
            let p = <PostOnlySide as vstd::std_specs::convert::FromSpec<Side>>::from_spec(side);
            &&& side == Side::Buy <==> i == IcebergSide::Buy
            &&& side == Side::Buy <==> p == PostOnlySide::Buy
            &&& <Side as vstd::std_specs::convert::FromSpec<IcebergSide>>::from_spec(i) == side
            &&& <Side as vstd::std_specs::convert::FromSpec<PostOnlySide>>::from_spec(p) == side
        }),
{
}

/// An identifier is made of three letters, the decimal digits of the time and the four hexadecimal
/// digits of the suffix, the highest first.
pub proof fn law_identifier_spells_time_and_suffix(timestamp_us: u64, suffix: u16)
    ensures
        ({
            let id = client_order_id(timestamp_us, suffix);
            let digits = crate::text::number(timestamp_us as nat);
            let n = digits.len() as int;
            let tail = id.skip(n + 3);
            &&& id.len() == n + 7
            &&& id[0] == 'H' && id[1] == 'F' && id[2] == 'T'
            &&& id.subrange(3, n + 3) == digits
            &&& suffix == hex_digit(tail[0]) * 4096 + hex_digit(tail[1]) * 256 + hex_digit(tail[2])
                * 16 + hex_digit(tail[3])
        }),
{
    let id = client_order_id(timestamp_us, suffix);
    let digits = crate::text::number(timestamp_us as nat);
    let n = digits.len() as int;
    assert(id.subrange(3, n + 3) =~= digits);
    assert(id.skip(n + 3) =~= upper_hex4(suffix));
    lemma_hex_digits(suffix);
}

proof fn lemma_hex_digits(suffix: u16)
    ensures
        ({
            let t = upper_hex4(suffix);
            suffix == hex_digit(t[0]) * 4096 + hex_digit(t[1]) * 256 + hex_digit(t[2]) * 16
                + hex_digit(t[3])
        }),
{
    lemma_hex_digit((suffix / 4096) as nat);
    lemma_hex_digit((suffix / 256 % 16) as nat);
    lemma_hex_digit((suffix / 16 % 16) as nat);
    lemma_hex_digit((suffix % 16) as nat);
    assert(suffix == (suffix / 4096) * 4096 + (suffix / 256 % 16) * 256 + (suffix / 16 % 16) * 16
        + suffix % 16) by (bit_vector);
}

/// The number that a hexadecimal digit in capitals stands for.
pub open spec fn hex_digit(c: char) -> int {
    if '0' <= c <= '9' {
        c as int - '0' as int
    } else if 'A' <= c <= 'F' {
        10 + c as int - 'A' as int
    } else {
        -1
    }
}

proof fn lemma_hex_digit(d: nat)
    requires
        d < 16,
    ensures
        hex_digit(upper_hex(d)) == d,
{
}

} // verus!
