//! Trading halts.
//!
//! Tracks the trading state of venues and symbols from the halt messages of the exchanges, and
//! keeps the kill switch that stops execution while trading is not possible.
use crate::bytes::{read_u16_le, read_u64_le, utf8_text};
use crate::exchange::auction_engine::same_symbol;
use crate::gateway::venue::VenueId;
use vstd::prelude::*;

verus! {

broadcast use vstd::array::group_array_axioms;

/// Trading state.
#[derive(Debug, Clone, Copy, PartialEq, Eq, Structural)]
pub enum TradingState {
    /// Normal continuous trading
    Open,
    /// Pre-open auction phase
    PreOpen,
    /// Closing auction phase
    CloseAuction,
    /// Volatility halt - circuit breaker triggered
    VolatilityHalt,
    /// Regulatory halt - pending news
    RegulatoryHalt,
    /// Technical halt - exchange infrastructure issue
    TechnicalHalt,
    /// Maintenance window
    Maintenance,
    /// Market closed (after hours)
    Closed,
}

impl TradingState {
    /// True of the states in which orders may be sent.
    pub open spec fn tradeable(self) -> bool {
        self is Open || self is PreOpen || self is CloseAuction
    }

    /// The state with a given number; unknown numbers mean that the market is closed.
    pub open spec fn of_number(val: u8) -> Self {
        if val == 0 {
            TradingState::Open
        } else if val == 1 {
            TradingState::PreOpen
        } else if val == 2 {
            TradingState::CloseAuction
        } else if val == 3 {
            TradingState::VolatilityHalt
        } else if val == 4 {
            TradingState::RegulatoryHalt
        } else if val == 5 {
            TradingState::TechnicalHalt
        } else if val == 6 {
            TradingState::Maintenance
        } else {
            TradingState::Closed
        }
    }

    pub fn is_tradeable(&self) -> (r: bool)
        ensures
            r == self.tradeable(),
    {
        match self {
            TradingState::Open => true,
            TradingState::PreOpen => true,
            TradingState::CloseAuction => true,
            _ => false,
        }
    }

    pub fn from_u8(val: u8) -> (r: Self)
        ensures
            r == TradingState::of_number(val),
    {
        match val {
            0 => TradingState::Open,
            1 => TradingState::PreOpen,
            2 => TradingState::CloseAuction,
            3 => TradingState::VolatilityHalt,
            4 => TradingState::RegulatoryHalt,
            5 => TradingState::TechnicalHalt,
            6 => TradingState::Maintenance,
            _ => TradingState::Closed,
        }
    }
}

/// Circuit breaker levels based on market moves.
#[derive(Debug, Clone, Copy, PartialEq, Eq, Structural)]
pub enum CircuitBreakerLevel {
    /// No circuit breaker triggered
    NoLevel,
    /// 7% move - 15 min halt
    Level1,
    /// 13% move - 15 min halt
    Level2,
    /// 20% move - rest of day
    Level3,
}

impl CircuitBreakerLevel {
    /// The level with a given number; unknown numbers mean none.
    pub open spec fn of_number(val: u8) -> Self {
        if val == 1 {
            CircuitBreakerLevel::Level1
        } else if val == 2 {
            CircuitBreakerLevel::Level2
        } else if val == 3 {
            CircuitBreakerLevel::Level3
        } else {
            CircuitBreakerLevel::NoLevel
        }
    }
}

/// Halt event.
#[derive(Debug, Clone, Copy)]
pub struct HaltEvent {
    pub venue_id: VenueId,
    /// Fixed-size symbol buffer
    pub symbol: [u8; 12],
    pub state: TradingState,
    pub circuit_breaker_level: CircuitBreakerLevel,
    pub timestamp_ns: u64,
    pub expected_resume_ns: Option<u64>,
    pub reason_code: u16,
}

/// Bytes cut to the size of a symbol and filled up with zeros.
pub open spec fn symbol_bytes(b: Seq<u8>) -> Seq<u8> {
    Seq::new(
        12,
        |i: int|
            if i < b.len() {
                b[i]
            } else {
                0u8
            },
    )
}

impl HaltEvent {
    pub fn new(
        venue_id: VenueId,
        symbol: &str,
        state: TradingState,
        circuit_breaker_level: CircuitBreakerLevel,
        timestamp_ns: u64,
        expected_resume_ns: Option<u64>,
        reason_code: u16,
    ) -> (e: Self)
        ensures
            e.venue_id == venue_id,
            e.symbol@ == symbol_bytes(vstd::utf8::encode_utf8(symbol@)),
            e.state == state,
            e.circuit_breaker_level == circuit_breaker_level,
            e.timestamp_ns == timestamp_ns,
            e.expected_resume_ns == expected_resume_ns,
            e.reason_code == reason_code,
    {
        let bytes = symbol.as_bytes();
        let mut buf: [u8; 12] = [0u8;12];
        let mut i: usize = 0;
        while i < 12 && i < bytes.len()
            invariant
                i <= 12,
                i <= bytes@.len(),
                forall|j: int| 0 <= j < i ==> buf@[j] == bytes@[j],
                forall|j: int| i <= j < 12 ==> buf@[j] == 0,
            decreases 12 - i,
        {
            buf[i] = bytes[i];
            i = i + 1;
        }
        assert(buf@ =~= symbol_bytes(bytes@));
        Self {
            venue_id,
            symbol: buf,
            state,
            circuit_breaker_level,
            timestamp_ns,
            expected_resume_ns,
            reason_code,
        }
    }

    /// The symbol as text; empty where it is not valid UTF-8.
    pub fn symbol_str(&self) -> (r: &str)
        ensures
            if vstd::utf8::valid_utf8(self.symbol@) {
                vstd::utf8::encode_utf8(r@) == self.symbol@
            } else {
                r@ == Seq::<char>::empty()
            },
    {
        match utf8_text(&self.symbol) {
            Some(s) => s,
            None => {
                proof {
                    reveal_strlit("");
                    assert(""@ =~= Seq::<char>::empty());
                }
                ""
            },
        }
    }
}

/// What is known of the trading state of a symbol.
#[derive(Debug, Clone, Copy)]
pub struct SymbolHaltState {
    pub symbol: [u8; 12],
    pub state: TradingState,
    pub last_update_ns: u64,
    pub circuit_breaker: CircuitBreakerLevel,
    pub expected_resume_ns: u64,
}

impl SymbolHaltState {
    /// A symbol that no event was seen of.
    pub open spec fn fresh(symbol: [u8; 12]) -> Self {
        SymbolHaltState {
            symbol,
            state: TradingState::Open,
            last_update_ns: 0,
            circuit_breaker: CircuitBreakerLevel::NoLevel,
            expected_resume_ns: 0,
        }
    }

    /// The symbol once an event was seen. A resume time that the event does not give stays.
    pub open spec fn after(self, event: HaltEvent) -> Self {
        SymbolHaltState {
            symbol: self.symbol,
            state: event.state,
            last_update_ns: event.timestamp_ns,
            circuit_breaker: event.circuit_breaker_level,
            expected_resume_ns: match event.expected_resume_ns {
                Some(t) => t,
                None => self.expected_resume_ns,
            },
        }
    }

    fn new(symbol: [u8; 12]) -> (s: Self)
        ensures
            s == SymbolHaltState::fresh(symbol),
    {
        SymbolHaltState {
            symbol,
            state: TradingState::Open,
            last_update_ns: 0,
            circuit_breaker: CircuitBreakerLevel::NoLevel,
            expected_resume_ns: 0,
        }
    }

    fn updated(&self, event: &HaltEvent) -> (s: Self)
        ensures
            s == self.after(*event),
    {
        SymbolHaltState {
            symbol: self.symbol,
            state: event.state,
            last_update_ns: event.timestamp_ns,
            circuit_breaker: event.circuit_breaker_level,
            expected_resume_ns: match event.expected_resume_ns {
                Some(t) => t,
                None => self.expected_resume_ns,
            },
        }
    }
}

/// The position of a symbol.
pub open spec fn symbol_index(symbols: Seq<SymbolHaltState>, symbol: Seq<u8>, from: int) -> Option<
    int,
>
    decreases symbols.len() - from,
{
    if from >= symbols.len() {
        None
    } else if symbols[from].symbol@ == symbol {
        Some(from)
    } else {
        symbol_index(symbols, symbol, from + 1)
    }
}

/// What is known of the trading state of a venue.
#[verifier::ext_equal]
pub struct VenueView {
    pub venue_id: VenueId,
    pub global_state: TradingState,
    pub symbols: Seq<SymbolHaltState>,
    pub any_halted: bool,
}

impl VenueView {
    /// A venue that no event was seen of.
    pub open spec fn fresh(venue_id: VenueId) -> Self {
        VenueView {
            venue_id,
            global_state: TradingState::Open,
            symbols: Seq::empty(),
            any_halted: false,
        }
    }

    /// The venue once an event was seen: its symbol follows the event, and with a reason code below
    /// 100 the venue does too.
    pub open spec fn after(self, event: HaltEvent) -> Self {
        let symbols = match symbol_index(self.symbols, event.symbol@, 0) {
            Some(i) => self.symbols.update(i, self.symbols[i].after(event)),
            None => self.symbols.push(SymbolHaltState::fresh(event.symbol).after(event)),
        };
        if event.reason_code < 100 {
            VenueView {
                symbols,
                global_state: event.state,
                any_halted: !event.state.tradeable(),
                ..self
            }
        } else {
            VenueView { symbols, ..self }
        }
    }
}

/// Halt state of a venue.
pub struct VenueHaltState {
    pub venue_id: VenueId,
    pub global_state: TradingState,
    pub symbols: Vec<SymbolHaltState>,
    pub any_halted: bool,
}

impl View for VenueHaltState {
    type V = VenueView;

    open spec fn view(&self) -> VenueView {
        VenueView {
            venue_id: self.venue_id,
            global_state: self.global_state,
            symbols: self.symbols@,
            any_halted: self.any_halted,
        }
    }
}

impl VenueHaltState {
    fn new(venue_id: VenueId) -> (v: Self)
        ensures
            v@ == VenueView::fresh(venue_id),
    {
        VenueHaltState {
            venue_id,
            global_state: TradingState::Open,
            symbols: Vec::new(),
            any_halted: false,
        }
    }

    fn find(&self, symbol: &[u8; 12]) -> (r: Option<usize>)
        ensures
            match r {
                Some(i) => symbol_index(self@.symbols, symbol@, 0) == Some(i as int) && i
                    < self@.symbols.len(),
                None => symbol_index(self@.symbols, symbol@, 0) is None,
            },
    {
        let mut i: usize = 0;
        while i < self.symbols.len()
            invariant
                i <= self.symbols@.len(),
                symbol_index(self@.symbols, symbol@, 0) == symbol_index(
                    self@.symbols,
                    symbol@,
                    i as int,
                ),
            decreases self.symbols.len() - i,
        {
            if same_symbol(&self.symbols[i].symbol, symbol) {
                return Some(i);
            }
            i = i + 1;
        }
        None
    }

    fn apply(&mut self, event: &HaltEvent)
        ensures
            final(self)@ == old(self)@.after(*event),
    {
        match self.find(&event.symbol) {
            Some(i) => {
                let s = self.symbols[i].updated(event);
                self.symbols.set(i, s);
            },
            None => {
                let s = SymbolHaltState::new(event.symbol).updated(event);
                self.symbols.push(s);
            },
        }
        if event.reason_code < 100 {
            self.global_state = event.state;
            self.any_halted = !event.state.is_tradeable();
        }
    }
}

/// The position of a venue.
pub open spec fn venue_index(venues: Seq<VenueView>, id: VenueId, from: int) -> Option<int>
    decreases venues.len() - from,
{
    if from >= venues.len() {
        None
    } else if venues[from].venue_id == id {
        Some(from)
    } else {
        venue_index(venues, id, from + 1)
    }
}

/// True where some venue is halted.
pub open spec fn some_halted(venues: Seq<VenueView>) -> bool {
    exists|i: int| 0 <= i < venues.len() && (#[trigger] venues[i]).any_halted
}

/// Monitors the venues and their symbols.
pub struct HaltDetector {
    /// Kill switch, set while any venue is halted
    pub global_kill_switch: bool,
    /// Per-venue halt states
    pub venue_states: Vec<VenueHaltState>,
    /// Last heartbeat timestamp
    pub last_heartbeat_ns: u64,
    /// Heartbeat timeout in nanoseconds
    pub heartbeat_timeout_ns: u64,
    /// True while the detector is monitoring
    pub is_active: bool,
}

impl HaltDetector {
    /// The venues.
    pub open spec fn venues(&self) -> Seq<VenueView> {
        Seq::new(self.venue_states@.len(), |i: int| self.venue_states@[i]@)
    }

    /// The venues once an event was seen.
    pub open spec fn venues_after(&self, event: HaltEvent) -> Seq<VenueView> {
        match venue_index(self.venues(), event.venue_id, 0) {
            Some(i) => self.venues().update(i, self.venues()[i].after(event)),
            None => self.venues(),
        }
    }

    /// The kill switch once an event was seen: on where the event of a known venue is a halt, off
    /// where it is none and no venue is halted any more, and as it was otherwise.
    pub open spec fn kill_switch_after(&self, event: HaltEvent) -> bool {
        if venue_index(self.venues(), event.venue_id, 0) is None {
            self.global_kill_switch
        } else if !event.state.tradeable() {
            true
        } else if some_halted(self.venues_after(event)) {
            self.global_kill_switch
        } else {
            false
        }
    }

    /// True where a symbol may be traded: the kill switch is off, and where its venue is halted the
    /// symbol itself is not.
    pub open spec fn symbol_tradeable(&self, venue_id: VenueId, symbol: Seq<u8>) -> bool {
        !self.global_kill_switch && match venue_index(self.venues(), venue_id, 0) {
            Some(v) if self.venues()[v].any_halted => match symbol_index(
                self.venues()[v].symbols,
                symbol,
                0,
            ) {
                Some(s) => self.venues()[v].symbols[s].state.tradeable(),
                None => true,
            },
            _ => true,
        }
    }

    /// True where a venue may be traded.
    pub open spec fn venue_tradeable(&self, venue_id: VenueId) -> bool {
        !self.global_kill_switch && match venue_index(self.venues(), venue_id, 0) {
            Some(v) => !self.venues()[v].any_halted,
            None => true,
        }
    }

    /// The trading state of a symbol; open where none is known.
    pub open spec fn symbol_state(&self, venue_id: VenueId, symbol: Seq<u8>) -> TradingState {
        match venue_index(self.venues(), venue_id, 0) {
            Some(v) => match symbol_index(self.venues()[v].symbols, symbol, 0) {
                Some(s) => self.venues()[v].symbols[s].state,
                None => TradingState::Open,
            },
            None => TradingState::Open,
        }
    }

    /// Creates a detector for the given venues, with a heartbeat timeout of five seconds.
    pub fn new(venues: &[VenueId]) -> (d: Self)
        ensures
            !d.global_kill_switch,
            d.venues() == Seq::new(venues@.len(), |i: int| VenueView::fresh(venues@[i])),
            d.last_heartbeat_ns == 0,
            d.heartbeat_timeout_ns == 5_000_000_000,
            d.is_active,
    {
        let mut venue_states: Vec<VenueHaltState> = Vec::new();
        let mut i: usize = 0;
        while i < venues.len()
            invariant
                i <= venues@.len(),
                venue_states@.len() == i,
                forall|j: int|
                    0 <= j < i ==> (#[trigger] venue_states@[j])@ == VenueView::fresh(venues@[j]),
            decreases venues.len() - i,
        {
            venue_states.push(VenueHaltState::new(venues[i]));
            i = i + 1;
        }
        let d = Self {
            global_kill_switch: false,
            venue_states,
            last_heartbeat_ns: 0,
            heartbeat_timeout_ns: 5_000_000_000,
            is_active: true,
        };
        assert(d.venues() =~= Seq::new(venues@.len(), |i: int| VenueView::fresh(venues@[i])));
        d
    }

    /// The kill switch.
    pub fn get_kill_switch(&self) -> (r: bool)
        ensures
            r == self.global_kill_switch,
    {
        self.global_kill_switch
    }

    fn find_venue(&self, venue_id: VenueId) -> (r: Option<usize>)
        ensures
            match r {
                Some(i) => venue_index(self.venues(), venue_id, 0) == Some(i as int) && i
                    < self.venue_states@.len(),
                None => venue_index(self.venues(), venue_id, 0) is None,
            },
    {
        let mut i: usize = 0;
        while i < self.venue_states.len()
            invariant
                i <= self.venue_states@.len(),
                venue_index(self.venues(), venue_id, 0) == venue_index(
                    self.venues(),
                    venue_id,
                    i as int,
                ),
            decreases self.venue_states.len() - i,
        {
            assert(self.venues()[i as int] == self.venue_states@[i as int]@);
            if self.venue_states[i].venue_id == venue_id {
                return Some(i);
            }
            i = i + 1;
        }
        None
    }

    fn any_halted(&self) -> (r: bool)
        ensures
            r == some_halted(self.venues()),
    {
        let mut i: usize = 0;
        while i < self.venue_states.len()
            invariant
                i <= self.venue_states@.len(),
                forall|j: int| 0 <= j < i ==> !(#[trigger] self.venues()[j]).any_halted,
            decreases self.venue_states.len() - i,
        {
            assert(self.venues()[i as int] == self.venue_states@[i as int]@);
            if self.venue_states[i].any_halted {
                return true;
            }
            i = i + 1;
        }
        false
    }

    /// Processes an event of the control stream of an exchange. Returns the event for the
    /// subscribers; an inactive detector ignores it.
    pub fn process_halt_message(&mut self, event: HaltEvent) -> (r: Option<HaltEvent>)
        ensures
            if old(self).is_active {
                &&& r == Some(event)
                &&& final(self).last_heartbeat_ns == event.timestamp_ns
                &&& final(self).venues() == old(self).venues_after(event)
                &&& final(self).global_kill_switch == old(self).kill_switch_after(event)
                &&& final(self).heartbeat_timeout_ns == old(self).heartbeat_timeout_ns
                &&& final(self).is_active
            } else {
                r is None && *final(self) == *old(self)
            },
    {
        if !self.is_active {
            return None;
        }
        self.last_heartbeat_ns = event.timestamp_ns;
        assert(self.venues() =~= old(self).venues());
        if let Some(i) = self.find_venue(event.venue_id) {
            self.venue_states[i].apply(&event);
            assert(self.venues() =~= old(self).venues_after(event));
            if !event.state.is_tradeable() {
                self.global_kill_switch = true;
            } else if !self.any_halted() {
                self.global_kill_switch = false;
            }
            assert(self.venues() =~= old(self).venues_after(event));
        }
        Some(event)
    }

    /// True where a symbol may be traded.
    pub fn is_symbol_tradeable(&self, venue_id: VenueId, symbol: &[u8; 12]) -> (r: bool)
        ensures
            r == self.symbol_tradeable(venue_id, symbol@),
    {
        if self.global_kill_switch {
            return false;
        }
        if let Some(v) = self.find_venue(venue_id) {
            let venue = &self.venue_states[v];
            if venue.any_halted {
                if let Some(s) = venue.find(symbol) {
                    return venue.symbols[s].state.is_tradeable();
                }
            }
        }
        true
    }

    /// True where a venue may be traded.
    pub fn is_venue_tradeable(&self, venue_id: VenueId) -> (r: bool)
        ensures
            r == self.venue_tradeable(venue_id),
    {
        if self.global_kill_switch {
            return false;
        }
        match self.find_venue(venue_id) {
            Some(v) => !self.venue_states[v].any_halted,
            None => true,
        }
    }

    /// The trading state of a symbol.
    pub fn get_symbol_state(&self, venue_id: VenueId, symbol: &[u8; 12]) -> (r: TradingState)
        ensures
            r == self.symbol_state(venue_id, symbol@),
    {
        if let Some(v) = self.find_venue(venue_id) {
            let venue = &self.venue_states[v];
            if let Some(s) = venue.find(symbol) {
                return venue.symbols[s].state;
            }
        }
        TradingState::Open
    }

    /// True where the last event is younger than the timeout, or none was seen yet.
    pub fn check_health(&self, current_time_ns: u64) -> (r: bool)
        requires
            self.last_heartbeat_ns <= current_time_ns,
        ensures
            r == (self.last_heartbeat_ns == 0 || current_time_ns - self.last_heartbeat_ns
                < self.heartbeat_timeout_ns),
    {
        self.last_heartbeat_ns == 0 || current_time_ns - self.last_heartbeat_ns
            < self.heartbeat_timeout_ns
    }

    /// Activates or deactivates the detector.
    pub fn set_active(&mut self, active: bool)
        ensures
            *final(self) == (HaltDetector { is_active: active, ..*old(self) }),
    {
        self.is_active = active;
    }

    /// Sets the kill switch and returns the event for the subscribers.
    pub fn emergency_stop(&mut self) -> (r: HaltEvent)
        ensures
            *final(self) == (HaltDetector { global_kill_switch: true, ..*old(self) }),
            is_emergency_event(r),
    {
        self.global_kill_switch = true;
        let e = HaltEvent::new(
            VenueId::Unknown,
            "SYSTEM",
            TradingState::TechnicalHalt,
            CircuitBreakerLevel::Level3,
            0,
            None,
            999,
        );
        proof {
            reveal_strlit("SYSTEM");
            vstd::utf8::is_ascii_chars_encode_utf8("SYSTEM"@);
            assert(vstd::utf8::encode_utf8("SYSTEM"@) =~= seq![
                83u8, 89u8, 83u8, 84u8, 69u8, 77u8,
            ]);
        }
        e
    }
}

/// True of the event of an emergency stop: a technical halt of the symbol SYSTEM at the highest
/// circuit breaker level, with reason code 999.
pub open spec fn is_emergency_event(e: HaltEvent) -> bool {
    &&& e.venue_id is Unknown
    &&& e.symbol@ == symbol_bytes(seq![83u8, 89u8, 83u8, 84u8, 69u8, 77u8])
    &&& e.state is TechnicalHalt
    &&& e.circuit_breaker_level is Level3
    &&& e.timestamp_ns == 0
    &&& e.expected_resume_ns is None
    &&& e.reason_code == 999
}

/// True of a halt message: at least 32 bytes, of type `H`.
pub open spec fn is_halt_message(data: Seq<u8>) -> bool {
    data.len() >= 32 && data[0] == 0x48
}

/// The event that a halt message carries: reason code in bytes 1 and 2, symbol in bytes 2 to 13
/// (nothing where it is not valid UTF-8), trading state in byte 14, circuit breaker level in byte
/// 15, time stamp in bytes 16 to 23 and expected resume time, zero for none, in bytes 24 to 31.
pub open spec fn is_event_of(event: HaltEvent, data: Seq<u8>, venue_id: VenueId) -> bool {
    let symbol = data.subrange(2, 14);
    let resume = crate::bytes::le_number(data.subrange(24, 32)) as u64;
    &&& event.venue_id == venue_id
    &&& event.reason_code == crate::bytes::le_number(data.subrange(1, 3))
    &&& event.symbol@ == if vstd::utf8::valid_utf8(symbol) {
        symbol
    } else {
        symbol_bytes(Seq::empty())
    }
    &&& event.state == TradingState::of_number(data[14])
    &&& event.circuit_breaker_level == CircuitBreakerLevel::of_number(data[15])
    &&& event.timestamp_ns == crate::bytes::le_number(data.subrange(16, 24))
    &&& event.expected_resume_ns == if resume > 0 {
        Some(resume)
    } else {
        None
    }
}

/// Parses a binary halt message.
pub fn parse_halt_message(data: &[u8], venue_id: VenueId) -> (r: Option<HaltEvent>)
    ensures
        match r {
            Some(event) => is_halt_message(data@) && is_event_of(event, data@, venue_id),
            None => !is_halt_message(data@),
        },
{
    if data.len() < 32 {
        return None;
    }
    if data[0] != 0x48 {
        return None;
    }
    let reason_code = read_u16_le(data, 1);
    let symbol = vstd::slice::slice_subrange(data, 2, 14);
    let text = match utf8_text(symbol) {
        Some(s) => s,
        None => "",
    };
    proof {
        reveal_strlit("");
        assert(""@ =~= Seq::<char>::empty());
        vstd::utf8::is_ascii_chars_encode_utf8(""@);
        assert(vstd::utf8::encode_utf8(""@) =~= Seq::<u8>::empty());
        assert(symbol_bytes(symbol@) =~= symbol@);
    }
    let state = TradingState::from_u8(data[14]);
    let level = match data[15] {
        1 => CircuitBreakerLevel::Level1,
        2 => CircuitBreakerLevel::Level2,
        3 => CircuitBreakerLevel::Level3,
        _ => CircuitBreakerLevel::NoLevel,
    };
    let timestamp_ns = read_u64_le(data, 16);
    let resume_ns = read_u64_le(data, 24);
    let expected_resume = if resume_ns > 0 {
        Some(resume_ns)
    } else {
        None
    };
    Some(
        HaltEvent::new(venue_id, text, state, level, timestamp_ns, expected_resume, reason_code),
    )
}

/// A halt of a known venue freezes everything: while the kill switch is on no venue and no symbol
/// may be traded.
pub proof fn law_halt_freezes_everything(
    before: HaltDetector,
    after: HaltDetector,
    event: HaltEvent,
    venue_id: VenueId,
    symbol: Seq<u8>,
)
    requires
        venue_index(before.venues(), event.venue_id, 0) is Some,
        !event.state.tradeable(),
        after.global_kill_switch == before.kill_switch_after(event),
    ensures
        !after.symbol_tradeable(venue_id, symbol),
        !after.venue_tradeable(venue_id),
{
}

/// The kill switch goes off only once no venue is halted.
pub proof fn law_kill_switch_released_when_all_clear(before: HaltDetector, event: HaltEvent)
    requires
        before.global_kill_switch,
        !before.kill_switch_after(event),
    ensures
        event.state.tradeable(),
        !some_halted(before.venues_after(event)),
{
}

/// An event concerns the symbol that it names: afterwards that symbol has the state of the event,
/// where its venue is known.
pub proof fn law_event_sets_its_symbol(d: HaltDetector, event: HaltEvent)
    requires
        venue_index(d.venues(), event.venue_id, 0) is Some,
    ensures
        ({
            let v = venue_index(d.venues(), event.venue_id, 0)->0;
            let symbols = d.venues_after(event)[v].symbols;
            symbol_index(symbols, event.symbol@, 0) matches Some(s) && symbols[s].state
                == event.state
        }),
{
    let v = venue_index(d.venues(), event.venue_id, 0)->0;
    lemma_venue_index(d.venues(), event.venue_id, 0);
    let before = d.venues()[v].symbols;
    let after = d.venues_after(event)[v].symbols;
    lemma_symbol_index(before, event.symbol@, 0);
    match symbol_index(before, event.symbol@, 0) {
        Some(i) => {
            lemma_symbol_found(after, event.symbol@, i, 0);
        },
        None => {
            lemma_symbol_found(after, event.symbol@, before.len() as int, 0);
        },
    }
}

proof fn lemma_venue_index(venues: Seq<VenueView>, id: VenueId, from: int)
    requires
        0 <= from,
    ensures
        venue_index(venues, id, from) matches Some(i) ==> from <= i < venues.len()
            && venues[i].venue_id == id,
    decreases venues.len() - from,
{
    if from < venues.len() {
        lemma_venue_index(venues, id, from + 1);
    }
}

proof fn lemma_symbol_index(symbols: Seq<SymbolHaltState>, symbol: Seq<u8>, from: int)
    requires
        0 <= from,
    ensures
        match symbol_index(symbols, symbol, from) {
            Some(i) => from <= i < symbols.len() && symbols[i].symbol@ == symbol && forall|j: int|
                from <= j < i ==> (#[trigger] symbols[j]).symbol@ != symbol,
            None => forall|j: int|
                from <= j < symbols.len() ==> (#[trigger] symbols[j]).symbol@ != symbol,
        },
    decreases symbols.len() - from,
{
    if from < symbols.len() {
        lemma_symbol_index(symbols, symbol, from + 1);
    }
}

proof fn lemma_symbol_found(symbols: Seq<SymbolHaltState>, symbol: Seq<u8>, at: int, from: int)
    requires
        0 <= from <= at < symbols.len(),
        symbols[at].symbol@ == symbol,
        forall|j: int| from <= j < at ==> (#[trigger] symbols[j]).symbol@ != symbol,
    ensures
        symbol_index(symbols, symbol, from) == Some(at),
    decreases at - from,
{
    if from < at {
        lemma_symbol_found(symbols, symbol, at, from + 1);
    }
}

/// Orders may be sent while trading is open or in an auction, and in no state of a halt, of
/// maintenance or after the close.
pub proof fn law_halts_are_not_tradeable()
    ensures
        TradingState::Open.tradeable(),
        TradingState::PreOpen.tradeable(),
        TradingState::CloseAuction.tradeable(),
        !TradingState::VolatilityHalt.tradeable(),
        !TradingState::RegulatoryHalt.tradeable(),
        !TradingState::TechnicalHalt.tradeable(),
        !TradingState::Maintenance.tradeable(),
        !TradingState::Closed.tradeable(),
{
}

/// States and levels have the numbers of the wire, and unknown numbers are taken on the safe side:
/// the market is closed, and no level is reached.
pub proof fn law_states_and_levels_have_their_numbers(val: u8)
    ensures
        TradingState::of_number(0) == TradingState::Open,
        TradingState::of_number(1) == TradingState::PreOpen,
        TradingState::of_number(2) == TradingState::CloseAuction,
        TradingState::of_number(3) == TradingState::VolatilityHalt,
        TradingState::of_number(4) == TradingState::RegulatoryHalt,
        TradingState::of_number(5) == TradingState::TechnicalHalt,
        TradingState::of_number(6) == TradingState::Maintenance,
        TradingState::of_number(7) == TradingState::Closed,
        val > 7 ==> !TradingState::of_number(val).tradeable(),
        CircuitBreakerLevel::of_number(1) == CircuitBreakerLevel::Level1,
        CircuitBreakerLevel::of_number(2) == CircuitBreakerLevel::Level2,
        CircuitBreakerLevel::of_number(3) == CircuitBreakerLevel::Level3,
        val == 0 || val > 3 ==> CircuitBreakerLevel::of_number(val) == CircuitBreakerLevel::NoLevel,
{
}

/// An event of a known venue sets the kill switch where it is a halt and, where it is none, leaves
/// it on only while another venue, or this one by an earlier event, is halted; an event of an
/// unknown venue leaves everything as it is.
pub proof fn law_kill_switch_follows_the_events(d: HaltDetector, event: HaltEvent, v: int)
    requires
        0 <= v < d.venues().len(),
    ensures
        (forall|i: int|
            0 <= i < d.venues().len() ==> (#[trigger] d.venues()[i]).venue_id != event.venue_id)
            ==> d.kill_switch_after(event) == d.global_kill_switch && d.venues_after(event)
            == d.venues(),
        d.venues()[v].venue_id == event.venue_id && !event.state.tradeable()
            ==> d.kill_switch_after(event),
        d.venues()[v].venue_id == event.venue_id && event.state.tradeable() && (forall|i: int|
            0 <= i < d.venues().len() ==> !(#[trigger] d.venues_after(event)[i]).any_halted)
            ==> !d.kill_switch_after(event),
        event.state.tradeable() && d.venues_after(event)[v].any_halted && d.global_kill_switch
            ==> d.kill_switch_after(event),
{
    lemma_first_venue(d.venues(), event.venue_id, 0);
    match venue_index(d.venues(), event.venue_id, 0) {
        Some(i) => {
            assert(d.venues()[i].venue_id == event.venue_id);
        },
        None => {},
    }
    assert(d.venues_after(event).len() == d.venues().len());
}

/// An event with a reason code below a hundred speaks for its whole venue, any other for its symbol
/// alone; other venues and other symbols stay as they are.
pub proof fn law_reason_code_tells_whom_an_event_concerns(
    venue: VenueView,
    event: HaltEvent,
    other: int,
)
    requires
        0 <= other < venue.symbols.len(),
        venue.symbols[other].symbol@ != event.symbol@,
    ensures
        venue.after(event).venue_id == venue.venue_id,
        event.reason_code < 100 ==> venue.after(event).global_state == event.state
            && venue.after(event).any_halted == !event.state.tradeable(),
        event.reason_code >= 100 ==> venue.after(event).global_state == venue.global_state
            && venue.after(event).any_halted == venue.any_halted,
        venue.after(event).symbols[other] == venue.symbols[other],
{
    lemma_symbol_index(venue.symbols, event.symbol@, 0);
}

/// A symbol takes its state, its time and its level from the event, and the time at which it
/// resumes where the event gives one.
pub proof fn law_symbol_follows_its_event(s: SymbolHaltState, event: HaltEvent)
    ensures
        s.after(event).symbol == s.symbol,
        s.after(event).state == event.state,
        s.after(event).last_update_ns == event.timestamp_ns,
        s.after(event).circuit_breaker == event.circuit_breaker_level,
        event.expected_resume_ns matches Some(t) ==> s.after(event).expected_resume_ns == t,
        event.expected_resume_ns is None ==> s.after(event).expected_resume_ns
            == s.expected_resume_ns,
{
}

/// While the kill switch is off a symbol may be traded unless its venue is halted and its own last
/// event was a halt, and a venue unless it is halted.
pub proof fn law_trading_is_allowed_while_not_halted(d: HaltDetector, v: int, s: int)
    requires
        !d.global_kill_switch,
        0 <= v < d.venues().len(),
        0 <= s < d.venues()[v].symbols.len(),
        forall|i: int| 0 <= i < v ==> (#[trigger] d.venues()[i]).venue_id != d.venues()[v].venue_id,
        forall|i: int|
            0 <= i < s ==> (#[trigger] d.venues()[v].symbols[i]).symbol@
                != d.venues()[v].symbols[s].symbol@,
    ensures
        ({
            let venue = d.venues()[v];
            let symbol = venue.symbols[s];
            &&& d.venue_tradeable(venue.venue_id) <==> !venue.any_halted
            &&& d.symbol_tradeable(venue.venue_id, symbol.symbol@) <==> (!venue.any_halted
                || symbol.state.tradeable())
            &&& d.symbol_state(venue.venue_id, symbol.symbol@) == symbol.state
        }),
{
    lemma_first_venue(d.venues(), d.venues()[v].venue_id, 0);
    lemma_symbol_index(d.venues()[v].symbols, d.venues()[v].symbols[s].symbol@, 0);
    let i = venue_index(d.venues(), d.venues()[v].venue_id, 0)->0;
    if i < v {
        assert(d.venues()[i].venue_id != d.venues()[v].venue_id);
    }
    let j = symbol_index(d.venues()[v].symbols, d.venues()[v].symbols[s].symbol@, 0)->0;
    if j < s {
        assert(d.venues()[v].symbols[j].symbol@ != d.venues()[v].symbols[s].symbol@);
    }
}

/// A halt message carries its numbers with the lowest byte first, at fixed places.
pub proof fn law_halt_message_is_read_in_place(event: HaltEvent, data: Seq<u8>, venue_id: VenueId)
    requires
        data.len() >= 32,
        is_event_of(event, data, venue_id),
    ensures
        event.reason_code == data[1] + 256 * data[2],
        event.timestamp_ns % 256 == data[16],
        event.timestamp_ns / 256 == crate::bytes::le_number(data.subrange(17, 24)),
        event.state == TradingState::of_number(data[14]),
        event.circuit_breaker_level == CircuitBreakerLevel::of_number(data[15]),
        vstd::utf8::valid_utf8(data.subrange(2, 14)) ==> event.symbol@ == data.subrange(2, 14),
        is_halt_message(data) <==> data[0] == 72,
{
    let code = data.subrange(1, 3);
    assert(code.skip(1) =~= seq![data[2]]);
    assert(seq![data[2]].skip(1) =~= Seq::<u8>::empty());
    reveal_with_fuel(crate::bytes::le_number, 3);
    assert(data.subrange(16, 24).skip(1) =~= data.subrange(17, 24));
}

/// What `venue_index` returns is the first match.
proof fn lemma_first_venue(venues: Seq<VenueView>, id: VenueId, from: int)
    requires
        0 <= from,
    ensures
        match venue_index(venues, id, from) {
            Some(i) => from <= i < venues.len() && venues[i].venue_id == id && forall|j: int|
                from <= j < i ==> (#[trigger] venues[j]).venue_id != id,
            None => forall|j: int| from <= j < venues.len() ==> (#[trigger] venues[j]).venue_id != id,
        },
    decreases venues.len() - from,
{
    if from < venues.len() && venues[from].venue_id != id {
        lemma_first_venue(venues, id, from + 1);
    }
}

/// A symbol has twelve bytes: those of its name, cut off where there are more, and zeros behind them.
pub proof fn law_symbols_have_twelve_bytes(b: Seq<u8>, i: int)
    requires
        0 <= i < 12,
    ensures
        symbol_bytes(b).len() == 12,
        i < b.len() ==> symbol_bytes(b)[i] == b[i],
        i >= b.len() ==> symbol_bytes(b)[i] == 0,
{
}

/// An emergency is told of as a technical halt of the whole system at the highest level, without an
/// end, for the reason 999.
pub proof fn law_emergency_concerns_the_system(e: HaltEvent)
    requires
        is_emergency_event(e),
    ensures
        e.venue_id is Unknown,
        e.state == TradingState::TechnicalHalt,
        e.circuit_breaker_level == CircuitBreakerLevel::Level3,
        e.expected_resume_ns is None,
        e.reason_code == 999,
        e.timestamp_ns == 0,
        e.symbol@[0] == 'S' as u8 && e.symbol@[1] == 'Y' as u8 && e.symbol@[2] == 'S' as u8
            && e.symbol@[3] == 'T' as u8 && e.symbol@[4] == 'E' as u8 && e.symbol@[5] == 'M' as u8
            && e.symbol@[6] == 0,
{
}

/// A halt message without a time of resumption leaves the end open; one whose symbol is no text has an
/// empty symbol.
pub proof fn law_halt_message_may_leave_the_end_open(
    event: HaltEvent,
    data: Seq<u8>,
    venue_id: VenueId,
)
    requires
        data.len() >= 32,
        is_event_of(event, data, venue_id),
    ensures
        event.venue_id == venue_id,
        event.expected_resume_ns is None <==> forall|i: int| 24 <= i < 32 ==> data[i] == 0,
        event.expected_resume_ns matches Some(t) ==> t == crate::bytes::le_number(
            data.subrange(24, 32),
        ),
        !vstd::utf8::valid_utf8(data.subrange(2, 14)) ==> forall|i: int|
            0 <= i < 12 ==> event.symbol@[i] == 0,
{
    let s = data.subrange(24, 32);
    crate::bytes::lemma_le_number_bound(s);
    lemma_zero_bytes(s);
    assert forall|i: int| 24 <= i < 32 implies data[i] == s[i - 24] by {}
    if forall|i: int| 24 <= i < 32 ==> data[i] == 0 {
        assert forall|i: int| 0 <= i < s.len() implies s[i] == 0 by {
            assert(s[i] == data[i + 24]);
        }
    }
}

/// Bytes denote zero exactly where all of them are zero.
proof fn lemma_zero_bytes(s: Seq<u8>)
    ensures
        crate::bytes::le_number(s) == 0 <==> forall|i: int| 0 <= i < s.len() ==> s[i] == 0,
    decreases s.len(),
{
    if s.len() > 0 {
        let t = s.skip(1);
        lemma_zero_bytes(t);
        if crate::bytes::le_number(s) == 0 {
            assert forall|i: int| 0 <= i < s.len() implies s[i] == 0 by {
                if i > 0 {
                    assert(t[i - 1] == 0);
                }
            }
        }
        if forall|i: int| 0 <= i < s.len() ==> s[i] == 0 {
            assert forall|i: int| 0 <= i < t.len() implies t[i] == 0 by {
                assert(s[i + 1] == 0);
            }
            assert(s[0] == 0);
        }
    }
}

} // verus!
