//! Exchange control: halts and auctions of a venue, and of several venues together.
use crate::exchange::auction_book::{AuctionOrder, BookView, IndicativePrice};
use crate::exchange::auction_engine::{AuctionEngine, AuctionPhase, SymbolView};
use crate::exchange::halt_detector::{CircuitBreakerLevel, HaltDetector, HaltEvent, TradingState};
use crate::gateway::venue::VenueId;
use vstd::prelude::*;

verus! {

broadcast use vstd::array::group_array_axioms;

/// Halt and auction status of a venue.
#[derive(Debug, Clone, Copy)]
pub struct ExchangeControlState {
    pub venue_id: VenueId,
    pub is_halted: bool,
    pub halt_state: TradingState,
    pub auction_active: bool,
    pub auction_phase: AuctionPhase,
    pub circuit_breaker_level: CircuitBreakerLevel,
    pub last_update_ns: u64,
}

impl ExchangeControlState {
    pub fn is_tradeable(&self) -> (r: bool)
        ensures
            r == (!self.is_halted && self.halt_state.tradeable() && !self.auction_active),
    {
        !self.is_halted && self.halt_state.is_tradeable() && !self.auction_active
    }
}

/// The symbol that stands for the venue as a whole.
pub open spec fn venue_symbol() -> Seq<u8> {
    Seq::new(12, |i: int| 0u8)
}

/// Halt detection and auctions of a venue.
pub struct ExchangeControl {
    pub venue_id: VenueId,
    pub halt_detector: HaltDetector,
    pub auction_engine: AuctionEngine,
    /// State as of the last refresh
    pub cached_state: ExchangeControlState,
    /// Last state update timestamp
    pub last_update_ns: u64,
}

impl ExchangeControl {
    pub open spec fn inv(&self) -> bool {
        self.auction_engine.inv()
    }

    /// What a refresh at `now_ns` caches.
    pub open spec fn refreshed_state(&self, now_ns: u64) -> ExchangeControlState {
        ExchangeControlState {
            is_halted: self.halt_detector.global_kill_switch,
            halt_state: self.halt_detector.symbol_state(self.venue_id, venue_symbol()),
            auction_active: self.auction_engine.some_active(),
            auction_phase: if self.auction_engine.some_active() {
                self.auction_engine.auction(venue_symbol()).phase
            } else {
                AuctionPhase::Inactive
            },
            last_update_ns: now_ns,
            ..self.cached_state
        }
    }

    /// The auctions once the state was refreshed: with an auction active, the venue as a whole was
    /// asked for.
    pub open spec fn refreshed_auctions(&self) -> Seq<SymbolView> {
        if self.auction_engine.some_active() {
            self.auction_engine.auctions_with(
                venue_symbol(),
                self.auction_engine.auction(venue_symbol()),
            )
        } else {
            self.auction_engine.auctions()
        }
    }

    /// True where `self` is `before` once its state was refreshed at `now_ns`.
    pub open spec fn is_refreshed(&self, before: &Self, now_ns: u64) -> bool {
        &&& self.inv()
        &&& self.venue_id == before.venue_id
        &&& self.halt_detector == before.halt_detector
        &&& self.auction_engine.same_settings(&before.auction_engine)
        &&& self.auction_engine.auctions() == before.refreshed_auctions()
        &&& self.cached_state == before.refreshed_state(now_ns)
        &&& self.last_update_ns == now_ns
    }

    /// True of the control of a venue to which nothing has happened.
    pub open spec fn is_fresh(&self, venue_id: VenueId, venues: Seq<VenueId>) -> bool {
        &&& self.inv()
        &&& self.venue_id == venue_id
        &&& !self.halt_detector.global_kill_switch
        &&& self.halt_detector.is_active
        &&& self.halt_detector.last_heartbeat_ns == 0
        &&& self.halt_detector.heartbeat_timeout_ns == 5_000_000_000
        &&& self.halt_detector.venues() == Seq::new(
            venues.len(),
            |i: int| crate::exchange::halt_detector::VenueView::fresh(venues[i]),
        )
        &&& self.auction_engine.venue_id == venue_id
        &&& self.auction_engine.max_symbols == 1000
        &&& self.auction_engine.auctions() == Seq::<SymbolView>::empty()
        &&& self.cached_state == (ExchangeControlState {
            venue_id,
            is_halted: false,
            halt_state: TradingState::Open,
            auction_active: false,
            auction_phase: AuctionPhase::Inactive,
            circuit_breaker_level: CircuitBreakerLevel::NoLevel,
            last_update_ns: 0,
        })
        &&& self.last_update_ns == 0
    }

    /// Creates the control of a venue; its detector watches all the given venues.
    pub fn new(venue_id: VenueId, venues: &[VenueId]) -> (c: Self)
        ensures
            c.is_fresh(venue_id, venues@),
    {
        Self {
            venue_id,
            halt_detector: HaltDetector::new(venues),
            auction_engine: AuctionEngine::new(venue_id, 1000),
            cached_state: ExchangeControlState {
                venue_id,
                is_halted: false,
                halt_state: TradingState::Open,
                auction_active: false,
                auction_phase: AuctionPhase::Inactive,
                circuit_breaker_level: CircuitBreakerLevel::NoLevel,
                last_update_ns: 0,
            },
            last_update_ns: 0,
        }
    }

    /// The halt detector.
    pub fn halt_detector(&self) -> (r: &HaltDetector)
        ensures
            *r == self.halt_detector,
    {
        &self.halt_detector
    }

    /// The auction engine.
    pub fn auction_engine(&self) -> (r: &AuctionEngine)
        ensures
            *r == self.auction_engine,
    {
        &self.auction_engine
    }

    /// The kill switch.
    pub fn get_global_kill_switch(&self) -> (r: bool)
        ensures
            r == self.halt_detector.global_kill_switch,
    {
        self.halt_detector.get_kill_switch()
    }

    /// True where orders may be entered for a symbol: it is not halted and its auction is in an
    /// entry phase.
    pub fn is_symbol_tradeable(&mut self, symbol: &[u8; 12]) -> (r: bool)
        requires
            old(self).inv(),
        ensures
            final(self).inv(),
            r == (old(self).halt_detector.symbol_tradeable(old(self).venue_id, symbol@) && old(self).auction_engine.auction(symbol@).phase.entry_allowed()),
            final(self).venue_id == old(self).venue_id,
            final(self).halt_detector == old(self).halt_detector,
            final(self).cached_state == old(self).cached_state,
            final(self).last_update_ns == old(self).last_update_ns,
            final(self).auction_engine.same_settings(&old(self).auction_engine),
            final(self).auction_engine.auctions() == if old(self).halt_detector.symbol_tradeable(
                old(self).venue_id,
                symbol@,
            ) {
                old(self).auction_engine.auctions_with(
                    symbol@,
                    old(self).auction_engine.auction(symbol@),
                )
            } else {
                old(self).auction_engine.auctions()
            },
    {
        if self.halt_detector.get_kill_switch() {
            return false;
        }
        if !self.halt_detector.is_symbol_tradeable(self.venue_id, symbol) {
            return false;
        }
        let phase = self.auction_engine.get_symbol_phase(symbol);
        phase.allows_order_entry()
    }

    /// True where the venue trades continuously.
    pub fn is_venue_tradeable(&self) -> (r: bool)
        ensures
            r == (self.halt_detector.venue_tradeable(self.venue_id)
                && !self.auction_engine.some_active()),
    {
        if self.halt_detector.get_kill_switch() {
            return false;
        }
        self.halt_detector.is_venue_tradeable(self.venue_id)
            && !self.auction_engine.is_auction_active()
    }

    /// The state as of the last refresh.
    pub fn get_control_state(&self) -> (r: ExchangeControlState)
        ensures
            r == self.cached_state,
    {
        self.cached_state
    }

    /// Refreshes the cached state at `now_ns`.
    pub fn refresh_state(&mut self, now_ns: u64)
        requires
            old(self).inv(),
        ensures
            final(self).is_refreshed(old(self), now_ns),
    {
        let symbol: [u8; 12] = [0u8;12];
        assert(symbol@ =~= venue_symbol());
        let is_halted = self.halt_detector.get_kill_switch();
        let auction_active = self.auction_engine.is_auction_active();
        let halt_state = self.halt_detector.get_symbol_state(self.venue_id, &symbol);
        let auction_phase = if auction_active {
            self.auction_engine.get_symbol_phase(&symbol)
        } else {
            AuctionPhase::Inactive
        };
        self.cached_state.is_halted = is_halted;
        self.cached_state.halt_state = halt_state;
        self.cached_state.auction_active = auction_active;
        self.cached_state.auction_phase = auction_phase;
        self.cached_state.last_update_ns = now_ns;
        self.last_update_ns = now_ns;
    }

    /// Sets the kill switch and returns the event for the subscribers.
    pub fn emergency_stop(&mut self) -> (r: HaltEvent)
        ensures
            *final(self) == (ExchangeControl {
                halt_detector: HaltDetector {
                    global_kill_switch: true,
                    ..old(self).halt_detector
                },
                ..*old(self)
            }),
            crate::exchange::halt_detector::is_emergency_event(r),
    {
        self.halt_detector.emergency_stop()
    }

    /// Processes a halt event at `now_ns` and refreshes the state. Returns the event for the
    /// subscribers.
    pub fn process_halt(&mut self, event: HaltEvent, now_ns: u64) -> (r: Option<HaltEvent>)
        requires
            old(self).inv(),
        ensures
            ({
                let before = old(self).halt_detector;
                let after = final(self).halt_detector;
                &&& r == if before.is_active {
                    Some(event)
                } else {
                    None
                }
                &&& after.venues() == if before.is_active {
                    before.venues_after(event)
                } else {
                    before.venues()
                }
                &&& after.global_kill_switch == if before.is_active {
                    before.kill_switch_after(event)
                } else {
                    before.global_kill_switch
                }
                &&& after.last_heartbeat_ns == if before.is_active {
                    event.timestamp_ns
                } else {
                    before.last_heartbeat_ns
                }
                &&& after.is_active == before.is_active
                &&& after.heartbeat_timeout_ns == before.heartbeat_timeout_ns
                &&& final(self).is_refreshed(
                    &(ExchangeControl { halt_detector: after, ..*old(self) }),
                    now_ns,
                )
            }),
    {
        let r = self.halt_detector.process_halt_message(event);
        self.refresh_state(now_ns);
        r
    }

    /// Starts the auction of a symbol at `now_ns` and refreshes the state.
    pub fn start_auction(&mut self, symbol: &[u8; 12], duration_ms: u64, now_ns: u64)
        requires
            old(self).inv(),
            now_ns + duration_ms * 1_000_000 <= u64::MAX,
        ensures
            ({
                let started = old(self).auction_engine.auctions_with(
                    symbol@,
                    SymbolView {
                        phase: AuctionPhase::PreOpen,
                        auction_start_ns: now_ns,
                        expected_end_ns: (now_ns + duration_ms * 1_000_000) as u64,
                        last_update_ns: now_ns,
                        ..old(self).auction_engine.auction(symbol@)
                    },
                );
                &&& exists|engine: AuctionEngine| #[trigger]
                    engine.auctions() == started && engine.inv() && engine.same_settings(
                        &old(self).auction_engine,
                    ) && final(self).is_refreshed(
                        &(ExchangeControl { auction_engine: engine, ..*old(self) }),
                        now_ns,
                    )
            }),
    {
        self.auction_engine.start_auction(symbol, duration_ms, now_ns);
        let ghost engine = self.auction_engine;
        let ghost started = *self;
        self.refresh_state(now_ns);
        assert(started == (ExchangeControl { auction_engine: engine, ..*old(self) }));
        assert(self.is_refreshed(
            &(ExchangeControl { auction_engine: engine, ..*old(self) }),
            now_ns,
        ));
    }

    /// Submits an order to the auction of its symbol.
    pub fn submit_auction_order(&mut self, order: AuctionOrder) -> (r: Result<(), &'static str>)
        requires
            old(self).inv(),
        ensures
            final(self).inv(),
            final(self).venue_id == old(self).venue_id,
            final(self).halt_detector == old(self).halt_detector,
            final(self).cached_state == old(self).cached_state,
            final(self).last_update_ns == old(self).last_update_ns,
            final(self).auction_engine.same_settings(&old(self).auction_engine),
            ({
                let engine = old(self).auction_engine;
                let state = engine.auction(order.symbol@);
                if state.phase.entry_allowed() {
                    &&& r is Ok
                    &&& final(self).auction_engine.auctions() == engine.auctions_with(
                        order.symbol@,
                        SymbolView { book: state.book.with_order(order), ..state },
                    )
                } else {
                    &&& r matches Err(e) && e@
                        == "Order entry not allowed in current auction phase"@
                    &&& final(self).auction_engine.auctions() == engine.auctions_with(
                        order.symbol@,
                        state,
                    )
                }
            }),
    {
        self.auction_engine.submit_auction_order(order)
    }

    /// Executes the auction of a symbol and refreshes the state at `now_ns`.
    pub fn execute_auction(&mut self, symbol: &[u8; 12], now_ns: u64) -> (r: (
        Option<IndicativePrice>,
        Vec<AuctionOrder>,
    ))
        requires
            old(self).inv(),
            old(self).auction_engine.auction(symbol@).book.volumes_fit(),
        ensures
            ({
                let state = old(self).auction_engine.auction(symbol@);
                let executed = old(self).auction_engine.auctions_with(
                    symbol@,
                    SymbolView { phase: AuctionPhase::Inactive, book: BookView::empty(), ..state },
                );
                &&& match r.0 {
                    Some(ip) => {
                        &&& state.book.clears()
                        &&& state.book.is_indicative(ip)
                        &&& r.1@ == state.book.executed(ip.price_ticks)
                    },
                    None => !state.book.clears() && r.1@.len() == 0,
                }
                &&& exists|engine: AuctionEngine| #[trigger]
                    engine.auctions() == executed && engine.inv() && engine.same_settings(
                        &old(self).auction_engine,
                    ) && final(self).is_refreshed(
                        &(ExchangeControl { auction_engine: engine, ..*old(self) }),
                        now_ns,
                    )
            }),
    {
        let result = self.auction_engine.execute_auction(symbol);
        let ghost engine = self.auction_engine;
        let ghost executed = *self;
        self.refresh_state(now_ns);
        assert(executed == (ExchangeControl { auction_engine: engine, ..*old(self) }));
        assert(self.is_refreshed(
            &(ExchangeControl { auction_engine: engine, ..*old(self) }),
            now_ns,
        ));
        result
    }

    /// The indicative price of a symbol.
    pub fn get_indicative_price(&mut self, symbol: &[u8; 12]) -> (r: Option<IndicativePrice>)
        requires
            old(self).inv(),
            old(self).auction_engine.auction(symbol@).book.volumes_fit(),
        ensures
            final(self).inv(),
            final(self).venue_id == old(self).venue_id,
            final(self).halt_detector == old(self).halt_detector,
            final(self).cached_state == old(self).cached_state,
            final(self).last_update_ns == old(self).last_update_ns,
            final(self).auction_engine.same_settings(&old(self).auction_engine),
            final(self).auction_engine.auctions() == old(self).auction_engine.auctions_with(
                symbol@,
                old(self).auction_engine.auction(symbol@),
            ),
            match r {
                Some(ip) => {
                    &&& old(self).auction_engine.auction(symbol@).book.clears()
                    &&& old(self).auction_engine.auction(symbol@).book.is_indicative(ip)
                },
                None => !old(self).auction_engine.auction(symbol@).book.clears(),
            },
    {
        self.auction_engine.get_indicative_price(symbol)
    }
}

/// Exchange control of several venues.
pub struct ExchangeControlManager {
    pub controls: Vec<ExchangeControl>,
}

/// The first control of a venue.
pub open spec fn control_index(controls: Seq<ExchangeControl>, id: VenueId, from: int) -> Option<int>
    decreases controls.len() - from,
{
    if from >= controls.len() {
        None
    } else if controls[from].venue_id == id {
        Some(from)
    } else {
        control_index(controls, id, from + 1)
    }
}

impl ExchangeControlManager {
    pub open spec fn inv(&self) -> bool {
        forall|i: int| 0 <= i < self.controls@.len() ==> (#[trigger] self.controls@[i]).inv()
    }

    /// True where the kill switch of some venue is on.
    pub open spec fn some_switch_on(&self) -> bool {
        exists|i: int|
            0 <= i < self.controls@.len() && (
            #[trigger] self.controls@[i]).halt_detector.global_kill_switch
    }

    /// Creates one control per venue; the detector of each watches all of them.
    pub fn new(venues: &[VenueId]) -> (m: Self)
        ensures
            m.inv(),
            m.controls@.len() == venues@.len(),
            forall|i: int|
                0 <= i < venues@.len() ==> (#[trigger] m.controls@[i]).is_fresh(venues@[i], venues@),
    {
        let mut controls: Vec<ExchangeControl> = Vec::new();
        let mut i: usize = 0;
        while i < venues.len()
            invariant
                i <= venues@.len(),
                controls@.len() == i,
                forall|j: int|
                    0 <= j < i ==> (#[trigger] controls@[j]).is_fresh(venues@[j], venues@),
            decreases venues.len() - i,
        {
            controls.push(ExchangeControl::new(venues[i], venues));
            i = i + 1;
        }
        Self { controls }
    }

    /// The control of a venue.
    pub fn get_control(&self, venue_id: VenueId) -> (r: Option<&ExchangeControl>)
        ensures
            match r {
                Some(c) => control_index(self.controls@, venue_id, 0) matches Some(i) && *c
                    == self.controls@[i],
                None => control_index(self.controls@, venue_id, 0) is None,
            },
    {
        let mut i: usize = 0;
        while i < self.controls.len()
            invariant
                i <= self.controls@.len(),
                control_index(self.controls@, venue_id, 0) == control_index(
                    self.controls@,
                    venue_id,
                    i as int,
                ),
            decreases self.controls.len() - i,
        {
            if self.controls[i].venue_id == venue_id {
                return Some(&self.controls[i]);
            }
            i = i + 1;
        }
        None
    }

    /// The kill switches of all venues together.
    pub fn get_global_kill_switch(&self) -> (r: bool)
        ensures
            r == self.some_switch_on(),
    {
        let mut i: usize = 0;
        while i < self.controls.len()
            invariant
                i <= self.controls@.len(),
                forall|j: int|
                    0 <= j < i ==> !(
                    #[trigger] self.controls@[j]).halt_detector.global_kill_switch,
            decreases self.controls.len() - i,
        {
            if self.controls[i].get_global_kill_switch() {
                return true;
            }
            i = i + 1;
        }
        false
    }

    /// True where any venue is halted.
    pub fn any_venue_halted(&self) -> (r: bool)
        ensures
            r == self.some_switch_on(),
    {
        self.get_global_kill_switch()
    }

    /// Sets the kill switch of every venue and returns the events for the subscribers.
    pub fn emergency_stop_all(&mut self) -> (r: Vec<HaltEvent>)
        ensures
            r@.len() == old(self).controls@.len(),
            forall|i: int|
                0 <= i < r@.len() ==> crate::exchange::halt_detector::is_emergency_event(
                    #[trigger] r@[i],
                ),
            final(self).controls@.len() == old(self).controls@.len(),
            forall|i: int|
                0 <= i < old(self).controls@.len() ==> #[trigger] final(self).controls@[i]
                    == stopped(old(self).controls@[i]),
    {
        let mut events: Vec<HaltEvent> = Vec::new();
        let mut i: usize = 0;
        while i < self.controls.len()
            invariant
                i <= self.controls@.len(),
                events@.len() == i,
                self.controls@.len() == old(self).controls@.len(),
                forall|j: int|
                    0 <= j < i ==> crate::exchange::halt_detector::is_emergency_event(
                        #[trigger] events@[j],
                    ),
                forall|j: int|
                    0 <= j < i ==> #[trigger] self.controls@[j] == stopped(old(self).controls@[j]),
                forall|j: int|
                    i <= j < self.controls@.len() ==> #[trigger] self.controls@[j]
                        == old(self).controls@[j],
            decreases self.controls.len() - i,
        {
            let event = self.controls[i].emergency_stop();
            events.push(event);
            i = i + 1;
        }
        events
    }

    /// Refreshes the state of every venue at `now_ns`.
    pub fn refresh_all_states(&mut self, now_ns: u64)
        requires
            old(self).inv(),
        ensures
            final(self).inv(),
            final(self).controls@.len() == old(self).controls@.len(),
            forall|i: int|
                0 <= i < old(self).controls@.len() ==> (#[trigger] final(self).controls@[i]).is_refreshed(&old(self).controls@[i], now_ns),
    {
        let mut i: usize = 0;
        while i < self.controls.len()
            invariant
                i <= self.controls@.len(),
                old(self).inv(),
                self.controls@.len() == old(self).controls@.len(),
                forall|j: int|
                    0 <= j < i ==> (#[trigger] self.controls@[j]).is_refreshed(
                        &old(self).controls@[j],
                        now_ns,
                    ),
                forall|j: int|
                    i <= j < self.controls@.len() ==> #[trigger] self.controls@[j]
                        == old(self).controls@[j],
            decreases self.controls.len() - i,
        {
            assert(self.controls@[i as int] == old(self).controls@[i as int]);
            self.controls[i].refresh_state(now_ns);
            i = i + 1;
        }
    }
}

/// A control with its kill switch on.
pub open spec fn stopped(control: ExchangeControl) -> ExchangeControl {
    ExchangeControl {
        halt_detector: HaltDetector { global_kill_switch: true, ..control.halt_detector },
        ..control
    }
}

/// After an emergency stop of all venues no symbol of any venue may be traded.
pub proof fn law_emergency_stop_freezes_all(
    before: ExchangeControlManager,
    after: ExchangeControlManager,
    i: int,
    venue_id: VenueId,
    symbol: Seq<u8>,
)
    requires
        0 <= i < before.controls@.len(),
        after.controls@.len() == before.controls@.len(),
        forall|j: int|
            0 <= j < before.controls@.len() ==> #[trigger] after.controls@[j] == stopped(
                before.controls@[j],
            ),
    ensures
        !after.controls@[i].halt_detector.symbol_tradeable(venue_id, symbol),
        !after.controls@[i].halt_detector.venue_tradeable(venue_id),
        after.some_switch_on(),
{
    assert(after.controls@[i] == stopped(before.controls@[i]));
}

/// A refreshed state says what the parts say: whether everything is stopped, whether an auction
/// runs, and when.
pub proof fn law_refreshed_state_reports_the_parts(c: ExchangeControl, now_ns: u64)
    ensures
        ({
            let s = c.refreshed_state(now_ns);
            &&& s.is_halted == c.halt_detector.global_kill_switch
            &&& s.auction_active == c.auction_engine.some_active()
            &&& !s.auction_active ==> s.auction_phase == AuctionPhase::Inactive
            &&& s.last_update_ns == now_ns
            &&& s.venue_id == c.cached_state.venue_id
            &&& s.halt_state == c.halt_detector.symbol_state(c.venue_id, Seq::new(12, |i: int| 0u8))
        }),
{
    assert(venue_symbol() =~= Seq::new(12, |i: int| 0u8));
}

/// The first control of a venue is found.
pub proof fn law_first_control_is_found(controls: Seq<ExchangeControl>, id: VenueId, from: int)
    requires
        0 <= from <= controls.len(),
    ensures
        match control_index(controls, id, from) {
            Some(i) => from <= i < controls.len() && controls[i].venue_id == id && forall|j: int|
                from <= j < i ==> (#[trigger] controls[j]).venue_id != id,
            None => forall|j: int|
                from <= j < controls.len() ==> (#[trigger] controls[j]).venue_id != id,
        },
    decreases controls.len() - from,
{
    if from < controls.len() && controls[from].venue_id != id {
        law_first_control_is_found(controls, id, from + 1);
    }
}

} // verus!
