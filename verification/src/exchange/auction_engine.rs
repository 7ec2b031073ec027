//! Call auctions of a venue.
use crate::exchange::auction_book::{AuctionBook, AuctionOrder, BookView, IndicativePrice};
use crate::gateway::venue::VenueId;
use vstd::prelude::*;

verus! {

broadcast use vstd::array::group_array_axioms;

/// Auction phase.
#[derive(Debug, Clone, Copy, PartialEq, Eq, Structural)]
pub enum AuctionPhase {
    /// No auction active
    Inactive,
    /// Pre-open: order entry allowed, no matching
    PreOpen,
    /// Order modification allowed
    OrderModification,
    /// Freeze: no order entry/modification, only cancellation
    Freeze,
    /// Matching: calculating indicative price
    Matching,
    /// Auction executing
    Executing,
}

impl AuctionPhase {
    /// True of the phases in which orders are entered and modified.
    pub open spec fn entry_allowed(self) -> bool {
        self is PreOpen || self is OrderModification
    }

    /// The phase with a given number; unknown numbers mean that no auction is active.
    pub open spec fn of_number(val: u8) -> Self {
        if val == 1 {
            AuctionPhase::PreOpen
        } else if val == 2 {
            AuctionPhase::OrderModification
        } else if val == 3 {
            AuctionPhase::Freeze
        } else if val == 4 {
            AuctionPhase::Matching
        } else if val == 5 {
            AuctionPhase::Executing
        } else {
            AuctionPhase::Inactive
        }
    }

    pub fn allows_order_entry(&self) -> (r: bool)
        ensures
            r == self.entry_allowed(),
    {
        match self {
            AuctionPhase::PreOpen => true,
            AuctionPhase::OrderModification => true,
            _ => false,
        }
    }

    pub fn allows_cancellation(&self) -> (r: bool)
        ensures
            r == !(self is Executing),
    {
        match self {
            AuctionPhase::Executing => false,
            _ => true,
        }
    }

    pub fn from_u8(val: u8) -> (r: Self)
        ensures
            r == AuctionPhase::of_number(val),
    {
        match val {
            1 => AuctionPhase::PreOpen,
            2 => AuctionPhase::OrderModification,
            3 => AuctionPhase::Freeze,
            4 => AuctionPhase::Matching,
            5 => AuctionPhase::Executing,
            _ => AuctionPhase::Inactive,
        }
    }
}

/// The auction of a symbol.
#[verifier::ext_equal]
pub struct SymbolView {
    pub symbol: Seq<u8>,
    pub phase: AuctionPhase,
    pub book: BookView,
    pub last_update_ns: u64,
    pub auction_start_ns: u64,
    pub expected_end_ns: u64,
}

impl SymbolView {
    /// The auction of a symbol that nothing has happened to.
    pub open spec fn fresh(symbol: Seq<u8>) -> Self {
        SymbolView {
            symbol,
            phase: AuctionPhase::Inactive,
            book: BookView::empty(),
            last_update_ns: 0,
            auction_start_ns: 0,
            expected_end_ns: 0,
        }
    }
}

/// Auction state of a symbol.
pub struct SymbolAuctionState {
    pub symbol: [u8; 12],
    pub phase: AuctionPhase,
    pub book: AuctionBook,
    pub last_update_ns: u64,
    pub auction_start_ns: u64,
    pub expected_end_ns: u64,
}

impl View for SymbolAuctionState {
    type V = SymbolView;

    open spec fn view(&self) -> SymbolView {
        SymbolView {
            symbol: self.symbol@,
            phase: self.phase,
            book: self.book@,
            last_update_ns: self.last_update_ns,
            auction_start_ns: self.auction_start_ns,
            expected_end_ns: self.expected_end_ns,
        }
    }
}

impl SymbolAuctionState {
    pub fn new(symbol: [u8; 12]) -> (s: Self)
        ensures
            s.book.inv(),
            s@ == SymbolView::fresh(symbol@),
    {
        SymbolAuctionState {
            symbol,
            phase: AuctionPhase::Inactive,
            book: AuctionBook::new(symbol),
            last_update_ns: 0,
            auction_start_ns: 0,
            expected_end_ns: 0,
        }
    }
}

/// The position of a symbol.
pub open spec fn index_of(symbols: Seq<SymbolView>, symbol: Seq<u8>, from: int) -> Option<int>
    decreases symbols.len() - from,
{
    if from >= symbols.len() {
        None
    } else if symbols[from].symbol == symbol {
        Some(from)
    } else {
        index_of(symbols, symbol, from + 1)
    }
}

/// The symbols once one was asked for: a new one is tracked as long as there is room.
pub open spec fn touched(symbols: Seq<SymbolView>, symbol: Seq<u8>, max_symbols: usize) -> Seq<
    SymbolView,
> {
    if index_of(symbols, symbol, 0) is Some || symbols.len() >= max_symbols {
        symbols
    } else {
        symbols.push(SymbolView::fresh(symbol))
    }
}

/// The auction of a symbol; a symbol that is not tracked has a fresh one.
pub open spec fn state_of(symbols: Seq<SymbolView>, symbol: Seq<u8>) -> SymbolView {
    match index_of(symbols, symbol, 0) {
        Some(i) => symbols[i],
        None => SymbolView::fresh(symbol),
    }
}

/// The symbols once the auction of one has become `state`. Where there is no room for a new symbol
/// nothing is kept of it.
pub open spec fn put(
    symbols: Seq<SymbolView>,
    symbol: Seq<u8>,
    max_symbols: usize,
    state: SymbolView,
) -> Seq<SymbolView> {
    let t = touched(symbols, symbol, max_symbols);
    match index_of(t, symbol, 0) {
        Some(i) => t.update(i, state),
        None => t,
    }
}

/// Compares two symbols.
pub fn same_symbol(a: &[u8; 12], b: &[u8; 12]) -> (r: bool)
    ensures
        r == (a@ == b@),
{
    let mut i: usize = 0;
    while i < 12
        invariant
            i <= 12,
            forall|j: int| 0 <= j < i ==> a@[j] == b@[j],
        decreases 12 - i,
    {
        if a[i] != b[i] {
            return false;
        }
        i = i + 1;
    }
    assert(a@ =~= b@);
    true
}

/// Runs the auctions of a venue.
pub struct AuctionEngine {
    pub venue_id: VenueId,
    pub symbols: Vec<SymbolAuctionState>,
    pub max_symbols: usize,
}

impl AuctionEngine {
    /// The auctions of all tracked symbols.
    pub open spec fn auctions(&self) -> Seq<SymbolView> {
        Seq::new(self.symbols@.len(), |i: int| self.symbols@[i]@)
    }

    /// The auction of a symbol.
    pub open spec fn auction(&self, symbol: Seq<u8>) -> SymbolView {
        state_of(self.auctions(), symbol)
    }

    pub open spec fn inv(&self) -> bool {
        forall|i: int| 0 <= i < self.symbols@.len() ==> (#[trigger] self.symbols@[i]).book.inv()
    }

    /// True where nothing but the auctions differs from another engine.
    pub open spec fn same_settings(&self, other: &Self) -> bool {
        self.venue_id == other.venue_id && self.max_symbols == other.max_symbols
    }

    /// True where the auction of some symbol is active.
    pub open spec fn some_active(&self) -> bool {
        exists|i: int|
            0 <= i < self.auctions().len() && !((#[trigger] self.auctions()[i]).phase is Inactive)
    }

    /// The auctions once the one of `symbol` has become `state`.
    pub open spec fn auctions_with(&self, symbol: Seq<u8>, state: SymbolView) -> Seq<SymbolView> {
        put(self.auctions(), symbol, self.max_symbols, state)
    }

    pub fn new(venue_id: VenueId, max_symbols: usize) -> (e: Self)
        ensures
            e.inv(),
            e.venue_id == venue_id,
            e.max_symbols == max_symbols,
            e.auctions() == Seq::<SymbolView>::empty(),
    {
        let e = Self {
            venue_id,
            symbols: Vec::new(),
            max_symbols,
        };
        assert(e.auctions() =~= Seq::<SymbolView>::empty());
        e
    }

    /// Looks a symbol up and starts to track it where it is new and there is room.
    fn get_or_create_symbol(&mut self, symbol: &[u8; 12]) -> (r: Option<usize>)
        requires
            old(self).inv(),
        ensures
            final(self).inv(),
            final(self).same_settings(old(self)),
            final(self).auctions() == touched(old(self).auctions(), symbol@, old(self).max_symbols),
            match r {
                Some(i) => {
                    &&& i < final(self).symbols@.len()
                    &&& index_of(final(self).auctions(), symbol@, 0) == Some(i as int)
                    &&& final(self).symbols@[i as int]@ == old(self).auction(symbol@)
                },
                None => index_of(final(self).auctions(), symbol@, 0) is None,
            },
    {
        let mut i: usize = 0;
        let ghost before = self.auctions();
        while i < self.symbols.len()
            invariant
                *self == *old(self),
                self.inv(),
                before == self.auctions(),
                i <= self.symbols@.len(),
                index_of(before, symbol@, 0) == index_of(before, symbol@, i as int),
            decreases self.symbols.len() - i,
        {
            assert(before[i as int] == self.symbols@[i as int]@);
            if same_symbol(&self.symbols[i].symbol, symbol) {
                return Some(i);
            }
            i = i + 1;
        }
        if self.symbols.len() < self.max_symbols {
            let at: usize = self.symbols.len();
            self.symbols.push(SymbolAuctionState::new(*symbol));
            proof {
                assert(self.auctions() =~= before.push(SymbolView::fresh(symbol@)));
                lemma_index_of_push(before, symbol@, 0);
                assert forall|i: int| 0 <= i < self.symbols@.len() implies (
                #[trigger] self.symbols@[i]).book.inv() by {
                    if i < at {
                        assert(self.symbols@[i] == old(self).symbols@[i]);
                    }
                }
            }
            return Some(at);
        }
        None
    }

    /// Starts the auction of a symbol at `now_ns`.
    pub fn start_auction(&mut self, symbol: &[u8; 12], duration_ms: u64, now_ns: u64)
        requires
            old(self).inv(),
            now_ns + duration_ms * 1_000_000 <= u64::MAX,
        ensures
            final(self).inv(),
            final(self).same_settings(old(self)),
            final(self).auctions() == old(self).auctions_with(
                symbol@,
                SymbolView {
                    phase: AuctionPhase::PreOpen,
                    auction_start_ns: now_ns,
                    expected_end_ns: (now_ns + duration_ms * 1_000_000) as u64,
                    last_update_ns: now_ns,
                    ..old(self).auction(symbol@)
                },
            ),
    {
        let slot = self.get_or_create_symbol(symbol);
        if let Some(i) = slot {
            let ghost before = *self;
            let state = &mut self.symbols[i];
            state.phase = AuctionPhase::PreOpen;
            state.auction_start_ns = now_ns;
            state.expected_end_ns = now_ns + duration_ms * 1_000_000;
            state.last_update_ns = now_ns;
            proof {
                lemma_updated(before, *self, i as int);
            }
        }
    }

    /// Moves the auction of a symbol to a phase at `now_ns`.
    pub fn transition_phase(&mut self, symbol: &[u8; 12], new_phase: AuctionPhase, now_ns: u64)
        requires
            old(self).inv(),
        ensures
            final(self).inv(),
            final(self).same_settings(old(self)),
            final(self).auctions() == old(self).auctions_with(
                symbol@,
                SymbolView {
                    phase: new_phase,
                    last_update_ns: now_ns,
                    ..old(self).auction(symbol@)
                },
            ),
    {
        let slot = self.get_or_create_symbol(symbol);
        if let Some(i) = slot {
            let ghost before = *self;
            let state = &mut self.symbols[i];
            state.phase = new_phase;
            state.last_update_ns = now_ns;
            proof {
                lemma_updated(before, *self, i as int);
            }
        }
    }

    /// Submits an order to the auction of its symbol.
    pub fn submit_auction_order(&mut self, order: AuctionOrder) -> (r: Result<(), &'static str>)
        requires
            old(self).inv(),
        ensures
            final(self).inv(),
            final(self).same_settings(old(self)),
            ({
                let state = old(self).auction(order.symbol@);
                if state.phase.entry_allowed() {
                    &&& r is Ok
                    &&& final(self).auctions() == old(self).auctions_with(
                        order.symbol@,
                        SymbolView { book: state.book.with_order(order), ..state },
                    )
                } else {
                    &&& r matches Err(e) && e@
                        == "Order entry not allowed in current auction phase"@
                    &&& final(self).auctions() == old(self).auctions_with(order.symbol@, state)
                }
            }),
    {
        let slot = self.get_or_create_symbol(&order.symbol);
        if let Some(i) = slot {
            let ghost before = *self;
            if self.symbols[i].phase.allows_order_entry() {
                self.symbols[i].book.add_order(order);
                proof {
                    lemma_updated(before, *self, i as int);
                }
                return Ok(());
            }
            assert(self.auctions() =~= self.auctions().update(i as int, self.symbols@[i as int]@));
        }
        Err("Order entry not allowed in current auction phase")
    }

    /// Cancels an order of the auction of a symbol.
    pub fn cancel_auction_order(&mut self, order_id: u64, symbol: &[u8; 12]) -> (r: Result<
        Option<AuctionOrder>,
        &'static str,
    >)
        requires
            old(self).inv(),
        ensures
            final(self).inv(),
            final(self).same_settings(old(self)),
            ({
                let state = old(self).auction(symbol@);
                if state.phase is Executing {
                    &&& r matches Err(e) && e@
                        == "Cancellation not allowed in current auction phase"@
                    &&& final(self).auctions() == old(self).auctions_with(symbol@, state)
                } else if state.book.lookup.contains_key(order_id) {
                    &&& r == Ok::<Option<AuctionOrder>, &'static str>(
                        Some(state.book.order(order_id)),
                    )
                    &&& final(self).auctions() == old(self).auctions_with(
                        symbol@,
                        SymbolView { book: state.book.without(order_id), ..state },
                    )
                } else {
                    &&& r == Ok::<Option<AuctionOrder>, &'static str>(None)
                    &&& final(self).auctions() == old(self).auctions_with(symbol@, state)
                }
            }),
    {
        let slot = self.get_or_create_symbol(symbol);
        if let Some(i) = slot {
            let ghost before = *self;
            if !self.symbols[i].phase.allows_cancellation() {
                assert(self.auctions() =~= self.auctions().update(
                    i as int,
                    self.symbols@[i as int]@,
                ));
                return Err("Cancellation not allowed in current auction phase");
            }
            let cancelled = self.symbols[i].book.cancel_order(order_id);
            proof {
                lemma_updated(before, *self, i as int);
            }
            return Ok(cancelled);
        }
        Ok(None)
    }

    /// Modifies an order of the auction of a symbol.
    pub fn modify_auction_order(
        &mut self,
        order_id: u64,
        symbol: &[u8; 12],
        new_quantity: u64,
        new_price: Option<i64>,
    ) -> (r: Result<bool, &'static str>)
        requires
            old(self).inv(),
        ensures
            final(self).inv(),
            final(self).same_settings(old(self)),
            ({
                let state = old(self).auction(symbol@);
                let known = state.book.lookup.contains_key(order_id);
                if !state.phase.entry_allowed() {
                    &&& r matches Err(e) && e@
                        == "Order modification not allowed in current auction phase"@
                    &&& final(self).auctions() == old(self).auctions_with(symbol@, state)
                } else if known {
                    &&& r == Ok::<bool, &'static str>(true)
                    &&& final(self).auctions() == old(self).auctions_with(
                        symbol@,
                        SymbolView {
                            book: state.book.without(order_id).with_order(
                                crate::exchange::auction_book::modified(state.book.order(order_id), new_quantity, new_price),
                            ),
                            ..state
                        },
                    )
                } else {
                    &&& r == Ok::<bool, &'static str>(false)
                    &&& final(self).auctions() == old(self).auctions_with(symbol@, state)
                }
            }),
    {
        let slot = self.get_or_create_symbol(symbol);
        if let Some(i) = slot {
            let ghost before = *self;
            if self.symbols[i].phase.allows_order_entry() {
                let done = self.symbols[i].book.modify_order(order_id, new_quantity, new_price);
                proof {
                    lemma_updated(before, *self, i as int);
                }
                return Ok(done);
            }
            assert(self.auctions() =~= self.auctions().update(i as int, self.symbols@[i as int]@));
        }
        Err("Order modification not allowed in current auction phase")
    }

    /// The indicative price of a symbol.
    pub fn get_indicative_price(&mut self, symbol: &[u8; 12]) -> (r: Option<IndicativePrice>)
        requires
            old(self).inv(),
            old(self).auction(symbol@).book.volumes_fit(),
        ensures
            final(self).inv(),
            final(self).same_settings(old(self)),
            final(self).auctions() == old(self).auctions_with(symbol@, old(self).auction(symbol@)),
            match r {
                Some(ip) => old(self).auction(symbol@).book.clears() && old(self).auction(
                    symbol@,
                ).book.is_indicative(ip),
                None => !old(self).auction(symbol@).book.clears(),
            },
    {
        let slot = self.get_or_create_symbol(symbol);
        if let Some(i) = slot {
            assert(self.auctions() =~= self.auctions().update(i as int, self.symbols@[i as int]@));
            return self.symbols[i].book.calculate_indicative_price();
        }
        None
    }

    /// Executes the auction of a symbol: returns the price at which it clears and the orders that
    /// trade there, as they were entered, and leaves an empty book and no auction.
    pub fn execute_auction(&mut self, symbol: &[u8; 12]) -> (r: (
        Option<IndicativePrice>,
        Vec<AuctionOrder>,
    ))
        requires
            old(self).inv(),
            old(self).auction(symbol@).book.volumes_fit(),
        ensures
            final(self).inv(),
            final(self).same_settings(old(self)),
            ({
                let state = old(self).auction(symbol@);
                &&& match r.0 {
                    Some(ip) => {
                        &&& state.book.clears()
                        &&& state.book.is_indicative(ip)
                        &&& r.1@ == state.book.executed(ip.price_ticks)
                    },
                    None => !state.book.clears() && r.1@.len() == 0,
                }
                &&& final(self).auctions() == old(self).auctions_with(
                    symbol@,
                    SymbolView { phase: AuctionPhase::Inactive, book: BookView::empty(), ..state },
                )
            }),
    {
        let slot = self.get_or_create_symbol(symbol);
        if let Some(i) = slot {
            let ghost before = *self;
            let indicative = self.symbols[i].book.calculate_indicative_price();
            let orders: Vec<AuctionOrder> = match &indicative {
                Some(ip) => self.symbols[i].book.executed_orders(ip),
                None => Vec::new(),
            };
            let _ = self.symbols[i].book.clear_book();
            let state = &mut self.symbols[i];
            state.phase = AuctionPhase::Inactive;
            proof {
                assert(self.symbols@ =~= before.symbols@.update(
                    i as int,
                    self.symbols@[i as int],
                ));
                lemma_updated(before, *self, i as int);
            }
            return (indicative, orders);
        }
        (None, Vec::new())
    }

    /// True where the auction of some symbol is active.
    pub fn is_auction_active(&self) -> (r: bool)
        ensures
            r == self.some_active(),
    {
        let mut i: usize = 0;
        while i < self.symbols.len()
            invariant
                i <= self.symbols@.len(),
                forall|j: int| 0 <= j < i ==> (#[trigger] self.auctions()[j]).phase is Inactive,
            decreases self.symbols.len() - i,
        {
            assert(self.auctions()[i as int] == self.symbols@[i as int]@);
            match self.symbols[i].phase {
                AuctionPhase::Inactive => {},
                _ => {
                    return true;
                },
            }
            i = i + 1;
        }
        false
    }

    /// The phase of a symbol.
    pub fn get_symbol_phase(&mut self, symbol: &[u8; 12]) -> (r: AuctionPhase)
        requires
            old(self).inv(),
        ensures
            final(self).inv(),
            final(self).same_settings(old(self)),
            final(self).auctions() == old(self).auctions_with(symbol@, old(self).auction(symbol@)),
            r == old(self).auction(symbol@).phase,
    {
        let slot = self.get_or_create_symbol(symbol);
        if let Some(i) = slot {
            assert(self.auctions() =~= self.auctions().update(i as int, self.symbols@[i as int]@));
            return self.symbols[i].phase;
        }
        AuctionPhase::Inactive
    }

    /// Ends all auctions.
    pub fn emergency_end_all(&mut self)
        requires
            old(self).inv(),
        ensures
            final(self).inv(),
            final(self).same_settings(old(self)),
            !final(self).some_active(),
            final(self).auctions() == Seq::new(
                old(self).auctions().len(),
                |i: int|
                    SymbolView { phase: AuctionPhase::Inactive, ..old(self).auctions()[i] },
            ),
    {
        let mut i: usize = 0;
        while i < self.symbols.len()
            invariant
                self.inv(),
                i <= self.symbols@.len(),
                self.same_settings(old(self)),
                self.symbols@.len() == old(self).symbols@.len(),
                forall|j: int|
                    0 <= j < i ==> (#[trigger] self.symbols@[j])@ == (SymbolView {
                        phase: AuctionPhase::Inactive,
                        ..old(self).symbols@[j]@
                    }),
                forall|j: int|
                    i <= j < self.symbols@.len() ==> #[trigger] self.symbols@[j]
                        == old(self).symbols@[j],
            decreases self.symbols.len() - i,
        {
            let ghost before = *self;
            let state = &mut self.symbols[i];
            state.phase = AuctionPhase::Inactive;
            proof {
                lemma_updated(before, *self, i as int);
            }
            i = i + 1;
        }
        assert(self.auctions() =~= Seq::new(
            old(self).auctions().len(),
            |i: int| SymbolView { phase: AuctionPhase::Inactive, ..old(self).auctions()[i] },
        ));
    }

    /// Empties the book of a symbol and returns its orders for continuous trading: market orders
    /// become limit orders at the reference price.
    pub fn reprice_for_continuous(&mut self, symbol: &[u8; 12], reference_price: i64) -> (r: Vec<
        AuctionOrder,
    >)
        requires
            old(self).inv(),
        ensures
            final(self).inv(),
            final(self).same_settings(old(self)),
            ({
                let state = old(self).auction(symbol@);
                &&& r@.len() == state.book.all_orders().len()
                &&& forall|i: int|
                    0 <= i < r@.len() ==> #[trigger] r@[i] == repriced(
                        state.book.all_orders()[i],
                        reference_price,
                    )
                &&& final(self).auctions() == old(self).auctions_with(
                    symbol@,
                    SymbolView { book: BookView::empty(), ..state },
                )
            }),
    {
        let slot = self.get_or_create_symbol(symbol);
        let mut orders: Vec<AuctionOrder> = Vec::new();
        if let Some(i) = slot {
            let ghost before = *self;
            orders = self.symbols[i].book.clear_book();
            proof {
                lemma_updated(before, *self, i as int);
            }
        }
        let ghost all = orders@;
        let mut k: usize = 0;
        while k < orders.len()
            invariant
                k <= orders@.len(),
                orders@.len() == all.len(),
                forall|i: int| 0 <= i < k ==> #[trigger] orders@[i] == repriced(all[i], reference_price),
                forall|i: int| k <= i < all.len() ==> #[trigger] orders@[i] == all[i],
            decreases orders.len() - k,
        {
            let mut order = orders[k];
            if order.is_market_order {
                order.price_ticks = reference_price;
                order.is_market_order = false;
            }
            orders.set(k, order);
            k = k + 1;
        }
        orders
    }
}

/// An order as continuous trading takes it over.
pub open spec fn repriced(order: AuctionOrder, reference_price: i64) -> AuctionOrder {
    if order.is_market_order {
        AuctionOrder { price_ticks: reference_price, is_market_order: false, ..order }
    } else {
        order
    }
}

/// A symbol that is not among the others is found at the end where it is added.
proof fn lemma_index_of_push(symbols: Seq<SymbolView>, symbol: Seq<u8>, from: int)
    requires
        0 <= from <= symbols.len(),
        index_of(symbols, symbol, from) is None,
    ensures
        index_of(symbols.push(SymbolView::fresh(symbol)), symbol, from) == Some(
            symbols.len() as int,
        ),
    decreases symbols.len() - from,
{
    if from < symbols.len() {
        assert(symbols.push(SymbolView::fresh(symbol))[from] == symbols[from]);
        lemma_index_of_push(symbols, symbol, from + 1);
    }
}

/// Replacing one auction leaves the others as they are.
proof fn lemma_updated(before: AuctionEngine, after: AuctionEngine, i: int)
    requires
        before.inv(),
        0 <= i < before.symbols@.len(),
        after.symbols@ == before.symbols@.update(i, after.symbols@[i]),
        after.symbols@[i].book.inv(),
    ensures
        after.inv(),
        after.auctions() == before.auctions().update(i, after.symbols@[i]@),
{
    assert(after.auctions() =~= before.auctions().update(i, after.symbols@[i]@));
    assert forall|j: int| 0 <= j < after.symbols@.len() implies (
    #[trigger] after.symbols@[j]).book.inv() by {
        if j != i {
            assert(after.symbols@[j] == before.symbols@[j]);
        }
    }
}

/// What concerns one symbol leaves the auction of every other symbol as it is.
pub proof fn law_symbols_are_independent(
    symbols: Seq<SymbolView>,
    symbol: Seq<u8>,
    other: Seq<u8>,
    max_symbols: usize,
    state: SymbolView,
)
    requires
        symbol != other,
        state.symbol == symbol,
    ensures
        state_of(put(symbols, symbol, max_symbols, state), other) == state_of(symbols, other),
{
    let t = touched(symbols, symbol, max_symbols);
    lemma_index_of(symbols, symbol, 0);
    if t != symbols {
        lemma_index_of_push(symbols, symbol, 0);
        lemma_other_unaffected_by_push(symbols, symbol, other, 0);
    }
    match index_of(t, symbol, 0) {
        Some(i) => {
            lemma_index_of(t, symbol, 0);
            lemma_other_unaffected_by_update(t, other, i, state, 0);
            lemma_index_of(t, other, 0);
        },
        None => {},
    }
    lemma_index_of(symbols, other, 0);
}

/// What is put for a symbol that is tracked, or that there is room for, is what is found.
pub proof fn law_put_is_found(
    symbols: Seq<SymbolView>,
    symbol: Seq<u8>,
    max_symbols: usize,
    state: SymbolView,
)
    requires
        state.symbol == symbol,
        index_of(symbols, symbol, 0) is Some || symbols.len() < max_symbols,
    ensures
        state_of(put(symbols, symbol, max_symbols, state), symbol) == state,
{
    let t = touched(symbols, symbol, max_symbols);
    if index_of(symbols, symbol, 0) is None {
        lemma_index_of_push(symbols, symbol, 0);
    }
    lemma_index_of(t, symbol, 0);
    let i = index_of(t, symbol, 0)->0;
    lemma_first_found(t.update(i, state), symbol, i, 0);
}

/// What `index_of` returns is the first match.
proof fn lemma_index_of(symbols: Seq<SymbolView>, symbol: Seq<u8>, from: int)
    requires
        0 <= from,
    ensures
        match index_of(symbols, symbol, from) {
            Some(i) => from <= i < symbols.len() && symbols[i].symbol == symbol && forall|j: int|
                from <= j < i ==> (#[trigger] symbols[j]).symbol != symbol,
            None => forall|j: int|
                from <= j < symbols.len() ==> (#[trigger] symbols[j]).symbol != symbol,
        },
    decreases symbols.len() - from,
{
    if from < symbols.len() {
        lemma_index_of(symbols, symbol, from + 1);
    }
}

/// A first match is what `index_of` returns.
proof fn lemma_first_found(symbols: Seq<SymbolView>, symbol: Seq<u8>, at: int, from: int)
    requires
        0 <= from <= at < symbols.len(),
        symbols[at].symbol == symbol,
        forall|j: int| from <= j < at ==> (#[trigger] symbols[j]).symbol != symbol,
    ensures
        index_of(symbols, symbol, from) == Some(at),
    decreases at - from,
{
    if from < at {
        lemma_first_found(symbols, symbol, at, from + 1);
    }
}

/// A new symbol at the end does not change where another one is found.
proof fn lemma_other_unaffected_by_push(
    symbols: Seq<SymbolView>,
    symbol: Seq<u8>,
    other: Seq<u8>,
    from: int,
)
    requires
        symbol != other,
        0 <= from <= symbols.len(),
    ensures
        index_of(symbols.push(SymbolView::fresh(symbol)), other, from) == index_of(
            symbols,
            other,
            from,
        ),
    decreases symbols.len() - from,
{
    let t = symbols.push(SymbolView::fresh(symbol));
    if from < symbols.len() {
        assert(t[from] == symbols[from]);
        lemma_other_unaffected_by_push(symbols, symbol, other, from + 1);
    } else {
        assert(t[from].symbol == symbol);
        assert(index_of(t, other, from + 1) is None);
    }
}

/// Replacing the auction of one symbol does not change where another one is found.
proof fn lemma_other_unaffected_by_update(
    symbols: Seq<SymbolView>,
    other: Seq<u8>,
    i: int,
    state: SymbolView,
    from: int,
)
    requires
        0 <= i < symbols.len(),
        symbols[i].symbol == state.symbol,
        state.symbol != other,
        0 <= from,
    ensures
        index_of(symbols.update(i, state), other, from) == index_of(symbols, other, from),
    decreases symbols.len() - from,
{
    if from < symbols.len() {
        lemma_other_unaffected_by_update(symbols, other, i, state, from + 1);
    }
}

/// Auction event.
#[derive(Debug, Clone, Copy)]
pub struct AuctionEvent {
    pub venue_id: VenueId,
    pub symbol: [u8; 12],
    pub phase: AuctionPhase,
    pub indicative_price: Option<IndicativePriceData>,
    pub timestamp_ns: u64,
}

/// Indicative price as it is published.
#[derive(Debug, Clone, Copy)]
pub struct IndicativePriceData {
    pub price_ticks: i64,
    pub executable_volume: u64,
    pub imbalance: i64,
}

impl<'a> From<&'a IndicativePrice> for IndicativePriceData {
    fn from(ip: &'a IndicativePrice) -> (r: Self) {
        Self {
            price_ticks: ip.price_ticks,
            executable_volume: ip.executable_volume,
            imbalance: ip.buy_imbalance.wrapping_sub(ip.sell_imbalance),
        }
    }
}

impl<'a> vstd::std_specs::convert::FromSpecImpl<&'a IndicativePrice> for IndicativePriceData {
    open spec fn obeys_from_spec() -> bool {
        true
    }

    open spec fn from_spec(ip: &'a IndicativePrice) -> Self {
        IndicativePriceData {
            price_ticks: ip.price_ticks,
            executable_volume: ip.executable_volume,
            imbalance: ip.buy_imbalance.wrapping_sub(ip.sell_imbalance),
        }
    }
}

/// Orders are entered before the freeze only.
pub proof fn law_entry_ends_with_the_freeze()
    ensures
        AuctionPhase::PreOpen.entry_allowed(),
        AuctionPhase::OrderModification.entry_allowed(),
        !AuctionPhase::Inactive.entry_allowed(),
        !AuctionPhase::Freeze.entry_allowed(),
        !AuctionPhase::Matching.entry_allowed(),
        !AuctionPhase::Executing.entry_allowed(),
{
}

/// Phases have their numbers, and an unknown number means that no auction is active.
pub proof fn law_phases_have_their_numbers(val: u8)
    ensures
        AuctionPhase::of_number(0) == AuctionPhase::Inactive,
        AuctionPhase::of_number(1) == AuctionPhase::PreOpen,
        AuctionPhase::of_number(2) == AuctionPhase::OrderModification,
        AuctionPhase::of_number(3) == AuctionPhase::Freeze,
        AuctionPhase::of_number(4) == AuctionPhase::Matching,
        AuctionPhase::of_number(5) == AuctionPhase::Executing,
        val > 5 ==> AuctionPhase::of_number(val) == AuctionPhase::Inactive,
{
}

/// A new symbol is tracked while there is room, behind the others; a known one, or one beyond the
/// limit, changes nothing.
pub proof fn law_symbols_are_tracked_while_there_is_room(
    symbols: Seq<SymbolView>,
    symbol: Seq<u8>,
    max_symbols: usize,
    state: SymbolView,
)
    requires
        forall|i: int| 0 <= i < symbols.len() ==> (#[trigger] symbols[i]).symbol != symbol,
    ensures
        symbols.len() < max_symbols ==> put(symbols, symbol, max_symbols, state) == symbols.push(
            state,
        ),
        symbols.len() >= max_symbols ==> put(symbols, symbol, max_symbols, state) == symbols,
{
    lemma_index_of(symbols, symbol, 0);
    if symbols.len() < max_symbols {
        lemma_index_of_push(symbols, symbol, 0);
        lemma_index_of(touched(symbols, symbol, max_symbols), symbol, 0);
        assert(put(symbols, symbol, max_symbols, state) =~= symbols.push(state));
    }
}

/// A market order takes the reference price and is one with a limit from then on; a limit order stays
/// as it is.
pub proof fn law_market_orders_take_the_reference_price(order: AuctionOrder, reference_price: i64)
    ensures
        order.is_market_order ==> repriced(order, reference_price).price_ticks == reference_price,
        !repriced(order, reference_price).is_market_order,
        !order.is_market_order ==> repriced(order, reference_price) == order,
        repriced(order, reference_price) == (AuctionOrder {
            price_ticks: repriced(order, reference_price).price_ticks,
            is_market_order: false,
            ..order
        }),
{
}

/// The imbalance that is published is what is left to buy less what is left to sell.
pub proof fn law_published_imbalance_has_a_sign(ip: IndicativePrice)
    requires
        i64::MIN <= ip.buy_imbalance - ip.sell_imbalance <= i64::MAX,
    ensures
        ({
            let d = <IndicativePriceData as vstd::std_specs::convert::FromSpec<
                &IndicativePrice,
            >>::from_spec(&ip);
            &&& d.imbalance == ip.buy_imbalance - ip.sell_imbalance
            &&& d.price_ticks == ip.price_ticks
            &&& d.executable_volume == ip.executable_volume
        }),
{
}

/// Engines with the same settings are of one venue and track as many symbols; an auction is running
/// where some symbol is in a phase.
pub proof fn law_engines_agree(a: AuctionEngine, b: AuctionEngine, i: int)
    ensures
        a.same_settings(&b) ==> a.venue_id == b.venue_id && a.max_symbols == b.max_symbols,
        0 <= i < a.symbols@.len() && a.symbols@[i].phase != AuctionPhase::Inactive
            ==> a.some_active(),
        (forall|j: int|
            0 <= j < a.symbols@.len() ==> (#[trigger] a.symbols@[j]).phase
                == AuctionPhase::Inactive) ==> !a.some_active(),
{
    if 0 <= i < a.symbols@.len() {
        assert(a.auctions()[i].phase == a.symbols@[i].phase);
    }
    if a.some_active() {
        let k = choose|k: int|
            0 <= k < a.auctions().len() && !((#[trigger] a.auctions()[k]).phase is Inactive);
        assert(a.symbols@[k].phase == a.auctions()[k].phase);
    }
}

} // verus!
