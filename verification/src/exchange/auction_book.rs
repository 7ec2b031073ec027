//! Auction book.
//!
//! Orders rest in a book while an auction is in its entry phases; the book is cleared at the price
//! that executes the most volume.
use std::collections::BTreeMap;
use vstd::prelude::*;

verus! {

broadcast use {vstd::array::group_array_axioms, vstd::laws_cmp::group_laws_cmp};

/// Order side.
#[derive(Debug, Clone, Copy, PartialEq, Eq, Structural)]
pub enum Side {
    Buy,
    Sell,
}

impl Side {
    pub fn from_u8(val: u8) -> (r: Self)
        ensures
            r == if val == 0 {
                Side::Buy
            } else {
                Side::Sell
            },
    {
        if val == 0 {
            Side::Buy
        } else {
            Side::Sell
        }
    }
}

/// Auction order.
#[derive(Debug, Clone, Copy)]
pub struct AuctionOrder {
    pub order_id: u64,
    pub symbol: [u8; 12],
    pub side: Side,
    pub price_ticks: i64,
    pub quantity: u64,
    pub remaining_qty: u64,
    pub timestamp_ns: u64,
    pub is_market_order: bool,
    pub stp_group_id: Option<u32>,
}

/// Indicative auction price.
#[derive(Debug, Clone, Copy)]
pub struct IndicativePrice {
    pub price_ticks: i64,
    pub executable_volume: u64,
    pub buy_imbalance: i64,
    pub sell_imbalance: i64,
    pub total_buy_volume: u64,
    pub total_sell_volume: u64,
}

/// True where a resting order stays in front of an order that arrives: a buy at a price at least
/// as high, a sell at a price at least as low.
pub open spec fn in_front(side: Side, resting: i64, arriving: i64) -> bool {
    match side {
        Side::Buy => resting >= arriving,
        Side::Sell => resting <= arriving,
    }
}

/// Where an arriving order goes: behind the orders that stay in front of it.
pub open spec fn place(side: Side, orders: Seq<AuctionOrder>, price: i64, from: int) -> int
    decreases orders.len() - from,
{
    if from >= orders.len() {
        orders.len() as int
    } else if in_front(side, orders[from].price_ticks, price) {
        place(side, orders, price, from + 1)
    } else {
        from
    }
}

/// The first order with a given price and identifier.
pub open spec fn find_order(orders: Seq<AuctionOrder>, price: i64, id: u64, from: int) -> Option<int>
    decreases orders.len() - from,
{
    if from >= orders.len() {
        None
    } else if orders[from].price_ticks == price && orders[from].order_id == id {
        Some(from)
    } else {
        find_order(orders, price, id, from + 1)
    }
}

/// True where some order at a price has a quantity.
pub open spec fn has_volume(orders: Seq<AuctionOrder>, price: i64) -> bool {
    exists|i: int|
        0 <= i < orders.len() && (#[trigger] orders[i]).price_ticks == price && orders[i].quantity
            > 0
}

/// The quantity of the orders that trade at a price: buys at or above it, sells at or below it.
pub open spec fn volume_at(side: Side, orders: Seq<AuctionOrder>, price: i64) -> nat
    decreases orders.len(),
{
    if orders.len() == 0 {
        0
    } else {
        volume_at(side, orders.drop_last(), price) + if in_front(
            side,
            orders.last().price_ticks,
            price,
        ) {
            orders.last().quantity as nat
        } else {
            0
        }
    }
}

/// The orders that trade where a volume executes at a price: those that the price suits, from the
/// front of the queue until the volume is reached, without those that ask for nothing.
pub open spec fn filled(side: Side, orders: Seq<AuctionOrder>, price: i64, volume: int) -> Seq<
    AuctionOrder,
>
    decreases orders.len(),
{
    if orders.len() == 0 {
        Seq::empty()
    } else {
        let before = filled(side, orders.drop_last(), price, volume);
        let order = orders.last();
        if in_front(side, order.price_ticks, price) && order.quantity > 0 && volume_at(
            side,
            orders.drop_last(),
            price,
        ) < volume {
            before.push(order)
        } else {
            before
        }
    }
}

/// The quantity of all orders.
pub open spec fn total_volume(orders: Seq<AuctionOrder>) -> nat
    decreases orders.len(),
{
    if orders.len() == 0 {
        0
    } else {
        total_volume(orders.drop_last()) + orders.last().quantity as nat
    }
}

/// One side of a book: its orders, best price first and in order of arrival within a price, and
/// the prices at which volume is recorded.
#[verifier::ext_equal]
pub struct SideView {
    pub orders: Seq<AuctionOrder>,
    pub levels: Set<i64>,
}

impl SideView {
    pub open spec fn empty() -> Self {
        SideView { orders: Seq::empty(), levels: Set::empty() }
    }

    /// The side with an order added.
    pub open spec fn with_order(self, side: Side, order: AuctionOrder) -> Self {
        SideView {
            orders: self.orders.insert(place(side, self.orders, order.price_ticks, 0), order),
            levels: self.levels.insert(order.price_ticks),
        }
    }

    /// The side with the order at position `i` taken out; its price is no longer recorded where no
    /// volume is left there.
    pub open spec fn without(self, i: int) -> Self {
        let price = self.orders[i].price_ticks;
        let rest = self.orders.remove(i);
        SideView {
            orders: rest,
            levels: if has_volume(rest, price) {
                self.levels
            } else {
                self.levels.remove(price)
            },
        }
    }

    /// Every order is on this side, the orders are sorted, and volume is recorded where it is.
    pub open spec fn wf(self, side: Side) -> bool {
        &&& forall|i: int| 0 <= i < self.orders.len() ==> (#[trigger] self.orders[i]).side == side
        &&& forall|i: int, j: int|
            0 <= i <= j < self.orders.len() ==> in_front(
                side,
                (#[trigger] self.orders[i]).price_ticks,
                (#[trigger] self.orders[j]).price_ticks,
            )
        &&& forall|i: int|
            0 <= i < self.orders.len() && (#[trigger] self.orders[i]).quantity > 0
                ==> self.levels.contains(self.orders[i].price_ticks)
    }
}

/// One side of a book.
pub struct BookSide {
    pub side: Side,
    pub orders: Vec<AuctionOrder>,
    pub levels: Vec<i64>,
}

impl View for BookSide {
    type V = SideView;

    open spec fn view(&self) -> SideView {
        SideView { orders: self.orders@, levels: self.levels@.to_set() }
    }
}

impl BookSide {
    pub open spec fn inv(&self) -> bool {
        self.levels@.no_duplicates() && self@.wf(self.side)
    }

    fn new(side: Side) -> (s: Self)
        ensures
            s.inv(),
            s.side == side,
            s@ == SideView::empty(),
    {
        let s = BookSide { side, orders: Vec::new(), levels: Vec::new() };
        assert(s@ =~= SideView::empty());
        s
    }

    fn front(&self, resting: i64, arriving: i64) -> (r: bool)
        ensures
            r == in_front(self.side, resting, arriving),
    {
        match self.side {
            Side::Buy => resting >= arriving,
            Side::Sell => resting <= arriving,
        }
    }

    /// Adds an order of this side.
    fn add(&mut self, order: AuctionOrder)
        requires
            old(self).inv(),
            order.side == old(self).side,
        ensures
            final(self).inv(),
            final(self).side == old(self).side,
            final(self)@ == old(self)@.with_order(old(self).side, order),
    {
        let mut k: usize = 0;
        let ghost before = self@;
        let ghost side = self.side;
        while k < self.orders.len() && self.front(self.orders[k].price_ticks, order.price_ticks)
            invariant
                k <= self.orders@.len(),
                side == self.side,
                before == self@,
                *self == *old(self),
                place(side, self.orders@, order.price_ticks, 0) == place(
                    side,
                    self.orders@,
                    order.price_ticks,
                    k as int,
                ),
                forall|i: int|
                    0 <= i < k ==> in_front(
                        side,
                        (#[trigger] self.orders@[i]).price_ticks,
                        order.price_ticks,
                    ),
            decreases self.orders.len() - k,
        {
            k = k + 1;
        }
        self.orders.insert(k, order);
        let mut seen = false;
        let mut i: usize = 0;
        while i < self.levels.len()
            invariant
                i <= self.levels@.len(),
                seen == exists|j: int| 0 <= j < i && self.levels@[j] == order.price_ticks,
            decreases self.levels.len() - i,
        {
            if self.levels[i] == order.price_ticks {
                seen = true;
            }
            i = i + 1;
        }
        let ghost levels = self.levels@;
        if !seen {
            self.levels.push(order.price_ticks);
            assert(self.levels@.to_set() =~= levels.to_set().insert(order.price_ticks)) by {
                assert forall|p: i64| levels.to_set().insert(order.price_ticks).contains(p) implies
                    self.levels@.to_set().contains(p) by {
                    if p == order.price_ticks {
                        assert(self.levels@[levels.len() as int] == p);
                    } else {
                        let j = choose|j: int| 0 <= j < levels.len() && levels[j] == p;
                        assert(self.levels@[j] == p);
                    }
                }
            }
        } else {
            assert(levels.contains(order.price_ticks));
            assert(self.levels@.to_set() =~= levels.to_set().insert(order.price_ticks));
        }
        proof {
            assert(self@ =~= before.with_order(side, order));
            lemma_insert_keeps_wf(before, side, order, k as int);
        }
    }

    /// Takes out the first order with a given price and identifier.
    fn take(&mut self, price: i64, id: u64) -> (r: Option<AuctionOrder>)
        requires
            old(self).inv(),
        ensures
            final(self).inv(),
            final(self).side == old(self).side,
            match find_order(old(self)@.orders, price, id, 0) {
                Some(i) => r == Some(old(self)@.orders[i]) && final(self)@ == old(self)@.without(i),
                None => r is None && final(self)@ == old(self)@,
            },
    {
        let ghost before = self@;
        let mut i: usize = 0;
        while i < self.orders.len()
            invariant
                i <= self.orders@.len(),
                *self == *old(self),
                before == self@,
                self.inv(),
                find_order(before.orders, price, id, 0) == find_order(
                    before.orders,
                    price,
                    id,
                    i as int,
                ),
            decreases self.orders.len() - i,
        {
            if self.orders[i].price_ticks == price && self.orders[i].order_id == id {
                let order = self.orders.remove(i);
                let mut left = false;
                let mut j: usize = 0;
                while j < self.orders.len()
                    invariant
                        j <= self.orders@.len(),
                        left == exists|m: int|
                            0 <= m < j && (#[trigger] self.orders@[m]).price_ticks == price
                                && self.orders@[m].quantity > 0,
                    decreases self.orders.len() - j,
                {
                    if self.orders[j].price_ticks == price && self.orders[j].quantity > 0 {
                        left = true;
                    }
                    j = j + 1;
                }
                assert(left == has_volume(self.orders@, price));
                if !left {
                    self.drop_level(price);
                }
                proof {
                    assert(self@ =~= before.without(i as int));
                    lemma_remove_keeps_wf(before, self.side, i as int);
                }
                return Some(order);
            }
            i = i + 1;
        }
        None
    }

    /// Stops recording a price.
    fn drop_level(&mut self, price: i64)
        requires
            old(self).levels@.no_duplicates(),
        ensures
            final(self).side == old(self).side,
            final(self).orders == old(self).orders,
            final(self).levels@.no_duplicates(),
            final(self).levels@.to_set() == old(self).levels@.to_set().remove(price),
    {
        let ghost before = self.levels@;
        let mut i: usize = 0;
        while i < self.levels.len()
            invariant
                i <= self.levels@.len(),
                *self == *old(self),
                before == self.levels@,
                before.no_duplicates(),
                forall|j: int| 0 <= j < i ==> before[j] != price,
            decreases self.levels.len() - i,
        {
            if self.levels[i] == price {
                self.levels.remove(i);
                assert(self.levels@.to_set() =~= before.to_set().remove(price)) by {
                    assert forall|p: i64| before.to_set().remove(price).contains(p) implies
                        self.levels@.to_set().contains(p) by {
                        let j = choose|j: int| 0 <= j < before.len() && before[j] == p;
                        assert(self.levels@[if j < i {
                            j
                        } else {
                            j - 1
                        }] == p);
                    }
                    assert forall|p: i64| self.levels@.to_set().contains(p) implies
                        before.to_set().remove(price).contains(p) by {
                        let j = choose|j: int| 0 <= j < self.levels@.len() && self.levels@[j] == p;
                        let k = if j < i {
                            j
                        } else {
                            j + 1
                        };
                        assert(before[k] == p);
                        assert(before[i as int] == price);
                    }
                }
                return ;
            }
            i = i + 1;
        }
        assert(!before.contains(price));
        assert(self.levels@.to_set() =~= before.to_set().remove(price));
    }

    /// The volume that trades at a price.
    fn volume(&self, price: i64) -> (r: u64)
        requires
            total_volume(self@.orders) <= u64::MAX,
        ensures
            r == volume_at(self.side, self@.orders, price),
    {
        let ghost orders = self.orders@;
        let mut sum: u64 = 0;
        let mut i: usize = 0;
        assert(orders.take(0) =~= Seq::<AuctionOrder>::empty());
        while i < self.orders.len()
            invariant
                i <= self.orders@.len(),
                orders == self.orders@,
                total_volume(orders) <= u64::MAX,
                sum == volume_at(self.side, orders.take(i as int), price),
            decreases self.orders.len() - i,
        {
            proof {
                assert(orders.take(i + 1).drop_last() =~= orders.take(i as int));
                lemma_volume_bounds(self.side, orders, price, i + 1);
            }
            if self.front(self.orders[i].price_ticks, price) {
                sum = sum + self.orders[i].quantity;
            }
            i = i + 1;
        }
        assert(orders.take(i as int) =~= orders);
        sum
    }

    /// The orders that trade where a volume executes at a price.
    fn filled_orders(&self, price: i64, volume: u64) -> (r: Vec<AuctionOrder>)
        requires
            total_volume(self@.orders) <= u64::MAX,
        ensures
            r@ == filled(self.side, self@.orders, price, volume as int),
    {
        let ghost orders = self.orders@;
        let mut r: Vec<AuctionOrder> = Vec::new();
        let mut sum: u64 = 0;
        let mut i: usize = 0;
        assert(orders.take(0) =~= Seq::<AuctionOrder>::empty());
        while i < self.orders.len()
            invariant
                i <= self.orders@.len(),
                orders == self.orders@,
                total_volume(orders) <= u64::MAX,
                sum == volume_at(self.side, orders.take(i as int), price),
                r@ == filled(self.side, orders.take(i as int), price, volume as int),
            decreases self.orders.len() - i,
        {
            proof {
                assert(orders.take(i + 1).drop_last() =~= orders.take(i as int));
                lemma_volume_bounds(self.side, orders, price, i + 1);
            }
            let order = self.orders[i];
            if self.front(order.price_ticks, price) {
                if order.quantity > 0 && sum < volume {
                    r.push(order);
                }
                sum = sum + order.quantity;
            }
            i = i + 1;
        }
        assert(orders.take(i as int) =~= orders);
        r
    }

    /// The volume of all orders.
    fn total(&self) -> (r: u64)
        requires
            total_volume(self@.orders) <= u64::MAX,
        ensures
            r == total_volume(self@.orders),
    {
        let ghost orders = self.orders@;
        let mut sum: u64 = 0;
        let mut i: usize = 0;
        assert(orders.take(0) =~= Seq::<AuctionOrder>::empty());
        while i < self.orders.len()
            invariant
                i <= self.orders@.len(),
                orders == self.orders@,
                total_volume(orders) <= u64::MAX,
                sum == total_volume(orders.take(i as int)),
            decreases self.orders.len() - i,
        {
            proof {
                assert(orders.take(i + 1).drop_last() =~= orders.take(i as int));
                lemma_volume_bounds(self.side, orders, 0, i + 1);
            }
            sum = sum + self.orders[i].quantity;
            i = i + 1;
        }
        assert(orders.take(i as int) =~= orders);
        sum
    }
}

/// What trades at a price is no more than the whole, and a prefix of the orders has no more volume
/// than all of them.
proof fn lemma_volume_bounds(side: Side, orders: Seq<AuctionOrder>, price: i64, k: int)
    requires
        0 <= k <= orders.len(),
    ensures
        volume_at(side, orders.take(k), price) <= total_volume(orders.take(k)),
        total_volume(orders.take(k)) <= total_volume(orders),
    decreases orders.len(), k,
{
    if k == orders.len() {
        assert(orders.take(k) =~= orders);
        if k > 0 {
            lemma_volume_bounds(side, orders.drop_last(), price, k - 1);
            assert(orders.drop_last().take(k - 1) =~= orders.drop_last());
        }
    } else {
        lemma_volume_bounds(side, orders.drop_last(), price, k);
        assert(orders.drop_last().take(k) =~= orders.take(k));
    }
}

/// An order put in its place keeps a side in shape.
proof fn lemma_insert_keeps_wf(v: SideView, side: Side, order: AuctionOrder, k: int)
    requires
        v.wf(side),
        order.side == side,
        0 <= k <= v.orders.len(),
        k == place(side, v.orders, order.price_ticks, 0),
        forall|i: int|
            0 <= i < k ==> in_front(side, (#[trigger] v.orders[i]).price_ticks, order.price_ticks),
        k < v.orders.len() ==> !in_front(side, v.orders[k].price_ticks, order.price_ticks),
    ensures
        v.with_order(side, order).wf(side),
{
    let w = v.with_order(side, order);
    assert forall|i: int| 0 <= i < w.orders.len() implies (#[trigger] w.orders[i]).side == side by {
        if i < k {
            assert(w.orders[i] == v.orders[i]);
        } else if i > k {
            assert(w.orders[i] == v.orders[i - 1]);
        }
    }
    assert forall|i: int, j: int| 0 <= i <= j < w.orders.len() implies in_front(
        side,
        (#[trigger] w.orders[i]).price_ticks,
        (#[trigger] w.orders[j]).price_ticks,
    ) by {
        if j < k {
            assert(w.orders[i] == v.orders[i]);
            assert(w.orders[j] == v.orders[j]);
        } else if j == k {
            if i < k {
                assert(w.orders[i] == v.orders[i]);
            }
        } else {
            assert(w.orders[j] == v.orders[j - 1]);
            assert(in_front(side, v.orders[k].price_ticks, v.orders[j - 1].price_ticks));
            if i < k {
                assert(w.orders[i] == v.orders[i]);
            } else if i > k {
                assert(w.orders[i] == v.orders[i - 1]);
            }
        }
    }
    assert forall|i: int|
        0 <= i < w.orders.len() && (#[trigger] w.orders[i]).quantity > 0 implies w.levels.contains(
        w.orders[i].price_ticks,
    ) by {
        if i < k {
            assert(w.orders[i] == v.orders[i]);
        } else if i > k {
            assert(w.orders[i] == v.orders[i - 1]);
        }
    }
}

/// An order taken out keeps a side in shape.
proof fn lemma_remove_keeps_wf(v: SideView, side: Side, k: int)
    requires
        v.wf(side),
        0 <= k < v.orders.len(),
    ensures
        v.without(k).wf(side),
{
    let w = v.without(k);
    let price = v.orders[k].price_ticks;
    assert forall|i: int| 0 <= i < w.orders.len() implies (#[trigger] w.orders[i]).side == side by {
        assert(w.orders[i] == v.orders[if i < k {
            i
        } else {
            i + 1
        }]);
    }
    assert forall|i: int, j: int| 0 <= i <= j < w.orders.len() implies in_front(
        side,
        (#[trigger] w.orders[i]).price_ticks,
        (#[trigger] w.orders[j]).price_ticks,
    ) by {
        assert(w.orders[i] == v.orders[if i < k {
            i
        } else {
            i + 1
        }]);
        assert(w.orders[j] == v.orders[if j < k {
            j
        } else {
            j + 1
        }]);
    }
    assert forall|i: int|
        0 <= i < w.orders.len() && (#[trigger] w.orders[i]).quantity > 0 implies w.levels.contains(
        w.orders[i].price_ticks,
    ) by {
        assert(w.orders[i] == v.orders[if i < k {
            i
        } else {
            i + 1
        }]);
        if w.orders[i].price_ticks == price {
            assert(has_volume(w.orders, price));
        }
    }
}

/// An auction book: both sides, and the price and side at which each order identifier was last
/// entered.
#[verifier::ext_equal]
pub struct BookView {
    pub buy: SideView,
    pub sell: SideView,
    pub lookup: Map<u64, (i64, Side)>,
}

impl BookView {
    pub open spec fn empty() -> Self {
        BookView { buy: SideView::empty(), sell: SideView::empty(), lookup: Map::empty() }
    }

    /// The orders of a side.
    pub open spec fn orders(self, side: Side) -> Seq<AuctionOrder> {
        match side {
            Side::Buy => self.buy.orders,
            Side::Sell => self.sell.orders,
        }
    }

    /// The book with an order added.
    pub open spec fn with_order(self, order: AuctionOrder) -> Self {
        let lookup = self.lookup.insert(order.order_id, (order.price_ticks, order.side));
        match order.side {
            Side::Buy => BookView { buy: self.buy.with_order(Side::Buy, order), lookup, ..self },
            Side::Sell => BookView { sell: self.sell.with_order(Side::Sell, order), lookup, ..self },
        }
    }

    /// The position, on its side, of the order that an identifier stands for.
    pub open spec fn position(self, id: u64) -> int {
        let (price, side) = self.lookup[id];
        find_order(self.orders(side), price, id, 0)->0
    }

    /// The order that an identifier stands for.
    pub open spec fn order(self, id: u64) -> AuctionOrder {
        self.orders(self.lookup[id].1)[self.position(id)]
    }

    /// The book with the order that an identifier stands for taken out.
    pub open spec fn without(self, id: u64) -> Self {
        let lookup = self.lookup.remove(id);
        match self.lookup[id].1 {
            Side::Buy => BookView { buy: self.buy.without(self.position(id)), lookup, ..self },
            Side::Sell => BookView { sell: self.sell.without(self.position(id)), lookup, ..self },
        }
    }

    /// Both sides are in shape, and every known identifier stands for an order.
    pub open spec fn wf(self) -> bool {
        &&& self.buy.wf(Side::Buy)
        &&& self.sell.wf(Side::Sell)
        &&& forall|id: u64| #[trigger]
            self.lookup.contains_key(id) ==> find_order(
                self.orders(self.lookup[id].1),
                self.lookup[id].0,
                id,
                0,
            ) is Some
    }

    /// The volume that executes at a price.
    pub open spec fn executable(self, price: i64) -> int {
        let bought = volume_at(Side::Buy, self.buy.orders, price);
        let sold = volume_at(Side::Sell, self.sell.orders, price);
        if bought <= sold {
            bought as int
        } else {
            sold as int
        }
    }

    /// The buy volume that is left over at a price.
    pub open spec fn buy_left(self, price: i64) -> int {
        volume_at(Side::Buy, self.buy.orders, price) - self.executable(price)
    }

    /// The sell volume that is left over at a price.
    pub open spec fn sell_left(self, price: i64) -> int {
        volume_at(Side::Sell, self.sell.orders, price) - self.executable(price)
    }

    /// How far the sides are apart at a price.
    pub open spec fn imbalance(self, price: i64) -> int {
        (self.buy_left(price) + self.sell_left(price)) / 2
    }

    /// True of the prices at which the book may clear.
    pub open spec fn is_candidate(self, price: i64) -> bool {
        self.buy.levels.contains(price) || self.sell.levels.contains(price)
    }

    /// True where the book rather clears at `a` than at `b`: more volume, or as much with a smaller
    /// imbalance, or both the same at the lower price.
    pub open spec fn clears_before(self, a: i64, b: i64) -> bool {
        ||| self.executable(a) > self.executable(b)
        ||| self.executable(a) == self.executable(b) && self.imbalance(a) < self.imbalance(b)
        ||| self.executable(a) == self.executable(b) && self.imbalance(a) == self.imbalance(b) && a
            <= b
    }

    /// True of the price at which the book clears.
    pub open spec fn is_clearing_price(self, price: i64) -> bool {
        &&& self.is_candidate(price)
        &&& forall|other: i64| #[trigger]
            self.is_candidate(other) ==> self.clears_before(price, other)
    }

    /// True where both sides have recorded volume and some of it executes.
    pub open spec fn clears(self) -> bool {
        &&& self.buy.levels != Set::<i64>::empty()
        &&& self.sell.levels != Set::<i64>::empty()
        &&& exists|price: i64| #[trigger] self.is_candidate(price) && self.executable(price) > 0
    }

    /// True of the indicative price of the book.
    pub open spec fn is_indicative(self, ip: IndicativePrice) -> bool {
        &&& self.is_clearing_price(ip.price_ticks)
        &&& ip.executable_volume == self.executable(ip.price_ticks)
        &&& ip.executable_volume > 0
        &&& ip.buy_imbalance == self.buy_left(ip.price_ticks)
        &&& ip.sell_imbalance == self.sell_left(ip.price_ticks)
        &&& ip.total_buy_volume == total_volume(self.buy.orders)
        &&& ip.total_sell_volume == total_volume(self.sell.orders)
    }

    /// True where the volume of each side fits the signed numbers in which imbalances are given.
    pub open spec fn volumes_fit(self) -> bool {
        total_volume(self.buy.orders) <= i64::MAX && total_volume(self.sell.orders) <= i64::MAX
    }

    /// The orders that trade where the book clears at a price: buys, then sells, each from the front
    /// of its queue until the executable volume is reached.
    pub open spec fn executed(self, price: i64) -> Seq<AuctionOrder> {
        filled(Side::Buy, self.buy.orders, price, self.executable(price)) + filled(
            Side::Sell,
            self.sell.orders,
            price,
            self.executable(price),
        )
    }

    /// True where every order has its entry in the lookup, and no identifier stands for two orders.
    pub open spec fn is_listed(self) -> bool {
        &&& forall|side: Side, i: int|
            0 <= i < self.orders(side).len() ==> {
                let order = #[trigger] self.orders(side)[i];
                &&& self.lookup.contains_key(order.order_id)
                &&& self.lookup[order.order_id] == (order.price_ticks, side)
            }
        &&& forall|side: Side, i: int, j: int|
            0 <= i < j < self.orders(side).len() ==> (
            #[trigger] self.orders(side)[i]).order_id != (
            #[trigger] self.orders(side)[j]).order_id
    }

    /// All orders, in the order in which the book gives them up: the buys from the highest price
    /// down, then the sells from the lowest price up.
    pub open spec fn all_orders(self) -> Seq<AuctionOrder> {
        self.buy.orders + self.sell.orders
    }
}

/// Auction book of a symbol.
pub struct AuctionBook {
    pub symbol: [u8; 12],
    pub buy: BookSide,
    pub sell: BookSide,
    pub lookup: BTreeMap<u64, (i64, Side)>,
}

impl View for AuctionBook {
    type V = BookView;

    open spec fn view(&self) -> BookView {
        BookView { buy: self.buy@, sell: self.sell@, lookup: self.lookup@ }
    }
}

impl AuctionBook {
    pub open spec fn inv(&self) -> bool {
        &&& self.buy.inv()
        &&& self.sell.inv()
        &&& self.buy.side == Side::Buy
        &&& self.sell.side == Side::Sell
        &&& self@.wf()
    }

    pub fn new(symbol: [u8; 12]) -> (b: Self)
        ensures
            b.inv(),
            b.symbol == symbol,
            b@ == BookView::empty(),
    {
        let b = AuctionBook {
            symbol,
            buy: BookSide::new(Side::Buy),
            sell: BookSide::new(Side::Sell),
            lookup: BTreeMap::new(),
        };
        assert(b@ =~= BookView::empty());
        b
    }

    /// Adds an order.
    pub fn add_order(&mut self, order: AuctionOrder)
        requires
            old(self).inv(),
        ensures
            final(self).inv(),
            final(self).symbol == old(self).symbol,
            final(self)@ == old(self)@.with_order(order),
    {
        let ghost before = self@;
        match order.side {
            Side::Buy => self.buy.add(order),
            Side::Sell => self.sell.add(order),
        }
        self.lookup.insert(order.order_id, (order.price_ticks, order.side));
        proof {
            assert(self@ =~= before.with_order(order));
            lemma_add_keeps_wf(before, order);
        }
    }

    /// Takes out the order that an identifier stands for.
    pub fn cancel_order(&mut self, order_id: u64) -> (r: Option<AuctionOrder>)
        requires
            old(self).inv(),
        ensures
            final(self).inv(),
            final(self).symbol == old(self).symbol,
            if old(self)@.lookup.contains_key(order_id) {
                r == Some(old(self)@.order(order_id)) && final(self)@ == old(self)@.without(order_id)
            } else {
                r is None && final(self)@ == old(self)@
            },
    {
        let ghost before = self@;
        match self.lookup.remove(&order_id) {
            Some((price, side)) => {
                let removed = match side {
                    Side::Buy => self.buy.take(price, order_id),
                    Side::Sell => self.sell.take(price, order_id),
                };
                proof {
                    assert(before.lookup[order_id] == (price, side));
                    assert(self@ =~= before.without(order_id));
                    lemma_cancel_keeps_wf(before, order_id);
                }
                removed
            },
            None => {
                assert(self@ =~= before);
                None
            },
        }
    }

    /// Replaces the order that an identifier stands for by one with another quantity, and another
    /// price where one is given. It goes behind the orders that rest at its price.
    pub fn modify_order(&mut self, order_id: u64, new_quantity: u64, new_price: Option<i64>) -> (r:
        bool)
        requires
            old(self).inv(),
        ensures
            final(self).inv(),
            final(self).symbol == old(self).symbol,
            r == old(self)@.lookup.contains_key(order_id),
            final(self)@ == if r {
                old(self)@.without(order_id).with_order(
                    modified(old(self)@.order(order_id), new_quantity, new_price),
                )
            } else {
                old(self)@
            },
    {
        match self.cancel_order(order_id) {
            Some(removed) => {
                let mut order = removed;
                order.quantity = new_quantity;
                order.remaining_qty = new_quantity;
                if let Some(price) = new_price {
                    order.price_ticks = price;
                }
                self.add_order(order);
                true
            },
            None => false,
        }
    }

    /// The price at which the book clears: the one that executes the most volume, of those the one
    /// with the smallest imbalance, of those the lowest.
    pub fn calculate_indicative_price(&self) -> (r: Option<IndicativePrice>)
        requires
            self.inv(),
            self@.volumes_fit(),
        ensures
            match r {
                Some(ip) => self@.clears() && self@.is_indicative(ip),
                None => !self@.clears(),
            },
    {
        let ghost book = self@;
        if self.buy.levels.len() == 0 || self.sell.levels.len() == 0 {
            proof {
                if self.buy.levels@.len() == 0 {
                    assert(book.buy.levels =~= Set::<i64>::empty());
                } else {
                    assert(book.sell.levels =~= Set::<i64>::empty());
                }
            }
            return None;
        }
        proof {
            assert(book.buy.levels.contains(self.buy.levels@[0]));
            assert(book.sell.levels.contains(self.sell.levels@[0]));
        }
        let mut best: i64 = self.buy.levels[0];
        let mut i: usize = 0;
        while i < self.buy.levels.len()
            invariant
                self.inv(),
                book == self@,
                book.volumes_fit(),
                i <= self.buy.levels@.len(),
                book.is_candidate(best),
                forall|j: int| 0 <= j < i ==> book.clears_before(best, #[trigger] self.buy.levels@[j]),
            decreases self.buy.levels.len() - i,
        {
            let price = self.buy.levels[i];
            assert(book.buy.levels.contains(price));
            if self.better(price, best) {
                best = price;
            }
            i = i + 1;
        }
        let mut k: usize = 0;
        while k < self.sell.levels.len()
            invariant
                self.inv(),
                book == self@,
                book.volumes_fit(),
                k <= self.sell.levels@.len(),
                book.is_candidate(best),
                forall|j: int|
                    0 <= j < self.buy.levels@.len() ==> book.clears_before(
                        best,
                        #[trigger] self.buy.levels@[j],
                    ),
                forall|j: int| 0 <= j < k ==> book.clears_before(best, #[trigger] self.sell.levels@[j]),
            decreases self.sell.levels.len() - k,
        {
            let price = self.sell.levels[k];
            assert(book.sell.levels.contains(price));
            if self.better(price, best) {
                best = price;
            }
            k = k + 1;
        }
        assert(book.is_clearing_price(best)) by {
            assert forall|other: i64| #[trigger] book.is_candidate(other) implies book.clears_before(
                best,
                other,
            ) by {
                if book.buy.levels.contains(other) {
                    let j = choose|j: int|
                        0 <= j < self.buy.levels@.len() && self.buy.levels@[j] == other;
                    assert(book.clears_before(best, self.buy.levels@[j]));
                } else {
                    let j = choose|j: int|
                        0 <= j < self.sell.levels@.len() && self.sell.levels@[j] == other;
                    assert(book.clears_before(best, self.sell.levels@[j]));
                }
            }
        }
        let (bought, sold) = self.volumes(best);
        let executable: u64 = if bought <= sold {
            bought
        } else {
            sold
        };
        if executable == 0 {
            return None;
        }
        assert(book.is_candidate(best) && book.executable(best) > 0);
        Some(
            IndicativePrice {
                price_ticks: best,
                executable_volume: executable,
                buy_imbalance: (bought - executable) as i64,
                sell_imbalance: (sold - executable) as i64,
                total_buy_volume: self.buy.total(),
                total_sell_volume: self.sell.total(),
            },
        )
    }

    /// The buy and sell volume that trade at a price.
    fn volumes(&self, price: i64) -> (r: (u64, u64))
        requires
            self.inv(),
            self@.volumes_fit(),
        ensures
            r.0 == volume_at(Side::Buy, self@.buy.orders, price),
            r.1 == volume_at(Side::Sell, self@.sell.orders, price),
            r.0 <= i64::MAX,
            r.1 <= i64::MAX,
    {
        proof {
            let b = self@.buy.orders;
            let s = self@.sell.orders;
            lemma_volume_bounds(Side::Buy, b, price, b.len() as int);
            lemma_volume_bounds(Side::Sell, s, price, s.len() as int);
            assert(b.take(b.len() as int) =~= b);
            assert(s.take(s.len() as int) =~= s);
        }
        (self.buy.volume(price), self.sell.volume(price))
    }

    /// True where the book rather clears at `a` than at `b`.
    fn better(&self, a: i64, b: i64) -> (r: bool)
        requires
            self.inv(),
            self@.volumes_fit(),
        ensures
            r ==> self@.clears_before(a, b),
            !r ==> self@.clears_before(b, a),
    {
        let (bought_a, sold_a) = self.volumes(a);
        let (bought_b, sold_b) = self.volumes(b);
        let exec_a: u64 = if bought_a <= sold_a {
            bought_a
        } else {
            sold_a
        };
        let exec_b: u64 = if bought_b <= sold_b {
            bought_b
        } else {
            sold_b
        };
        let imb_a: u64 = ((bought_a - exec_a) + (sold_a - exec_a)) / 2;
        let imb_b: u64 = ((bought_b - exec_b) + (sold_b - exec_b)) / 2;
        if exec_a != exec_b {
            exec_a > exec_b
        } else if imb_a != imb_b {
            imb_a < imb_b
        } else {
            a < b
        }
    }

    /// The orders that trade where the book clears at an indicative price: buys, then sells
    pub fn executed_orders(&self, ip: &IndicativePrice) -> (r: Vec<AuctionOrder>)
        requires
            self.inv(),
            self@.volumes_fit(),
            self@.is_indicative(*ip),
        ensures
            r@ == self@.executed(ip.price_ticks),
    {
        let mut r = self.buy.filled_orders(ip.price_ticks, ip.executable_volume);
        let mut sells = self.sell.filled_orders(ip.price_ticks, ip.executable_volume);
        r.append(&mut sells);
        assert(r@ =~= self@.executed(ip.price_ticks));
        r
    }

    /// Empties the book and returns its orders: the buys from the highest price down, then the
    /// sells from the lowest price up.
    pub fn clear_book(&mut self) -> (r: Vec<AuctionOrder>)
        requires
            old(self).inv(),
        ensures
            final(self).inv(),
            final(self).symbol == old(self).symbol,
            final(self)@ == BookView::empty(),
            r@ == old(self)@.all_orders(),
    {
        let mut all: Vec<AuctionOrder> = Vec::new();
        all.append(&mut self.buy.orders);
        all.append(&mut self.sell.orders);
        self.buy.levels.clear();
        self.sell.levels.clear();
        self.lookup.clear();
        assert(all@ =~= old(self)@.all_orders());
        assert(self@ =~= BookView::empty());
        all
    }
}

/// An order with another quantity, and another price where one is given.
pub open spec fn modified(order: AuctionOrder, quantity: u64, price: Option<i64>) -> AuctionOrder {
    AuctionOrder {
        quantity,
        remaining_qty: quantity,
        price_ticks: match price {
            Some(p) => p,
            None => order.price_ticks,
        },
        ..order
    }
}

/// What `place` returns lies behind the orders that stay in front.
proof fn lemma_place(side: Side, orders: Seq<AuctionOrder>, price: i64, from: int)
    requires
        0 <= from <= orders.len(),
    ensures
        ({
            let k = place(side, orders, price, from);
            &&& from <= k <= orders.len()
            &&& forall|i: int|
                from <= i < k ==> in_front(side, (#[trigger] orders[i]).price_ticks, price)
            &&& k < orders.len() ==> !in_front(side, orders[k].price_ticks, price)
        }),
    decreases orders.len() - from,
{
    if from < orders.len() && in_front(side, orders[from].price_ticks, price) {
        lemma_place(side, orders, price, from + 1);
    }
}

/// What `find_order` returns is the first match.
proof fn lemma_find(orders: Seq<AuctionOrder>, price: i64, id: u64, from: int)
    requires
        0 <= from,
    ensures
        match find_order(orders, price, id, from) {
            Some(i) => from <= i < orders.len() && orders[i].price_ticks == price
                && orders[i].order_id == id && forall|j: int|
                from <= j < i ==> !((#[trigger] orders[j]).price_ticks == price
                    && orders[j].order_id == id),
            None => forall|j: int|
                from <= j < orders.len() ==> !((#[trigger] orders[j]).price_ticks == price
                    && orders[j].order_id == id),
        },
    decreases orders.len() - from,
{
    if from < orders.len() {
        lemma_find(orders, price, id, from + 1);
    }
}

/// Where an order is in the book, the search finds one.
proof fn lemma_found(orders: Seq<AuctionOrder>, price: i64, id: u64, at: int)
    requires
        0 <= at < orders.len(),
        orders[at].price_ticks == price,
        orders[at].order_id == id,
    ensures
        find_order(orders, price, id, 0) is Some,
{
    lemma_find(orders, price, id, 0);
}

/// Adding an order keeps a book in shape.
proof fn lemma_add_keeps_wf(v: BookView, order: AuctionOrder)
    requires
        v.wf(),
    ensures
        v.with_order(order).wf(),
{
    let w = v.with_order(order);
    let old_orders = v.orders(order.side);
    let new_orders = w.orders(order.side);
    let k = place(order.side, old_orders, order.price_ticks, 0);
    lemma_place(order.side, old_orders, order.price_ticks, 0);
    match order.side {
        Side::Buy => lemma_insert_keeps_wf(v.buy, Side::Buy, order, k),
        Side::Sell => lemma_insert_keeps_wf(v.sell, Side::Sell, order, k),
    }
    assert forall|id: u64| #[trigger] w.lookup.contains_key(id) implies find_order(
        w.orders(w.lookup[id].1),
        w.lookup[id].0,
        id,
        0,
    ) is Some by {
        if id == order.order_id {
            assert(new_orders[k] == order);
            lemma_found(new_orders, order.price_ticks, id, k);
        } else {
            assert(v.lookup.contains_key(id));
            let (price, side) = v.lookup[id];
            lemma_find(v.orders(side), price, id, 0);
            let i = find_order(v.orders(side), price, id, 0)->0;
            if side == order.side {
                let j = if i < k {
                    i
                } else {
                    i + 1
                };
                assert(new_orders[j] == old_orders[i]);
                lemma_found(new_orders, price, id, j);
            }
        }
    }
}

/// Cancelling an order keeps a book in shape.
proof fn lemma_cancel_keeps_wf(v: BookView, id: u64)
    requires
        v.wf(),
        v.lookup.contains_key(id),
    ensures
        v.without(id).wf(),
{
    let w = v.without(id);
    let (price, side) = v.lookup[id];
    let k = v.position(id);
    lemma_find(v.orders(side), price, id, 0);
    match side {
        Side::Buy => lemma_remove_keeps_wf(v.buy, Side::Buy, k),
        Side::Sell => lemma_remove_keeps_wf(v.sell, Side::Sell, k),
    }
    assert forall|other: u64| #[trigger] w.lookup.contains_key(other) implies find_order(
        w.orders(w.lookup[other].1),
        w.lookup[other].0,
        other,
        0,
    ) is Some by {
        assert(v.lookup.contains_key(other));
        let (p, s) = v.lookup[other];
        lemma_find(v.orders(s), p, other, 0);
        let i = find_order(v.orders(s), p, other, 0)->0;
        if s == side {
            assert(i != k);
            let j = if i < k {
                i
            } else {
                i - 1
            };
            assert(w.orders(s)[j] == v.orders(s)[i]);
            lemma_found(w.orders(s), p, other, j);
        }
    }
}

/// No price, whether a candidate or not, executes more volume than the indicative one.
pub proof fn law_indicative_price_maximises_volume(book: BookView, ip: IndicativePrice, price: i64)
    requires
        book.wf(),
        book.is_indicative(ip),
    ensures
        book.executable(price) <= ip.executable_volume,
{
    if book.executable(price) > 0 {
        let bought = volume_at(Side::Buy, book.buy.orders, price);
        assert(bought > 0);
        lemma_lowest_buy_level(book.buy, price);
        let level = lowest_buy(book.buy.orders, price);
        lemma_more_sells_at_higher_price(book.sell.orders, price, level);
        assert(book.is_candidate(level));
        assert(book.clears_before(ip.price_ticks, level));
    }
}

/// The price of the last buy order in the book, from the worst price up, that trades at `price`.
spec fn lowest_buy(orders: Seq<AuctionOrder>, price: i64) -> i64
    decreases orders.len(),
{
    if orders.len() == 0 {
        price
    } else if orders.last().price_ticks >= price && orders.last().quantity > 0 {
        orders.last().price_ticks
    } else {
        lowest_buy(orders.drop_last(), price)
    }
}

/// The lowest price at which buy volume rests at or above `price` is recorded, and as much is
/// bought there.
proof fn lemma_lowest_buy_level(v: SideView, price: i64)
    requires
        v.wf(Side::Buy),
        volume_at(Side::Buy, v.orders, price) > 0,
    ensures
        lowest_buy(v.orders, price) >= price,
        v.levels.contains(lowest_buy(v.orders, price)),
        volume_at(Side::Buy, v.orders, lowest_buy(v.orders, price)) == volume_at(
            Side::Buy,
            v.orders,
            price,
        ),
    decreases v.orders.len(),
{
    let shorter = SideView { orders: v.orders.drop_last(), levels: v.levels };
    assert(v.orders.last() == v.orders[v.orders.len() - 1]);
    assert(shorter.wf(Side::Buy)) by {
        assert forall|i: int| 0 <= i < shorter.orders.len() implies (#[trigger] shorter.orders[i])
            == v.orders[i] by {}
        assert forall|i: int, j: int| 0 <= i <= j < shorter.orders.len() implies in_front(
            Side::Buy,
            (#[trigger] shorter.orders[i]).price_ticks,
            (#[trigger] shorter.orders[j]).price_ticks,
        ) by {
            assert(in_front(Side::Buy, v.orders[i].price_ticks, v.orders[j].price_ticks));
        }
        assert forall|i: int|
            0 <= i < shorter.orders.len() && (#[trigger] shorter.orders[i]).quantity
                > 0 implies shorter.levels.contains(shorter.orders[i].price_ticks) by {
            assert(v.orders[i].quantity > 0);
        }
    }
    if v.orders.last().price_ticks >= price && v.orders.last().quantity > 0 {
        let level = v.orders.last().price_ticks;
        lemma_all_buys_above(v.orders, level, price);
    } else {
        lemma_lowest_buy_level(shorter, price);
        let level = lowest_buy(shorter.orders, price);
        assert(v.orders.last().price_ticks < price || v.orders.last().quantity == 0);
    }
}

/// Where every buy is at or above both prices, the same is bought at both.
proof fn lemma_all_buys_above(orders: Seq<AuctionOrder>, level: i64, price: i64)
    requires
        forall|i: int| 0 <= i < orders.len() ==> (#[trigger] orders[i]).price_ticks >= level,
        level >= price,
    ensures
        volume_at(Side::Buy, orders, level) == volume_at(Side::Buy, orders, price),
    decreases orders.len(),
{
    if orders.len() > 0 {
        let shorter = orders.drop_last();
        assert(orders.last() == orders[orders.len() - 1]);
        assert forall|i: int| 0 <= i < shorter.len() implies (#[trigger] shorter[i]).price_ticks
            >= level by {
            assert(orders[i].price_ticks >= level);
        }
        lemma_all_buys_above(shorter, level, price);
    }
}

/// A higher price sells at least as much.
proof fn lemma_more_sells_at_higher_price(orders: Seq<AuctionOrder>, low: i64, high: i64)
    requires
        low <= high,
    ensures
        volume_at(Side::Sell, orders, low) <= volume_at(Side::Sell, orders, high),
    decreases orders.len(),
{
    if orders.len() > 0 {
        lemma_more_sells_at_higher_price(orders.drop_last(), low, high);
    }
}

/// A book has at most one clearing price.
pub proof fn law_clearing_price_is_unique(book: BookView, a: i64, b: i64)
    requires
        book.is_clearing_price(a),
        book.is_clearing_price(b),
    ensures
        a == b,
{
    assert(book.clears_before(a, b));
    assert(book.clears_before(b, a));
}

/// The orders that trade on a side are in the book, suit the price and ask for something; together
/// they give the volume, where the side holds so much at the price, and without the last of them
/// they do not.
pub proof fn law_executed_orders_give_the_volume(
    side: Side,
    orders: Seq<AuctionOrder>,
    price: i64,
    volume: int,
)
    ensures
        forall|i: int|
            0 <= i < filled(side, orders, price, volume).len() ==> {
                let order = #[trigger] filled(side, orders, price, volume)[i];
                &&& orders.contains(order)
                &&& in_front(side, order.price_ticks, price)
                &&& order.quantity > 0
            },
        volume_at(side, orders, price) >= volume ==> total_volume(
            filled(side, orders, price, volume),
        ) >= volume,
        volume_at(side, orders, price) < volume ==> total_volume(
            filled(side, orders, price, volume),
        ) == volume_at(side, orders, price),
        filled(side, orders, price, volume).len() > 0 ==> total_volume(
            filled(side, orders, price, volume).drop_last(),
        ) < volume,
    decreases orders.len(),
{
    if orders.len() > 0 {
        let rest = orders.drop_last();
        let order = orders.last();
        law_executed_orders_give_the_volume(side, rest, price, volume);
        let before = filled(side, rest, price, volume);
        let now = filled(side, orders, price, volume);
        if now != before {
            assert(now.drop_last() =~= before);
        }
        assert forall|i: int| 0 <= i < now.len() implies ({
            let o = #[trigger] now[i];
            &&& orders.contains(o)
            &&& in_front(side, o.price_ticks, price)
            &&& o.quantity > 0
        }) by {
            if i < before.len() {
                assert(now[i] == before[i]);
                let k = choose|k: int| 0 <= k < rest.len() && rest[k] == before[i];
                assert(orders[k] == now[i]);
            } else {
                assert(now[i] == order);
                assert(orders[orders.len() - 1] == order);
            }
        }
    }
}

/// A book that was built up with an identifier of its own for each order lists every order: an
/// empty one does, and adding, cancelling and modifying orders keep it so. An order that is added
/// stands behind all others at its price.
pub proof fn law_every_order_is_listed(
    book: BookView,
    order: AuctionOrder,
    id: u64,
    quantity: u64,
    price: Option<i64>,
)
    requires
        book.wf(),
        book.is_listed(),
    ensures
        BookView::empty().is_listed(),
        !book.lookup.contains_key(order.order_id) ==> book.with_order(order).is_listed(),
        book.lookup.contains_key(id) ==> {
            &&& book.without(id).is_listed()
            &&& book.without(id).with_order(
                modified(book.order(id), quantity, price),
            ).is_listed()
        },
        ({
            let k = place(order.side, book.orders(order.side), order.price_ticks, 0);
            let after = book.with_order(order).orders(order.side);
            &&& after[k] == order
            &&& forall|i: int|
                k < i < after.len() ==> (#[trigger] after[i]).price_ticks != order.price_ticks
        }),
        book.lookup.contains_key(id) <==> exists|side: Side, i: int|
            0 <= i < book.orders(side).len() && (#[trigger] book.orders(side)[i]).order_id == id,
{
    let k = place(order.side, book.orders(order.side), order.price_ticks, 0);
    lemma_place(order.side, book.orders(order.side), order.price_ticks, 0);
    let after = book.with_order(order).orders(order.side);
    assert forall|i: int| k < i < after.len() implies (#[trigger] after[i]).price_ticks
        != order.price_ticks by {
        let before = book.orders(order.side);
        assert(after[i] == before[i - 1]);
        assert(in_front(order.side, before[k].price_ticks, before[i - 1].price_ticks));
    }
    if !book.lookup.contains_key(order.order_id) {
        lemma_add_keeps_listed(book, order);
    }
    if book.lookup.contains_key(id) {
        lemma_find(book.orders(book.lookup[id].1), book.lookup[id].0, id, 0);
        let i = book.position(id);
        assert(book.orders(book.lookup[id].1)[i].order_id == id);
        lemma_cancel_keeps_wf(book, id);
        lemma_cancel_keeps_listed(book, id);
        lemma_add_keeps_listed(book.without(id), modified(book.order(id), quantity, price));
    }
}

/// An order under an identifier of its own keeps every order listed.
proof fn lemma_add_keeps_listed(book: BookView, order: AuctionOrder)
    requires
        book.wf(),
        book.is_listed(),
        !book.lookup.contains_key(order.order_id),
    ensures
        book.with_order(order).is_listed(),
{
    let w = book.with_order(order);
    let before = book.orders(order.side);
    let k = place(order.side, before, order.price_ticks, 0);
    lemma_place(order.side, before, order.price_ticks, 0);
    assert(w.orders(order.side) == before.insert(k, order));
    assert forall|side: Side, i: int| 0 <= i < w.orders(side).len() implies ({
        let o = #[trigger] w.orders(side)[i];
        &&& w.lookup.contains_key(o.order_id)
        &&& w.lookup[o.order_id] == (o.price_ticks, side)
        &&& o == order || o.order_id != order.order_id
    }) by {
        if side == order.side {
            if i < k {
                assert(w.orders(side)[i] == book.orders(side)[i]);
            } else if i > k {
                assert(w.orders(side)[i] == book.orders(side)[i - 1]);
            }
        } else {
            assert(w.orders(side)[i] == book.orders(side)[i]);
        }
    }
    assert forall|side: Side, i: int, j: int| 0 <= i < j < w.orders(side).len() implies (
    #[trigger] w.orders(side)[i]).order_id != (#[trigger] w.orders(side)[j]).order_id by {
        let a = if side == order.side && i > k {
            i - 1
        } else {
            i
        };
        let b = if side == order.side && j > k {
            j - 1
        } else {
            j
        };
        if side == order.side && i == k {
            assert(w.orders(side)[j] == book.orders(side)[b]);
            assert(book.lookup.contains_key(book.orders(side)[b].order_id));
        } else if side == order.side && j == k {
            assert(w.orders(side)[i] == book.orders(side)[a]);
            assert(book.lookup.contains_key(book.orders(side)[a].order_id));
        } else {
            assert(w.orders(side)[i] == book.orders(side)[a]);
            assert(w.orders(side)[j] == book.orders(side)[b]);
        }
    }
}

/// Cancelling keeps every other order listed.
proof fn lemma_cancel_keeps_listed(book: BookView, id: u64)
    requires
        book.wf(),
        book.is_listed(),
        book.lookup.contains_key(id),
    ensures
        book.without(id).is_listed(),
        !book.without(id).lookup.contains_key(id),
        book.order(id).order_id == id,
{
    let w = book.without(id);
    let (price, taken) = book.lookup[id];
    let k = book.position(id);
    lemma_find(book.orders(taken), price, id, 0);
    assert(w.orders(taken) == book.orders(taken).remove(k));
    assert forall|side: Side, i: int| 0 <= i < w.orders(side).len() implies ({
        let o = #[trigger] w.orders(side)[i];
        &&& w.lookup.contains_key(o.order_id)
        &&& w.lookup[o.order_id] == (o.price_ticks, side)
    }) by {
        let a = if side == taken && i >= k {
            i + 1
        } else {
            i
        };
        assert(w.orders(side)[i] == book.orders(side)[a]);
        assert(book.lookup[book.orders(side)[a].order_id].1 == side);
        if side == taken {
            assert(book.orders(side)[a].order_id != book.orders(side)[k].order_id);
        }
    }
    assert forall|side: Side, i: int, j: int| 0 <= i < j < w.orders(side).len() implies (
    #[trigger] w.orders(side)[i]).order_id != (#[trigger] w.orders(side)[j]).order_id by {
        let a = if side == taken && i >= k {
            i + 1
        } else {
            i
        };
        let b = if side == taken && j >= k {
            j + 1
        } else {
            j
        };
        assert(w.orders(side)[i] == book.orders(side)[a]);
        assert(w.orders(side)[j] == book.orders(side)[b]);
    }
}

/// Cancelling gives back the order that was added last under the identifier, and leaves the orders
/// as they were, where no order with that identifier and price rests on its side.
pub proof fn law_cancel_undoes_add(book: BookView, order: AuctionOrder)
    requires
        book.wf(),
        find_order(book.orders(order.side), order.price_ticks, order.order_id, 0) is None,
    ensures
        book.with_order(order).lookup.contains_key(order.order_id),
        book.with_order(order).order(order.order_id) == order,
        book.with_order(order).without(order.order_id).buy.orders == book.buy.orders,
        book.with_order(order).without(order.order_id).sell.orders == book.sell.orders,
        book.with_order(order).without(order.order_id).lookup == book.lookup.remove(order.order_id),
{
    let w = book.with_order(order);
    let before = book.orders(order.side);
    let after = w.orders(order.side);
    let k = place(order.side, before, order.price_ticks, 0);
    lemma_place(order.side, before, order.price_ticks, 0);
    lemma_find(before, order.price_ticks, order.order_id, 0);
    assert(after[k] == order);
    lemma_found(after, order.price_ticks, order.order_id, k);
    lemma_find(after, order.price_ticks, order.order_id, 0);
    let i = w.position(order.order_id);
    assert(i == k) by {
        if i < k {
            assert(after[i] == before[i]);
        } else if i > k {
            assert(after[i] == before[i - 1]);
        }
    }
    assert(after.remove(k) =~= before);
    assert(w.without(order.order_id).lookup =~= book.lookup.remove(order.order_id));
}

/// The quantity of buys at a price or above it.
pub open spec fn bought_at(orders: Seq<AuctionOrder>, price: i64) -> int {
    crate::tally::sum(
        orders.len(),
        |i: int|
            if orders[i].price_ticks >= price {
                orders[i].quantity as int
            } else {
                0
            },
    )
}

/// The quantity of sells at a price or below it.
pub open spec fn sold_at(orders: Seq<AuctionOrder>, price: i64) -> int {
    crate::tally::sum(
        orders.len(),
        |i: int|
            if orders[i].price_ticks <= price {
                orders[i].quantity as int
            } else {
                0
            },
    )
}

/// A buy trades at its price and below it, a sell at its price and above it.
pub proof fn law_orders_trade_at_their_price_or_better(orders: Seq<AuctionOrder>, price: i64)
    ensures
        volume_at(Side::Buy, orders, price) == bought_at(orders, price),
        volume_at(Side::Sell, orders, price) == sold_at(orders, price),
        total_volume(orders) == crate::tally::sum(
            orders.len(),
            |i: int| orders[i].quantity as int,
        ),
    decreases orders.len(),
{
    if orders.len() > 0 {
        let n = (orders.len() - 1) as nat;
        let rest = orders.drop_last();
        law_orders_trade_at_their_price_or_better(rest, price);
        crate::tally::lemma_sum_same(
            n,
            |i: int|
                if orders[i].price_ticks >= price {
                    orders[i].quantity as int
                } else {
                    0
                },
            |i: int|
                if rest[i].price_ticks >= price {
                    rest[i].quantity as int
                } else {
                    0
                },
        );
        crate::tally::lemma_sum_same(
            n,
            |i: int|
                if orders[i].price_ticks <= price {
                    orders[i].quantity as int
                } else {
                    0
                },
            |i: int|
                if rest[i].price_ticks <= price {
                    rest[i].quantity as int
                } else {
                    0
                },
        );
        crate::tally::lemma_sum_same(
            n,
            |i: int| orders[i].quantity as int,
            |i: int| rest[i].quantity as int,
        );
    }
}

/// The distance of two numbers.
pub open spec fn distance(a: int, b: int) -> int {
    if a >= b {
        a - b
    } else {
        b - a
    }
}

/// The indicative price executes the smaller of what is bought and what is sold at it, and what is
/// left over on either side is the rest. No price of an order in the book executes more; of those
/// that execute as much none leaves the sides less far apart, in halves, and of those that leave
/// them as far apart none is lower.
pub proof fn law_indicative_price_leaves_the_least_over(
    book: BookView,
    ip: IndicativePrice,
    side: Side,
    i: int,
)
    requires
        book.wf(),
        book.is_indicative(ip),
        0 <= i < book.orders(side).len(),
        book.orders(side)[i].quantity > 0,
    ensures
        ({
            let p = book.orders(side)[i].price_ticks;
            let r = ip.price_ticks;
            let (b, s) = (bought_at(book.buy.orders, p), sold_at(book.sell.orders, p));
            let (br, sr) = (bought_at(book.buy.orders, r), sold_at(book.sell.orders, r));
            &&& ip.executable_volume <= br && ip.executable_volume <= sr
            &&& ip.executable_volume == br || ip.executable_volume == sr
            &&& ip.buy_imbalance == br - ip.executable_volume
            &&& ip.sell_imbalance == sr - ip.executable_volume
            &&& b <= ip.executable_volume || s <= ip.executable_volume
            &&& (b >= ip.executable_volume && s >= ip.executable_volume) ==> {
                &&& distance(br, sr) / 2 <= distance(b, s) / 2
                &&& distance(br, sr) / 2 == distance(b, s) / 2 ==> r <= p
            }
        }),
{
    let p = book.orders(side)[i].price_ticks;
    let r = ip.price_ticks;
    law_orders_trade_at_their_price_or_better(book.buy.orders, p);
    law_orders_trade_at_their_price_or_better(book.sell.orders, p);
    law_orders_trade_at_their_price_or_better(book.buy.orders, r);
    law_orders_trade_at_their_price_or_better(book.sell.orders, r);
    assert(book.is_candidate(p));
    assert(book.clears_before(r, p));
}

/// The totals of an indicative price are all that is bid and all that is offered.
pub proof fn law_indicative_totals(book: BookView, ip: IndicativePrice)
    requires
        book.is_indicative(ip),
    ensures
        ip.total_buy_volume == crate::tally::sum(
            book.buy.orders.len(),
            |i: int| book.buy.orders[i].quantity as int,
        ),
        ip.total_sell_volume == crate::tally::sum(
            book.sell.orders.len(),
            |i: int| book.sell.orders[i].quantity as int,
        ),
        ip.executable_volume > 0,
{
    law_orders_trade_at_their_price_or_better(book.buy.orders, 0);
    law_orders_trade_at_their_price_or_better(book.sell.orders, 0);
}

/// A book clears exactly where some buy bids at least what some sell asks, both of them for
/// something.
pub proof fn law_book_clears_where_it_crosses(book: BookView, i: int, j: int)
    requires
        book.wf(),
        0 <= i < book.buy.orders.len(),
        0 <= j < book.sell.orders.len(),
        book.buy.orders[i].quantity > 0,
        book.sell.orders[j].quantity > 0,
        book.buy.orders[i].price_ticks >= book.sell.orders[j].price_ticks,
    ensures
        book.clears(),
{
    let p = book.buy.orders[i].price_ticks;
    law_orders_trade_at_their_price_or_better(book.buy.orders, p);
    law_orders_trade_at_their_price_or_better(book.sell.orders, p);
    lemma_part_of_sum(
        book.buy.orders.len(),
        |k: int|
            if book.buy.orders[k].price_ticks >= p {
                book.buy.orders[k].quantity as int
            } else {
                0
            },
        i,
    );
    lemma_part_of_sum(
        book.sell.orders.len(),
        |k: int|
            if book.sell.orders[k].price_ticks <= p {
                book.sell.orders[k].quantity as int
            } else {
                0
            },
        j,
    );
    assert(book.buy.levels.contains(p));
    assert(book.sell.levels.contains(book.sell.orders[j].price_ticks));
    assert(book.is_candidate(p));
    assert(book.executable(p) > 0);
}

proof fn lemma_part_of_sum(n: nat, f: spec_fn(int) -> int, i: int)
    requires
        0 <= i < n,
        forall|k: int| 0 <= k < n ==> #[trigger] f(k) >= 0,
    ensures
        crate::tally::sum(n, f) >= f(i),
    decreases n,
{
    assert(f(n - 1) >= 0);
    if i < n - 1 {
        lemma_part_of_sum((n - 1) as nat, f, i);
    } else {
        lemma_sum_not_negative((n - 1) as nat, f);
    }
}

proof fn lemma_sum_not_negative(n: nat, f: spec_fn(int) -> int)
    requires
        forall|k: int| 0 <= k < n ==> #[trigger] f(k) >= 0,
    ensures
        crate::tally::sum(n, f) >= 0,
    decreases n,
{
    if n > 0 {
        assert(f(n - 1) >= 0);
        lemma_sum_not_negative((n - 1) as nat, f);
    }
}

/// A book that clears crosses: some buy bids at least what some sell asks.
pub proof fn law_cleared_book_crosses(book: BookView)
    requires
        book.clears(),
    ensures
        exists|i: int, j: int|
            0 <= i < book.buy.orders.len() && 0 <= j < book.sell.orders.len()
                && (#[trigger] book.buy.orders[i]).price_ticks >= (
            #[trigger] book.sell.orders[j]).price_ticks,
{
    let p = choose|price: i64| #[trigger] book.is_candidate(price) && book.executable(price) > 0;
    let i = lemma_some_trade(Side::Buy, book.buy.orders, p);
    let j = lemma_some_trade(Side::Sell, book.sell.orders, p);
    assert(book.buy.orders[i].price_ticks >= book.sell.orders[j].price_ticks);
}

proof fn lemma_some_trade(side: Side, orders: Seq<AuctionOrder>, price: i64) -> (i: int)
    requires
        volume_at(side, orders, price) > 0,
    ensures
        0 <= i < orders.len(),
        side == Side::Buy ==> orders[i].price_ticks >= price,
        side == Side::Sell ==> orders[i].price_ticks <= price,
    decreases orders.len(),
{
    if in_front(side, orders.last().price_ticks, price) {
        orders.len() - 1
    } else {
        lemma_some_trade(side, orders.drop_last(), price)
    }
}

/// The book queues the highest buys and the lowest sells first, and orders of one price as they
/// came: one that is added stands behind all that are at least as good.
pub proof fn law_better_prices_come_first(side: Side, book: SideView, order: AuctionOrder, i: int, j: int)
    requires
        book.wf(side),
        order.side == side,
        0 <= i < j < book.with_order(side, order).orders.len(),
    ensures
        ({
            let after = book.with_order(side, order).orders;
            &&& after.len() == book.orders.len() + 1
            &&& side == Side::Buy ==> after[i].price_ticks >= after[j].price_ticks
            &&& side == Side::Sell ==> after[i].price_ticks <= after[j].price_ticks
            &&& exists|k: int|
                0 <= k < after.len() && #[trigger] after[k] == order && after.remove(k)
                    == book.orders
        }),
{
    let k = place(side, book.orders, order.price_ticks, 0);
    lemma_place(side, book.orders, order.price_ticks, 0);
    let after = book.with_order(side, order).orders;
    assert(after[k] == order);
    assert(after.remove(k) =~= book.orders);
    let a = if i < k {
        i
    } else {
        i - 1
    };
    let b = if j < k {
        j
    } else {
        j - 1
    };
    if i != k && j != k {
        assert(in_front(side, book.orders[a].price_ticks, book.orders[b].price_ticks));
    } else if i == k {
        assert(in_front(side, book.orders[k].price_ticks, book.orders[j - 1].price_ticks));
    }
}

/// The orders that trade are the first in the queue that the price suits: whatever stands behind
/// the last of them does not trade, and nothing before it is passed over.
pub proof fn law_queue_is_served_in_order(
    side: Side,
    orders: Seq<AuctionOrder>,
    price: i64,
    volume: int,
) -> (m: int)
    ensures
        0 <= m <= orders.len(),
        filled(side, orders, price, volume) == orders.take(m).filter(
            |o: AuctionOrder|
                o.quantity > 0 && match side {
                    Side::Buy => o.price_ticks >= price,
                    Side::Sell => o.price_ticks <= price,
                },
        ),
        m < orders.len() ==> volume_at(side, orders.take(m), price) >= volume,
        forall|k: int| 0 <= k < m ==> volume_at(side, #[trigger] orders.take(k), price) < volume,
    decreases orders.len(),
{
    let suits = |o: AuctionOrder|
        o.quantity > 0 && match side {
            Side::Buy => o.price_ticks >= price,
            Side::Sell => o.price_ticks <= price,
        };
    reveal(Seq::filter);
    if orders.len() == 0 {
        assert(orders.take(0) =~= Seq::empty());
        0
    } else {
        let rest = orders.drop_last();
        let n = rest.len() as int;
        let m = law_queue_is_served_in_order(side, rest, price, volume);
        assert(rest.take(m) =~= orders.take(m));
        assert forall|k: int| 0 <= k < m implies volume_at(
            side,
            #[trigger] orders.take(k),
            price,
        ) < volume by {
            assert(rest.take(k) =~= orders.take(k));
        }
        if m == n && volume_at(side, rest, price) < volume {
            assert(orders.take(n + 1) =~= orders);
            assert(orders.take(n) =~= rest);
            assert(orders.drop_last().filter(suits) == filled(side, rest, price, volume));
            assert forall|k: int| 0 <= k < n + 1 implies volume_at(
                side,
                #[trigger] orders.take(k),
                price,
            ) < volume by {
                if k < n {
                    assert(rest.take(k) =~= orders.take(k));
                }
            }
            n + 1
        } else {
            if m < n {
                lemma_volume_grows(side, rest, price, m);
            } else {
                assert(orders.take(n) =~= rest);
            }
            m
        }
    }
}

proof fn lemma_volume_grows(side: Side, orders: Seq<AuctionOrder>, price: i64, m: int)
    requires
        0 <= m <= orders.len(),
    ensures
        volume_at(side, orders.take(m), price) <= volume_at(side, orders, price),
    decreases orders.len(),
{
    if m < orders.len() {
        lemma_volume_grows(side, orders.drop_last(), price, m);
        assert(orders.drop_last().take(m) =~= orders.take(m));
    } else {
        assert(orders.take(m) =~= orders);
    }
}

} // verus!
