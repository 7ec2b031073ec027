//! Portfolio margin: the positions of an account, their risk classes and what is recorded of their
//! margin. Ratios and prices stand as the bits of doubles, equity and margin in millionths.
use crate::doubles::{above, at_least, larger, magnitude, smaller, ONE_BITS, TEN_BITS, ZERO};
use crate::names::NamedMap;
use vstd::prelude::*;

verus! {

#[derive(Debug, Clone, Copy, PartialEq, Eq, Structural)]
pub enum PositionSide {
    Long,
    Short,
    Flat,
}

impl PositionSide {
    /// The side of a quantity, by its sign
    pub fn from_qty(qty: u64) -> (s: Self)
        ensures
            s == if crate::doubles::greater(qty, ZERO) {
                PositionSide::Long
            } else if crate::doubles::greater(ZERO, qty) {
                PositionSide::Short
            } else {
                PositionSide::Flat
            },
    {
        if above(qty, ZERO) {
            PositionSide::Long
        } else if above(ZERO, qty) {
            PositionSide::Short
        } else {
            PositionSide::Flat
        }
    }

    pub fn sign(&self) -> (n: i8)
        ensures
            n == match *self {
                PositionSide::Long => 1i8,
                PositionSide::Short => -1i8,
                PositionSide::Flat => 0i8,
            },
    {
        match self {
            PositionSide::Long => 1,
            PositionSide::Short => -1,
            PositionSide::Flat => 0,
        }
    }
}

/// Position representation
#[derive(Debug)]
pub struct Position {
    /// Symbol (e.g., "BTCUSDT")
    pub symbol: String,
    /// Side (positive = long, negative = short)
    pub side: PositionSide,
    /// Quantity (absolute value)
    pub quantity: u64,
    /// Entry price
    pub entry_price: u64,
    /// Current mark price
    pub mark_price: u64,
    /// Notional value
    pub notional: u64,
    /// Unrealized PnL
    pub unrealized_pnl: u64,
}

impl Position {
    /// The same position once more
    pub fn duplicate(&self) -> (p: Self)
        ensures
            p == *self,
    {
        Self {
            symbol: self.symbol.clone(),
            side: self.side,
            quantity: self.quantity,
            entry_price: self.entry_price,
            mark_price: self.mark_price,
            notional: self.notional,
            unrealized_pnl: self.unrealized_pnl,
        }
    }
}

#[derive(Debug, Clone, Copy, PartialEq, Eq, Hash, Structural)]
pub enum AssetClass {
    MajorCrypto,
    Altcoin,
    Stablecoin,
    Equity,
    Commodity,
    Index,
}

impl AssetClass {
    /// The place of a class in the order of groups.
    pub open spec fn rank(self) -> int {
        match self {
            AssetClass::MajorCrypto => 0,
            AssetClass::Altcoin => 1,
            AssetClass::Stablecoin => 2,
            AssetClass::Equity => 3,
            AssetClass::Commodity => 4,
            AssetClass::Index => 5,
        }
    }
}

/// The bits of 0.1, in double precision.
pub const TENTH_BITS: u64 = 0x3fb9_9999_9999_999a;

/// The bits of 0.05, in double precision.
pub const TWENTIETH_BITS: u64 = 0x3fa9_9999_9999_999a;

/// Risk parameters for a symbol
#[derive(Debug, Clone, Copy, PartialEq, Eq, Structural)]
pub struct RiskParameters {
    /// Initial margin ratio (e.g., 0.1 for 10x leverage)
    pub initial_margin_ratio: u64,
    /// Maintenance margin ratio
    pub maintenance_margin_ratio: u64,
    /// Maximum leverage allowed
    pub max_leverage: u64,
    /// Asset class (for correlation grouping)
    pub asset_class: AssetClass,
    /// Volatility adjustment factor
    pub volatility_scalar: u64,
}

/// The parameters of a symbol without its own.
pub open spec fn default_parameters() -> RiskParameters {
    RiskParameters {
        initial_margin_ratio: TENTH_BITS,
        maintenance_margin_ratio: TWENTIETH_BITS,
        max_leverage: TEN_BITS,
        asset_class: AssetClass::Altcoin,
        volatility_scalar: ONE_BITS,
    }
}

impl Default for RiskParameters {
    fn default() -> (p: Self)
        ensures
            p == default_parameters(),
    {
        Self {
            initial_margin_ratio: TENTH_BITS,
            maintenance_margin_ratio: TWENTIETH_BITS,
            max_leverage: TEN_BITS,
            asset_class: AssetClass::Altcoin,
            volatility_scalar: ONE_BITS,
        }
    }
}

#[derive(Debug, Clone, Copy, PartialEq, Eq, Default, Structural)]
pub struct CrossMarginStats {
    pub total_positions: usize,
    pub total_notional: u64,
    pub margin_efficiency_updates: usize,
    pub liquidation_warnings: usize,
}

/// Margin calculation result
#[derive(Debug, Clone, Copy, PartialEq, Eq, Structural)]
pub struct MarginResult {
    /// Total initial margin required
    pub total_initial_margin: u64,
    /// Total maintenance margin required
    pub total_maintenance_margin: u64,
    /// Net margin after offsets
    pub net_margin_required: u64,
    /// Margin offset benefit (reduction from diversification)
    pub margin_offset_benefit: u64,
    /// Available margin headroom
    pub available_margin: u64,
    /// Margin utilization percentage
    pub utilization_pct: u64,
    /// Portfolio leverage
    pub portfolio_leverage: u64,
}

/// The margin of an account without positions, all of whose equity is free.
pub open spec fn free_margin(equity: u64) -> MarginResult {
    MarginResult {
        total_initial_margin: 0,
        total_maintenance_margin: 0,
        net_margin_required: 0,
        margin_offset_benefit: 0,
        available_margin: equity,
        utilization_pct: 0,
        portfolio_leverage: 0,
    }
}

/// What arithmetic makes of the margins of some positions
#[derive(Debug, Clone, Copy, PartialEq, Eq, Structural)]
pub struct MarginFigures {
    /// Sum of the initial margins
    pub initial_margin: u64,
    /// Sum of the maintenance margins
    pub maintenance_margin: u64,
    /// Margin after netting and diversification
    pub net_margin: u64,
    /// Initial margin less the net margin
    pub offset: u64,
    /// Equity less the net margin
    pub headroom: u64,
    /// Net margin over equity, in per cent
    pub share_pct: u64,
    /// Notional of all positions over the net margin
    pub leverage: u64,
}

/// The margin of positions: what is required and what is free are not below zero, and there is no
/// share of an equity and no leverage on a margin that is not above zero.
pub open spec fn margin_of(f: MarginFigures, equity: u64) -> MarginResult {
    let net = crate::doubles::max_of(f.net_margin, ZERO);
    MarginResult {
        total_initial_margin: f.initial_margin,
        total_maintenance_margin: f.maintenance_margin,
        net_margin_required: net,
        margin_offset_benefit: f.offset,
        available_margin: crate::doubles::max_of(f.headroom, ZERO),
        utilization_pct: if crate::doubles::greater(equity, ZERO) {
            f.share_pct
        } else {
            ZERO
        },
        portfolio_leverage: if crate::doubles::greater(net, ZERO) {
            f.leverage
        } else {
            ZERO
        },
    }
}

/// What the margin of a position is the product of
#[derive(Debug, Clone, Copy, PartialEq, Eq, Structural)]
pub struct MarginTerm {
    pub notional: u64,
    /// Notional without its sign
    pub size: u64,
    pub initial_ratio: u64,
    pub maintenance_ratio: u64,
    pub scalar: u64,
}

/// The positions of a group by their sides
#[derive(Debug)]
pub struct SideTerms {
    pub long: Vec<MarginTerm>,
    pub short: Vec<MarginTerm>,
}

/// What arithmetic makes of the two sides of a group
#[derive(Debug, Clone, Copy, PartialEq, Eq, Structural)]
pub struct SideSums {
    /// Notional of the long side less that of the short side
    pub difference: u64,
    /// Notional of both sides
    pub gross: u64,
    /// Margin of both sides
    pub weighted: u64,
    /// Size of the difference over the gross notional
    pub netting: u64,
    /// Margin over the gross notional
    pub rate: u64,
}

/// How the sides of a group net
#[derive(Debug, Clone, Copy, PartialEq, Eq, Structural)]
pub struct Netting {
    pub net_notional: u64,
    /// What is left by netting, as a share
    pub factor: u64,
    /// Margin rate of what is left
    pub rate: u64,
}

/// The netting that sums give: without a notional nothing nets, and without a margin the rate is
/// one tenth.
pub open spec fn netting_of(sums: SideSums) -> Netting {
    let some = crate::doubles::greater(sums.gross, ZERO);
    Netting {
        net_notional: crate::doubles::size_of(sums.difference),
        factor: if some {
            sums.netting
        } else {
            ONE_BITS
        },
        rate: if crate::doubles::greater(sums.weighted, ZERO) && some {
            sums.rate
        } else {
            TENTH_BITS
        },
    }
}

/// Nets the two sides of a group
pub fn net_sides(sums: SideSums) -> (n: Netting)
    ensures
        n == netting_of(sums),
{
    let some = above(sums.gross, ZERO);
    Netting {
        net_notional: magnitude(sums.difference),
        factor: if some {
            sums.netting
        } else {
            ONE_BITS
        },
        rate: if above(sums.weighted, ZERO) && some {
            sums.rate
        } else {
            TENTH_BITS
        },
    }
}

#[derive(Debug, Clone, Copy, PartialEq, Eq, Structural)]
pub enum MarginWarningLevel {
    Normal,
    Moderate,
    High,
    Critical,
}

/// The bits of 50, in double precision.
pub const FIFTY_BITS: u64 = 0x4049_0000_0000_0000;

/// The bits of 75, in double precision.
pub const SEVENTY_FIVE_BITS: u64 = 0x4052_c000_0000_0000;

/// The bits of 90, in double precision.
pub const NINETY_BITS: u64 = 0x4056_8000_0000_0000;

/// Positions of one asset class, by their places
#[derive(Debug)]
pub struct ClassGroup {
    pub asset_class: AssetClass,
    pub members: Vec<usize>,
}

/// Portfolio margin calculator using span-style methodology
pub struct CrossMarginEngine {
    /// Active positions
    pub positions: NamedMap<Position>,
    /// Risk parameters per symbol
    pub risk_params: NamedMap<RiskParameters>,
    /// Account equity, in millionths
    pub account_equity: u64,
    /// Total margin used, in millionths
    pub total_margin_used: u64,
    /// Statistics
    pub stats: CrossMarginStats,
}

impl CrossMarginEngine {
    pub open spec fn inv(&self) -> bool {
        &&& self.positions.inv()
        &&& self.risk_params.inv()
        &&& self.stats.total_positions == self.positions@.dom().len()
        &&& self.positions@.dom().finite()
        &&& forall|symbol: Seq<char>| #[trigger]
            self.positions@.contains_key(symbol) ==> self.positions@[symbol].symbol@ == symbol
    }

    /// The parameters of a symbol.
    pub open spec fn parameters_of(&self, symbol: Seq<char>) -> RiskParameters {
        if self.risk_params@.contains_key(symbol) {
            self.risk_params@[symbol]
        } else {
            default_parameters()
        }
    }

    /// The asset class of the position at a place.
    pub open spec fn class_at(&self, i: int) -> AssetClass {
        self.parameters_of(self.positions.entries@[i].0@).asset_class
    }

    /// What the margin of the position at a place is the product of.
    pub open spec fn term_at(&self, i: int) -> MarginTerm {
        let position = self.positions.entries@[i].1;
        let params = self.parameters_of(position.symbol@);
        MarginTerm {
            notional: position.notional,
            size: crate::doubles::size_of(position.notional),
            initial_ratio: params.initial_margin_ratio,
            maintenance_ratio: params.maintenance_margin_ratio,
            scalar: params.volatility_scalar,
        }
    }

    /// The terms of those of the first `k` places whose positions are on a side.
    pub open spec fn terms_of(&self, places: Seq<usize>, side: PositionSide, k: nat) -> Seq<
        MarginTerm,
    >
        decreases k,
    {
        if k == 0 {
            seq![]
        } else {
            let before = self.terms_of(places, side, (k - 1) as nat);
            if self.positions.entries@[places[k - 1] as int].1.side == side {
                before.push(self.term_at(places[k - 1] as int))
            } else {
                before
            }
        }
    }

    /// True where places are those of all positions of a class, in order.
    pub open spec fn are_members(&self, members: Seq<usize>, asset_class: AssetClass) -> bool {
        &&& forall|a: int, b: int|
            0 <= a < b < members.len() ==> #[trigger] members[a] < #[trigger] members[b]
        &&& forall|a: int|
            0 <= a < members.len() ==> #[trigger] members[a] < self.positions.entries@.len()
                && self.class_at(members[a] as int) == asset_class
        &&& forall|i: int|
            0 <= i < self.positions.entries@.len() && #[trigger] self.class_at(i) == asset_class
                ==> exists|a: int| 0 <= a < members.len() && #[trigger] members[a] == i
    }

    pub fn new(initial_equity: u64) -> (e: Self)
        ensures
            e.inv(),
            e.positions@ == Map::<Seq<char>, Position>::empty(),
            e.risk_params@ == Map::<Seq<char>, RiskParameters>::empty(),
            e.account_equity == initial_equity,
            e.total_margin_used == 0,
            e.stats == (CrossMarginStats {
                total_positions: 0,
                total_notional: 0,
                margin_efficiency_updates: 0,
                liquidation_warnings: 0,
            }),
    {
        let positions: NamedMap<Position> = NamedMap::new();
        assert(positions@.dom() =~= Set::<Seq<char>>::empty());
        Self {
            positions,
            risk_params: NamedMap::new(),
            account_equity: initial_equity,
            total_margin_used: 0,
            stats: CrossMarginStats {
                total_positions: 0,
                total_notional: 0,
                margin_efficiency_updates: 0,
                liquidation_warnings: 0,
            },
        }
    }

    /// Set risk parameters for a symbol
    pub fn set_risk_parameters(&mut self, symbol: &str, params: RiskParameters)
        requires
            old(self).inv(),
        ensures
            final(self).inv(),
            final(self).risk_params@ == old(self).risk_params@.insert(symbol@, params),
            final(self).positions == old(self).positions,
            final(self).account_equity == old(self).account_equity,
            final(self).total_margin_used == old(self).total_margin_used,
            final(self).stats == old(self).stats,
    {
        self.risk_params.insert(symbol.to_owned(), params);
    }

    /// Update or add a position; one whose quantity is not positive is taken out
    pub fn update_position(&mut self, position: Position)
        requires
            old(self).inv(),
        ensures
            final(self).inv(),
            final(self).positions@ == if crate::doubles::no_less(ZERO, position.quantity) {
                old(self).positions@.remove(position.symbol@)
            } else {
                old(self).positions@.insert(position.symbol@, position)
            },
            final(self).stats == (CrossMarginStats {
                total_positions: final(self).stats.total_positions,
                ..old(self).stats
            }),
            final(self).risk_params == old(self).risk_params,
            final(self).account_equity == old(self).account_equity,
            final(self).total_margin_used == old(self).total_margin_used,
    {
        if at_least(ZERO, position.quantity) {
            self.positions.remove(position.symbol.as_str());
        } else {
            let symbol = position.symbol.clone();
            self.positions.insert(symbol, position);
        }
        self.stats.total_positions = self.positions.len();
    }

    /// Update account equity
    pub fn update_equity(&mut self, equity: u64)
        ensures
            *final(self) == (CrossMarginEngine { account_equity: equity, ..*old(self) }),
    {
        self.account_equity = equity;
    }

    /// Get account equity, in millionths
    pub fn equity(&self) -> (e: u64)
        ensures
            e == self.account_equity,
    {
        self.account_equity
    }

    /// The risk parameters of a symbol, the usual ones where it has none of its own
    pub fn risk_parameters(&self, symbol: &str) -> (p: RiskParameters)
        ensures
            p == self.parameters_of(symbol@),
    {
        match self.risk_params.get(symbol) {
            Some(p) => *p,
            None => RiskParameters::default(),
        }
    }

    /// The places of the positions of a class
    fn members_of(&self, asset_class: AssetClass) -> (members: Vec<usize>)
        ensures
            self.are_members(members@, asset_class),
    {
        let mut members: Vec<usize> = Vec::new();
        let mut i: usize = 0;
        while i < self.positions.entries.len()
            invariant
                i <= self.positions.entries@.len(),
                forall|a: int, b: int|
                    0 <= a < b < members@.len() ==> #[trigger] members@[a] < #[trigger] members@[b],
                forall|a: int|
                    0 <= a < members@.len() ==> #[trigger] members@[a] < i && self.class_at(
                        members@[a] as int,
                    ) == asset_class,
                forall|k: int|
                    0 <= k < i && #[trigger] self.class_at(k) == asset_class ==> exists|a: int|
                        0 <= a < members@.len() && #[trigger] members@[a] == k,
            decreases self.positions.entries.len() - i,
        {
            let ghost before = members@;
            let p = self.risk_parameters(self.positions.entries[i].0.as_str());
            assert(p.asset_class == self.class_at(i as int));
            if p.asset_class == asset_class {
                members.push(i);
                assert(members@[before.len() as int] == i);
                assert forall|k: int|
                    0 <= k <= i && #[trigger] self.class_at(k) == asset_class implies exists|a: int|
                    0 <= a < members@.len() && #[trigger] members@[a] == k by {
                    if k < i {
                        let a = choose|a: int| 0 <= a < before.len() && #[trigger] before[a] == k;
                        assert(members@[a] == k);
                    }
                }
            }
            i = i + 1;
        }
        members
    }

    /// True where groups are those of the classes before a place in their order.
    pub open spec fn are_groups(&self, groups: Seq<ClassGroup>, upto: int) -> bool {
        &&& forall|g: int|
            0 <= g < groups.len() ==> (#[trigger] groups[g]).members@.len() > 0
                && groups[g].asset_class.rank() < upto && self.are_members(
                groups[g].members@,
                groups[g].asset_class,
            )
        &&& forall|g: int, h: int|
            0 <= g < h < groups.len() ==> (#[trigger] groups[g]).asset_class.rank() < (
            #[trigger] groups[h]).asset_class.rank()
        &&& forall|i: int|
            0 <= i < self.positions.entries@.len() && (#[trigger] self.class_at(i)).rank() < upto
                ==> exists|g: int|
                0 <= g < groups.len() && (#[trigger] groups[g]).asset_class == self.class_at(i)
    }

    /// Adds the group of a class, unless it has no positions
    fn add_group(&self, groups: &mut Vec<ClassGroup>, asset_class: AssetClass)
        requires
            self.are_groups(old(groups)@, asset_class.rank()),
        ensures
            self.are_groups(final(groups)@, asset_class.rank() + 1),
    {
        let ghost before = groups@;
        let members = self.members_of(asset_class);
        if members.len() > 0 {
            groups.push(ClassGroup { asset_class, members });
        }
        proof {
            let now = groups@;
            assert forall|i: int|
                0 <= i < self.positions.entries@.len() && (#[trigger] self.class_at(i)).rank()
                    < asset_class.rank() + 1 implies exists|g: int|
                0 <= g < now.len() && (#[trigger] now[g]).asset_class == self.class_at(i) by {
                if self.class_at(i).rank() < asset_class.rank() {
                    let g = choose|g: int|
                        0 <= g < before.len() && (#[trigger] before[g]).asset_class
                            == self.class_at(i);
                    assert(now[g].asset_class == self.class_at(i));
                } else {
                    assert(self.class_at(i) == asset_class);
                    assert(now[before.len() as int].asset_class == self.class_at(i));
                }
            }
        }
    }

    /// Groups positions by asset class: each class that has some, with the places of all of them
    pub fn positions_by_class(&self) -> (groups: Vec<ClassGroup>)
        ensures
            self.are_groups(groups@, 6),
    {
        let mut groups: Vec<ClassGroup> = Vec::new();
        self.add_group(&mut groups, AssetClass::MajorCrypto);
        self.add_group(&mut groups, AssetClass::Altcoin);
        self.add_group(&mut groups, AssetClass::Stablecoin);
        self.add_group(&mut groups, AssetClass::Equity);
        self.add_group(&mut groups, AssetClass::Commodity);
        self.add_group(&mut groups, AssetClass::Index);
        groups
    }

    fn margin_term(&self, place: usize) -> (t: MarginTerm)
        requires
            place < self.positions.entries@.len(),
        ensures
            t == self.term_at(place as int),
    {
        let position = &self.positions.entries[place].1;
        let params = self.risk_parameters(position.symbol.as_str());
        MarginTerm {
            notional: position.notional,
            size: magnitude(position.notional),
            initial_ratio: params.initial_margin_ratio,
            maintenance_ratio: params.maintenance_margin_ratio,
            scalar: params.volatility_scalar,
        }
    }

    /// What the margin of each position is the product of, in the order of the positions
    pub fn margin_terms(&self) -> (terms: Vec<MarginTerm>)
        ensures
            terms@ == Seq::new(self.positions.entries@.len(), |i: int| self.term_at(i)),
    {
        let mut terms: Vec<MarginTerm> = Vec::new();
        let mut i: usize = 0;
        while i < self.positions.entries.len()
            invariant
                i <= self.positions.entries@.len(),
                terms@ == Seq::new(i as nat, |j: int| self.term_at(j)),
            decreases self.positions.entries@.len() - i,
        {
            let term = self.margin_term(i);
            terms.push(term);
            i = i + 1;
            assert(terms@ =~= Seq::new(i as nat, |j: int| self.term_at(j)));
        }
        terms
    }

    /// The positions of a group by their sides; one that is flat is on neither
    pub fn side_terms(&self, members: &Vec<usize>) -> (sides: SideTerms)
        requires
            forall|a: int|
                0 <= a < members@.len() ==> #[trigger] members@[a] < self.positions.entries@.len(),
        ensures
            sides.long@ == self.terms_of(members@, PositionSide::Long, members@.len()),
            sides.short@ == self.terms_of(members@, PositionSide::Short, members@.len()),
    {
        let mut long: Vec<MarginTerm> = Vec::new();
        let mut short: Vec<MarginTerm> = Vec::new();
        let mut k: usize = 0;
        while k < members.len()
            invariant
                k <= members@.len(),
                forall|a: int|
                    0 <= a < members@.len() ==> #[trigger] members@[a]
                        < self.positions.entries@.len(),
                long@ == self.terms_of(members@, PositionSide::Long, k as nat),
                short@ == self.terms_of(members@, PositionSide::Short, k as nat),
            decreases members@.len() - k,
        {
            let place: usize = members[k];
            let term = self.margin_term(place);
            match self.positions.entries[place].1.side {
                PositionSide::Long => long.push(term),
                PositionSide::Short => short.push(term),
                PositionSide::Flat => {},
            }
            k = k + 1;
        }
        SideTerms { long, short }
    }

    /// Calculate portfolio margin using span-style methodology
    ///
    /// Takes what arithmetic makes of the positions, with the net margin also in millionths, and
    /// records it; an account without positions has all its equity free, and nothing is recorded.
    pub fn calculate_portfolio_margin(
        &mut self,
        figures: MarginFigures,
        net_margin: u64,
        equity: u64,
    ) -> (r: MarginResult)
        requires
            old(self).inv(),
        ensures
            final(self).inv(),
            final(self).positions == old(self).positions,
            final(self).risk_params == old(self).risk_params,
            final(self).account_equity == old(self).account_equity,
            old(self).positions@.dom().len() == 0 ==> r == free_margin(equity) && *final(self)
                == *old(self),
            old(self).positions@.dom().len() > 0 ==> {
                &&& r == margin_of(figures, equity)
                &&& final(self).total_margin_used == net_margin
                &&& final(self).stats == (CrossMarginStats {
                    margin_efficiency_updates: old(self).stats.margin_efficiency_updates.wrapping_add(1),
                    ..old(self).stats
                })
            },
    {
        if self.positions.len() == 0 {
            return MarginResult {
                total_initial_margin: 0,
                total_maintenance_margin: 0,
                net_margin_required: 0,
                margin_offset_benefit: 0,
                available_margin: equity,
                utilization_pct: 0,
                portfolio_leverage: 0,
            };
        }
        let net: u64 = larger(figures.net_margin, ZERO);
        self.total_margin_used = net_margin;
        self.stats.margin_efficiency_updates = self.stats.margin_efficiency_updates.wrapping_add(1);
        MarginResult {
            total_initial_margin: figures.initial_margin,
            total_maintenance_margin: figures.maintenance_margin,
            net_margin_required: net,
            margin_offset_benefit: figures.offset,
            available_margin: larger(figures.headroom, ZERO),
            utilization_pct: if above(equity, ZERO) {
                figures.share_pct
            } else {
                ZERO
            },
            portfolio_leverage: if above(net, ZERO) {
                figures.leverage
            } else {
                ZERO
            },
        }
    }

    /// Check if a margin with what a new position adds to it stays within a limit
    pub fn can_add_position(&self, required: u64, limit: u64) -> (r: bool)
        ensures
            r == crate::doubles::no_less(limit, required),
    {
        at_least(limit, required)
    }

    /// Get margin utilization warning level, for a utilization in per cent
    pub fn margin_warning_level(&self, utilization_pct: u64) -> (level: MarginWarningLevel)
        ensures
            level == warning_level(utilization_pct),
    {
        if at_least(utilization_pct, NINETY_BITS) {
            MarginWarningLevel::Critical
        } else if at_least(utilization_pct, SEVENTY_FIVE_BITS) {
            MarginWarningLevel::High
        } else if at_least(utilization_pct, FIFTY_BITS) {
            MarginWarningLevel::Moderate
        } else {
            MarginWarningLevel::Normal
        }
    }

    /// Get statistics
    pub fn stats(&self) -> (s: &CrossMarginStats)
        ensures
            *s == self.stats,
    {
        &self.stats
    }

    /// Get all positions
    pub fn get_positions(&self) -> (r: Vec<Position>)
        ensures
            r@ == Seq::new(self.positions.entries@.len(), |i: int| self.positions.entries@[i].1),
    {
        let mut r: Vec<Position> = Vec::new();
        let mut i: usize = 0;
        while i < self.positions.entries.len()
            invariant
                i <= self.positions.entries@.len(),
                r@.len() == i,
                forall|j: int| 0 <= j < i ==> #[trigger] r@[j] == self.positions.entries@[j].1,
            decreases self.positions.entries.len() - i,
        {
            r.push(self.positions.entries[i].1.duplicate());
            i = i + 1;
        }
        assert(r@ =~= Seq::new(
            self.positions.entries@.len(),
            |i: int| self.positions.entries@[i].1,
        ));
        r
    }
}

/// The warning level of a utilization in per cent.
pub open spec fn warning_level(utilization_pct: u64) -> MarginWarningLevel {
    if crate::doubles::no_less(utilization_pct, NINETY_BITS) {
        MarginWarningLevel::Critical
    } else if crate::doubles::no_less(utilization_pct, SEVENTY_FIVE_BITS) {
        MarginWarningLevel::High
    } else if crate::doubles::no_less(utilization_pct, FIFTY_BITS) {
        MarginWarningLevel::Moderate
    } else {
        MarginWarningLevel::Normal
    }
}

/// The discount for positions in several asset classes, in per cent: five for each class beyond the
/// first, twenty at most
pub fn diversification_discount(classes: usize) -> (pct: u32)
    ensures
        pct == if classes <= 1 {
            0
        } else if classes >= 5 {
            20
        } else {
            5 * (classes - 1)
        },
{
    if classes <= 1 {
        0
    } else if classes >= 5 {
        20
    } else {
        5 * (classes as u32 - 1)
    }
}

/// Capital efficiency calculator
#[derive(Debug, Clone, Copy, PartialEq, Eq, Structural)]
pub struct CapitalEfficiencyCalculator;

impl CapitalEfficiencyCalculator {
    /// Calculate capital efficiency ratio: the leverage, where there is a margin
    pub fn calculate_efficiency(margin_result: &MarginResult) -> (e: u64)
        ensures
            e == if crate::doubles::no_less(ZERO, margin_result.net_margin_required) {
                ZERO
            } else {
                margin_result.portfolio_leverage
            },
    {
        if at_least(ZERO, margin_result.net_margin_required) {
            ZERO
        } else {
            margin_result.portfolio_leverage
        }
    }

    /// Calculate offset benefit percentage: the share of a gross margin, where there is one
    pub fn offset_benefit_pct(gross_margin: u64, share_pct: u64) -> (pct: u64)
        ensures
            pct == if crate::doubles::no_less(ZERO, gross_margin) {
                ZERO
            } else {
                share_pct
            },
    {
        if at_least(ZERO, gross_margin) {
            ZERO
        } else {
            share_pct
        }
    }

    /// Optimal position sizing given margin constraints: the smaller of the notionals that the
    /// margin and the leverage allow, where margin is available and has a ratio
    pub fn optimal_position_size(
        available_margin: u64,
        margin_ratio: u64,
        by_margin: u64,
        by_leverage: u64,
    ) -> (notional: u64)
        ensures
            notional == if crate::doubles::no_less(ZERO, available_margin)
                || crate::doubles::no_less(ZERO, margin_ratio) {
                ZERO
            } else {
                crate::doubles::min_of(by_margin, by_leverage)
            },
    {
        if at_least(ZERO, available_margin) || at_least(ZERO, margin_ratio) {
            ZERO
        } else {
            smaller(by_margin, by_leverage)
        }
    }
}

/// What is required and what is free are never below zero, whatever the figures.
pub proof fn law_margin_is_not_negative(figures: MarginFigures, equity: u64)
    ensures
        crate::doubles::no_less(margin_of(figures, equity).net_margin_required, ZERO),
        crate::doubles::no_less(margin_of(figures, equity).available_margin, ZERO),
{
}

/// The two sides of some places share out those that are not flat.
pub proof fn law_sides_share_out_the_positions(
    engine: CrossMarginEngine,
    places: Seq<usize>,
    k: nat,
)
    requires
        k <= places.len(),
        forall|a: int|
            0 <= a < k ==> engine.positions.entries@[#[trigger] places[a] as int].1.side
                != PositionSide::Flat,
    ensures
        engine.terms_of(places, PositionSide::Long, k).len() + engine.terms_of(
            places,
            PositionSide::Short,
            k,
        ).len() == k,
    decreases k,
{
    if k > 0 {
        law_sides_share_out_the_positions(engine, places, (k - 1) as nat);
        assert(engine.positions.entries@[places[k - 1] as int].1.side != PositionSide::Flat);
    }
}

/// The place of the group that a position stands in.
pub open spec fn stands_in(groups: Seq<ClassGroup>, g: int, place: usize) -> bool {
    0 <= g < groups.len() && groups[g].members@.contains(place)
}

/// A member of a group has the group's class.
proof fn lemma_member_class(
    engine: CrossMarginEngine,
    groups: Seq<ClassGroup>,
    g: int,
    place: usize,
)
    requires
        engine.are_groups(groups, 6),
        stands_in(groups, g, place),
    ensures
        groups[g].asset_class == engine.class_at(place as int),
{
    let members = groups[g].members@;
    assert(engine.are_members(members, groups[g].asset_class));
    let b = choose|b: int| 0 <= b < members.len() && members[b] == place;
    assert(members[b] == place);
}

/// The group of a position's class holds it.
proof fn lemma_class_group(engine: CrossMarginEngine, groups: Seq<ClassGroup>, place: usize) -> (g:
    int)
    requires
        engine.are_groups(groups, 6),
        place < engine.positions.entries@.len(),
    ensures
        stands_in(groups, g, place),
{
    assert(engine.class_at(place as int).rank() < 6);
    let g = choose|g: int|
        0 <= g < groups.len() && (#[trigger] groups[g]).asset_class == engine.class_at(
            place as int,
        );
    let members = groups[g].members@;
    assert(engine.are_members(members, engine.class_at(place as int)));
    let a = choose|a: int| 0 <= a < members.len() && #[trigger] members[a] == place;
    assert(members.contains(place));
    g
}

/// Every position stands in exactly one group, that of its class.
pub proof fn law_groups_share_out_the_positions(
    engine: CrossMarginEngine,
    groups: Seq<ClassGroup>,
    place: usize,
)
    requires
        engine.are_groups(groups, 6),
        place < engine.positions.entries@.len(),
    ensures
        exists|g: int| #[trigger] stands_in(groups, g, place),
        forall|g: int| #[trigger]
            stands_in(groups, g, place) ==> groups[g].asset_class == engine.class_at(place as int),
        forall|g: int, h: int| #[trigger]
            stands_in(groups, g, place) && #[trigger] stands_in(groups, h, place) ==> g == h,
{
    let g = lemma_class_group(engine, groups, place);
    assert(stands_in(groups, g, place));
    assert forall|g: int| #[trigger] stands_in(groups, g, place) implies groups[g].asset_class
        == engine.class_at(place as int) by {
        lemma_member_class(engine, groups, g, place);
    }
    assert forall|g: int, h: int| #[trigger]
        stands_in(groups, g, place) && #[trigger] stands_in(groups, h, place) implies g == h by {
        lemma_member_class(engine, groups, g, place);
        lemma_member_class(engine, groups, h, place);
        if g < h {
            assert(groups[g].asset_class.rank() < groups[h].asset_class.rank());
        } else if h < g {
            assert(groups[h].asset_class.rank() < groups[g].asset_class.rank());
        }
    }
}

/// A position that was added and then reduced to nothing leaves the others as they were.
pub proof fn law_closing_undoes_opening(positions: Map<Seq<char>, Position>, position: Position)
    requires
        !positions.contains_key(position.symbol@),
    ensures
        positions.insert(position.symbol@, position).remove(position.symbol@) == positions,
{
    assert(positions.insert(position.symbol@, position).remove(position.symbol@) =~= positions);
}

/// The margin of a portfolio is what its figures say, but nothing required or free is below zero,
/// and a share or a leverage counts only against something positive.
pub proof fn law_margin_follows_its_figures(f: MarginFigures, equity: u64)
    requires
        crate::doubles::is_finite(f.net_margin),
        crate::doubles::is_finite(f.headroom),
        crate::doubles::is_finite(equity),
    ensures
        ({
            let m = margin_of(f, equity);
            &&& m.total_initial_margin == f.initial_margin
            &&& m.total_maintenance_margin == f.maintenance_margin
            &&& m.margin_offset_benefit == f.offset
            &&& crate::doubles::units(f.net_margin) >= 0 ==> crate::doubles::units(
                m.net_margin_required,
            ) == crate::doubles::units(f.net_margin)
            &&& crate::doubles::units(f.net_margin) < 0 ==> m.net_margin_required == ZERO
            &&& crate::doubles::units(f.headroom) >= 0 ==> crate::doubles::units(m.available_margin)
                == crate::doubles::units(f.headroom)
            &&& crate::doubles::units(f.headroom) < 0 ==> m.available_margin == ZERO
            &&& crate::doubles::units(equity) > 0 ==> m.utilization_pct == f.share_pct
            &&& crate::doubles::units(equity) <= 0 ==> m.utilization_pct == ZERO
            &&& crate::doubles::units(f.net_margin) > 0 ==> m.portfolio_leverage == f.leverage
            &&& crate::doubles::units(f.net_margin) <= 0 ==> m.portfolio_leverage == ZERO
        }),
{
    crate::doubles::law_values_are_ordered(ZERO, f.net_margin);
    crate::doubles::law_values_are_ordered(f.net_margin, ZERO);
    crate::doubles::law_values_are_ordered(ZERO, f.headroom);
    crate::doubles::law_values_are_ordered(equity, ZERO);
}

/// The sides of a group are netted by the size of their difference; without anything on either side
/// nothing is netted, and the usual rate of a tenth stands in.
pub proof fn law_sides_are_netted(sums: SideSums)
    requires
        crate::doubles::is_finite(sums.difference),
        crate::doubles::is_finite(sums.gross),
        crate::doubles::is_finite(sums.weighted),
    ensures
        ({
            let n = netting_of(sums);
            &&& crate::doubles::units(n.net_notional) == crate::doubles::units(sums.difference)
                || crate::doubles::units(n.net_notional) == -crate::doubles::units(sums.difference)
            &&& crate::doubles::units(n.net_notional) >= 0
            &&& crate::doubles::units(sums.gross) > 0 ==> n.factor == sums.netting
            &&& crate::doubles::units(sums.gross) <= 0 ==> n.factor == ONE_BITS
            &&& crate::doubles::units(sums.gross) > 0 && crate::doubles::units(sums.weighted) > 0
                ==> n.rate == sums.rate
            &&& crate::doubles::units(sums.gross) <= 0 || crate::doubles::units(sums.weighted) <= 0
                ==> n.rate == TENTH_BITS
        }),
{
    crate::doubles::law_signs_turn_values_round(sums.difference);
    crate::doubles::law_values_are_ordered(sums.gross, ZERO);
    crate::doubles::law_values_are_ordered(sums.weighted, ZERO);
}

/// A utilization of fifty per cent or more is moderate, of seventy-five high and of ninety critical.
pub proof fn law_warnings_rise_with_utilization(utilization_pct: u64)
    requires
        crate::doubles::is_finite(utilization_pct),
    ensures
        ({
            let u = crate::doubles::units(utilization_pct);
            let one = crate::doubles::units(ONE_BITS);
            let w = warning_level(utilization_pct);
            &&& w == MarginWarningLevel::Normal <==> u < 50 * one
            &&& w == MarginWarningLevel::Moderate <==> 50 * one <= u < 75 * one
            &&& w == MarginWarningLevel::High <==> 75 * one <= u < 90 * one
            &&& w == MarginWarningLevel::Critical <==> u >= 90 * one
        }),
{
    crate::doubles::lemma_units_at(ONE_BITS, 1023, 0);
    crate::doubles::lemma_units_at(FIFTY_BITS, 1028, 0x9_0000_0000_0000);
    crate::doubles::lemma_units_at(SEVENTY_FIVE_BITS, 1029, 0x2_c000_0000_0000);
    crate::doubles::lemma_units_at(NINETY_BITS, 1029, 0x6_8000_0000_0000);
    vstd::arithmetic::power2::lemma_pow2_unfold(1023);
    vstd::arithmetic::power2::lemma_pow2_unfold(1024);
    vstd::arithmetic::power2::lemma_pow2_unfold(1025);
    vstd::arithmetic::power2::lemma_pow2_unfold(1026);
    vstd::arithmetic::power2::lemma_pow2_unfold(1027);
    vstd::arithmetic::power2::lemma_pow2_unfold(1028);
    crate::doubles::law_values_are_ordered(utilization_pct, FIFTY_BITS);
    crate::doubles::law_values_are_ordered(utilization_pct, SEVENTY_FIVE_BITS);
    crate::doubles::law_values_are_ordered(utilization_pct, NINETY_BITS);
    vstd::arithmetic::power2::lemma_pow2_pos(1022);
}

/// The terms of a side are those of its positions, in their order; each carries the notional of its
/// position, its size, and the ratios and the scalar of its symbol.
pub proof fn law_terms_are_those_of_the_side(
    engine: CrossMarginEngine,
    places: Seq<usize>,
    side: PositionSide,
    k: nat,
    i: int,
)
    requires
        k <= places.len(),
    ensures
        engine.terms_of(places, side, k) == places.take(k as int).filter(
            |p: usize| engine.positions.entries@[p as int].1.side == side,
        ).map_values(|p: usize| engine.term_at(p as int)),
        ({
            let position = engine.positions.entries@[i].1;
            let t = engine.term_at(i);
            &&& t.notional == position.notional
            &&& t.size == crate::doubles::size_of(position.notional)
            &&& engine.risk_params@.contains_key(position.symbol@) ==> {
                let p = engine.risk_params@[position.symbol@];
                &&& t.initial_ratio == p.initial_margin_ratio
                &&& t.maintenance_ratio == p.maintenance_margin_ratio
                &&& t.scalar == p.volatility_scalar
            }
            &&& !engine.risk_params@.contains_key(position.symbol@) ==> t.initial_ratio == TENTH_BITS
                && t.maintenance_ratio == TWENTIETH_BITS && t.scalar == ONE_BITS
        }),
    decreases k,
{
    reveal(Seq::filter);
    let on_side = |p: usize| engine.positions.entries@[p as int].1.side == side;
    let term = |p: usize| engine.term_at(p as int);
    if k > 0 {
        law_terms_are_those_of_the_side(engine, places, side, (k - 1) as nat, i);
        assert(places.take(k as int).drop_last() =~= places.take(k - 1));
        assert(places.take(k as int).last() == places[k - 1]);
        let before = places.take(k - 1).filter(on_side);
        assert(before.push(places[k - 1]).map_values(term) =~= before.map_values(term).push(
            term(places[k - 1]),
        ));
    } else {
        assert(places.take(0) =~= Seq::<usize>::empty());
        assert(Seq::<usize>::empty().filter(on_side) =~= Seq::<usize>::empty());
        assert(Seq::<usize>::empty().map_values(term) =~= Seq::<MarginTerm>::empty());
    }
}

/// Groups come in the order in which the classes are declared.
pub proof fn law_classes_are_ordered()
    ensures
        AssetClass::MajorCrypto.rank() == 0,
        AssetClass::Altcoin.rank() == 1,
        AssetClass::Stablecoin.rank() == 2,
        AssetClass::Equity.rank() == 3,
        AssetClass::Commodity.rank() == 4,
        AssetClass::Index.rank() == 5,
{
}

/// An asset without parameters of its own has a leverage of ten, an initial margin of a tenth and one
/// half of that to maintain, all up to rounding, and no scaling of its volatility.
pub proof fn law_default_parameters_allow_ten_times()
    ensures
        ({
            let p = default_parameters();
            let one = crate::doubles::units(ONE_BITS);
            &&& crate::doubles::units(p.max_leverage) == 10 * one
            &&& crate::doubles::units(p.volatility_scalar) == one
            &&& 0 <= 10 * crate::doubles::units(p.initial_margin_ratio) - one <= 4
                * vstd::arithmetic::power2::pow2(1018)
            &&& 2 * crate::doubles::units(p.maintenance_margin_ratio) == crate::doubles::units(
                p.initial_margin_ratio,
            )
            &&& p.asset_class == AssetClass::Altcoin
        }),
{
    crate::doubles::law_named_numbers_have_their_values();
    crate::doubles::lemma_units_at(TENTH_BITS, 1019, 0x9_9999_9999_999a);
    crate::doubles::lemma_units_at(TWENTIETH_BITS, 1018, 0x9_9999_9999_999a);
    vstd::arithmetic::power2::lemma_pow2_unfold(1022);
    vstd::arithmetic::power2::lemma_pow2_unfold(1021);
    vstd::arithmetic::power2::lemma_pow2_unfold(1020);
    vstd::arithmetic::power2::lemma_pow2_unfold(1019);
    vstd::arithmetic::power2::lemma_pow2_unfold(1018);
    vstd::arithmetic::power2::lemma_pow2_pos(1018);
}

/// Without positions all equity is available and nothing is required.
pub proof fn law_equity_is_free_without_positions(equity: u64)
    ensures
        free_margin(equity).available_margin == equity,
        free_margin(equity).total_initial_margin == 0,
        free_margin(equity).total_maintenance_margin == 0,
        free_margin(equity).net_margin_required == 0,
        free_margin(equity).margin_offset_benefit == 0,
        free_margin(equity).utilization_pct == 0,
        free_margin(equity).portfolio_leverage == 0,
{
}

} // verus!
