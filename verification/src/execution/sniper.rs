//! Icebergs: orders that show a part of their size and refresh it, found in the trades at one
//! price.
use vstd::prelude::*;

verus! {

broadcast use vstd::array::group_array_axioms;

/// Maximum number of watched iceberg candidates
pub const MAX_ICEBERG_CANDIDATES: usize = 256;

/// Minimum trades to confirm iceberg pattern
pub const MIN_ICEBERG_TRADES: usize = 5;

/// Number of trades that are kept
pub const TRADE_HISTORY: u64 = 1024;

/// Number of trades that are looked at
pub const TRADE_WINDOW: u64 = 100;

/// One as a fraction with 48 binary places.
pub const UNIT_FRACTION: u64 = 0x1_0000_0000_0000;

/// Iceberg detection states
#[derive(Debug, Clone, Copy, PartialEq, Eq, Structural)]
pub enum IcebergState {
    Unknown,
    Suspected,
    Confirmed,
    Exhausted,
}

/// Iceberg candidate structure
#[derive(Debug, Clone, Copy, PartialEq, Eq, Structural)]
pub struct IcebergCandidate {
    /// Price in fixed-point Q16.48
    pub price_level: i64,
    /// 0 = bid, 1 = ask
    pub side: u8,
    /// Initial detected size
    pub initial_size: i64,
    /// Size already executed since the last refresh
    pub executed_size: i64,
    /// Number of times refreshed
    pub refresh_count: u32,
    /// Timestamp of last refresh (nanos)
    pub last_refresh_time: u64,
    /// Number of trades at this level
    pub trade_count: u32,
    pub state: IcebergState,
    /// Confidence score, in tenths
    pub confidence_tenths: u32,
}

/// L3 trade tick for anomaly detection
#[derive(Debug, Clone, Copy, PartialEq, Eq, Structural)]
pub struct L3TradeTick {
    pub price: i64,
    pub size: i64,
    /// 0 = buyer, 1 = seller
    pub aggressor_side: u8,
    pub timestamp_ns: u64,
    pub trade_id: u64,
}

/// Order urgency levels
#[derive(Debug, Clone, Copy, PartialEq, Eq, Structural)]
pub enum Urgency {
    Low,
    Medium,
    High,
    Critical,
}

/// Iceberg to be sniped next.
#[derive(Debug, Clone, Copy, PartialEq, Eq, Structural)]
pub struct SnipeTarget {
    pub price: i64,
    pub side: u8,
    /// What is left of the iceberg
    pub remaining: i64,
    pub candidate_idx: u32,
    pub confidence_tenths: u32,
}

/// Snipe order structure
#[derive(Debug, Clone, Copy, PartialEq, Eq, Structural)]
pub struct SnipeOrder {
    pub price: i64,
    pub side: u8,
    pub size: i64,
    pub urgency: Urgency,
    pub candidate_idx: u32,
    pub confidence_tenths: u32,
}

/// True where two trades were made at one price by the same side.
pub open spec fn alike(a: L3TradeTick, b: L3TradeTick) -> bool {
    a.price == b.price && a.aggressor_side == b.aggressor_side
}

/// How many of the first `k` trades are like a given one.
pub open spec fn alike_count(trades: Seq<L3TradeTick>, tick: L3TradeTick, k: nat) -> nat
    decreases k,
{
    if k == 0 {
        0
    } else {
        alike_count(trades, tick, (k - 1) as nat) + if alike(trades[k - 1], tick) {
            1nat
        } else {
            0nat
        }
    }
}

/// The size of those among the first `k` trades that are like a given one.
pub open spec fn alike_size(trades: Seq<L3TradeTick>, tick: L3TradeTick, k: nat) -> int
    decreases k,
{
    if k == 0 {
        0
    } else {
        alike_size(trades, tick, (k - 1) as nat) + if alike(trades[k - 1], tick) {
            trades[k - 1].size as int
        } else {
            0
        }
    }
}

/// How many trades are looked at: the latest hundred.
pub open spec fn window(trades: Seq<L3TradeTick>) -> nat {
    if trades.len() <= TRADE_WINDOW {
        trades.len()
    } else {
        TRADE_WINDOW as nat
    }
}

/// The first candidate at a price and side, from `from` on.
pub open spec fn candidate_at(
    candidates: Seq<IcebergCandidate>,
    price: i64,
    side: u8,
    from: nat,
) -> Option<nat>
    decreases candidates.len() - from,
{
    if from >= candidates.len() {
        None
    } else if candidates[from as int].price_level == price && candidates[from as int].side
        == side {
        Some(from)
    } else {
        candidate_at(candidates, price, side, from + 1)
    }
}

/// The confidence that a number of like trades gives: full at twice the least number.
pub open spec fn confidence(count: nat) -> u32 {
    if count <= 10 {
        count as u32
    } else {
        10
    }
}

/// A candidate after one more trade. Where more was executed than the candidate showed at first, it
/// was refreshed: the iceberg is confirmed and its shown size starts anew.
pub open spec fn traded(c: IcebergCandidate, tick: L3TradeTick, confidence: u32) -> IcebergCandidate {
    let executed = c.executed_size + tick.size;
    if executed > c.initial_size {
        IcebergCandidate {
            executed_size: (executed - c.initial_size) as i64,
            trade_count: (c.trade_count + 1) as u32,
            last_refresh_time: tick.timestamp_ns,
            confidence_tenths: confidence,
            refresh_count: (c.refresh_count + 1) as u32,
            state: IcebergState::Confirmed,
            ..c
        }
    } else {
        IcebergCandidate {
            executed_size: executed as i64,
            trade_count: (c.trade_count + 1) as u32,
            last_refresh_time: tick.timestamp_ns,
            confidence_tenths: confidence,
            ..c
        }
    }
}

/// A candidate as it is first seen, confirmed at once on a confidence above eight tenths.
pub open spec fn first_seen(tick: L3TradeTick, count: nat, size: int) -> IcebergCandidate {
    IcebergCandidate {
        price_level: tick.price,
        side: tick.aggressor_side,
        initial_size: size as i64,
        executed_size: tick.size,
        refresh_count: 0,
        last_refresh_time: tick.timestamp_ns,
        trade_count: count as u32,
        state: if confidence(count) > 8 {
            IcebergState::Confirmed
        } else {
            IcebergState::Suspected
        },
        confidence_tenths: confidence(count),
    }
}

/// The candidates after a trade, the latest of `trades`.
pub open spec fn detected(
    candidates: Seq<IcebergCandidate>,
    trades: Seq<L3TradeTick>,
    tick: L3TradeTick,
) -> Seq<IcebergCandidate> {
    let count = alike_count(trades, tick, window(trades));
    if count < MIN_ICEBERG_TRADES {
        candidates
    } else {
        match candidate_at(candidates, tick.price, tick.aggressor_side, 0) {
            Some(i) => candidates.update(
                i as int,
                traded(candidates[i as int], tick, confidence(count)),
            ),
            None => if candidates.len() < MAX_ICEBERG_CANDIDATES {
                candidates.push(first_seen(tick, count, alike_size(trades, tick, window(trades))))
            } else {
                candidates
            },
        }
    }
}

/// True where the sizes and counts that a trade leads to fit their types; with too few trades alike
/// it leads to none.
pub open spec fn detection_fits(
    candidates: Seq<IcebergCandidate>,
    trades: Seq<L3TradeTick>,
    tick: L3TradeTick,
) -> bool {
    alike_count(trades, tick, window(trades)) >= MIN_ICEBERG_TRADES ==> match candidate_at(
        candidates,
        tick.price,
        tick.aggressor_side,
        0,
    ) {
        Some(i) => {
            let c = candidates[i as int];
            let executed = c.executed_size + tick.size;
            &&& i64::MIN <= executed <= i64::MAX
            &&& c.trade_count < u32::MAX
            &&& executed > c.initial_size ==> executed - c.initial_size <= i64::MAX
                && c.refresh_count < u32::MAX
        },
        None => candidates.len() < MAX_ICEBERG_CANDIDATES ==> i64::MIN <= alike_size(
            trades,
            tick,
            window(trades),
        ) <= i64::MAX,
    }
}

/// True where a candidate is a confirmed iceberg with enough confidence.
pub open spec fn eligible(c: IcebergCandidate, min_confidence: u64) -> bool {
    c.state == IcebergState::Confirmed && c.confidence_tenths * UNIT_FRACTION >= min_confidence
        * 10
}

/// The first candidate to be sniped: an eligible one of which something is left.
pub open spec fn target_index(
    candidates: Seq<IcebergCandidate>,
    min_confidence: u64,
    from: nat,
) -> Option<nat>
    decreases candidates.len() - from,
{
    if from >= candidates.len() {
        None
    } else if eligible(candidates[from as int], min_confidence)
        && candidates[from as int].initial_size > candidates[from as int].executed_size {
        Some(from)
    } else {
        target_index(candidates, min_confidence, from + 1)
    }
}

/// The score of a candidate: its confidence, the higher the more often it was refreshed.
pub open spec fn score(c: IcebergCandidate) -> int {
    c.confidence_tenths * (c.refresh_count + 1)
}

/// The best of the first `k` candidates: the first eligible one with the highest score above zero.
pub open spec fn best_index(
    candidates: Seq<IcebergCandidate>,
    min_confidence: u64,
    k: nat,
) -> Option<nat>
    decreases k,
{
    if k == 0 {
        None
    } else {
        let before = best_index(candidates, min_confidence, (k - 1) as nat);
        let best = match before {
            Some(i) => score(candidates[i as int]),
            None => 0,
        };
        let c = candidates[k - 1];
        if eligible(c, min_confidence) && score(c) > best {
            Some((k - 1) as nat)
        } else {
            before
        }
    }
}

/// The candidates that are not exhausted.
pub open spec fn alive(candidates: Seq<IcebergCandidate>) -> Seq<IcebergCandidate>
    decreases candidates.len(),
{
    if candidates.len() == 0 {
        Seq::empty()
    } else {
        let before = alive(candidates.drop_last());
        if candidates.last().state != IcebergState::Exhausted {
            before.push(candidates.last())
        } else {
            before
        }
    }
}

/// Iceberg sniping engine
pub struct IcebergSniper {
    /// Watched iceberg candidates
    pub candidates: Vec<IcebergCandidate>,
    /// Recent trade history (ring buffer)
    pub trade_history: [L3TradeTick; 1024],
    /// Trade history head
    pub trade_head: u64,
    /// Trade history count
    pub trade_count: u64,
    /// Sniper enabled flag
    pub enabled: bool,
    /// Minimum confidence threshold, as a fraction with 48 binary places
    pub min_confidence: u64,
    /// Aggressive sweep size multiplier, with 48 binary places
    pub sweep_multiplier: u64,
}

impl IcebergSniper {
    /// The kept trades, latest first.
    pub open spec fn trades(&self) -> Seq<L3TradeTick> {
        Seq::new(
            self.trade_count as nat,
            |i: int| self.trade_history@[(self.trade_head - 1 - i) % 1024],
        )
    }

    pub open spec fn inv(&self) -> bool {
        &&& self.candidates@.len() <= MAX_ICEBERG_CANDIDATES
        &&& self.trade_count <= TRADE_HISTORY
        &&& self.trade_count <= self.trade_head
    }

    /// The kept trades after one more: the latest 1024.
    pub open spec fn trades_with(&self, tick: L3TradeTick) -> Seq<L3TradeTick> {
        let before = self.trades();
        seq![tick] + if before.len() < TRADE_HISTORY {
            before
        } else {
            before.drop_last()
        }
    }

    /// What is to be sniped next, if anything.
    pub open spec fn target(&self) -> Option<SnipeTarget> {
        if !self.enabled {
            None
        } else {
            match target_index(self.candidates@, self.min_confidence, 0) {
                Some(i) => {
                    let c = self.candidates@[i as int];
                    Some(
                        SnipeTarget {
                            price: c.price_level,
                            side: c.side,
                            remaining: (c.initial_size - c.executed_size) as i64,
                            candidate_idx: i as u32,
                            confidence_tenths: c.confidence_tenths,
                        },
                    )
                },
                None => None,
            }
        }
    }

    /// True where what is left of each candidate fits in 64 bits.
    pub open spec fn remainders_fit(&self) -> bool {
        forall|i: int|
            0 <= i < self.candidates@.len() ==> (#[trigger] self.candidates@[i]).initial_size
                - self.candidates@[i].executed_size <= i64::MAX
    }

    pub fn new() -> (s: Self)
        ensures
            s.inv(),
            s.candidates@.len() == 0,
            s.trades().len() == 0,
            s.trade_head == 0,
            s.enabled,
            s.min_confidence == UNIT_FRACTION * 7 / 10,
            s.sweep_multiplier == UNIT_FRACTION + UNIT_FRACTION / 2,
    {
        Self {
            candidates: Vec::new(),
            trade_history: [L3TradeTick {
                price: 0,
                size: 0,
                aggressor_side: 0,
                timestamp_ns: 0,
                trade_id: 0,
            };1024],
            trade_head: 0,
            trade_count: 0,
            enabled: true,
            min_confidence: UNIT_FRACTION * 7 / 10,
            sweep_multiplier: UNIT_FRACTION + UNIT_FRACTION / 2,
        }
    }

    /// Record a new L3 trade tick
    pub fn record_trade(&mut self, tick: L3TradeTick)
        requires
            old(self).inv(),
            old(self).trade_head < u64::MAX,
            detection_fits(old(self).candidates@, old(self).trades_with(tick), tick),
        ensures
            final(self).inv(),
            final(self).trades() == old(self).trades_with(tick),
            final(self).candidates@ == detected(
                old(self).candidates@,
                old(self).trades_with(tick),
                tick,
            ),
            final(self).trade_head == old(self).trade_head + 1,
            final(self).enabled == old(self).enabled,
            final(self).min_confidence == old(self).min_confidence,
            final(self).sweep_multiplier == old(self).sweep_multiplier,
    {
        let head: u64 = self.trade_head;
        let idx: usize = (head % 1024) as usize;
        self.trade_history[idx] = tick;
        self.trade_head = head + 1;
        if self.trade_count < TRADE_HISTORY {
            self.trade_count = self.trade_count + 1;
        }
        proof {
            let before = old(self).trades();
            let now = self.trades();
            assert(now.len() == old(self).trades_with(tick).len());
            assert forall|i: int| 0 <= i < now.len() implies now[i] == old(self).trades_with(
                tick,
            )[i] by {
                if i > 0 {
                    assert(now[i] == self.trade_history@[(head - i) % 1024]);
                    assert(before[i - 1] == old(self).trade_history@[(head - 1 - (i - 1)) % 1024]);
                    assert((head - i) % 1024 != head % 1024);
                }
            }
            assert(now =~= old(self).trades_with(tick));
        }
        self.detect_iceberg(tick);
    }

    /// Detect iceberg patterns from trade flow
    fn detect_iceberg(&mut self, tick: L3TradeTick)
        requires
            old(self).inv(),
            detection_fits(old(self).candidates@, old(self).trades(), tick),
        ensures
            final(self).inv(),
            final(self).candidates@ == detected(old(self).candidates@, old(self).trades(), tick),
            final(self).trade_history@ == old(self).trade_history@,
            final(self).trade_head == old(self).trade_head,
            final(self).trade_count == old(self).trade_count,
            final(self).enabled == old(self).enabled,
            final(self).min_confidence == old(self).min_confidence,
            final(self).sweep_multiplier == old(self).sweep_multiplier,
    {
        let ghost trades = self.trades();
        proof {
            lemma_alike(trades, tick, window(trades));
        }
        if self.trade_count < MIN_ICEBERG_TRADES as u64 {
            return ;
        }
        let n: u64 = if self.trade_count <= TRADE_WINDOW {
            self.trade_count
        } else {
            TRADE_WINDOW
        };
        let mut count: u32 = 0;
        let mut size: i128 = 0;
        let mut i: u64 = 0;
        while i < n
            invariant
                i <= n,
                n == window(trades),
                trades == self.trades(),
                self.inv(),
                n <= 100,
                n <= self.trade_count,
                count == alike_count(trades, tick, i as nat),
                count <= i,
                size == alike_size(trades, tick, i as nat),
                -0x8000_0000_0000_0000 * i <= size <= 0x8000_0000_0000_0000 * i,
            decreases n - i,
        {
            let idx: usize = ((self.trade_head - 1 - i) % 1024) as usize;
            let trade = self.trade_history[idx];
            assert(trade == trades[i as int]);
            if trade.price == tick.price && trade.aggressor_side == tick.aggressor_side {
                count = count + 1;
                size = size + trade.size as i128;
            }
            i = i + 1;
        }
        if count < MIN_ICEBERG_TRADES as u32 {
            return ;
        }
        let confidence_tenths: u32 = if count <= 10 {
            count
        } else {
            10
        };
        match self.find_candidate(tick.price, tick.aggressor_side) {
            Some(k) => {
                let mut c = self.candidates[k];
                c.executed_size = c.executed_size + tick.size;
                c.trade_count = c.trade_count + 1;
                c.last_refresh_time = tick.timestamp_ns;
                c.confidence_tenths = confidence_tenths;
                if c.executed_size > c.initial_size {
                    c.executed_size = (c.executed_size as i128 - c.initial_size as i128) as i64;
                    c.refresh_count = c.refresh_count + 1;
                    c.state = IcebergState::Confirmed;
                }
                self.candidates.set(k, c);
            },
            None => {
                if self.candidates.len() < MAX_ICEBERG_CANDIDATES {
                    self.candidates.push(
                        IcebergCandidate {
                            price_level: tick.price,
                            side: tick.aggressor_side,
                            initial_size: size as i64,
                            executed_size: tick.size,
                            refresh_count: 0,
                            last_refresh_time: tick.timestamp_ns,
                            trade_count: count,
                            state: if confidence_tenths > 8 {
                                IcebergState::Confirmed
                            } else {
                                IcebergState::Suspected
                            },
                            confidence_tenths,
                        },
                    );
                }
            },
        }
    }

    /// Find existing candidate by price and side
    fn find_candidate(&self, price: i64, side: u8) -> (r: Option<usize>)
        ensures
            match r {
                Some(i) => i < self.candidates@.len() && candidate_at(
                    self.candidates@,
                    price,
                    side,
                    0,
                ) == Some(i as nat),
                None => candidate_at(self.candidates@, price, side, 0) is None,
            },
    {
        let mut i: usize = 0;
        while i < self.candidates.len()
            invariant
                i <= self.candidates@.len(),
                candidate_at(self.candidates@, price, side, 0) == candidate_at(
                    self.candidates@,
                    price,
                    side,
                    i as nat,
                ),
            decreases self.candidates.len() - i,
        {
            if self.candidates[i].price_level == price && self.candidates[i].side == side {
                return Some(i);
            }
            i = i + 1;
        }
        None
    }

    /// True where a candidate is a confirmed iceberg with enough confidence.
    fn is_eligible(&self, c: &IcebergCandidate) -> (r: bool)
        ensures
            r == eligible(*c, self.min_confidence),
    {
        c.state == IcebergState::Confirmed && c.confidence_tenths as u128 * UNIT_FRACTION as u128
            >= self.min_confidence as u128 * 10
    }

    /// The iceberg to be sniped next: the first confirmed one with enough confidence of which
    /// something is left
    pub fn snipe_target(&self) -> (r: Option<SnipeTarget>)
        requires
            self.inv(),
            self.remainders_fit(),
        ensures
            r == self.target(),
    {
        if !self.enabled {
            return None;
        }
        let mut i: usize = 0;
        while i < self.candidates.len()
            invariant
                self.inv(),
                self.enabled,
                self.remainders_fit(),
                i <= self.candidates@.len(),
                target_index(self.candidates@, self.min_confidence, 0) == target_index(
                    self.candidates@,
                    self.min_confidence,
                    i as nat,
                ),
            decreases self.candidates.len() - i,
        {
            let c = self.candidates[i];
            if self.is_eligible(&c) && c.initial_size > c.executed_size {
                return Some(
                    SnipeTarget {
                        price: c.price_level,
                        side: c.side,
                        remaining: (c.initial_size as i128 - c.executed_size as i128) as i64,
                        candidate_idx: i as u32,
                        confidence_tenths: c.confidence_tenths,
                    },
                );
            }
            i = i + 1;
        }
        None
    }

    /// Generate sniper order for confirmed icebergs
    ///
    /// `sweep_size` is what is left of the iceberg times the sweep multiplier; the order takes at
    /// least what is left.
    pub fn generate_snipe_order(&self, sweep_size: i64) -> (r: Option<SnipeOrder>)
        requires
            self.inv(),
            self.remainders_fit(),
        ensures
            r == match self.target() {
                Some(t) => Some(
                    SnipeOrder {
                        price: t.price,
                        side: t.side,
                        size: if sweep_size >= t.remaining {
                            sweep_size
                        } else {
                            t.remaining
                        },
                        urgency: Urgency::High,
                        candidate_idx: t.candidate_idx,
                        confidence_tenths: t.confidence_tenths,
                    },
                ),
                None => None,
            },
    {
        match self.snipe_target() {
            Some(t) => Some(
                SnipeOrder {
                    price: t.price,
                    side: t.side,
                    size: if sweep_size >= t.remaining {
                        sweep_size
                    } else {
                        t.remaining
                    },
                    urgency: Urgency::High,
                    candidate_idx: t.candidate_idx,
                    confidence_tenths: t.confidence_tenths,
                },
            ),
            None => None,
        }
    }

    /// Mark iceberg as exhausted after successful snipe
    pub fn mark_exhausted(&mut self, candidate_idx: usize)
        ensures
            final(self).candidates@ == if candidate_idx < old(self).candidates@.len() {
                old(self).candidates@.update(
                    candidate_idx as int,
                    IcebergCandidate {
                        state: IcebergState::Exhausted,
                        ..old(self).candidates@[candidate_idx as int]
                    },
                )
            } else {
                old(self).candidates@
            },
            *final(self) == (IcebergSniper { candidates: final(self).candidates, ..*old(self) }),
    {
        if candidate_idx < self.candidates.len() {
            let mut c = self.candidates[candidate_idx];
            c.state = IcebergState::Exhausted;
            self.candidates.set(candidate_idx, c);
        }
    }

    /// Get best snipe opportunity
    pub fn get_best_opportunity(&self) -> (r: Option<&IcebergCandidate>)
        ensures
            match best_index(self.candidates@, self.min_confidence, self.candidates@.len()) {
                Some(i) => r == Some(&self.candidates@[i as int]),
                None => r is None,
            },
    {
        let mut best: Option<usize> = None;
        let mut best_score: u64 = 0;
        let mut i: usize = 0;
        while i < self.candidates.len()
            invariant
                i <= self.candidates@.len(),
                match best {
                    Some(b) => b < i && best_index(
                        self.candidates@,
                        self.min_confidence,
                        i as nat,
                    ) == Some(b as nat) && best_score == score(self.candidates@[b as int]),
                    None => best_index(self.candidates@, self.min_confidence, i as nat) is None
                        && best_score == 0,
                },
            decreases self.candidates.len() - i,
        {
            let c = self.candidates[i];
            if self.is_eligible(&c) {
                assert(c.confidence_tenths * (c.refresh_count + 1) <= 0xffff_ffff * 0x1_0000_0000)
                    by (nonlinear_arith)
                    requires
                        c.confidence_tenths <= 0xffff_ffff,
                        c.refresh_count <= 0xffff_ffff,
                ;
                let s: u64 = c.confidence_tenths as u64 * (c.refresh_count as u64 + 1);
                if s > best_score {
                    best_score = s;
                    best = Some(i);
                }
            }
            i = i + 1;
        }
        match best {
            Some(b) => Some(&self.candidates[b]),
            None => None,
        }
    }

    /// Enable/disable sniping
    pub fn set_enabled(&mut self, enabled: bool)
        ensures
            *final(self) == (IcebergSniper { enabled, ..*old(self) }),
    {
        self.enabled = enabled;
    }

    /// Set minimum confidence threshold, as a fraction with 48 binary places, at most one
    pub fn set_min_confidence(&mut self, threshold: u64)
        ensures
            *final(self) == (IcebergSniper {
                min_confidence: if threshold <= UNIT_FRACTION {
                    threshold
                } else {
                    UNIT_FRACTION
                },
                ..*old(self)
            }),
    {
        self.min_confidence = if threshold <= UNIT_FRACTION {
            threshold
        } else {
            UNIT_FRACTION
        };
    }

    /// Set sweep size multiplier, with 48 binary places, at least one
    pub fn set_sweep_multiplier(&mut self, multiplier: u64)
        ensures
            *final(self) == (IcebergSniper {
                sweep_multiplier: if multiplier >= UNIT_FRACTION {
                    multiplier
                } else {
                    UNIT_FRACTION
                },
                ..*old(self)
            }),
    {
        self.sweep_multiplier = if multiplier >= UNIT_FRACTION {
            multiplier
        } else {
            UNIT_FRACTION
        };
    }

    /// Get candidate count
    pub fn candidate_count(&self) -> (n: usize)
        ensures
            n == self.candidates@.len(),
    {
        self.candidates.len()
    }

    /// Clean up exhausted candidates
    pub fn cleanup_exhausted(&mut self)
        ensures
            final(self).candidates@ == alive(old(self).candidates@),
            *final(self) == (IcebergSniper { candidates: final(self).candidates, ..*old(self) }),
    {
        let ghost all = self.candidates@;
        let mut kept: Vec<IcebergCandidate> = Vec::new();
        let mut i: usize = 0;
        assert(all.take(0) =~= Seq::<IcebergCandidate>::empty());
        while i < self.candidates.len()
            invariant
                i <= self.candidates@.len(),
                all == self.candidates@,
                *self == *old(self),
                kept@ == alive(all.take(i as int)),
            decreases self.candidates.len() - i,
        {
            let c = self.candidates[i];
            assert(all.take(i + 1).drop_last() =~= all.take(i as int));
            if c.state != IcebergState::Exhausted {
                kept.push(c);
            }
            i = i + 1;
        }
        assert(all.take(i as int) =~= all);
        self.candidates = kept;
    }
}

/// At most all trades are alike.
proof fn lemma_alike(trades: Seq<L3TradeTick>, tick: L3TradeTick, k: nat)
    ensures
        alike_count(trades, tick, k) <= k,
    decreases k,
{
    if k > 0 {
        lemma_alike(trades, tick, (k - 1) as nat);
    }
}

/// Detection keeps one candidate at most for a price and side, and never more than the limit.
pub proof fn law_candidates_stay_distinct(
    candidates: Seq<IcebergCandidate>,
    trades: Seq<L3TradeTick>,
    tick: L3TradeTick,
)
    requires
        distinct(candidates),
        candidates.len() <= MAX_ICEBERG_CANDIDATES,
    ensures
        distinct(detected(candidates, trades, tick)),
        detected(candidates, trades, tick).len() <= MAX_ICEBERG_CANDIDATES,
{
    lemma_candidate_at(candidates, tick.price, tick.aggressor_side, 0);
}

/// True where no two candidates have the same price and side.
pub open spec fn distinct(candidates: Seq<IcebergCandidate>) -> bool {
    forall|i: int, j: int|
        0 <= i < j < candidates.len() ==> (#[trigger] candidates[i]).price_level != (
        #[trigger] candidates[j]).price_level || candidates[i].side != candidates[j].side
}

proof fn lemma_candidate_at(
    candidates: Seq<IcebergCandidate>,
    price: i64,
    side: u8,
    from: nat,
)
    requires
        from <= candidates.len(),
    ensures
        match candidate_at(candidates, price, side, from) {
            Some(i) => from <= i < candidates.len() && candidates[i as int].price_level == price
                && candidates[i as int].side == side,
            None => forall|i: int|
                from <= i < candidates.len() ==> (#[trigger] candidates[i]).price_level != price
                    || candidates[i].side != side,
        },
    decreases candidates.len() - from,
{
    if from < candidates.len() && !(candidates[from as int].price_level == price
        && candidates[from as int].side == side) {
        lemma_candidate_at(candidates, price, side, from + 1);
    }
}

/// An exhausted candidate is neither a target nor an opportunity, and the clean-up leaves none.
pub proof fn law_exhausted_candidates_are_ignored(
    candidates: Seq<IcebergCandidate>,
    min_confidence: u64,
    i: int,
)
    requires
        0 <= i < candidates.len(),
        candidates[i].state == IcebergState::Exhausted,
    ensures
        target_index(candidates, min_confidence, 0) != Some(i as nat),
        best_index(candidates, min_confidence, candidates.len()) != Some(i as nat),
        !alive(candidates).contains(candidates[i]),
{
    lemma_target(candidates, min_confidence, 0);
    lemma_best(candidates, min_confidence, candidates.len());
    lemma_alive(candidates);
}

proof fn lemma_target(candidates: Seq<IcebergCandidate>, min_confidence: u64, from: nat)
    requires
        from <= candidates.len(),
    ensures
        match target_index(candidates, min_confidence, from) {
            Some(i) => i < candidates.len() && eligible(candidates[i as int], min_confidence),
            None => true,
        },
    decreases candidates.len() - from,
{
    if from < candidates.len() {
        lemma_target(candidates, min_confidence, from + 1);
    }
}

proof fn lemma_best(candidates: Seq<IcebergCandidate>, min_confidence: u64, k: nat)
    requires
        k <= candidates.len(),
    ensures
        match best_index(candidates, min_confidence, k) {
            Some(i) => i < k && eligible(candidates[i as int], min_confidence) && forall|j: int|
                0 <= j < k && eligible(#[trigger] candidates[j], min_confidence) ==> score(
                    candidates[j],
                ) <= score(candidates[i as int]),
            None => forall|j: int|
                0 <= j < k && eligible(#[trigger] candidates[j], min_confidence) ==> score(
                    candidates[j],
                ) <= 0,
        },
    decreases k,
{
    if k > 0 {
        lemma_best(candidates, min_confidence, (k - 1) as nat);
    }
}

/// The best opportunity has the highest score of all eligible candidates.
pub proof fn law_best_opportunity_has_the_highest_score(
    candidates: Seq<IcebergCandidate>,
    min_confidence: u64,
    j: int,
)
    requires
        0 <= j < candidates.len(),
        eligible(candidates[j], min_confidence),
    ensures
        match best_index(candidates, min_confidence, candidates.len()) {
            Some(i) => score(candidates[j]) <= score(candidates[i as int]),
            None => score(candidates[j]) <= 0,
        },
{
    lemma_best(candidates, min_confidence, candidates.len());
}

proof fn lemma_alive(candidates: Seq<IcebergCandidate>)
    ensures
        forall|i: int|
            0 <= i < alive(candidates).len() ==> (#[trigger] alive(candidates)[i]).state
                != IcebergState::Exhausted,
    decreases candidates.len(),
{
    if candidates.len() > 0 {
        lemma_alive(candidates.drop_last());
    }
}

proof fn lemma_alike_tally(trades: Seq<L3TradeTick>, tick: L3TradeTick, k: nat)
    ensures
        alike_count(trades, tick, k) == crate::tally::count(
            k,
            |i: int| trades[i].price == tick.price && trades[i].aggressor_side
                == tick.aggressor_side,
        ),
        alike_size(trades, tick, k) == crate::tally::sum(
            k,
            |i: int|
                if trades[i].price == tick.price && trades[i].aggressor_side
                    == tick.aggressor_side {
                    trades[i].size as int
                } else {
                    0
                },
        ),
        alike_count(trades, tick, k) <= k,
    decreases k,
{
    if k > 0 {
        lemma_alike_tally(trades, tick, (k - 1) as nat);
    }
}

/// A trade leads to a candidate where at least five of the latest hundred trades were made at its
/// price by its side. A new candidate shows the size of all of those, counts them, and is confirmed
/// at once where there are nine or more; with fewer than five nothing changes.
pub proof fn law_repeated_trades_make_a_candidate(
    candidates: Seq<IcebergCandidate>,
    trades: Seq<L3TradeTick>,
    tick: L3TradeTick,
)
    requires
        candidates.len() < 256,
        forall|i: int|
            0 <= i < candidates.len() ==> (#[trigger] candidates[i]).price_level != tick.price
                || candidates[i].side != tick.aggressor_side,
        detection_fits(candidates, trades, tick),
    ensures
        ({
            let n: nat = if trades.len() <= 100 {
                trades.len()
            } else {
                100
            };
            let like = |i: int|
                trades[i].price == tick.price && trades[i].aggressor_side == tick.aggressor_side;
            let count = crate::tally::count(n, like);
            let after = detected(candidates, trades, tick);
            &&& count < 5 ==> after == candidates
            &&& count >= 5 ==> {
                let c = after.last();
                &&& after.len() == candidates.len() + 1
                &&& after.drop_last() == candidates
                &&& c.price_level == tick.price
                &&& c.side == tick.aggressor_side
                &&& c.initial_size == crate::tally::sum(
                    n,
                    |i: int|
                        if trades[i].price == tick.price && trades[i].aggressor_side
                            == tick.aggressor_side {
                            trades[i].size as int
                        } else {
                            0
                        },
                )
                &&& c.executed_size == tick.size
                &&& c.refresh_count == 0
                &&& c.trade_count == count
                &&& c.last_refresh_time == tick.timestamp_ns
                &&& count <= 10 ==> c.confidence_tenths == count
                &&& count > 10 ==> c.confidence_tenths == 10
                &&& c.state == IcebergState::Confirmed <==> count >= 9
                &&& c.state == IcebergState::Suspected <==> count < 9
            }
        }),
{
    lemma_candidate_at(candidates, tick.price, tick.aggressor_side, 0);
    lemma_alike_tally(trades, tick, window(trades));
    let after = detected(candidates, trades, tick);
    if alike_count(trades, tick, window(trades)) >= 5 {
        assert(after.drop_last() =~= candidates);
    }
}

/// A candidate that is traded again counts the trade and what it took; where that is more than the
/// candidate showed, the candidate was refreshed: it is confirmed, counts the refresh and keeps what
/// was taken beyond the shown size.
pub proof fn law_candidate_is_refreshed(c: IcebergCandidate, tick: L3TradeTick, tenths: u32)
    requires
        i64::MIN <= c.executed_size + tick.size <= i64::MAX,
        c.executed_size + tick.size - c.initial_size <= i64::MAX,
        c.trade_count < u32::MAX,
        c.refresh_count < u32::MAX,
    ensures
        ({
            let now = traded(c, tick, tenths);
            let refreshed = c.executed_size + tick.size > c.initial_size;
            &&& now.trade_count == c.trade_count + 1
            &&& now.refresh_count - c.refresh_count == if refreshed {
                1int
            } else {
                0
            }
            &&& now.executed_size + (now.refresh_count - c.refresh_count) * c.initial_size
                == c.executed_size + tick.size
            &&& refreshed ==> now.state == IcebergState::Confirmed
            &&& !refreshed ==> now.state == c.state
            &&& now.confidence_tenths == tenths
            &&& now.last_refresh_time == tick.timestamp_ns
            &&& now.price_level == c.price_level && now.side == c.side && now.initial_size
                == c.initial_size
        }),
{
    assert(0 * c.initial_size == 0 && 1 * c.initial_size == c.initial_size);
}

/// A candidate is worth sniping where it is confirmed and its confidence, in tenths, is no less
/// than the least one; the first such candidate of which something is left is the target.
pub proof fn law_target_is_the_first_worthwhile(s: IcebergSniper, j: int)
    requires
        s.inv(),
        s.remainders_fit(),
        0 <= j < s.candidates@.len(),
    ensures
        ({
            let worth = |i: int|
                {
                    let c = s.candidates@[i];
                    &&& c.state == IcebergState::Confirmed
                    &&& c.confidence_tenths * 0x1_0000_0000_0000 >= 10 * s.min_confidence
                    &&& c.initial_size > c.executed_size
                };
            match s.target() {
                Some(t) => {
                    &&& s.enabled
                    &&& t.candidate_idx < s.candidates@.len()
                    &&& worth(t.candidate_idx as int)
                    &&& j < t.candidate_idx ==> !worth(j)
                    &&& t.price == s.candidates@[t.candidate_idx as int].price_level
                    &&& t.side == s.candidates@[t.candidate_idx as int].side
                    &&& t.remaining == s.candidates@[t.candidate_idx as int].initial_size
                        - s.candidates@[t.candidate_idx as int].executed_size
                    &&& t.confidence_tenths
                        == s.candidates@[t.candidate_idx as int].confidence_tenths
                },
                None => !s.enabled || !worth(j),
            }
        }),
{
    lemma_first_target(s.candidates@, s.min_confidence, 0);
    assert(s.candidates@[j].initial_size - s.candidates@[j].executed_size <= i64::MAX);
    match target_index(s.candidates@, s.min_confidence, 0) {
        Some(i) => {
            let c = s.candidates@[i as int];
            assert(c.initial_size - c.executed_size <= i64::MAX);
        },
        None => {},
    }
}

proof fn lemma_first_target(candidates: Seq<IcebergCandidate>, min_confidence: u64, from: nat)
    requires
        from <= candidates.len(),
    ensures
        match target_index(candidates, min_confidence, from) {
            Some(i) => from <= i < candidates.len() && eligible(
                candidates[i as int],
                min_confidence,
            ) && candidates[i as int].initial_size > candidates[i as int].executed_size
                && forall|j: int|
                from <= j < i ==> !(eligible(#[trigger] candidates[j], min_confidence)
                    && candidates[j].initial_size > candidates[j].executed_size),
            None => forall|j: int|
                from <= j < candidates.len() ==> !(eligible(
                    #[trigger] candidates[j],
                    min_confidence,
                ) && candidates[j].initial_size > candidates[j].executed_size),
        },
    decreases candidates.len() - from,
{
    if from < candidates.len() && !(eligible(candidates[from as int], min_confidence)
        && candidates[from as int].initial_size > candidates[from as int].executed_size) {
        lemma_first_target(candidates, min_confidence, from + 1);
    }
}

/// A candidate scores the higher the more confidence there is in it and the more often it was
/// refreshed.
pub proof fn law_score_grows(a: IcebergCandidate, b: IcebergCandidate)
    requires
        a.confidence_tenths <= b.confidence_tenths,
        a.refresh_count <= b.refresh_count,
    ensures
        score(a) <= score(b),
        a.refresh_count == 0 ==> score(a) == a.confidence_tenths,
        a.refresh_count < b.refresh_count && b.confidence_tenths > 0 ==> score(a) < score(b),
{
    assert(a.confidence_tenths * (a.refresh_count + 1) <= b.confidence_tenths * (b.refresh_count
        + 1)) by (nonlinear_arith)
        requires
            a.confidence_tenths <= b.confidence_tenths,
            a.refresh_count <= b.refresh_count,
    ;
    assert(a.refresh_count == 0 ==> a.confidence_tenths * (a.refresh_count + 1)
        == a.confidence_tenths) by (nonlinear_arith);
    assert(a.refresh_count < b.refresh_count && b.confidence_tenths > 0 ==> a.confidence_tenths * (
    a.refresh_count + 1) < b.confidence_tenths * (b.refresh_count + 1)) by (nonlinear_arith)
        requires
            a.confidence_tenths <= b.confidence_tenths,
            a.refresh_count <= b.refresh_count,
    ;
}

/// The clean-up keeps the candidates that are not exhausted, in their order.
pub proof fn law_cleanup_keeps_the_rest(candidates: Seq<IcebergCandidate>)
    ensures
        alive(candidates) == candidates.filter(
            |c: IcebergCandidate| c.state != IcebergState::Exhausted,
        ),
    decreases candidates.len(),
{
    reveal(Seq::filter);
    if candidates.len() > 0 {
        law_cleanup_keeps_the_rest(candidates.drop_last());
    }
}

/// The history keeps the latest trades, the newest first, up to a thousand and twenty-four.
pub proof fn law_history_keeps_the_latest_trades(s: IcebergSniper, tick: L3TradeTick, i: int)
    requires
        s.inv(),
        0 <= i,
        i + 1 < s.trades_with(tick).len(),
    ensures
        s.trades_with(tick)[0] == tick,
        s.trades_with(tick)[i + 1] == s.trades()[i],
        s.trades_with(tick).len() <= 1024,
        s.trades().len() < 1024 ==> s.trades_with(tick).len() == s.trades().len() + 1,
{
}

} // verus!
