//! Which venue an order goes to, and where it goes when that fails.
use crate::gateway::pool::{ConnectionPool, ConnectionPoolStats, DisconnectReason, GatewayEvent};
use crate::gateway::venue::{
    score_latency, LiquidityInfo, OrderRequest, OrderResponse, OrderRoutingDecision, VenueError,
};
use vstd::prelude::*;

verus! {

broadcast use vstd::array::group_array_axioms;

/// Maximum number of venues supported
pub const MAX_VENUES: usize = 32;

/// Number of times that an order is tried
pub const MAX_ATTEMPTS: u32 = 3;

/// Failover policy for routing decisions
#[derive(Debug, Clone, Copy, PartialEq, Eq, Structural)]
pub enum FailoverPolicy {
    /// Route to next best venue immediately
    Immediate,
    /// Wait for retry delay before failover
    Delayed { delay_ms: u32 },
    /// Only failover if primary is completely down
    StrictPrimary,
    /// Round-robin among healthy venues
    RoundRobin,
}

impl Default for FailoverPolicy {
    fn default() -> (p: Self)
        ensures
            p == FailoverPolicy::Immediate,
    {
        FailoverPolicy::Immediate
    }
}

/// Venue status information
#[derive(Debug, Clone, Copy, PartialEq, Eq, Structural)]
pub struct VenueStatus {
    /// Venue ID
    pub venue_id: u32,
    /// Is connected
    pub is_connected: bool,
    /// Current latency in nanoseconds
    pub latency_ns: u64,
    /// Available liquidity score
    pub liquidity_score: u32,
    /// Health score (0-100)
    pub health_score: u8,
    /// Is primary venue
    pub is_primary: bool,
    /// Is in failover state
    pub is_failover: bool,
    /// Last update timestamp
    pub last_update_ns: u64,
}

/// The status of a venue of which nothing is known yet.
pub open spec fn unknown_status(venue_id: u32) -> VenueStatus {
    VenueStatus {
        venue_id,
        is_connected: false,
        latency_ns: u64::MAX,
        liquidity_score: 0,
        health_score: 0,
        is_primary: false,
        is_failover: false,
        last_update_ns: 0,
    }
}

impl VenueStatus {
    /// True where a venue can take orders.
    pub open spec fn healthy(&self) -> bool {
        self.is_connected && self.health_score >= 50
    }

    /// The routing score: latency counts three times, health twice and liquidity once; zero where
    /// the venue cannot take orders.
    pub open spec fn score(&self) -> u32 {
        if self.healthy() {
            ((crate::gateway::venue::latency_score(self.latency_ns) * 3 + self.health_score * 2
                + self.liquidity_score) / 6) as u32
        } else {
            0
        }
    }

    /// The decision to send an order to the venue.
    pub open spec fn decision(&self) -> OrderRoutingDecision {
        crate::gateway::venue::decision_for(
            self.venue_id,
            self.latency_ns,
            self.liquidity_score as u64,
        )
    }

    pub fn new(venue_id: u32) -> (s: Self)
        ensures
            s == unknown_status(venue_id),
    {
        Self {
            venue_id,
            is_connected: false,
            latency_ns: u64::MAX,
            liquidity_score: 0,
            health_score: 0,
            is_primary: false,
            is_failover: false,
            last_update_ns: 0,
        }
    }

    fn is_healthy(&self) -> (r: bool)
        ensures
            r == self.healthy(),
    {
        self.is_connected && self.health_score >= 50
    }

    pub fn calculate_routing_score(&self) -> (r: u32)
        ensures
            r == self.score(),
    {
        if !self.is_connected || self.health_score < 50 {
            return 0;
        }
        let latency: u64 = score_latency(self.latency_ns) as u64;
        ((latency * 3 + self.health_score as u64 * 2 + self.liquidity_score as u64) / 6) as u32
    }

    fn to_decision(&self) -> (d: OrderRoutingDecision)
        ensures
            d == self.decision(),
    {
        OrderRoutingDecision::new(self.venue_id, self.latency_ns, self.liquidity_score as u64)
    }
}

/// How many of the first `k` venues can take orders.
pub open spec fn healthy_count(statuses: Seq<VenueStatus>, k: nat) -> nat
    decreases k,
{
    if k == 0 {
        0
    } else {
        healthy_count(statuses, (k - 1) as nat) + if statuses[k - 1].healthy() {
            1nat
        } else {
            0nat
        }
    }
}

/// The venues among the first `k` that can take orders.
pub open spec fn healthy_venues(statuses: Seq<VenueStatus>, k: nat) -> Seq<VenueStatus>
    decreases k,
{
    if k == 0 {
        Seq::empty()
    } else {
        let before = healthy_venues(statuses, (k - 1) as nat);
        if statuses[k - 1].healthy() {
            before.push(statuses[k - 1])
        } else {
            before
        }
    }
}

/// The best of the first `k` venues without the one to be left out: the first with the highest
/// score.
pub open spec fn best_venue(statuses: Seq<VenueStatus>, without: Option<u32>, k: nat) -> Option<nat>
    decreases k,
{
    if k == 0 {
        None
    } else {
        let before = best_venue(statuses, without, (k - 1) as nat);
        let best = match before {
            Some(i) => statuses[i as int].score(),
            None => 0,
        };
        let s = statuses[k - 1];
        if s.healthy() && without != Some(s.venue_id) && s.score() > best {
            Some((k - 1) as nat)
        } else {
            before
        }
    }
}

/// The next venue in turn that can take orders, `checked` places after `start`.
pub open spec fn next_in_turn(statuses: Seq<VenueStatus>, start: int, checked: nat) -> Option<int>
    decreases MAX_VENUES - checked,
{
    if checked >= MAX_VENUES {
        None
    } else if statuses[(start + checked) % 32].healthy() {
        Some((start + checked) % 32)
    } else {
        next_in_turn(statuses, start, checked + 1)
    }
}

/// Load balancer for venue selection
#[derive(Debug)]
pub struct LoadBalancer {
    /// Current venue statuses, by venue ID
    pub venue_statuses: [VenueStatus; 32],
    /// Number of active venues
    pub active_count: usize,
    /// Primary venue ID
    pub primary_venue_id: u64,
    /// Current round-robin index
    pub rr_index: usize,
    /// Failover policy
    pub failover_policy: FailoverPolicy,
    /// Total routing decisions made
    pub routing_decisions: u64,
    /// Failover events count
    pub failover_count: u64,
}

/// Load balancer statistics
#[derive(Debug, Clone, Copy, PartialEq, Eq, Structural)]
pub struct LoadBalancerStats {
    pub active_venues: usize,
    pub routing_decisions: u64,
    pub failover_count: u64,
    pub primary_venue_id: u32,
}

/// What a load balancer is, with its statuses as a sequence.
#[verifier::ext_equal]
pub struct BalancerView {
    pub statuses: Seq<VenueStatus>,
    pub primary_venue_id: u64,
    pub rr_index: usize,
    pub failover_policy: FailoverPolicy,
    pub routing_decisions: u64,
    pub failover_count: u64,
}

impl BalancerView {
    /// The state after the status of a venue is known; one of an unknown number is ignored.
    pub open spec fn with_status(self, s: VenueStatus) -> BalancerView {
        if s.venue_id < MAX_VENUES {
            BalancerView { statuses: self.statuses.update(s.venue_id as int, s), ..self }
        } else {
            self
        }
    }

    /// The best route, if there is one.
    pub open spec fn best(self) -> Option<OrderRoutingDecision> {
        match best_venue(self.statuses, None, MAX_VENUES as nat) {
            Some(i) => Some(self.statuses[i as int].decision()),
            None => None,
        }
    }

    /// The state after the best route was asked for.
    pub open spec fn after_best(self) -> BalancerView {
        if self.best() is Some {
            BalancerView { routing_decisions: self.routing_decisions.wrapping_add(1), ..self }
        } else {
            self
        }
    }

    /// The next route in turn, if there is one.
    pub open spec fn in_turn(self) -> Option<OrderRoutingDecision> {
        match next_in_turn(self.statuses, self.rr_index as int, 0) {
            Some(i) => Some(self.statuses[i].decision()),
            None => None,
        }
    }

    /// The state after the next route in turn was asked for.
    pub open spec fn after_turn(self) -> BalancerView {
        match next_in_turn(self.statuses, self.rr_index as int, 0) {
            Some(i) => BalancerView {
                rr_index: ((i + 1) % 32) as usize,
                routing_decisions: self.routing_decisions.wrapping_add(1),
                ..self
            },
            None => self,
        }
    }

    /// The state after the next route in turn was asked for `n` times.
    pub open spec fn after_turns(self, n: nat) -> BalancerView
        decreases n,
    {
        if n == 0 {
            self
        } else {
            self.after_turns((n - 1) as nat).after_turn()
        }
    }

    /// The slot of the route in turn that is handed out after `n` others.
    pub open spec fn choice(self, n: nat) -> Option<int> {
        let now = self.after_turns(n);
        next_in_turn(now.statuses, now.rr_index as int, 0)
    }

    /// True where the status of each venue that can take orders stands at the venue's number.
    pub open spec fn numbered(self) -> bool {
        forall|i: int|
            0 <= i < self.statuses.len() && (#[trigger] self.statuses[i]).healthy()
                ==> self.statuses[i].venue_id == i
    }

    /// The route when a venue failed, by the policy.
    pub open spec fn failover(self, failed_venue_id: u32) -> Option<OrderRoutingDecision> {
        match self.failover_policy {
            FailoverPolicy::StrictPrimary => None,
            FailoverPolicy::RoundRobin => match self.in_turn() {
                Some(d) => Some(crate::gateway::venue::failover_of(d)),
                None => None,
            },
            _ => match best_venue(self.statuses, Some(failed_venue_id), MAX_VENUES as nat) {
                Some(i) => Some(
                    crate::gateway::venue::failover_of(self.statuses[i as int].decision()),
                ),
                None => None,
            },
        }
    }

    /// The state after a failover route was asked for.
    pub open spec fn after_failover(self) -> BalancerView {
        let counted = BalancerView { failover_count: self.failover_count.wrapping_add(1), ..self };
        match self.failover_policy {
            FailoverPolicy::RoundRobin => counted.after_turn(),
            _ => counted,
        }
    }
}

impl View for LoadBalancer {
    type V = BalancerView;

    open spec fn view(&self) -> BalancerView {
        BalancerView {
            statuses: self.venue_statuses@,
            primary_venue_id: self.primary_venue_id,
            rr_index: self.rr_index,
            failover_policy: self.failover_policy,
            routing_decisions: self.routing_decisions,
            failover_count: self.failover_count,
        }
    }
}

impl LoadBalancer {
    /// The active count is the number of venues that can take orders, and each of these stands at
    /// its number.
    pub open spec fn inv(&self) -> bool {
        &&& self@.numbered()
        &&& self.active_count == healthy_count(self.venue_statuses@, MAX_VENUES as nat)
        &&& self.rr_index < MAX_VENUES
    }

    pub fn new(failover_policy: FailoverPolicy) -> (lb: Self)
        ensures
            lb.inv(),
            lb@.statuses == Seq::new(32, |i: int| unknown_status(0)),
            lb@.primary_venue_id == u64::MAX,
            lb@.rr_index == 0,
            lb@.failover_policy == failover_policy,
            lb@.routing_decisions == 0,
            lb@.failover_count == 0,
    {
        let mut lb = Self {
            venue_statuses: [VenueStatus::new(0);32],
            active_count: 0,
            primary_venue_id: u64::MAX,
            rr_index: 0,
            failover_policy,
            routing_decisions: 0,
            failover_count: 0,
        };
        assert(lb.venue_statuses@ =~= Seq::new(32, |i: int| unknown_status(0)));
        lb.update_active_count();
        lb
    }

    /// Update venue status, and the number of active venues with it
    pub fn update_venue_status(&mut self, status: VenueStatus)
        requires
            old(self).inv(),
        ensures
            final(self).inv(),
            final(self)@ == old(self)@.with_status(status),
    {
        if (status.venue_id as u64) < MAX_VENUES as u64 {
            let idx: usize = status.venue_id as usize;
            self.venue_statuses[idx] = status;
            self.update_active_count();
        }
        assert(self@ =~= old(self)@.with_status(status));
    }

    /// Set primary venue
    pub fn set_primary_venue(&mut self, venue_id: u32)
        requires
            old(self).inv(),
        ensures
            final(self).inv(),
            final(self)@ == (BalancerView {
                primary_venue_id: venue_id as u64,
                statuses: if venue_id < MAX_VENUES {
                    old(self)@.statuses.update(
                        venue_id as int,
                        VenueStatus {
                            is_primary: true,
                            ..old(self)@.statuses[venue_id as int]
                        },
                    )
                } else {
                    old(self)@.statuses
                },
                ..old(self)@
            }),
    {
        self.primary_venue_id = venue_id as u64;
        if (venue_id as u64) < MAX_VENUES as u64 {
            let idx: usize = venue_id as usize;
            let mut status = self.venue_statuses[idx];
            status.is_primary = true;
            self.venue_statuses[idx] = status;
            self.update_active_count();
        }
    }

    /// The best venue without the one to be left out.
    fn find_best(&self, without: Option<u32>) -> (r: Option<usize>)
        ensures
            match r {
                Some(i) => i < 32 && best_venue(
                    self.venue_statuses@,
                    without,
                    MAX_VENUES as nat,
                ) == Some(i as nat),
                None => best_venue(self.venue_statuses@, without, MAX_VENUES as nat) is None,
            },
    {
        let mut best: Option<usize> = None;
        let mut best_score: u32 = 0;
        let mut i: usize = 0;
        while i < MAX_VENUES
            invariant
                i <= MAX_VENUES,
                self.venue_statuses@.len() == 32,
                match best {
                    Some(b) => b < i && best_venue(self.venue_statuses@, without, i as nat)
                        == Some(b as nat) && best_score == self.venue_statuses@[b as int].score(),
                    None => best_venue(self.venue_statuses@, without, i as nat) is None
                        && best_score == 0,
                },
            decreases MAX_VENUES - i,
        {
            let status = self.venue_statuses[i];
            let left_out = match without {
                Some(id) => status.venue_id == id,
                None => false,
            };
            if status.is_healthy() && !left_out {
                let score: u32 = status.calculate_routing_score();
                if score > best_score {
                    best_score = score;
                    best = Some(i);
                }
            }
            i = i + 1;
        }
        best
    }

    /// Get best venue for routing based on current conditions
    pub fn select_best_venue(&mut self) -> (r: Option<OrderRoutingDecision>)
        requires
            old(self).inv(),
        ensures
            final(self).inv(),
            r == old(self)@.best(),
            final(self)@ == old(self)@.after_best(),
    {
        proof {
            lemma_best_needs_healthy(self.venue_statuses@, None, MAX_VENUES as nat);
        }
        if self.active_count == 0 {
            return None;
        }
        match self.find_best(None) {
            Some(i) => {
                self.routing_decisions = self.routing_decisions.wrapping_add(1);
                Some(self.venue_statuses[i].to_decision())
            },
            None => None,
        }
    }

    /// Select venue using round-robin among healthy venues
    pub fn select_round_robin(&mut self) -> (r: Option<OrderRoutingDecision>)
        requires
            old(self).inv(),
        ensures
            final(self).inv(),
            r == old(self)@.in_turn(),
            final(self)@ == old(self)@.after_turn(),
    {
        if self.active_count == 0 {
            proof {
                lemma_turn_needs_healthy(self.venue_statuses@, self.rr_index as int, 0);
            }
            return None;
        }
        let start: usize = self.rr_index;
        let mut checked: usize = 0;
        while checked < MAX_VENUES
            invariant
                checked <= MAX_VENUES,
                start < MAX_VENUES,
                start == self.rr_index,
                self.inv(),
                *self == *old(self),
                self.venue_statuses@.len() == 32,
                next_in_turn(self.venue_statuses@, start as int, 0) == next_in_turn(
                    self.venue_statuses@,
                    start as int,
                    checked as nat,
                ),
            decreases MAX_VENUES - checked,
        {
            let idx: usize = (start + checked) % MAX_VENUES;
            let status = self.venue_statuses[idx];
            if status.is_healthy() {
                self.rr_index = (idx + 1) % MAX_VENUES;
                self.routing_decisions = self.routing_decisions.wrapping_add(1);
                return Some(status.to_decision());
            }
            checked = checked + 1;
        }
        None
    }

    /// Get failover venue when primary fails
    ///
    /// Under the strict policy there is none; in turn, the next venue; otherwise the best one that
    /// did not fail.
    pub fn get_failover_venue(&mut self, failed_venue_id: u32) -> (r: Option<OrderRoutingDecision>)
        requires
            old(self).inv(),
        ensures
            final(self).inv(),
            r == old(self)@.failover(failed_venue_id),
            final(self)@ == old(self)@.after_failover(),
    {
        self.failover_count = self.failover_count.wrapping_add(1);
        match self.failover_policy {
            FailoverPolicy::StrictPrimary => None,
            FailoverPolicy::RoundRobin => match self.select_round_robin() {
                Some(d) => Some(d.as_failover()),
                None => None,
            },
            _ => match self.find_best(Some(failed_venue_id)) {
                Some(i) => Some(self.venue_statuses[i].to_decision().as_failover()),
                None => None,
            },
        }
    }

    /// Get all healthy venues
    pub fn get_healthy_venues(&self) -> (r: Vec<VenueStatus>)
        ensures
            r@ == healthy_venues(self@.statuses, MAX_VENUES as nat),
    {
        let mut out: Vec<VenueStatus> = Vec::new();
        let mut i: usize = 0;
        while i < MAX_VENUES
            invariant
                i <= MAX_VENUES,
                self.venue_statuses@.len() == 32,
                out@ == healthy_venues(self.venue_statuses@, i as nat),
            decreases MAX_VENUES - i,
        {
            let status = self.venue_statuses[i];
            if status.is_healthy() {
                out.push(status);
            }
            i = i + 1;
        }
        out
    }

    /// Get routing statistics
    pub fn get_stats(&self) -> (s: LoadBalancerStats)
        ensures
            s == (LoadBalancerStats {
                active_venues: self.active_count,
                routing_decisions: self.routing_decisions,
                failover_count: self.failover_count,
                primary_venue_id: #[verifier::truncate] (self.primary_venue_id as u32),
            }),
    {
        LoadBalancerStats {
            active_venues: self.active_count,
            routing_decisions: self.routing_decisions,
            failover_count: self.failover_count,
            primary_venue_id: #[verifier::truncate] (self.primary_venue_id as u32),
        }
    }

    /// Update active venue count
    fn update_active_count(&mut self)
        requires
            old(self)@.numbered(),
            old(self).rr_index < MAX_VENUES,
        ensures
            final(self).inv(),
            final(self)@ == old(self)@,
    {
        let mut count: usize = 0;
        let mut i: usize = 0;
        while i < MAX_VENUES
            invariant
                i <= MAX_VENUES,
                self.venue_statuses@.len() == 32,
                *self == *old(self),
                count <= i,
                count == healthy_count(self.venue_statuses@, i as nat),
            decreases MAX_VENUES - i,
        {
            if self.venue_statuses[i].is_healthy() {
                count = count + 1;
            }
            i = i + 1;
        }
        self.active_count = count;
    }
}

/// True where the venue whose turn is at `p`, counted through the turns, can take orders.
#[verifier::opaque]
spec fn able(statuses: Seq<VenueStatus>, p: int) -> bool {
    statuses[p % 32].healthy()
}

proof fn lemma_same_venue(statuses: Seq<VenueStatus>, p: int, q: int)
    requires
        p % 32 == q % 32,
    ensures
        able(statuses, p) == able(statuses, q),
{
    reveal(able);
}

/// How many turns after the one at `start` the next venue that can take orders stands, from
/// `checked` on.
spec fn wait_for(statuses: Seq<VenueStatus>, start: int, checked: nat) -> nat
    decreases MAX_VENUES - checked,
{
    if checked >= MAX_VENUES || able(statuses, start + checked) {
        checked
    } else {
        wait_for(statuses, start, checked + 1)
    }
}

proof fn lemma_wait(statuses: Seq<VenueStatus>, start: int, at: int, checked: nat)
    requires
        checked <= MAX_VENUES,
        at == start % 32,
    ensures
        checked <= wait_for(statuses, start, checked) <= MAX_VENUES,
        forall|p: int|
            start + checked <= p < start + wait_for(statuses, start, checked) ==> !#[trigger] able(
                statuses,
                p,
            ),
        wait_for(statuses, start, checked) < MAX_VENUES ==> able(
            statuses,
            start + wait_for(statuses, start, checked),
        ),
        next_in_turn(statuses, at, checked) == if wait_for(statuses, start, checked) < MAX_VENUES {
            Some((start + wait_for(statuses, start, checked)) % 32)
        } else {
            None
        },
    decreases MAX_VENUES - checked,
{
    reveal(able);
    if checked < MAX_VENUES {
        assert((at + checked) % 32 == (start + checked) % 32);
        if !able(statuses, start + checked) {
            lemma_wait(statuses, start, at, checked + 1);
        }
    }
}

/// How many of the `n` turns from `start` on are those of a venue that can take orders.
spec fn able_from(statuses: Seq<VenueStatus>, start: int, n: nat) -> nat
    decreases n,
{
    if n == 0 {
        0
    } else {
        able_from(statuses, start, (n - 1) as nat) + if able(statuses, start + n - 1) {
            1nat
        } else {
            0nat
        }
    }
}

proof fn lemma_able_from(statuses: Seq<VenueStatus>, start: int, m: nat, n: nat)
    requires
        m <= n,
    ensures
        able_from(statuses, start, m) <= able_from(statuses, start, n),
        (forall|p: int| start + m <= p < start + n ==> !#[trigger] able(statuses, p)) ==> able_from(
            statuses,
            start,
            m,
        ) == able_from(statuses, start, n),
    decreases n,
{
    if m < n {
        lemma_able_from(statuses, start, m, (n - 1) as nat);
    }
}

/// A turn of a venue that can take orders counts.
proof fn lemma_able_counts(statuses: Seq<VenueStatus>, start: int, m: nat, n: nat, p: int)
    requires
        start + m <= p < start + n,
        able(statuses, p),
    ensures
        able_from(statuses, start, m) < able_from(statuses, start, n),
{
    lemma_able_from(statuses, start, m, (p - start) as nat);
    lemma_able_from(statuses, start, (p - start + 1) as nat, n);
}

/// Counted from any turn, a whole round holds the same venues.
proof fn lemma_whole_round(statuses: Seq<VenueStatus>, start: int)
    requires
        0 <= start,
    ensures
        able_from(statuses, start, 32) == healthy_count(statuses, 32),
    decreases start,
{
    if start == 0 {
        lemma_first_round(statuses, 32);
    } else {
        lemma_whole_round(statuses, start - 1);
        lemma_shift(statuses, start - 1, 32);
        lemma_same_venue(statuses, start - 1, start - 1 + 32);
    }
}

proof fn lemma_first_round(statuses: Seq<VenueStatus>, n: nat)
    requires
        n <= 32,
    ensures
        able_from(statuses, 0, n) == healthy_count(statuses, n),
    decreases n,
{
    if n > 0 {
        reveal(able);
        lemma_first_round(statuses, (n - 1) as nat);
    }
}

proof fn lemma_shift(statuses: Seq<VenueStatus>, start: int, n: nat)
    ensures
        able_from(statuses, start + 1, n) + if able(statuses, start) {
            1nat
        } else {
            0nat
        } == able_from(statuses, start, n) + if able(statuses, start + n) {
            1nat
        } else {
            0nat
        },
    decreases n,
{
    if n > 0 {
        lemma_shift(statuses, start, (n - 1) as nat);
    }
}

/// The turn, counted through the rounds, after `n` routes were handed out.
spec fn turn(lb: BalancerView, n: nat) -> int
    decreases n,
{
    if n == 0 {
        lb.rr_index as int
    } else {
        let before = turn(lb, (n - 1) as nat);
        before + wait_for(lb.statuses, before, 0) + 1
    }
}

proof fn lemma_turn_grows(lb: BalancerView, i: nat, j: nat)
    requires
        i <= j,
    ensures
        turn(lb, i) + (j - i) <= turn(lb, j),
    decreases j,
{
    if i < j {
        lemma_turn_grows(lb, i, (j - 1) as nat);
    }
}

/// Where some venue can take orders, its turn comes within a round.
proof fn lemma_wait_ends(statuses: Seq<VenueStatus>, start: int)
    requires
        0 <= start,
        healthy_count(statuses, 32) > 0,
    ensures
        wait_for(statuses, start, 0) < 32,
        able(statuses, start + wait_for(statuses, start, 0)),
        next_in_turn(statuses, start % 32, 0) == Some(
            (start + wait_for(statuses, start, 0)) % 32,
        ),
{
    lemma_wait(statuses, start, start % 32, 0);
    lemma_whole_round(statuses, start);
    lemma_able_from(statuses, start, 0, 32);
}

/// One turn hands out the next route and leaves the statuses as they are.
proof fn lemma_one_turn(lb: BalancerView, at: int)
    requires
        0 <= at,
        lb.rr_index == at % 32,
        healthy_count(lb.statuses, 32) > 0,
    ensures
        lb.after_turn().statuses == lb.statuses,
        lb.after_turn().rr_index == (at + wait_for(lb.statuses, at, 0) + 1) % 32,
        lb.after_turn().routing_decisions == lb.routing_decisions.wrapping_add(1),
        lb.after_turn().primary_venue_id == lb.primary_venue_id,
{
    lemma_wait_ends(lb.statuses, at);
    let next = at + wait_for(lb.statuses, at, 0);
    assert((next % 32 + 1) % 32 == (next + 1) % 32);
}

/// Where some venue can take orders, each turn hands out a route and leaves the statuses as they
/// are.
proof fn lemma_turns_stay(lb: BalancerView, n: nat)
    requires
        n <= u64::MAX,
        lb.rr_index < MAX_VENUES,
        healthy_count(lb.statuses, 32) > 0,
    ensures
        lb.after_turns(n).statuses == lb.statuses,
        lb.after_turns(n).rr_index == turn(lb, n) % 32,
        lb.after_turns(n).routing_decisions == lb.routing_decisions.wrapping_add(n as u64),
    decreases n,
{
    if n > 0 {
        let m = (n - 1) as nat;
        lemma_turns_stay(lb, m);
        lemma_turn_grows(lb, 0, m);
        lemma_one_turn(lb.after_turns(m), turn(lb, m));
    }
}

/// The route that is handed out after `n` others.
proof fn lemma_choice(lb: BalancerView, n: nat)
    requires
        n <= u64::MAX,
        lb.rr_index < MAX_VENUES,
        healthy_count(lb.statuses, 32) > 0,
    ensures
        able(lb.statuses, turn(lb, n + 1) - 1),
        lb.choice(n) == Some((turn(lb, n + 1) - 1) % 32),
        turn(lb, n) < turn(lb, n + 1) <= turn(lb, n) + 32,
{
    lemma_turns_stay(lb, n);
    lemma_turn_grows(lb, 0, n);
    lemma_wait_ends(lb.statuses, turn(lb, n));
}

/// Within a round, `n` routes are handed out once `n` venues that can take orders had their turn.
proof fn lemma_round(lb: BalancerView, n: nat)
    requires
        lb.statuses.len() == MAX_VENUES,
        lb.rr_index < MAX_VENUES,
        n <= healthy_count(lb.statuses, MAX_VENUES as nat),
        healthy_count(lb.statuses, MAX_VENUES as nat) > 0,
    ensures
        lb.rr_index <= turn(lb, n) <= lb.rr_index + 32,
        able_from(lb.statuses, lb.rr_index as int, (turn(lb, n) - lb.rr_index) as nat) == n,
    decreases n,
{
    if n > 0 {
        let start = lb.rr_index as int;
        let m = (n - 1) as nat;
        lemma_round(lb, m);
        let before = turn(lb, m);
        let next = before + wait_for(lb.statuses, before, 0);
        lemma_wait(lb.statuses, before, before % 32, 0);
        lemma_whole_round(lb.statuses, start);
        if next >= start + 32 {
            lemma_able_from(lb.statuses, start, (before - start) as nat, 32);
            assert(false);
        }
        lemma_able_from(lb.statuses, start, (before - start) as nat, (next - start) as nat);
    }
}

/// A venue that can take orders has its turn within the round.
proof fn lemma_visited(lb: BalancerView, p: int) -> (n: nat)
    requires
        lb.statuses.len() == MAX_VENUES,
        lb.rr_index < MAX_VENUES,
        lb.rr_index <= p < lb.rr_index + 32,
        able(lb.statuses, p),
    ensures
        n < healthy_count(lb.statuses, MAX_VENUES as nat),
        turn(lb, n + 1) - 1 == p,
{
    let start = lb.rr_index as int;
    let n = able_from(lb.statuses, start, (p - start) as nat);
    lemma_whole_round(lb.statuses, start);
    lemma_able_counts(lb.statuses, start, (p - start) as nat, 32, p);
    lemma_round(lb, n);
    lemma_round(lb, n + 1);
    let before = turn(lb, n);
    lemma_wait(lb.statuses, before, before % 32, 0);
    if before > p {
        lemma_able_counts(lb.statuses, start, (p - start) as nat, (before - start) as nat, p);
    }
    if turn(lb, n + 1) - 1 < p {
        lemma_able_from(lb.statuses, start, (turn(lb, n + 1) - start) as nat, (p - start) as nat);
    }
    n
}

/// The round over, the first venue comes again.
proof fn lemma_next_round(lb: BalancerView, k: nat)
    requires
        lb.statuses.len() == MAX_VENUES,
        lb.rr_index < MAX_VENUES,
        k == healthy_count(lb.statuses, MAX_VENUES as nat),
        k > 0,
    ensures
        turn(lb, k + 1) == turn(lb, 1) + 32,
{
    let start = lb.rr_index as int;
    let first = turn(lb, 1) - 1;
    let done = turn(lb, k);
    lemma_round(lb, 1);
    lemma_round(lb, k);
    lemma_turn_grows(lb, 1, k);
    lemma_wait_ends(lb.statuses, start);
    lemma_wait_ends(lb.statuses, done);
    lemma_wait(lb.statuses, start, start % 32, 0);
    lemma_wait(lb.statuses, done, done % 32, 0);
    lemma_whole_round(lb.statuses, start);
    lemma_same_venue(lb.statuses, first, first + 32);
    let next = turn(lb, k + 1) - 1;
    assert(turn(lb, 1) == turn(lb, 0) + wait_for(lb.statuses, turn(lb, 0), 0) + 1);
    if next < start + 32 {
        lemma_able_counts(lb.statuses, start, (done - start) as nat, 32, next);
    } else if next < first + 32 {
        lemma_same_venue(lb.statuses, next, next - 32);
    }
}

/// Successive routes in turn go to every venue that can take orders, to each once and in the order
/// of their places, before the first comes again; each is counted.
pub proof fn law_turns_visit_every_healthy_venue_once(lb: BalancerView, k: nat)
    requires
        lb.statuses.len() == MAX_VENUES,
        lb.rr_index < MAX_VENUES,
        lb.numbered(),
        k == healthy_count(lb.statuses, MAX_VENUES as nat),
        k > 0,
    ensures
        forall|n: nat|
            n <= k ==> {
                &&& (#[trigger] lb.choice(n)) is Some
                &&& 0 <= lb.choice(n)->0 < MAX_VENUES
                &&& lb.statuses[lb.choice(n)->0].healthy()
                &&& lb.after_turns(n).in_turn() == Some(lb.statuses[lb.choice(n)->0].decision())
                &&& lb.after_turns(n).in_turn()->0.venue_id == lb.choice(n)->0
            },
        forall|i: nat, j: nat|
            i < j < k ==> ((#[trigger] lb.choice(i))->0 - lb.rr_index) % 32 < ((#[trigger] lb.choice(
                j,
            ))->0 - lb.rr_index) % 32,
        forall|h: int|
            0 <= h < MAX_VENUES && (#[trigger] lb.statuses[h]).healthy() ==> exists|n: nat|
                n < k && #[trigger] lb.choice(n) == Some(h),
        lb.choice(k) == lb.choice(0),
        forall|n: nat|
            n <= u64::MAX ==> (#[trigger] lb.after_turns(n)).statuses == lb.statuses
                && lb.after_turns(n).routing_decisions == lb.routing_decisions.wrapping_add(n as u64),
{
    lemma_count_bound(lb.statuses, 32);
    assert forall|n: nat| n <= u64::MAX implies (#[trigger] lb.after_turns(n)).statuses
        == lb.statuses && lb.after_turns(n).routing_decisions == lb.routing_decisions.wrapping_add(
        n as u64,
    ) by {
        lemma_turns_stay(lb, n);
    }
    assert forall|n: nat| n <= k implies {
        &&& (#[trigger] lb.choice(n)) is Some
        &&& 0 <= lb.choice(n)->0 < MAX_VENUES
        &&& lb.statuses[lb.choice(n)->0].healthy()
        &&& lb.after_turns(n).in_turn() == Some(lb.statuses[lb.choice(n)->0].decision())
        &&& lb.after_turns(n).in_turn()->0.venue_id == lb.choice(n)->0
    } by {
        lemma_handed_out(lb, n);
    }
    assert forall|i: nat, j: nat| i < j < k implies ((#[trigger] lb.choice(i))->0 - lb.rr_index)
        % 32 < ((#[trigger] lb.choice(j))->0 - lb.rr_index) % 32 by {
        lemma_in_order(lb, i, j);
    }
    assert forall|h: int| 0 <= h < MAX_VENUES && (#[trigger] lb.statuses[h]).healthy() implies exists|
        n: nat,
    | n < k && #[trigger] lb.choice(n) == Some(h) by {
        let n = lemma_reached(lb, h);
        assert(lb.choice(n) == Some(h));
    }
    lemma_comes_again(lb, k);
}

proof fn lemma_handed_out(lb: BalancerView, n: nat)
    requires
        n <= u64::MAX,
        lb.statuses.len() == MAX_VENUES,
        lb.rr_index < MAX_VENUES,
        lb.numbered(),
        healthy_count(lb.statuses, 32) > 0,
    ensures
        lb.choice(n) is Some,
        0 <= lb.choice(n)->0 < MAX_VENUES,
        lb.statuses[lb.choice(n)->0].healthy(),
        lb.after_turns(n).in_turn() == Some(lb.statuses[lb.choice(n)->0].decision()),
        lb.after_turns(n).in_turn()->0.venue_id == lb.choice(n)->0,
{
    lemma_turns_stay(lb, n);
    lemma_choice(lb, n);
    reveal(able);
}

proof fn lemma_in_order(lb: BalancerView, i: nat, j: nat)
    requires
        lb.statuses.len() == MAX_VENUES,
        lb.rr_index < MAX_VENUES,
        i < j < healthy_count(lb.statuses, 32) <= 32,
    ensures
        (lb.choice(i)->0 - lb.rr_index) % 32 < (lb.choice(j)->0 - lb.rr_index) % 32,
{
    let start = lb.rr_index as int;
    lemma_choice(lb, i);
    lemma_choice(lb, j);
    lemma_round(lb, j + 1);
    lemma_turn_grows(lb, 0, i);
    lemma_turn_grows(lb, i + 1, j + 1);
    lemma_offset(start, turn(lb, i + 1) - 1);
    lemma_offset(start, turn(lb, j + 1) - 1);
}

proof fn lemma_reached(lb: BalancerView, h: int) -> (n: nat)
    requires
        lb.statuses.len() == MAX_VENUES,
        lb.rr_index < MAX_VENUES,
        0 <= h < MAX_VENUES,
        lb.statuses[h].healthy(),
        0 < healthy_count(lb.statuses, 32) <= 32,
    ensures
        n < healthy_count(lb.statuses, 32),
        lb.choice(n) == Some(h),
{
    let p = if h < lb.rr_index {
        h + 32
    } else {
        h
    };
    assert(able(lb.statuses, p)) by {
        reveal(able);
    }
    let n = lemma_visited(lb, p);
    lemma_choice(lb, n);
    n
}

proof fn lemma_comes_again(lb: BalancerView, k: nat)
    requires
        lb.statuses.len() == MAX_VENUES,
        lb.rr_index < MAX_VENUES,
        k == healthy_count(lb.statuses, MAX_VENUES as nat),
        0 < k <= 32,
    ensures
        lb.choice(k) == lb.choice(0),
{
    lemma_next_round(lb, k);
    lemma_choice(lb, 0);
    lemma_choice(lb, k);
}

proof fn lemma_offset(start: int, p: int)
    requires
        0 <= start < 32,
        start <= p < start + 32,
    ensures
        (p % 32 - start) % 32 == p - start,
{
}

proof fn lemma_count_bound(statuses: Seq<VenueStatus>, n: nat)
    ensures
        healthy_count(statuses, n) <= n,
    decreases n,
{
    if n > 0 {
        lemma_count_bound(statuses, (n - 1) as nat);
    }
}

/// A best venue is one that can take orders.
proof fn lemma_best_needs_healthy(statuses: Seq<VenueStatus>, without: Option<u32>, k: nat)
    ensures
        healthy_count(statuses, k) == 0 ==> best_venue(statuses, without, k) is None,
    decreases k,
{
    if k > 0 {
        lemma_best_needs_healthy(statuses, without, (k - 1) as nat);
    }
}

/// Where no venue can take orders, none is next in turn.
proof fn lemma_turn_needs_healthy(statuses: Seq<VenueStatus>, start: int, checked: nat)
    requires
        healthy_count(statuses, MAX_VENUES as nat) == 0,
        0 <= start,
    ensures
        next_in_turn(statuses, start, checked) is None,
    decreases MAX_VENUES - checked,
{
    if checked < MAX_VENUES {
        lemma_none_healthy(statuses, MAX_VENUES as nat, (start + checked) % 32);
        lemma_turn_needs_healthy(statuses, start, checked + 1);
    }
}

proof fn lemma_none_healthy(statuses: Seq<VenueStatus>, k: nat, i: int)
    requires
        healthy_count(statuses, k) == 0,
        0 <= i < k,
    ensures
        !statuses[i].healthy(),
    decreases k,
{
    if i < k - 1 {
        lemma_none_healthy(statuses, (k - 1) as nat, i);
    }
}

/// The best route goes to a venue that can take orders, with the highest score of all; there is one
/// exactly where some venue can take orders.
pub proof fn law_best_route_has_the_highest_score(statuses: Seq<VenueStatus>, i: int)
    requires
        statuses.len() == MAX_VENUES,
        0 <= i < MAX_VENUES,
        statuses[i].healthy(),
    ensures
        match best_venue(statuses, None, MAX_VENUES as nat) {
            Some(b) => b < MAX_VENUES && statuses[b as int].healthy() && statuses[b as int].score()
                >= statuses[i].score(),
            None => false,
        },
{
    lemma_best(statuses, None, MAX_VENUES as nat);
}

proof fn lemma_best(statuses: Seq<VenueStatus>, without: Option<u32>, k: nat)
    requires
        k <= statuses.len(),
    ensures
        match best_venue(statuses, without, k) {
            Some(b) => b < k && statuses[b as int].healthy() && without != Some(
                statuses[b as int].venue_id,
            ) && forall|j: int|
                0 <= j < k && (#[trigger] statuses[j]).healthy() && without != Some(
                    statuses[j].venue_id,
                ) ==> statuses[j].score() <= statuses[b as int].score(),
            None => forall|j: int|
                0 <= j < k ==> !(#[trigger] statuses[j]).healthy() || without == Some(
                    statuses[j].venue_id,
                ),
        },
    decreases k,
{
    if k > 0 {
        lemma_best(statuses, without, (k - 1) as nat);
    }
}

/// A failover route never goes to the venue that failed, unless venues take turns.
pub proof fn law_failover_avoids_the_failed_venue(lb: BalancerView, failed_venue_id: u32)
    requires
        lb.statuses.len() == MAX_VENUES,
        lb.failover_policy != FailoverPolicy::RoundRobin,
    ensures
        match lb.failover(failed_venue_id) {
            Some(d) => d.venue_id != failed_venue_id && d.is_failover,
            None => true,
        },
{
    lemma_best(lb.statuses, Some(failed_venue_id), MAX_VENUES as nat);
}

/// An order that failed at a venue is not tried there next, unless venues take turns.
pub proof fn law_retry_avoids_the_failed_venue(m: GatewayView, route: FailoverRoute)
    requires
        m.load_balancer.statuses.len() == MAX_VENUES,
        m.load_balancer.failover_policy != FailoverPolicy::RoundRobin,
    ensures
        match (m.attempt(route), route.failed_venue) {
            (Ok(venue_id), Some(failed)) => venue_id != failed,
            _ => true,
        },
{
    match route.failed_venue {
        Some(failed) => law_failover_avoids_the_failed_venue(m.load_balancer, failed),
        None => {},
    }
}

/// How an attempt to connect a venue ended.
#[derive(Debug, Clone, Copy, PartialEq, Eq, Structural)]
pub struct ConnectOutcome {
    /// Why it failed, if it did
    pub error: Option<VenueError>,
    pub timestamp_ns: u64,
}

/// What is to be done after an attempt to route an order.
#[derive(Debug, Clone, Copy, PartialEq, Eq, Structural)]
pub enum RouteStep {
    /// The order was taken, and the event is to be published
    Done(OrderResponse, GatewayEvent),
    /// Another venue is to be tried
    Retry,
    /// The order failed
    Failed(VenueError),
}

/// Attempts to route an order.
#[derive(Debug, Clone, Copy, PartialEq, Eq, Structural)]
pub struct FailoverRoute {
    pub attempt_count: u32,
    pub last_error: Option<VenueError>,
    /// Venue that failed last
    pub failed_venue: Option<u32>,
}

/// Aggregated liquidity across venues
#[derive(Debug, Clone, Copy, PartialEq, Eq, Structural)]
pub struct AggregatedLiquidity {
    pub best_bid: u64,
    pub best_ask: u64,
    pub total_bid_size: u64,
    pub total_ask_size: u64,
    pub spread: u64,
    pub mid_price: u64,
    pub venue_count: u32,
    pub timestamp_ns: u64,
}

/// Gateway manager statistics
#[derive(Debug, Clone, Copy, PartialEq, Eq, Structural)]
pub struct GatewayManagerStats {
    pub venues_registered: usize,
    pub orders_routed: u64,
    pub fills_received: u64,
    pub error_count: u64,
    pub is_running: bool,
    pub lb_stats: LoadBalancerStats,
    pub pool_stats: ConnectionPoolStats,
}

/// The status of a venue that was just connected.
pub open spec fn connected_status(venue_id: u32, timestamp_ns: u64) -> VenueStatus {
    VenueStatus {
        is_connected: true,
        health_score: 100,
        last_update_ns: timestamp_ns,
        ..unknown_status(venue_id)
    }
}

/// The status of a venue that was just disconnected.
pub open spec fn disconnected_status(venue_id: u32, timestamp_ns: u64) -> VenueStatus {
    VenueStatus { last_update_ns: timestamp_ns, ..unknown_status(venue_id) }
}

/// The balancer after the first `k` venues were asked to connect.
pub open spec fn after_connects(
    lb: BalancerView,
    venues: Seq<u32>,
    outcomes: Seq<ConnectOutcome>,
    k: nat,
) -> BalancerView
    decreases k,
{
    if k == 0 {
        lb
    } else {
        let before = after_connects(lb, venues, outcomes, (k - 1) as nat);
        match outcomes[k - 1].error {
            None => before.with_status(
                connected_status(venues[k - 1], outcomes[k - 1].timestamp_ns),
            ),
            Some(_) => before,
        }
    }
}

/// The event of an attempt to connect.
pub open spec fn connect_event(venue_id: u32, outcome: ConnectOutcome) -> GatewayEvent {
    match outcome.error {
        None => GatewayEvent::VenueConnected { venue_id, timestamp_ns: outcome.timestamp_ns },
        Some(e) => GatewayEvent::Error { venue_id, error_code: e.code() },
    }
}

/// How many of the first `k` attempts to connect failed.
pub open spec fn failures(outcomes: Seq<ConnectOutcome>, k: nat) -> nat
    decreases k,
{
    if k == 0 {
        0
    } else {
        failures(outcomes, (k - 1) as nat) + if outcomes[k - 1].error is Some {
            1nat
        } else {
            0nat
        }
    }
}

/// The balancer after the first `k` venues were disconnected.
pub open spec fn after_disconnects(
    lb: BalancerView,
    venues: Seq<u32>,
    times: Seq<u64>,
    k: nat,
) -> BalancerView
    decreases k,
{
    if k == 0 {
        lb
    } else {
        after_disconnects(lb, venues, times, (k - 1) as nat).with_status(
            disconnected_status(venues[k - 1], times[k - 1]),
        )
    }
}

/// The size of the bids of the first `k` venues with valid quotes.
pub open spec fn bid_total(infos: Seq<LiquidityInfo>, k: nat) -> nat
    decreases k,
{
    if k == 0 {
        0
    } else {
        bid_total(infos, (k - 1) as nat) + if infos[k - 1].valid() {
            infos[k - 1].bid_size as nat
        } else {
            0
        }
    }
}

/// The size of the asks of the first `k` venues with valid quotes.
pub open spec fn ask_total(infos: Seq<LiquidityInfo>, k: nat) -> nat
    decreases k,
{
    if k == 0 {
        0
    } else {
        ask_total(infos, (k - 1) as nat) + if infos[k - 1].valid() {
            infos[k - 1].ask_size as nat
        } else {
            0
        }
    }
}

/// The highest bid of the first `k` venues with valid quotes; zero where there is none.
pub open spec fn top_bid(infos: Seq<LiquidityInfo>, k: nat) -> u64
    decreases k,
{
    if k == 0 {
        0
    } else {
        let before = top_bid(infos, (k - 1) as nat);
        if infos[k - 1].valid() && infos[k - 1].best_bid > before {
            infos[k - 1].best_bid
        } else {
            before
        }
    }
}

/// The lowest ask of the first `k` venues with valid quotes; the largest number where there is none.
pub open spec fn low_ask(infos: Seq<LiquidityInfo>, k: nat) -> u64
    decreases k,
{
    if k == 0 {
        u64::MAX
    } else {
        let before = low_ask(infos, (k - 1) as nat);
        if infos[k - 1].valid() && infos[k - 1].best_ask < before {
            infos[k - 1].best_ask
        } else {
            before
        }
    }
}

/// How many of the first `k` venues have valid quotes.
pub open spec fn quoting(infos: Seq<LiquidityInfo>, k: nat) -> nat
    decreases k,
{
    if k == 0 {
        0
    } else {
        quoting(infos, (k - 1) as nat) + if infos[k - 1].valid() {
            1nat
        } else {
            0nat
        }
    }
}

/// The liquidity of all venues together.
pub open spec fn aggregated(infos: Seq<LiquidityInfo>, now_ns: u64) -> AggregatedLiquidity {
    let n = infos.len();
    let bid = top_bid(infos, n);
    let ask = low_ask(infos, n);
    AggregatedLiquidity {
        best_bid: bid,
        best_ask: ask,
        total_bid_size: bid_total(infos, n) as u64,
        total_ask_size: ask_total(infos, n) as u64,
        spread: if ask > bid {
            (ask - bid) as u64
        } else {
            0
        },
        mid_price: if bid > 0 && ask < u64::MAX {
            ((bid + ask) / 2) as u64
        } else {
            0
        },
        venue_count: quoting(infos, n) as u32,
        timestamp_ns: now_ns,
    }
}

/// Gateway lifecycle manager
#[derive(Debug)]
pub struct GatewayManager {
    /// Connection pool
    pub connection_pool: ConnectionPool,
    /// Load balancer
    pub load_balancer: LoadBalancer,
    /// IDs of the registered venues
    pub venues: Vec<u32>,
    /// Manager is running
    pub is_running: bool,
    /// Total orders routed
    pub orders_routed: u64,
    /// Total fills received
    pub fills_received: u64,
    /// Error count
    pub error_count: u64,
}

/// What a gateway manager is, with its venues as a sequence.
#[verifier::ext_equal]
pub struct GatewayView {
    pub connection_pool: ConnectionPool,
    pub load_balancer: BalancerView,
    pub venues: Seq<u32>,
    pub is_running: bool,
    pub orders_routed: u64,
    pub fills_received: u64,
    pub error_count: u64,
}

impl View for GatewayManager {
    type V = GatewayView;

    open spec fn view(&self) -> GatewayView {
        GatewayView {
            connection_pool: self.connection_pool,
            load_balancer: self.load_balancer@,
            venues: self.venues@,
            is_running: self.is_running,
            orders_routed: self.orders_routed,
            fills_received: self.fills_received,
            error_count: self.error_count,
        }
    }
}

impl GatewayView {
    /// The venue that an attempt to route an order goes to, or why there is none. The first attempt
    /// goes to the best venue, the others by the failover policy for the venue that failed.
    pub open spec fn attempt(self, route: FailoverRoute) -> Result<u32, VenueError> {
        let decision = match route.failed_venue {
            None => self.load_balancer.best(),
            Some(venue_id) => self.load_balancer.failover(venue_id),
        };
        match decision {
            None => Err(
                match route.last_error {
                    Some(e) => e,
                    None => VenueError::NotConnected,
                },
            ),
            Some(d) => if self.venues.contains(d.venue_id) {
                Ok(d.venue_id)
            } else {
                Err(VenueError::NotConnected)
            },
        }
    }

    /// The state after an attempt was asked for.
    pub open spec fn after_attempt(self, route: FailoverRoute) -> GatewayView {
        GatewayView {
            load_balancer: match route.failed_venue {
                None => self.load_balancer.after_best(),
                Some(_) => self.load_balancer.after_failover(),
            },
            ..self
        }
    }
}

impl GatewayManager {
    pub open spec fn inv(&self) -> bool {
        &&& self.load_balancer.inv()
        &&& self.venues@.len() <= MAX_VENUES
    }

    pub fn new(max_connections_per_venue: usize, failover_policy: FailoverPolicy) -> (m: Self)
        ensures
            m.inv(),
            m@.connection_pool == (ConnectionPool {
                max_connections_per_venue,
                active_connections: 0,
                is_running: true,
                connection_errors: 0,
                reconnection_attempts: 0,
            }),
            m@.load_balancer.failover_policy == failover_policy,
            m@.load_balancer.statuses == Seq::new(32, |i: int| unknown_status(0)),
            m@.load_balancer.primary_venue_id == u64::MAX,
            m@.load_balancer.rr_index == 0,
            m@.load_balancer.routing_decisions == 0,
            m@.load_balancer.failover_count == 0,
            m@.venues.len() == 0,
            !m@.is_running,
            m@.orders_routed == 0,
            m@.fills_received == 0,
            m@.error_count == 0,
    {
        Self {
            connection_pool: ConnectionPool::new(max_connections_per_venue),
            load_balancer: LoadBalancer::new(failover_policy),
            venues: Vec::new(),
            is_running: false,
            orders_routed: 0,
            fills_received: 0,
            error_count: 0,
        }
    }

    /// Register a venue by its ID
    pub fn register_venue(&mut self, venue_id: u32) -> (r: Result<(), VenueError>)
        requires
            old(self).inv(),
        ensures
            final(self).inv(),
            if old(self)@.venues.len() >= MAX_VENUES {
                r == Err::<(), VenueError>(VenueError::InternalError) && final(self)@ == old(self)@
            } else {
                &&& r is Ok
                &&& final(self)@ == (GatewayView {
                    venues: old(self)@.venues.push(venue_id),
                    load_balancer: old(self)@.load_balancer.with_status(unknown_status(venue_id)),
                    ..old(self)@
                })
            },
    {
        if self.venues.len() >= MAX_VENUES {
            return Err(VenueError::InternalError);
        }
        self.load_balancer.update_venue_status(VenueStatus::new(venue_id));
        self.venues.push(venue_id);
        Ok(())
    }

    /// Connect to all registered venues
    ///
    /// `outcomes` says how the attempt ended for each venue, in the order of registration; the
    /// events are to be published.
    pub fn connect_all(&mut self, outcomes: &Vec<ConnectOutcome>) -> (r: Result<
        Vec<GatewayEvent>,
        VenueError,
    >)
        requires
            old(self).inv(),
            old(self)@.connection_pool.is_running ==> outcomes@.len() == old(self)@.venues.len(),
        ensures
            final(self).inv(),
            if !old(self)@.connection_pool.is_running {
                r == Err::<Vec<GatewayEvent>, VenueError>(VenueError::NotConnected) && final(self)@ == old(self)@
            } else {
                let venues = old(self)@.venues;
                &&& r is Ok
                &&& r->Ok_0@ == Seq::new(
                    venues.len(),
                    |i: int| connect_event(venues[i], outcomes@[i]),
                )
                &&& final(self)@ == (GatewayView {
                    load_balancer: after_connects(
                        old(self)@.load_balancer,
                        venues,
                        outcomes@,
                        venues.len(),
                    ),
                    error_count: old(self)@.error_count.wrapping_add(
                        failures(outcomes@, venues.len()) as u64,
                    ),
                    ..old(self)@
                })
            },
    {
        if !self.connection_pool.is_running() {
            return Err(VenueError::NotConnected);
        }
        let mut events: Vec<GatewayEvent> = Vec::new();
        let ghost venues = self.venues@;
        let mut failed: u64 = 0;
        let mut i: usize = 0;
        while i < self.venues.len()
            invariant
                self.inv(),
                i <= self.venues@.len(),
                venues == self.venues@,
                venues.len() <= 32,
                outcomes@.len() == venues.len(),
                events@.len() == i,
                forall|j: int|
                    0 <= j < i ==> #[trigger] events@[j] == connect_event(
                        venues[j],
                        outcomes@[j],
                    ),
                failed == failures(outcomes@, i as nat),
                failed <= i,
                self@ == (GatewayView {
                    load_balancer: after_connects(
                        old(self)@.load_balancer,
                        venues,
                        outcomes@,
                        i as nat,
                    ),
                    ..old(self)@
                }),
            decreases self.venues.len() - i,
        {
            let venue_id: u32 = self.venues[i];
            let outcome = outcomes[i];
            match outcome.error {
                None => {
                    let mut status = VenueStatus::new(venue_id);
                    status.is_connected = true;
                    status.health_score = 100;
                    status.last_update_ns = outcome.timestamp_ns;
                    self.load_balancer.update_venue_status(status);
                    events.push(
                        GatewayEvent::VenueConnected {
                            venue_id,
                            timestamp_ns: outcome.timestamp_ns,
                        },
                    );
                },
                Some(e) => {
                    failed = failed + 1;
                    events.push(GatewayEvent::Error { venue_id, error_code: e.error_code() });
                },
            }
            i = i + 1;
        }
        self.error_count = self.error_count.wrapping_add(failed);
        assert(events@ =~= Seq::new(
            venues.len(),
            |i: int| connect_event(venues[i], outcomes@[i]),
        ));
        Ok(events)
    }

    /// Disconnect from all venues
    ///
    /// `times` says when each venue was disconnected; the events are to be published.
    pub fn disconnect_all(&mut self, times: &Vec<u64>) -> (events: Vec<GatewayEvent>)
        requires
            old(self).inv(),
            times@.len() == old(self)@.venues.len(),
        ensures
            final(self).inv(),
            events@ == Seq::new(
                old(self)@.venues.len(),
                |i: int|
                    GatewayEvent::VenueDisconnected {
                        venue_id: old(self)@.venues[i],
                        reason: DisconnectReason::GracefulShutdown,
                    },
            ),
            final(self)@ == (GatewayView {
                load_balancer: after_disconnects(
                    old(self)@.load_balancer,
                    old(self)@.venues,
                    times@,
                    old(self)@.venues.len(),
                ),
                ..old(self)@
            }),
    {
        let mut events: Vec<GatewayEvent> = Vec::new();
        let ghost venues = self.venues@;
        let mut i: usize = 0;
        while i < self.venues.len()
            invariant
                self.inv(),
                i <= self.venues@.len(),
                venues == self.venues@,
                venues == old(self)@.venues,
                times@.len() == venues.len(),
                events@.len() == i,
                forall|j: int|
                    0 <= j < i ==> #[trigger] events@[j] == (GatewayEvent::VenueDisconnected {
                        venue_id: venues[j],
                        reason: DisconnectReason::GracefulShutdown,
                    }),
                self@ == (GatewayView {
                    load_balancer: after_disconnects(
                        old(self)@.load_balancer,
                        venues,
                        times@,
                        i as nat,
                    ),
                    ..old(self)@
                }),
            decreases self.venues.len() - i,
        {
            let venue_id: u32 = self.venues[i];
            let mut status = VenueStatus::new(venue_id);
            status.last_update_ns = times[i];
            self.load_balancer.update_venue_status(status);
            events.push(
                GatewayEvent::VenueDisconnected {
                    venue_id,
                    reason: DisconnectReason::GracefulShutdown,
                },
            );
            i = i + 1;
        }
        assert(events@ =~= Seq::new(
            venues.len(),
            |i: int|
                GatewayEvent::VenueDisconnected {
                    venue_id: venues[i],
                    reason: DisconnectReason::GracefulShutdown,
                },
        ));
        events
    }

    /// Route order to best venue
    ///
    /// Says which venue the order is to be submitted to, and counts it.
    pub fn route_order(&mut self) -> (r: Result<u32, VenueError>)
        requires
            old(self).inv(),
        ensures
            final(self).inv(),
            r == old(self)@.attempt(
                FailoverRoute { attempt_count: 0, last_error: None, failed_venue: None },
            ),
            final(self)@ == (GatewayView {
                load_balancer: old(self)@.load_balancer.after_best(),
                orders_routed: if r is Ok {
                    old(self)@.orders_routed.wrapping_add(1)
                } else {
                    old(self)@.orders_routed
                },
                ..old(self)@
            }),
    {
        let decision = match self.load_balancer.select_best_venue() {
            Some(d) => d,
            None => {
                return Err(VenueError::NotConnected);
            },
        };
        if !self.has_venue(decision.venue_id) {
            return Err(VenueError::NotConnected);
        }
        self.orders_routed = self.orders_routed.wrapping_add(1);
        Ok(decision.venue_id)
    }

    /// The event to publish once a venue took an order
    pub fn order_routed(&self, order: &OrderRequest, venue_id: u32) -> (e: GatewayEvent)
        ensures
            e == (GatewayEvent::OrderRouted { order_id: order.client_order_id, venue_id }),
    {
        GatewayEvent::OrderRouted { order_id: order.client_order_id, venue_id }
    }

    /// Route order with failover: the venue that the next attempt goes to
    pub fn next_attempt(&mut self, route: &FailoverRoute) -> (r: Result<u32, VenueError>)
        requires
            old(self).inv(),
        ensures
            final(self).inv(),
            r == old(self)@.attempt(*route),
            final(self)@ == old(self)@.after_attempt(*route),
    {
        let decision = match route.failed_venue {
            None => self.load_balancer.select_best_venue(),
            Some(venue_id) => self.load_balancer.get_failover_venue(venue_id),
        };
        match decision {
            Some(d) => {
                if self.has_venue(d.venue_id) {
                    Ok(d.venue_id)
                } else {
                    Err(VenueError::NotConnected)
                }
            },
            None => match route.last_error {
                Some(e) => Err(e),
                None => Err(VenueError::NotConnected),
            },
        }
    }

    /// Route order with failover: what follows from the answer to an attempt
    ///
    /// An order that was taken is counted; after three attempts the last error is returned, and
    /// counted.
    pub fn route_order_with_failover(
        &mut self,
        order: &OrderRequest,
        venue_id: u32,
        answer: Result<OrderResponse, VenueError>,
        route: &mut FailoverRoute,
    ) -> (step: RouteStep)
        requires
            old(self).inv(),
            old(route).attempt_count < MAX_ATTEMPTS,
        ensures
            final(self).inv(),
            match answer {
                Ok(response) if !response.rejected() => {
                    &&& step == RouteStep::Done(
                        response,
                        GatewayEvent::OrderRouted { order_id: order.client_order_id, venue_id },
                    )
                    &&& *final(route) == *old(route)
                    &&& final(self)@ == (GatewayView {
                        orders_routed: old(self)@.orders_routed.wrapping_add(1),
                        ..old(self)@
                    })
                },
                _ => {
                    let error = match answer {
                        Ok(_) => VenueError::OrderRejected,
                        Err(e) => e,
                    };
                    let over = old(route).attempt_count + 1 >= MAX_ATTEMPTS;
                    &&& *final(route) == (FailoverRoute {
                        attempt_count: (old(route).attempt_count + 1) as u32,
                        last_error: Some(error),
                        failed_venue: Some(venue_id),
                    })
                    &&& step == if over {
                        RouteStep::Failed(error)
                    } else {
                        RouteStep::Retry
                    }
                    &&& final(self)@ == (GatewayView {
                        error_count: if over {
                            old(self)@.error_count.wrapping_add(1)
                        } else {
                            old(self)@.error_count
                        },
                        ..old(self)@
                    })
                },
            },
    {
        let error = match answer {
            Ok(response) => {
                if !response.is_rejected() {
                    self.orders_routed = self.orders_routed.wrapping_add(1);
                    return RouteStep::Done(response, self.order_routed(order, venue_id));
                }
                VenueError::OrderRejected
            },
            Err(e) => e,
        };
        route.last_error = Some(error);
        route.failed_venue = Some(venue_id);
        route.attempt_count = route.attempt_count + 1;
        if route.attempt_count >= MAX_ATTEMPTS {
            self.error_count = self.error_count.wrapping_add(1);
            return RouteStep::Failed(error);
        }
        RouteStep::Retry
    }

    /// Cancel order on specific venue: whether the venue is registered
    pub fn cancel_order(&self, venue_id: u32) -> (r: Result<(), VenueError>)
        ensures
            r == if self@.venues.contains(venue_id) {
                Ok(())
            } else {
                Err(VenueError::NotConnected)
            },
    {
        if self.has_venue(venue_id) {
            Ok(())
        } else {
            Err(VenueError::NotConnected)
        }
    }

    /// Get liquidity info across all venues
    ///
    /// `infos` are the quotes of the connected venues.
    pub fn get_aggregated_liquidity(
        &self,
        infos: &Vec<LiquidityInfo>,
        now_ns: u64,
    ) -> (r: AggregatedLiquidity)
        requires
            bid_total(infos@, infos@.len()) <= u64::MAX,
            ask_total(infos@, infos@.len()) <= u64::MAX,
            infos@.len() <= u32::MAX,
        ensures
            r == aggregated(infos@, now_ns),
    {
        let mut total_bid_size: u64 = 0;
        let mut total_ask_size: u64 = 0;
        let mut best_bid: u64 = 0;
        let mut best_ask: u64 = u64::MAX;
        let mut venue_count: u32 = 0;
        let mut i: usize = 0;
        while i < infos.len()
            invariant
                i <= infos@.len(),
                infos@.len() <= u32::MAX,
                bid_total(infos@, infos@.len()) <= u64::MAX,
                ask_total(infos@, infos@.len()) <= u64::MAX,
                total_bid_size == bid_total(infos@, i as nat),
                total_ask_size == ask_total(infos@, i as nat),
                best_bid == top_bid(infos@, i as nat),
                best_ask == low_ask(infos@, i as nat),
                venue_count == quoting(infos@, i as nat),
                venue_count <= i,
            decreases infos.len() - i,
        {
            let liq = infos[i];
            proof {
                lemma_totals_grow(infos@, (i + 1) as nat, infos@.len());
            }
            if liq.is_valid() {
                total_bid_size = total_bid_size + liq.bid_size;
                total_ask_size = total_ask_size + liq.ask_size;
                if liq.best_bid > best_bid {
                    best_bid = liq.best_bid;
                }
                if liq.best_ask < best_ask {
                    best_ask = liq.best_ask;
                }
                venue_count = venue_count + 1;
            }
            i = i + 1;
        }
        AggregatedLiquidity {
            best_bid,
            best_ask,
            total_bid_size,
            total_ask_size,
            spread: if best_ask > best_bid {
                best_ask - best_bid
            } else {
                0
            },
            mid_price: if best_bid > 0 && best_ask < u64::MAX {
                ((best_bid as u128 + best_ask as u128) / 2) as u64
            } else {
                0
            },
            venue_count,
            timestamp_ns: now_ns,
        }
    }

    /// True where a venue is registered.
    fn has_venue(&self, venue_id: u32) -> (r: bool)
        ensures
            r == self@.venues.contains(venue_id),
    {
        let mut i: usize = 0;
        while i < self.venues.len()
            invariant
                i <= self.venues@.len(),
                forall|j: int| 0 <= j < i ==> #[trigger] self.venues@[j] != venue_id,
            decreases self.venues.len() - i,
        {
            if self.venues[i] == venue_id {
                assert(self.venues@[i as int] == venue_id);
                return true;
            }
            i = i + 1;
        }
        false
    }

    /// Start the gateway manager, and its pool again
    pub fn start(&mut self)
        requires
            old(self).inv(),
        ensures
            final(self).inv(),
            final(self)@ == (GatewayView {
                is_running: true,
                connection_pool: ConnectionPool {
                    is_running: true,
                    ..old(self)@.connection_pool
                },
                ..old(self)@
            }),
    {
        self.is_running = true;
        self.connection_pool.is_running = true;
    }

    /// Stop the gateway manager: every venue is disconnected
    pub fn stop(&mut self, times: &Vec<u64>) -> (events: Vec<GatewayEvent>)
        requires
            old(self).inv(),
            times@.len() == old(self)@.venues.len(),
        ensures
            final(self).inv(),
            events@ == Seq::new(
                old(self)@.venues.len(),
                |i: int|
                    GatewayEvent::VenueDisconnected {
                        venue_id: old(self)@.venues[i],
                        reason: DisconnectReason::GracefulShutdown,
                    },
            ),
            final(self)@ == (GatewayView {
                is_running: false,
                connection_pool: ConnectionPool {
                    is_running: false,
                    ..old(self)@.connection_pool
                },
                load_balancer: after_disconnects(
                    old(self)@.load_balancer,
                    old(self)@.venues,
                    times@,
                    old(self)@.venues.len(),
                ),
                ..old(self)@
            }),
    {
        self.is_running = false;
        let events = self.disconnect_all(times);
        self.connection_pool.stop();
        events
    }

    /// Check if running
    pub fn is_running(&self) -> (r: bool)
        ensures
            r == self.is_running,
    {
        self.is_running
    }

    /// Get manager statistics
    pub fn get_stats(&self) -> (s: GatewayManagerStats)
        requires
            self@.connection_pool.slots() <= usize::MAX,
        ensures
            s.venues_registered == self@.venues.len(),
            s.orders_routed == self@.orders_routed,
            s.fills_received == self@.fills_received,
            s.error_count == self@.error_count,
            s.is_running == self@.is_running,
            s.lb_stats == (LoadBalancerStats {
                active_venues: self.load_balancer.active_count,
                routing_decisions: self.load_balancer.routing_decisions,
                failover_count: self.load_balancer.failover_count,
                primary_venue_id: #[verifier::truncate] (
                self.load_balancer.primary_venue_id as u32),
            }),
            s.pool_stats == (ConnectionPoolStats {
                active_connections: self@.connection_pool.active_connections,
                max_connections: self@.connection_pool.slots() as usize,
                connection_errors: self@.connection_pool.connection_errors,
                reconnection_attempts: self@.connection_pool.reconnection_attempts,
                is_running: self@.connection_pool.is_running,
            }),
    {
        GatewayManagerStats {
            venues_registered: self.venues.len(),
            orders_routed: self.orders_routed,
            fills_received: self.fills_received,
            error_count: self.error_count,
            is_running: self.is_running(),
            lb_stats: self.load_balancer.get_stats(),
            pool_stats: self.connection_pool.get_stats(),
        }
    }
}

/// Totals only grow with more venues.
proof fn lemma_totals_grow(infos: Seq<LiquidityInfo>, k: nat, n: nat)
    requires
        k <= n,
    ensures
        bid_total(infos, k) <= bid_total(infos, n),
        ask_total(infos, k) <= ask_total(infos, n),
    decreases n,
{
    if k < n {
        lemma_totals_grow(infos, k, (n - 1) as nat);
    }
}

/// The aggregated quote is at least as good as that of each venue.
pub proof fn law_aggregate_is_the_best_quote(infos: Seq<LiquidityInfo>, now_ns: u64, i: int)
    requires
        0 <= i < infos.len(),
        infos[i].valid(),
    ensures
        aggregated(infos, now_ns).best_bid >= infos[i].best_bid,
        aggregated(infos, now_ns).best_ask <= infos[i].best_ask,
{
    lemma_best_quote(infos, i, infos.len());
}

proof fn lemma_best_quote(infos: Seq<LiquidityInfo>, i: int, k: nat)
    requires
        0 <= i < k <= infos.len(),
        infos[i].valid(),
    ensures
        top_bid(infos, k) >= infos[i].best_bid,
        low_ask(infos, k) <= infos[i].best_ask,
    decreases k,
{
    if i < k - 1 {
        lemma_best_quote(infos, i, (k - 1) as nat);
    }
}

/// A venue takes orders where it is connected and its health is fifty or more. Its score, in
/// sixths, weighs latency three times, health twice and liquidity once, rounded down; a venue that
/// takes no orders scores nothing.
pub proof fn law_venue_score_weighs_its_parts(s: VenueStatus)
    requires
        s.liquidity_score <= 1_000_000_000,
    ensures
        s.healthy() <==> s.is_connected && !(s.health_score < 50),
        s.healthy() ==> ({
            let points = 3 * crate::gateway::venue::latency_score(s.latency_ns) + 2 * s.health_score
                + s.liquidity_score;
            6 * s.score() <= points < 6 * s.score() + 6
        }),
        !s.healthy() ==> s.score() == 0,
        s.decision().venue_id == s.venue_id,
        s.decision().expected_latency_ns == s.latency_ns,
        s.decision().available_liquidity == s.liquidity_score,
{
}

/// Of two venues that take orders, the one that is no slower, no less healthy and no less liquid
/// never scores less.
pub proof fn law_better_venues_score_higher(a: VenueStatus, b: VenueStatus)
    requires
        a.healthy(),
        b.healthy(),
        a.latency_ns <= b.latency_ns,
        a.health_score >= b.health_score,
        a.liquidity_score >= b.liquidity_score,
        a.liquidity_score <= 1_000_000_000,
    ensures
        a.score() >= b.score(),
{
}

/// The best venue is the first of those with the highest score.
pub proof fn law_first_of_the_best_is_chosen(statuses: Seq<VenueStatus>, without: Option<u32>, k: nat)
    requires
        k <= statuses.len(),
    ensures
        match best_venue(statuses, without, k) {
            Some(b) => {
                &&& b < k
                &&& statuses[b as int].healthy()
                &&& without != Some(statuses[b as int].venue_id)
                &&& forall|j: int|
                    0 <= j < k && (#[trigger] statuses[j]).healthy() && without != Some(
                        statuses[j].venue_id,
                    ) ==> statuses[j].score() <= statuses[b as int].score()
                &&& forall|j: int|
                    0 <= j < b && (#[trigger] statuses[j]).healthy() && without != Some(
                        statuses[j].venue_id,
                    ) ==> statuses[j].score() < statuses[b as int].score()
            },
            None => true,
        },
    decreases k,
{
    if k > 0 {
        law_first_of_the_best_is_chosen(statuses, without, (k - 1) as nat);
        lemma_best(statuses, without, (k - 1) as nat);
    }
}

/// The active venues are those that take orders.
pub proof fn law_active_venues_are_counted(statuses: Seq<VenueStatus>, k: nat)
    requires
        k <= statuses.len(),
    ensures
        healthy_count(statuses, k) == crate::tally::count(k, |i: int| statuses[i].healthy()),
        healthy_venues(statuses, k) == statuses.take(k as int).filter(
            |s: VenueStatus| s.is_connected && s.health_score >= 50,
        ),
    decreases k,
{
    reveal(Seq::filter);
    if k > 0 {
        law_active_venues_are_counted(statuses, (k - 1) as nat);
        assert(statuses.take(k as int).drop_last() =~= statuses.take(k - 1));
        assert(statuses.take(k as int).last() == statuses[k - 1]);
    } else {
        assert(statuses.take(0) =~= Seq::<VenueStatus>::empty());
    }
}

/// The aggregated liquidity adds up the sizes of the venues with valid quotes and counts them; its
/// spread and mid price are those of the best prices.
pub proof fn law_aggregate_adds_up_valid_quotes(infos: Seq<LiquidityInfo>, now_ns: u64)
    requires
        bid_total(infos, infos.len()) <= u64::MAX,
        ask_total(infos, infos.len()) <= u64::MAX,
        infos.len() <= u32::MAX,
    ensures
        ({
            let a = aggregated(infos, now_ns);
            let valid = |i: int| 0 < infos[i].best_bid < infos[i].best_ask;
            &&& a.total_bid_size == crate::tally::sum(
                infos.len(),
                |i: int|
                    if 0 < infos[i].best_bid < infos[i].best_ask {
                        infos[i].bid_size as int
                    } else {
                        0
                    },
            )
            &&& a.total_ask_size == crate::tally::sum(
                infos.len(),
                |i: int|
                    if 0 < infos[i].best_bid < infos[i].best_ask {
                        infos[i].ask_size as int
                    } else {
                        0
                    },
            )
            &&& a.venue_count == crate::tally::count(infos.len(), valid)
            &&& a.timestamp_ns == now_ns
            &&& a.best_ask > a.best_bid ==> a.spread == a.best_ask - a.best_bid
            &&& a.best_ask <= a.best_bid ==> a.spread == 0
            &&& a.best_bid > 0 && a.best_ask < u64::MAX ==> 2 * a.mid_price <= a.best_bid
                + a.best_ask <= 2 * a.mid_price + 1
            &&& a.best_bid == 0 || exists|i: int|
                0 <= i < infos.len() && valid(i) && (#[trigger] infos[i]).best_bid == a.best_bid
            &&& a.best_ask == u64::MAX || exists|i: int|
                0 <= i < infos.len() && valid(i) && (#[trigger] infos[i]).best_ask == a.best_ask
        }),
{
    lemma_aggregate(infos, infos.len());
}

proof fn lemma_aggregate(infos: Seq<LiquidityInfo>, k: nat)
    requires
        k <= infos.len(),
    ensures
        bid_total(infos, k) == crate::tally::sum(
            k,
            |i: int|
                if 0 < infos[i].best_bid < infos[i].best_ask {
                    infos[i].bid_size as int
                } else {
                    0
                },
        ),
        ask_total(infos, k) == crate::tally::sum(
            k,
            |i: int|
                if 0 < infos[i].best_bid < infos[i].best_ask {
                    infos[i].ask_size as int
                } else {
                    0
                },
        ),
        quoting(infos, k) == crate::tally::count(
            k,
            |i: int| 0 < infos[i].best_bid < infos[i].best_ask,
        ),
        quoting(infos, k) <= k,
        top_bid(infos, k) == 0 || exists|i: int|
            0 <= i < k && (#[trigger] infos[i]).best_bid == top_bid(infos, k) && 0
                < infos[i].best_bid < infos[i].best_ask,
        low_ask(infos, k) == u64::MAX || exists|i: int|
            0 <= i < k && (#[trigger] infos[i]).best_ask == low_ask(infos, k) && 0
                < infos[i].best_bid < infos[i].best_ask,
    decreases k,
{
    if k > 0 {
        lemma_aggregate(infos, (k - 1) as nat);
        let last = infos[k - 1];
        assert(last.valid() == (0 < last.best_bid < last.best_ask));
    }
}

/// A venue that was connected takes orders at once with full health; one that was disconnected does
/// not. Nothing else is known of either.
pub proof fn law_connection_makes_a_venue_healthy(venue_id: u32, timestamp_ns: u64)
    ensures
        connected_status(venue_id, timestamp_ns).healthy(),
        connected_status(venue_id, timestamp_ns).health_score == 100,
        connected_status(venue_id, timestamp_ns).venue_id == venue_id,
        connected_status(venue_id, timestamp_ns).last_update_ns == timestamp_ns,
        connected_status(venue_id, timestamp_ns).latency_ns == u64::MAX,
        !disconnected_status(venue_id, timestamp_ns).healthy(),
        !disconnected_status(venue_id, timestamp_ns).is_connected,
        disconnected_status(venue_id, timestamp_ns).venue_id == venue_id,
        disconnected_status(venue_id, timestamp_ns).last_update_ns == timestamp_ns,
        !unknown_status(venue_id).healthy(),
{
}

/// Each attempt to connect is told of: a success at its time, a failure by the number of its error;
/// the failures are counted.
pub proof fn law_attempts_to_connect_are_told_of(
    venue_id: u32,
    outcome: ConnectOutcome,
    outcomes: Seq<ConnectOutcome>,
)
    ensures
        outcome.error is None ==> connect_event(venue_id, outcome)
            == (GatewayEvent::VenueConnected { venue_id, timestamp_ns: outcome.timestamp_ns }),
        outcome.error matches Some(e) ==> connect_event(venue_id, outcome)
            == (GatewayEvent::Error { venue_id, error_code: e.code() }),
        failures(outcomes, outcomes.len()) == crate::tally::count(
            outcomes.len(),
            |i: int| outcomes[i].error is Some,
        ),
{
    lemma_failures(outcomes, outcomes.len());
}

proof fn lemma_failures(outcomes: Seq<ConnectOutcome>, k: nat)
    ensures
        failures(outcomes, k) == crate::tally::count(k, |i: int| outcomes[i].error is Some),
    decreases k,
{
    if k > 0 {
        lemma_failures(outcomes, (k - 1) as nat);
    }
}

/// After the venues were asked to connect, those take orders that did not fail, and those that
/// failed are as before.
pub proof fn law_connected_venues_take_orders(
    lb: BalancerView,
    venues: Seq<u32>,
    outcomes: Seq<ConnectOutcome>,
    i: int,
)
    requires
        lb.statuses.len() == MAX_VENUES,
        venues.no_duplicates(),
        outcomes.len() == venues.len(),
        0 <= i < venues.len(),
        venues[i] < MAX_VENUES,
    ensures
        ({
            let after = after_connects(lb, venues, outcomes, venues.len());
            &&& after.statuses.len() == MAX_VENUES
            &&& outcomes[i].error is None ==> after.statuses[venues[i] as int].healthy()
            &&& outcomes[i].error is Some ==> after.statuses[venues[i] as int]
                == lb.statuses[venues[i] as int]
        }),
{
    lemma_connects(lb, venues, outcomes, i, venues.len());
}

proof fn lemma_connects(
    lb: BalancerView,
    venues: Seq<u32>,
    outcomes: Seq<ConnectOutcome>,
    i: int,
    k: nat,
)
    requires
        lb.statuses.len() == MAX_VENUES,
        venues.no_duplicates(),
        outcomes.len() == venues.len(),
        0 <= i < venues.len(),
        venues[i] < MAX_VENUES,
        k <= venues.len(),
    ensures
        ({
            let after = after_connects(lb, venues, outcomes, k);
            &&& after.statuses.len() == MAX_VENUES
            &&& i < k && outcomes[i].error is None ==> after.statuses[venues[i] as int].healthy()
            &&& i >= k || outcomes[i].error is Some ==> after.statuses[venues[i] as int]
                == lb.statuses[venues[i] as int]
        }),
    decreases k,
{
    if k > 0 {
        lemma_connects(lb, venues, outcomes, i, (k - 1) as nat);
        if k - 1 != i {
            assert(venues[k - 1] != venues[i]);
        }
    }
}

/// After the venues were disconnected none of them takes orders.
pub proof fn law_disconnected_venues_take_no_orders(
    lb: BalancerView,
    venues: Seq<u32>,
    times: Seq<u64>,
    i: int,
    k: nat,
)
    requires
        lb.statuses.len() == MAX_VENUES,
        times.len() == venues.len(),
        0 <= i < k <= venues.len(),
        venues[i] < MAX_VENUES,
    ensures
        after_disconnects(lb, venues, times, k).statuses.len() == MAX_VENUES,
        !after_disconnects(lb, venues, times, k).statuses[venues[i] as int].healthy(),
    decreases k,
{
    if i < k - 1 {
        law_disconnected_venues_take_no_orders(lb, venues, times, i, (k - 1) as nat);
    } else {
        lemma_disconnects(lb, venues, times, (k - 1) as nat);
    }
}

proof fn lemma_disconnects(lb: BalancerView, venues: Seq<u32>, times: Seq<u64>, k: nat)
    requires
        lb.statuses.len() == MAX_VENUES,
    ensures
        after_disconnects(lb, venues, times, k).statuses.len() == MAX_VENUES,
    decreases k,
{
    if k > 0 {
        lemma_disconnects(lb, venues, times, (k - 1) as nat);
    }
}

/// Under the strict policy there is no failover; in turn it goes to the next venue, which may be
/// the failed one; otherwise to the best of the others. Each is counted.
pub proof fn law_failover_follows_its_policy(lb: BalancerView, failed_venue_id: u32)
    ensures
        lb.failover_policy == FailoverPolicy::StrictPrimary ==> lb.failover(failed_venue_id) is None,
        lb.failover_policy == FailoverPolicy::RoundRobin ==> (lb.failover(failed_venue_id) is Some
            <==> lb.in_turn() is Some),
        lb.failover_policy == FailoverPolicy::RoundRobin && lb.in_turn() is Some ==> lb.failover(
            failed_venue_id,
        )->0.venue_id == lb.in_turn()->0.venue_id && lb.failover(failed_venue_id)->0.is_failover,
        lb.failover_policy == FailoverPolicy::Immediate ==> (lb.failover(failed_venue_id) is Some
            <==> best_venue(lb.statuses, Some(failed_venue_id), MAX_VENUES as nat) is Some),
        lb.failover_count < u64::MAX ==> lb.after_failover().failover_count == lb.failover_count + 1,
        lb.after_failover().statuses == lb.statuses,
{
}

/// What a status changes: the venue of its number, where there is one, and no other.
pub proof fn law_status_is_kept_for_its_venue(lb: BalancerView, s: VenueStatus, i: int)
    requires
        lb.statuses.len() == 32,
        0 <= i < 32,
    ensures
        lb.with_status(s).statuses.len() == 32,
        i == s.venue_id ==> lb.with_status(s).statuses[i] == s,
        i != s.venue_id ==> lb.with_status(s).statuses[i] == lb.statuses[i],
        lb.with_status(s).rr_index == lb.rr_index,
        lb.with_status(s).routing_decisions == lb.routing_decisions,
{
}

/// A decision is counted where a venue was found, and only then.
pub proof fn law_decisions_are_counted(lb: BalancerView)
    requires
        lb.routing_decisions < u64::MAX,
    ensures
        lb.best() is Some ==> lb.after_best().routing_decisions == lb.routing_decisions + 1,
        lb.best() is None ==> lb.after_best() == lb,
        lb.after_best().statuses == lb.statuses && lb.after_best().rr_index == lb.rr_index,
        lb.after_turn().statuses == lb.statuses,
        lb.after_turn() == lb || lb.after_turn().routing_decisions == lb.routing_decisions + 1,
{
}

} // verus!
