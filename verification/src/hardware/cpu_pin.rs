//! Processor cores and what runs on them.
use vstd::prelude::*;

verus! {

/// Calls `num_cpus::get`, the number of processors available to the process: at least one. How many
/// there are depends on the machine.
#[verifier::external_body]
fn available_cpus() -> (r: usize)
    ensures
        r >= 1,
{
    num_cpus::get()
}

/// The number of logical processors available.
pub fn num_cpus() -> (r: usize)
    ensures
        r >= 1,
{
    available_cpus()
}

/// The number of physical cores of the given number of logical processors: half of them.
pub fn physical_cores_of(cpus: usize) -> (r: usize)
    ensures
        r == cpus / 2,
{
    cpus / 2
}

/// The number of physical cores, taken as half of the logical processors.
pub fn num_physical_cores() -> (r: usize)
    ensures
        r <= usize::MAX / 2,
{
    physical_cores_of(available_cpus())
}

/// True where a core is among the given number of processors.
pub fn core_exists(core_id: usize, cpus: usize) -> (r: bool)
    ensures
        r == (core_id < cpus),
{
    core_id < cpus
}

/// True where a core is among the available processors.
pub fn is_valid_core(core_id: usize) -> (r: bool)
    ensures
        core_id == 0 ==> r,
        core_id == usize::MAX ==> !r,
{
    core_exists(core_id, available_cpus())
}

/// Processor topology.
#[derive(Debug, Clone, Copy, PartialEq, Eq, Structural)]
pub struct CpuTopology {
    /// Total logical processors
    pub logical_cpus: usize,
    /// Physical cores
    pub physical_cores: usize,
    /// Memory nodes detected
    pub numa_nodes: usize,
    /// Groups of cores that share a third-level cache
    pub l3_cache_groups: usize,
}

/// Cores for the different kinds of work.
#[derive(Debug)]
pub struct CoreAssignment {
    /// Core for market data ingestion
    pub market_data: usize,
    /// Core for order execution
    pub order_execution: usize,
    /// Core for risk management checks
    pub risk_management: usize,
    /// Core for telemetry and logging
    pub telemetry: usize,
    /// Cores for background tasks
    pub background: Vec<usize>,
}

impl CpuTopology {
    /// The topology of a machine with a given number of logical processors: half as many cores, one
    /// memory node, and three cores to a cache; at least one of each.
    pub open spec fn of(logical: usize) -> Self {
        CpuTopology {
            logical_cpus: logical,
            physical_cores: if logical / 2 >= 1 {
                logical / 2
            } else {
                1
            },
            numa_nodes: 1,
            l3_cache_groups: if (logical / 2) / 3 >= 1 {
                (logical / 2) / 3
            } else {
                1
            },
        }
    }

    /// The topology of a machine with a given number of logical processors.
    pub fn from_logical(logical: usize) -> (t: Self)
        ensures
            t == CpuTopology::of(logical),
    {
        let physical: usize = logical / 2;
        Self {
            logical_cpus: logical,
            physical_cores: if physical >= 1 {
                physical
            } else {
                1
            },
            numa_nodes: 1,
            l3_cache_groups: if physical / 3 >= 1 {
                physical / 3
            } else {
                1
            },
        }
    }

    /// Detects the topology of this machine.
    pub fn detect() -> (t: Self)
        ensures
            t == CpuTopology::of(t.logical_cpus),
            t.logical_cpus >= 1,
            t.logical_cpus >= t.physical_cores,
    {
        Self::from_logical(available_cpus())
    }

    /// The number of processors at the start that are left to the system: two, where there are.
    pub open spec fn reserved(self) -> int {
        if self.logical_cpus < 2 {
            self.logical_cpus as int
        } else {
            2
        }
    }

    /// The core for the `k`-th kind of work: the `k`-th one that is not left to the system. Where
    /// there are too few of those, a machine with four processors or more lends one of the system's,
    /// and a smaller one shares its last.
    pub open spec fn core_for(self, k: int) -> int {
        if self.reserved() + k < self.logical_cpus || self.logical_cpus == 0 {
            self.reserved() + k
        } else if self.logical_cpus >= 4 {
            (self.reserved() + k) % (self.logical_cpus as int)
        } else {
            self.logical_cpus - 1
        }
    }

    /// The core for the `k`-th kind of work.
    fn pick(&self, k: usize) -> (r: usize)
        requires
            k <= 2,
        ensures
            r == self.core_for(k as int),
    {
        let n: usize = self.logical_cpus;
        let reserved: usize = if n < 2 {
            n
        } else {
            2
        };
        if reserved + k < n || n == 0 {
            reserved + k
        } else if n >= 4 {
            (reserved + k) % n
        } else {
            n - 1
        }
    }

    /// True of the recommended assignment of cores: market data, order execution and risk
    /// management on the first cores that are not left to the system, telemetry on the last, and
    /// background tasks on all from the fourth on.
    pub open spec fn is_assignment(self, a: CoreAssignment) -> bool {
        &&& a.market_data == self.core_for(0)
        &&& a.order_execution == self.core_for(1)
        &&& a.risk_management == self.core_for(2)
        &&& a.telemetry == if self.reserved() < self.logical_cpus {
            self.logical_cpus - 1
        } else {
            self.core_for(0)
        }
        &&& a.background@ == Seq::new(
            if self.reserved() + 3 <= self.logical_cpus {
                (self.logical_cpus - self.reserved() - 3) as nat
            } else {
                0
            },
            |i: int| (self.reserved() + 3 + i) as usize,
        )
    }

    /// The recommended assignment of cores.
    pub fn get_hft_core_assignment(&self) -> (a: CoreAssignment)
        ensures
            self.is_assignment(a),
    {
        let n: usize = self.logical_cpus;
        let reserved: usize = if n < 2 {
            n
        } else {
            2
        };
        let mut background: Vec<usize> = Vec::new();
        let mut next: usize = reserved + 3;
        while next < n
            invariant
                reserved == self.reserved(),
                n == self.logical_cpus,
                next == reserved + 3 + background@.len(),
                next <= n || background@.len() == 0,
                forall|i: int|
                    0 <= i < background@.len() ==> #[trigger] background@[i] == reserved + 3 + i,
            decreases n - next,
        {
            background.push(next);
            next = next + 1;
        }
        let a = CoreAssignment {
            market_data: self.pick(0),
            order_execution: self.pick(1),
            risk_management: self.pick(2),
            telemetry: if reserved < n {
                n - 1
            } else {
                self.pick(0)
            },
            background,
        };
        assert(a.background@ =~= Seq::new(
            if self.reserved() + 3 <= self.logical_cpus {
                (self.logical_cpus - self.reserved() - 3) as nat
            } else {
                0
            },
            |i: int| (self.reserved() + 3 + i) as usize,
        ));
        a
    }
}

/// On a machine with a processor every assigned core exists.
pub proof fn law_assigned_cores_exist(t: CpuTopology, a: CoreAssignment)
    requires
        t.logical_cpus >= 1,
        t.is_assignment(a),
    ensures
        a.market_data < t.logical_cpus,
        a.order_execution < t.logical_cpus,
        a.risk_management < t.logical_cpus,
        a.telemetry < t.logical_cpus,
        forall|i: int| 0 <= i < a.background@.len() ==> #[trigger] a.background@[i] < t.logical_cpus,
{
}

/// On a machine with four processors or more the critical kinds of work have a core each.
pub proof fn law_critical_cores_are_distinct(t: CpuTopology, a: CoreAssignment)
    requires
        t.logical_cpus >= 4,
        t.is_assignment(a),
    ensures
        a.market_data != a.order_execution,
        a.market_data != a.risk_management,
        a.order_execution != a.risk_management,
{
    if t.logical_cpus == 4 {
        assert(4int % (t.logical_cpus as int) == 0) by (nonlinear_arith)
            requires
                t.logical_cpus == 4,
        ;
    }
}

/// Builder of a thread that is pinned to a core.
pub struct PinnedThreadBuilder<F> {
    pub name: String,
    pub core_id: usize,
    pub func: F,
    pub stack_size: Option<usize>,
}

impl<F> PinnedThreadBuilder<F> {
    pub fn new(name: String, core_id: usize, func: F) -> (b: Self)
        ensures
            b == (PinnedThreadBuilder { name, core_id, func, stack_size: None }),
    {
        Self { name, core_id, func, stack_size: None }
    }

    /// Sets the stack size.
    pub fn stack_size(self, size: usize) -> (b: Self)
        ensures
            b == (PinnedThreadBuilder { stack_size: Some(size), ..self }),
    {
        PinnedThreadBuilder {
            name: self.name,
            core_id: self.core_id,
            func: self.func,
            stack_size: Some(size),
        }
    }
}

/// Where there are processors enough, the first two are left alone, the three critical kinds of work
/// have the next three, telemetry the last, and what is behind the critical ones is for the rest.
pub proof fn law_cores_are_given_in_turn(t: CpuTopology, a: CoreAssignment, core_id: usize)
    requires
        t.logical_cpus >= 5,
        t.is_assignment(a),
    ensures
        a.market_data == 2,
        a.order_execution == 3,
        a.risk_management == 4,
        a.telemetry == t.logical_cpus - 1,
        a.background@.contains(core_id) <==> 5 <= core_id < t.logical_cpus,
        a.background@.len() == t.logical_cpus - 5,
{
    if 5 <= core_id < t.logical_cpus {
        assert(a.background@[core_id - 5] == core_id);
    }
}

/// Where there are few processors, work shares the last one; with four, risk management has the first.
pub proof fn law_few_cores_are_shared(t: CpuTopology, a: CoreAssignment)
    requires
        1 <= t.logical_cpus <= 4,
        t.is_assignment(a),
    ensures
        a.background@.len() == 0,
        a.telemetry == t.logical_cpus - 1,
        t.logical_cpus == 4 ==> a.market_data == 2 && a.order_execution == 3
            && a.risk_management == 0,
        t.logical_cpus < 4 ==> a.market_data == t.logical_cpus - 1 && a.order_execution
            == t.logical_cpus - 1 && a.risk_management == t.logical_cpus - 1,
{
    if t.logical_cpus == 4 {
        assert(4int % (t.logical_cpus as int) == 0) by (nonlinear_arith)
            requires
                t.logical_cpus == 4,
        ;
    }
}

/// A core has two logical processors and shares its cache with two others; there is at least one of
/// each.
pub proof fn law_cores_have_two_processors(logical: usize)
    ensures
        CpuTopology::of(logical).logical_cpus == logical,
        CpuTopology::of(logical).numa_nodes == 1,
        logical >= 2 ==> 2 * CpuTopology::of(logical).physical_cores <= logical < 2
            * CpuTopology::of(logical).physical_cores + 2,
        logical < 2 ==> CpuTopology::of(logical).physical_cores == 1,
        logical >= 6 ==> 6 * CpuTopology::of(logical).l3_cache_groups <= logical < 6
            * CpuTopology::of(logical).l3_cache_groups + 6,
        logical < 6 ==> CpuTopology::of(logical).l3_cache_groups == 1,
{
}

} // verus!
