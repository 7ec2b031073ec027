//! Hardware configuration of the trading system.
use crate::hardware::cpu_pin::{CoreAssignment, CpuTopology};
use crate::hardware::numa::{get_hft_numa_config, NodeFiles, NumaConfig, NumaNode, NumaTopology};
use crate::text::number_string;
use vstd::prelude::*;
use vstd::string::StringExecFns;

verus! {

/// Hardware configuration for the HFT system
#[derive(Debug)]
pub struct HardwareConfig {
    /// CPU topology information
    pub cpu_topology: CpuTopology,
    /// NUMA topology information
    pub numa_topology: NumaTopology,
    /// Core assignments for different workloads
    pub core_assignment: CoreAssignment,
    /// NUMA configuration for workloads
    pub numa_config: NumaConfig,
    /// Whether the configuration is optimal for HFT
    pub is_optimal: bool,
}

/// Critical kinds of work.
#[derive(Debug, Clone, Copy, PartialEq, Eq, Structural)]
pub enum CriticalTask {
    MarketData,
    OrderExecution,
    RiskManagement,
}

/// What is wrong with an assignment of cores.
#[derive(Debug, Clone, Copy, PartialEq, Eq, Structural)]
pub enum CoreAssignmentError {
    /// The machine has no such core
    InvalidCore { task: CriticalTask, core_id: usize, cpus: usize },
    /// The core is assigned to another critical task
    Conflict(CriticalTask),
}

/// The memory of nodes together.
pub open spec fn memory_sum(nodes: Seq<NumaNode>) -> nat
    decreases nodes.len(),
{
    if nodes.len() == 0 {
        0
    } else {
        memory_sum(nodes.drop_last()) + nodes.last().available_memory as nat
    }
}

/// What is wrong with an assignment of cores on a machine with a number of processors, if anything:
/// first a core that does not exist, then one that is assigned twice.
pub open spec fn assignment_error(a: CoreAssignment, cpus: usize) -> Option<CoreAssignmentError> {
    if a.market_data >= cpus {
        Some(
            CoreAssignmentError::InvalidCore {
                task: CriticalTask::MarketData,
                core_id: a.market_data,
                cpus,
            },
        )
    } else if a.order_execution >= cpus {
        Some(
            CoreAssignmentError::InvalidCore {
                task: CriticalTask::OrderExecution,
                core_id: a.order_execution,
                cpus,
            },
        )
    } else if a.risk_management >= cpus {
        Some(
            CoreAssignmentError::InvalidCore {
                task: CriticalTask::RiskManagement,
                core_id: a.risk_management,
                cpus,
            },
        )
    } else if a.order_execution == a.market_data {
        Some(CoreAssignmentError::Conflict(CriticalTask::OrderExecution))
    } else if a.risk_management == a.market_data || a.risk_management == a.order_execution {
        Some(CoreAssignmentError::Conflict(CriticalTask::RiskManagement))
    } else {
        None
    }
}

/// A truth value as a text.
pub open spec fn truth(b: bool) -> Seq<char> {
    if b {
        "true"@
    } else {
        "false"@
    }
}

impl HardwareConfig {
    /// True where the machine has at least six processors, four cores and a single memory node.
    pub open spec fn suits(cpu: CpuTopology, nodes: nat) -> bool {
        cpu.logical_cpus >= 6 && cpu.physical_cores >= 4 && nodes == 1
    }

    /// True where this is the configuration for its topologies.
    pub open spec fn is_config(&self) -> bool {
        &&& self.cpu_topology.is_assignment(self.core_assignment)
        &&& self.numa_config == (NumaConfig {
            market_data_node: 0,
            order_execution_node: 0,
            memory_pool_node: 0,
            is_optimal: true,
        })
        &&& self.is_optimal == Self::suits(self.cpu_topology, self.numa_topology.nodes@.len())
    }

    /// The configuration for given topologies
    pub fn from_topologies(cpu_topology: CpuTopology, numa_topology: NumaTopology) -> (c: Self)
        ensures
            c.cpu_topology == cpu_topology,
            c.numa_topology == numa_topology,
            c.is_config(),
    {
        let core_assignment = cpu_topology.get_hft_core_assignment();
        let numa_config = get_hft_numa_config(&numa_topology);
        let is_optimal = cpu_topology.logical_cpus >= 6 && cpu_topology.physical_cores >= 4
            && numa_topology.nodes.len() == 1;
        Self { cpu_topology, numa_topology, core_assignment, numa_config, is_optimal }
    }

    /// Detect and create optimal hardware configuration
    ///
    /// The number of processors is that of this machine; the memory nodes are those that the files
    /// describe.
    pub fn detect(files: &Vec<NodeFiles>, meminfo: Option<&str>) -> (c: Self)
        ensures
            c.is_config(),
            c.cpu_topology == CpuTopology::of(c.cpu_topology.logical_cpus),
            c.cpu_topology.logical_cpus >= 1,
            c.cpu_topology.logical_cpus >= c.cpu_topology.physical_cores,
            c.numa_topology.current_node == 0,
            crate::hardware::numa::node_views(c.numa_topology.nodes@)
                == crate::hardware::numa::nodes_or_single(
                files@,
                match meminfo {
                    Some(m) => Some(m@),
                    None => None,
                },
            ),
    {
        let numa_topology = NumaTopology::detect(files, meminfo);
        Self::from_topologies(CpuTopology::detect(), numa_topology)
    }

    /// The memory of all nodes together, in bytes
    pub fn total_memory(&self) -> (r: u64)
        requires
            memory_sum(self.numa_topology.nodes@) <= u64::MAX,
        ensures
            r == memory_sum(self.numa_topology.nodes@),
    {
        let ghost all = self.numa_topology.nodes@;
        let mut sum: u64 = 0;
        let mut i: usize = 0;
        assert(all.take(0) =~= Seq::<NumaNode>::empty());
        while i < self.numa_topology.nodes.len()
            invariant
                i <= self.numa_topology.nodes@.len(),
                all == self.numa_topology.nodes@,
                memory_sum(all) <= u64::MAX,
                sum == memory_sum(all.take(i as int)),
            decreases self.numa_topology.nodes.len() - i,
        {
            proof {
                assert(all.take(i + 1).drop_last() =~= all.take(i as int));
                lemma_memory_grows(all, i + 1);
            }
            sum = sum + self.numa_topology.nodes[i].available_memory;
            i = i + 1;
        }
        assert(all.take(i as int) =~= all);
        sum
    }

    /// The lines of the summary, with the memory as a text.
    pub open spec fn summary_text(&self, memory_gb: Seq<char>) -> Seq<char> {
        "Hardware Config:\n- CPU: "@ + crate::text::number(self.cpu_topology.logical_cpus as nat)
            + "L / "@ + crate::text::number(self.cpu_topology.physical_cores as nat)
            + "P cores\n- NUMA Nodes: "@ + crate::text::number(self.numa_topology.nodes@.len())
            + "\n- Memory: "@ + memory_gb + " GB\n- Market Data Core: "@ + crate::text::number(
            self.core_assignment.market_data as nat,
        ) + "\n- Order Execution Core: "@ + crate::text::number(
            self.core_assignment.order_execution as nat,
        ) + "\n- Risk Management Core: "@ + crate::text::number(
            self.core_assignment.risk_management as nat,
        ) + "\n- Optimal: "@ + truth(self.is_optimal)
    }

    /// Get a summary of the hardware configuration
    ///
    /// `memory_gb` is the total memory in gigabytes, with one decimal.
    pub fn summary(&self, memory_gb: &str) -> (s: String)
        ensures
            s@ == self.summary_text(memory_gb@),
    {
        let mut s = "Hardware Config:\n- CPU: ".to_owned();
        s.append(number_string(self.cpu_topology.logical_cpus as u64).as_str());
        s.append("L / ");
        s.append(number_string(self.cpu_topology.physical_cores as u64).as_str());
        s.append("P cores\n- NUMA Nodes: ");
        s.append(number_string(self.numa_topology.nodes.len() as u64).as_str());
        s.append("\n- Memory: ");
        s.append(memory_gb);
        s.append(" GB\n- Market Data Core: ");
        s.append(number_string(self.core_assignment.market_data as u64).as_str());
        s.append("\n- Order Execution Core: ");
        s.append(number_string(self.core_assignment.order_execution as u64).as_str());
        s.append("\n- Risk Management Core: ");
        s.append(number_string(self.core_assignment.risk_management as u64).as_str());
        s.append("\n- Optimal: ");
        if self.is_optimal {
            s.append("true");
        } else {
            s.append("false");
        }
        s
    }
}

proof fn lemma_memory_grows(nodes: Seq<NumaNode>, k: int)
    requires
        0 <= k <= nodes.len(),
    ensures
        memory_sum(nodes.take(k)) <= memory_sum(nodes),
    decreases nodes.len(),
{
    if k == nodes.len() {
        assert(nodes.take(k) =~= nodes);
    } else {
        lemma_memory_grows(nodes.drop_last(), k);
        assert(nodes.drop_last().take(k) =~= nodes.take(k));
    }
}

/// Validate that core assignments are valid for the current system
pub fn validate_core_assignments(config: &HardwareConfig) -> (r: Result<(), CoreAssignmentError>)
    ensures
        r == match assignment_error(config.core_assignment, config.cpu_topology.logical_cpus) {
            Some(e) => Err(e),
            None => Ok(()),
        },
{
    let cpus: usize = config.cpu_topology.logical_cpus;
    let a = &config.core_assignment;
    if a.market_data >= cpus {
        return Err(
            CoreAssignmentError::InvalidCore {
                task: CriticalTask::MarketData,
                core_id: a.market_data,
                cpus,
            },
        );
    }
    if a.order_execution >= cpus {
        return Err(
            CoreAssignmentError::InvalidCore {
                task: CriticalTask::OrderExecution,
                core_id: a.order_execution,
                cpus,
            },
        );
    }
    if a.risk_management >= cpus {
        return Err(
            CoreAssignmentError::InvalidCore {
                task: CriticalTask::RiskManagement,
                core_id: a.risk_management,
                cpus,
            },
        );
    }
    if a.order_execution == a.market_data {
        return Err(CoreAssignmentError::Conflict(CriticalTask::OrderExecution));
    }
    if a.risk_management == a.market_data || a.risk_management == a.order_execution {
        return Err(CoreAssignmentError::Conflict(CriticalTask::RiskManagement));
    }
    Ok(())
}

/// The recommended assignment is valid exactly on machines with four processors or more.
pub proof fn law_assignment_is_valid_from_four_processors(config: HardwareConfig)
    requires
        config.is_config(),
    ensures
        (assignment_error(config.core_assignment, config.cpu_topology.logical_cpus) is None) == (
        config.cpu_topology.logical_cpus >= 4),
{
    let t = config.cpu_topology;
    if t.logical_cpus >= 4 {
        crate::hardware::cpu_pin::law_assigned_cores_exist(t, config.core_assignment);
        crate::hardware::cpu_pin::law_critical_cores_are_distinct(t, config.core_assignment);
    }
}

/// Get recommended stack size for high-performance threads
pub fn recommended_stack_size() -> (r: usize)
    ensures
        r == 2 * 1024 * 1024,
{
    2 * 1024 * 1024
}

/// Thread pool size recommendations
#[derive(Debug, Clone, Copy, PartialEq, Eq, Structural)]
pub struct ThreadPoolSizes {
    pub market_data_threads: usize,
    pub order_execution_threads: usize,
    pub background_threads: usize,
}

/// Get recommended thread pool sizes based on hardware: a thread for each background core but at
/// least two, two for orders, and one for each two physical cores but at least one
pub fn get_recommended_pool_sizes(config: &HardwareConfig) -> (s: ThreadPoolSizes)
    ensures
        s.market_data_threads == if config.core_assignment.background@.len() >= 2 {
            config.core_assignment.background@.len()
        } else {
            2
        },
        s.order_execution_threads == 2,
        s.background_threads == if config.cpu_topology.physical_cores / 2 >= 1 {
            config.cpu_topology.physical_cores / 2
        } else {
            1
        },
{
    let background: usize = config.core_assignment.background.len();
    let half: usize = config.cpu_topology.physical_cores / 2;
    ThreadPoolSizes {
        market_data_threads: if background >= 2 {
            background
        } else {
            2
        },
        order_execution_threads: 2,
        background_threads: if half >= 1 {
            half
        } else {
            1
        },
    }
}

impl ThreadPoolSizes {
    pub fn format(&self) -> (s: String)
        ensures
            s@ == "Thread Pools | Market Data: "@ + crate::text::number(
                self.market_data_threads as nat,
            ) + " | Order Execution: "@ + crate::text::number(self.order_execution_threads as nat)
                + " | Background: "@ + crate::text::number(self.background_threads as nat),
    {
        let mut s = "Thread Pools | Market Data: ".to_owned();
        s.append(number_string(self.market_data_threads as u64).as_str());
        s.append(" | Order Execution: ");
        s.append(number_string(self.order_execution_threads as u64).as_str());
        s.append(" | Background: ");
        s.append(number_string(self.background_threads as u64).as_str());
        s
    }
}

/// The memory of a machine is the sum over its nodes.
pub proof fn law_memory_is_the_sum_over_the_nodes(nodes: Seq<NumaNode>)
    ensures
        memory_sum(nodes) == crate::tally::sum(
            nodes.len(),
            |i: int| nodes[i].available_memory as int,
        ),
    decreases nodes.len(),
{
    if nodes.len() > 0 {
        let t = nodes.drop_last();
        law_memory_is_the_sum_over_the_nodes(t);
        crate::tally::lemma_sum_same(
            t.len(),
            |i: int| t[i].available_memory as int,
            |i: int| nodes[i].available_memory as int,
        );
    }
}

/// An assignment is in order where the three critical kinds of work are on cores that exist, no two
/// on one. The first fault is told: a core that does not exist before two on one.
pub proof fn law_assignment_faults(a: CoreAssignment, cpus: usize)
    ensures
        assignment_error(a, cpus) is None <==> a.market_data < cpus && a.order_execution < cpus
            && a.risk_management < cpus && a.market_data != a.order_execution && a.market_data
            != a.risk_management && a.order_execution != a.risk_management,
        a.market_data >= cpus <==> assignment_error(a, cpus) == Some(
            CoreAssignmentError::InvalidCore {
                task: CriticalTask::MarketData,
                core_id: a.market_data,
                cpus,
            },
        ),
        a.market_data < cpus && a.order_execution >= cpus <==> assignment_error(a, cpus) == Some(
            CoreAssignmentError::InvalidCore {
                task: CriticalTask::OrderExecution,
                core_id: a.order_execution,
                cpus,
            },
        ),
        a.market_data < cpus && a.order_execution < cpus && a.risk_management >= cpus
            <==> assignment_error(a, cpus) == Some(
            CoreAssignmentError::InvalidCore {
                task: CriticalTask::RiskManagement,
                core_id: a.risk_management,
                cpus,
            },
        ),
        assignment_error(a, cpus) == Some(
            CoreAssignmentError::Conflict(CriticalTask::OrderExecution),
        ) ==> a.order_execution == a.market_data,
        assignment_error(a, cpus) == Some(
            CoreAssignmentError::Conflict(CriticalTask::RiskManagement),
        ) ==> a.order_execution != a.market_data,
        assignment_error(a, cpus) != Some(CoreAssignmentError::Conflict(CriticalTask::MarketData)),
{
}

/// A machine suits the work from six logical processors and four cores on, with one memory node.
pub proof fn law_suitable_machines(cpu: CpuTopology, nodes: nat)
    ensures
        HardwareConfig::suits(cpu, nodes) ==> cpu.logical_cpus >= 6,
        HardwareConfig::suits(cpu, nodes) ==> cpu.physical_cores >= 4,
        HardwareConfig::suits(cpu, nodes) ==> nodes == 1,
        cpu.logical_cpus >= 6 && cpu.physical_cores >= 4 ==> HardwareConfig::suits(cpu, 1),
        truth(true) == "true"@ && truth(false) == "false"@,
{
}

} // verus!
