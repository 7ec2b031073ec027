//! System tunings that are applied at startup: isolated processors, network interrupts, buffer sizes
//! and limits.
use crate::hardware::irq_affinity::{AffinityWrite, IrqAffinity};
use crate::hardware::isolcpus::IsolCpusManager;
use vstd::prelude::*;
use vstd::string::StringExecFns;

verus! {

/// Largest number of messages that are kept
pub const MAX_ERRORS: usize = 16;

/// Number of open files to allow
pub const FD_TARGET: u64 = 65536;

/// Size of the socket buffers
pub const BUFFER_BYTES: u64 = 16777216;

/// Result of tuning application
#[derive(Debug)]
pub struct TuningResult {
    pub success: bool,
    pub tunings_applied: u32,
    /// Messages, of warnings too
    pub errors: Vec<String>,
    pub error_count: usize,
    /// How many of the messages are warnings, which leave the success as it is
    pub warning_count: usize,
}

impl TuningResult {
    pub open spec fn inv(&self) -> bool {
        &&& self.error_count == self.errors@.len()
        &&& self.errors@.len() <= MAX_ERRORS
        &&& self.warning_count <= self.error_count
    }

    /// How many messages are no warnings.
    pub open spec fn failures(&self) -> int {
        self.error_count - self.warning_count
    }

    /// The messages.
    pub open spec fn messages(&self) -> Seq<Seq<char>> {
        self.errors@.map_values(|s: String| s@)
    }

    /// A result without messages
    pub fn new() -> (r: Self)
        ensures
            r.inv(),
            r.success,
            r.tunings_applied == 0,
            r.messages().len() == 0,
            r.error_count == 0,
            r.failures() == 0,
    {
        Self {
            success: true,
            tunings_applied: 0,
            errors: Vec::new(),
            error_count: 0,
            warning_count: 0,
        }
    }

    /// Keep a message, where there is room
    pub fn add_error(&mut self, err: &str)
        requires
            old(self).inv(),
        ensures
            final(self).inv(),
            final(self).success == old(self).success,
            final(self).tunings_applied == old(self).tunings_applied,
            final(self).messages() == if old(self).error_count < MAX_ERRORS {
                old(self).messages().push(err@)
            } else {
                old(self).messages()
            },
            final(self).warning_count == old(self).warning_count,
    {
        if self.error_count < MAX_ERRORS {
            let ghost before = self.messages();
            self.errors.push(err.to_owned());
            self.error_count = self.error_count + 1;
            assert(self.messages() =~= before.push(err@));
        }
    }

    /// Keep a warning, where there is room; it does not affect success
    pub fn add_warning(&mut self, msg: &str)
        requires
            old(self).inv(),
        ensures
            final(self).inv(),
            final(self).success == old(self).success,
            final(self).tunings_applied == old(self).tunings_applied,
            final(self).messages() == if old(self).error_count < MAX_ERRORS {
                old(self).messages().push(msg@)
            } else {
                old(self).messages()
            },
            final(self).failures() == old(self).failures(),
    {
        if self.error_count < MAX_ERRORS {
            self.warning_count = self.warning_count + 1;
            let ghost before = self.messages();
            self.errors.push(msg.to_owned());
            self.error_count = self.error_count + 1;
            assert(self.messages() =~= before.push(msg@));
        }
    }

    pub fn get_errors(&self) -> (r: &Vec<String>)
        ensures
            *r == self.errors,
    {
        &self.errors
    }
}

/// Current tuning status
#[derive(Debug, Clone, Copy, PartialEq, Eq, Structural)]
pub struct TuningStatus {
    pub tuning_applied: bool,
    pub tcp_sndbuf: u64,
    pub tcp_rcvbuf: u64,
    pub fd_limit: u64,
    pub isolcpus_detected: bool,
    pub irq_affinity_set: bool,
    pub target_cpu: u32,
}

/// What the files of the machine hold, where they could be read.
#[derive(Debug)]
pub struct TuningFiles {
    /// List of the isolated processors
    pub isolated: Option<String>,
    /// Package of each processor
    pub package_ids: Vec<Option<String>>,
    /// Interrupt table
    pub interrupts: Option<String>,
}

/// Kernel setting.
#[derive(Debug, Clone, Copy)]
pub struct KernelSetting {
    pub path: &'static str,
    pub value: &'static str,
}

/// The network settings, in the order in which they are written: the largest receive and send
/// buffers, the receive and send buffers, low latency, and the backlog.
pub open spec fn network_settings() -> Seq<KernelSetting> {
    seq![
        KernelSetting { path: "/proc/sys/net/core/rmem_max", value: "16777216" },
        KernelSetting { path: "/proc/sys/net/core/wmem_max", value: "16777216" },
        KernelSetting { path: "/proc/sys/net/ipv4/tcp_rmem", value: "4096 262144 16777216" },
        KernelSetting { path: "/proc/sys/net/ipv4/tcp_wmem", value: "4096 262144 16777216" },
        KernelSetting { path: "/proc/sys/net/ipv4/tcp_low_latency", value: "1" },
        KernelSetting { path: "/proc/sys/net/core/netdev_max_backlog", value: "65536" },
    ]
}

/// The network settings to write
pub fn tcp_settings() -> (r: Vec<KernelSetting>)
    ensures
        r@ == network_settings(),
{
    let mut r: Vec<KernelSetting> = Vec::new();
    r.push(KernelSetting { path: "/proc/sys/net/core/rmem_max", value: "16777216" });
    r.push(KernelSetting { path: "/proc/sys/net/core/wmem_max", value: "16777216" });
    r.push(KernelSetting { path: "/proc/sys/net/ipv4/tcp_rmem", value: "4096 262144 16777216" });
    r.push(KernelSetting { path: "/proc/sys/net/ipv4/tcp_wmem", value: "4096 262144 16777216" });
    r.push(KernelSetting { path: "/proc/sys/net/ipv4/tcp_low_latency", value: "1" });
    r.push(KernelSetting { path: "/proc/sys/net/core/netdev_max_backlog", value: "65536" });
    assert(r@ =~= network_settings());
    r
}

/// What came of looking at and raising the limit of open files.
#[derive(Debug, Clone, Copy, PartialEq, Eq, Structural)]
pub struct FdOutcome {
    /// The limit, where it could be read
    pub current: Option<u64>,
    /// The limit could be raised to the target
    pub raised: bool,
}

impl FdOutcome {
    /// True where the limit is too low and could not be raised.
    pub open spec fn failed(self) -> bool {
        match self.current {
            Some(limit) => limit < FD_TARGET && !self.raised,
            None => false,
        }
    }

    /// The limit that is known afterwards.
    pub open spec fn limit_after(self, before: u64) -> u64 {
        match self.current {
            Some(limit) => if limit < FD_TARGET && self.raised {
                FD_TARGET
            } else {
                limit
            },
            None => before,
        }
    }
}

/// The size of a buffer once its two settings were written or not: the largest size, and the least,
/// usual and largest size together.
pub open spec fn buffer_after(before: u64, max_written: bool, triple_written: bool) -> u64 {
    if max_written || triple_written {
        BUFFER_BYTES
    } else {
        before
    }
}

/// The network interrupts that a table names for an interface.
pub open spec fn table_irqs(table: Option<String>, interface: Seq<char>) -> Seq<i32> {
    match table {
        Some(content) => crate::hardware::irq_affinity::first_irqs(
            crate::hardware::irq_affinity::nic_irqs_in(
                crate::text::lines(content@),
                interface,
            ),
        ),
        None => Seq::empty(),
    }
}

/// The interrupts of a table to be bound.
pub open spec fn irqs_of(table: Option<String>, interface: Seq<char>) -> Seq<i32> {
    let found = table_irqs(table, interface);
    crate::hardware::irq_affinity::numbered(found, found.len() as int)
}

/// The interrupts of a table to be bound
pub fn irqs_to_bind(table: &Option<String>, interface: &str) -> (r: Vec<i32>)
    ensures
        r@ == irqs_of(*table, interface@),
{
    let mut affinity = IrqAffinity::new();
    let text = match table {
        Some(s) => Some(s.as_str()),
        None => None,
    };
    let _ = affinity.detect_nic_irqs(text, interface);
    proof {
        let found = table_irqs(*table, interface@);
        lemma_numbered_prefix(affinity.nic_irqs@, found, affinity.nic_irq_count as int);
    }
    affinity.bindable_irqs()
}

/// Only the first interrupts matter.
proof fn lemma_numbered_prefix(all: Seq<i32>, found: Seq<i32>, k: int)
    requires
        0 <= k <= found.len() <= all.len(),
        forall|i: int| 0 <= i < k ==> all[i] == found[i],
    ensures
        crate::hardware::irq_affinity::numbered(all, k) == crate::hardware::irq_affinity::numbered(
            found,
            k,
        ),
    decreases k,
{
    if k > 0 {
        lemma_numbered_prefix(all, found, k - 1);
    }
}

/// A list of processors is no longer than the number of processors.
proof fn lemma_list_bound(words: Seq<u64>, below: int)
    ensures
        crate::hardware::isolcpus::isolated_list(words, below).len() <= if below > 0 {
            below
        } else {
            0
        },
    decreases below,
{
    if below > 0 {
        lemma_list_bound(words, below - 1);
    }
}

/// System tuning configuration
#[derive(Debug)]
pub struct SystemTuning {
    /// IRQ affinity manager
    pub irq_affinity: IrqAffinity,
    /// Isolated CPUs manager
    pub isolcpus: IsolCpusManager,
    /// Whether tuning has been applied
    pub tuning_applied: bool,
    /// TCP send buffer size (bytes)
    pub tcp_sndbuf: u64,
    /// TCP receive buffer size (bytes)
    pub tcp_rcvbuf: u64,
    /// File descriptor limit
    pub fd_limit: u64,
}

/// How many isolated processors a listing leads to.
pub open spec fn isolated_count(isolcpus: IsolCpusManager, listing: Option<String>) -> nat {
    match listing {
        Some(content) => if crate::text::trim(content@).len() == 0 {
            0
        } else {
            crate::hardware::isolcpus::isolated_list(isolcpus.config.isolated_mask@, 256).len()
        },
        None => 0,
    }
}

/// The messages on the isolated processors.
pub open spec fn isolation_messages(
    isolcpus: IsolCpusManager,
    listing: Option<String>,
) -> Seq<Seq<char>> {
    if listing is None {
        seq!["Failed to read isolated CPUs from sysfs"@]
    } else if isolated_count(isolcpus, listing) == 0 {
        seq!["No isolated CPUs detected - consider setting isolcpus kernel parameter"@]
    } else {
        Seq::empty()
    }
}

/// The messages on the processor to trade on.
pub open spec fn cpu_messages(isolcpus: IsolCpusManager, cpu: usize) -> Seq<Seq<char>> {
    if cpu >= 256 {
        seq!["Trading CPU validation failed"@, "CPU index out of range"@]
    } else if !isolcpus.config.isolated(cpu as int) {
        seq![
            "Trading CPU validation failed"@,
            "CPU is not isolated - may experience scheduler preemption"@,
        ]
    } else {
        Seq::empty()
    }
}

/// The messages on the network interrupts.
pub open spec fn irq_messages(
    table: Option<String>,
    interface: Seq<char>,
    cpu: usize,
) -> Seq<Seq<char>> {
    if table is None {
        seq!["Failed to read /proc/interrupts"@]
    } else if table_irqs(table, interface).len() == 0 {
        seq!["No NIC IRQs found for interface: "@ + interface]
    } else if cpu >= 256 {
        seq!["CPU index out of range"@]
    } else {
        Seq::empty()
    }
}

/// The message on the limit of open files.
pub open spec fn fd_messages(fd: FdOutcome) -> Seq<Seq<char>> {
    if fd.failed() {
        seq!["Failed to increase FD limit (may need root)"@]
    } else {
        Seq::empty()
    }
}

/// One where a step fails.
pub open spec fn one_if(failed: bool) -> int {
    if failed {
        1
    } else {
        0
    }
}

/// True where the interrupts cannot be read or bound.
pub open spec fn irqs_fail(table: Option<String>, interface: Seq<char>, cpu: usize) -> bool {
    table is None || (table_irqs(table, interface).len() > 0 && cpu >= 256)
}

/// All messages of the tunings, in the order of the steps.
pub open spec fn tuning_messages(
    isolcpus: IsolCpusManager,
    files: TuningFiles,
    cpu: usize,
    interface: Seq<char>,
    fd: FdOutcome,
) -> Seq<Seq<char>> {
    isolation_messages(isolcpus, files.isolated) + cpu_messages(isolcpus, cpu) + irq_messages(
        files.interrupts,
        interface,
        cpu,
    ) + fd_messages(fd)
}

/// How many tunings were applied: memory nodes and buffers always, isolation, interrupts and the
/// limit of open files where they led to something.
pub open spec fn tunings(
    isolcpus: IsolCpusManager,
    files: TuningFiles,
    cpu: usize,
    interface: Seq<char>,
    fd: FdOutcome,
) -> int {
    2 + (if isolated_count(isolcpus, files.isolated) > 0 {
        1int
    } else {
        0
    }) + (if table_irqs(files.interrupts, interface).len() > 0 && cpu < 256 {
        1int
    } else {
        0
    }) + (if fd.failed() {
        0int
    } else {
        1
    })
}

/// True where `after` is what is known of the isolated processors and the memory nodes once the
/// listing and the packages were read.
pub open spec fn isolation_known(
    before: IsolCpusManager,
    after: IsolCpusManager,
    files: TuningFiles,
) -> bool {
    &&& match files.isolated {
        Some(content) => {
            let list = crate::text::trim(content@);
            &&& forall|c: int| #[trigger]
                after.config.isolated(c) == (0 <= c < 256 && list.len() > 0
                    && crate::hardware::isolcpus::list_names(crate::text::split(list, ','), c))
            &&& after.config.isolated_count == if list.len() == 0 {
                0
            } else {
                crate::hardware::isolcpus::isolated_list(after.config.isolated_mask@, 256).len()
            }
            &&& after.initialized == (list.len() > 0 || before.initialized)
        },
        None => {
            &&& after.config.isolated_mask == before.config.isolated_mask
            &&& after.config.isolated_count == before.config.isolated_count
            &&& after.initialized == before.initialized
        },
    }
    &&& after.config.isolcpus_detected == before.config.isolcpus_detected
    &&& after.config.housekeeping_mask == before.config.housekeeping_mask
    &&& forall|c: int|
        0 <= c < 256 ==> #[trigger] after.config.cpu_numa_node@[c]
            == crate::hardware::isolcpus::node_after(
            before.config.cpu_numa_node@[c],
            files.package_ids@[c],
        )
}

/// True where `after` is what is known of the network interrupts once they were detected and, where
/// there are some and the processor is in range, written to be bound to it.
pub open spec fn irqs_bound(
    before: IrqAffinity,
    after: IrqAffinity,
    table: Option<String>,
    interface: Seq<char>,
    cpu: usize,
    writes: Seq<AffinityWrite>,
) -> bool {
    let found = table_irqs(table, interface);
    &&& after.nic_irq_count == found.len()
    &&& after.nic_irqs@ == found + before.nic_irqs@.skip(found.len() as int)
    &&& if found.len() > 0 && cpu < 256 {
        &&& after.target_cpu == cpu
        &&& after.affinity_set == (before.affinity_set || crate::hardware::irq_affinity::successes(
            writes,
            writes.len() as int,
        ) > 0)
        &&& after.original_masks@ == crate::hardware::irq_affinity::masks_after(
            before.original_masks@,
            after.nic_irqs@,
            irqs_of(table, interface),
            writes,
            writes.len() as int,
        )
    } else {
        &&& after.target_cpu == before.target_cpu
        &&& after.affinity_set == before.affinity_set
        &&& after.original_masks == before.original_masks
    }
}

impl SystemTuning {
    pub open spec fn inv(&self) -> bool {
        self.irq_affinity.wf()
    }

    /// True where nothing was tuned or detected.
    pub open spec fn blank(&self) -> bool {
        &&& !self.tuning_applied
        &&& self.tcp_sndbuf == 0
        &&& self.tcp_rcvbuf == 0
        &&& self.fd_limit == 0
        &&& self.irq_affinity.blank()
        &&& self.isolcpus.config.blank()
        &&& !self.isolcpus.initialized
    }

    pub fn new() -> (t: Self)
        ensures
            t.inv(),
            t.blank(),
    {
        Self {
            irq_affinity: IrqAffinity::new(),
            isolcpus: IsolCpusManager::new(),
            tuning_applied: false,
            tcp_sndbuf: 0,
            tcp_rcvbuf: 0,
            fd_limit: 0,
        }
    }

    /// Apply all system tunings
    ///
    /// `writes` says what came of writing the affinity of each interrupt of `irqs_to_bind`,
    /// `written` which of the network settings were written, and `fd` what came of raising the
    /// limit of open files. A failure of one step does not stop the others; each leaves a message.
    pub fn apply_all(
        &mut self,
        trading_cpu: usize,
        nic_interface: &str,
        files: &TuningFiles,
        writes: &[AffinityWrite],
        written: &[bool; 6],
        fd: FdOutcome,
    ) -> (r: TuningResult)
        requires
            old(self).inv(),
            files.package_ids@.len() == crate::hardware::isolcpus::MAX_ISOL_CPUS,
            writes@.len() == irqs_of(files.interrupts, nic_interface@).len(),
        ensures
            final(self).inv(),
            r.inv(),
            r.messages() == tuning_messages(
                final(self).isolcpus,
                *files,
                trading_cpu,
                nic_interface@,
                fd,
            ),
            r.tunings_applied == tunings(
                final(self).isolcpus,
                *files,
                trading_cpu,
                nic_interface@,
                fd,
            ),
            r.success == !(files.isolated is None || cpu_messages(
                final(self).isolcpus,
                trading_cpu,
            ).len() > 0 || irqs_fail(files.interrupts, nic_interface@, trading_cpu)),
            final(self).tuning_applied,
            final(self).tcp_rcvbuf == buffer_after(old(self).tcp_rcvbuf, written@[0], written@[2]),
            final(self).tcp_sndbuf == buffer_after(old(self).tcp_sndbuf, written@[1], written@[3]),
            final(self).fd_limit == fd.limit_after(old(self).fd_limit),
            isolation_known(old(self).isolcpus, final(self).isolcpus, *files),
            irqs_bound(
                old(self).irq_affinity,
                final(self).irq_affinity,
                files.interrupts,
                nic_interface@,
                trading_cpu,
                writes@,
            ),
    {
        let mut result = TuningResult::new();
        self.tune_isolation(files, &mut result);
        self.check_cpu(trading_cpu, &mut result);
        let ghost isolcpus = self.isolcpus;
        let ghost first = result.messages();
        self.tune_irqs(trading_cpu, nic_interface, &files.interrupts, writes, &mut result);
        self.tune_limits(written, fd, &mut result);
        proof {
            assert(first =~= isolation_messages(isolcpus, files.isolated) + cpu_messages(
                isolcpus,
                trading_cpu,
            ));
            assert(result.messages() =~= tuning_messages(
                self.isolcpus,
                *files,
                trading_cpu,
                nic_interface@,
                fd,
            ));
        }
        self.tuning_applied = true;
        result.success = result.error_count == result.warning_count;
        result
    }

    /// Detect the isolated processors and the memory nodes.
    fn tune_isolation(&mut self, files: &TuningFiles, result: &mut TuningResult)
        requires
            old(result).inv(),
            old(result).error_count == 0,
            old(result).failures() == 0,
            old(result).tunings_applied == 0,
            files.package_ids@.len() == crate::hardware::isolcpus::MAX_ISOL_CPUS,
        ensures
            final(result).inv(),
            final(result).messages() == isolation_messages(final(self).isolcpus, files.isolated),
            final(result).failures() == one_if(files.isolated is None),
            final(result).tunings_applied == 1 + if isolated_count(
                final(self).isolcpus,
                files.isolated,
            ) > 0 {
                1int
            } else {
                0
            },
            *final(self) == (SystemTuning { isolcpus: final(self).isolcpus, ..*old(self) }),
            isolation_known(old(self).isolcpus, final(self).isolcpus, *files),
    {
        let listing = match &files.isolated {
            Some(s) => Some(s.as_str()),
            None => None,
        };
        match self.isolcpus.detect_from_sysfs(listing) {
            Ok(count) => {
                if count > 0 {
                    result.tunings_applied = result.tunings_applied + 1;
                } else {
                    result.add_warning(
                        "No isolated CPUs detected - consider setting isolcpus kernel parameter",
                    );
                }
            },
            Err(e) => {
                result.add_error(e);
            },
        }
        let ghost detected = self.isolcpus;
        match self.isolcpus.detect_numa_topology(&files.package_ids) {
            Ok(_) => {
                result.tunings_applied = result.tunings_applied + 1;
            },
            Err(e) => {
                result.add_warning(e);
            },
        }
        proof {
            lemma_list_bound(self.isolcpus.config.isolated_mask@, 256);
            assert(result.messages() =~= isolation_messages(self.isolcpus, files.isolated));
            assert forall|c: int| #[trigger]
                self.isolcpus.config.isolated(c) == detected.config.isolated(c) by {
            }
        }
    }

    /// Validate the processor to trade on.
    fn check_cpu(&self, trading_cpu: usize, result: &mut TuningResult)
        requires
            old(result).inv(),
            old(result).messages().len() <= 10,
        ensures
            final(result).inv(),
            final(result).messages() == old(result).messages() + cpu_messages(
                self.isolcpus,
                trading_cpu,
            ),
            final(result).failures() == old(result).failures() + one_if(
                cpu_messages(self.isolcpus, trading_cpu).len() > 0,
            ),
            final(result).tunings_applied == old(result).tunings_applied,
    {
        let validation = self.isolcpus.validate_trading_cpu(trading_cpu);
        if !validation.is_valid {
            result.add_error("Trading CPU validation failed");
            let issues = validation.get_issues();
            assert(issues@.len() == 1 && issues@[0] == validation.issues@[0]);
            if let Some(text) = issues[0] {
                result.add_warning(text);
            }
        }
        assert(result.messages() =~= old(result).messages() + cpu_messages(
            self.isolcpus,
            trading_cpu,
        ));
    }

    /// Bind the network interrupts to the processor to trade on.
    fn tune_irqs(
        &mut self,
        trading_cpu: usize,
        nic_interface: &str,
        interrupts: &Option<String>,
        writes: &[AffinityWrite],
        result: &mut TuningResult,
    )
        requires
            old(self).inv(),
            old(result).inv(),
            old(result).messages().len() <= 10,
            old(result).tunings_applied <= 10,
            writes@.len() == irqs_of(*interrupts, nic_interface@).len(),
        ensures
            final(self).inv(),
            final(result).inv(),
            final(result).messages() == old(result).messages() + irq_messages(
                *interrupts,
                nic_interface@,
                trading_cpu,
            ),
            final(result).failures() == old(result).failures() + one_if(
                irqs_fail(*interrupts, nic_interface@, trading_cpu),
            ),
            final(result).tunings_applied == old(result).tunings_applied + if table_irqs(
                *interrupts,
                nic_interface@,
            ).len() > 0 && trading_cpu < 256 {
                1int
            } else {
                0
            },
            *final(self) == (SystemTuning { irq_affinity: final(self).irq_affinity, ..*old(self) }),
            irqs_bound(
                old(self).irq_affinity,
                final(self).irq_affinity,
                *interrupts,
                nic_interface@,
                trading_cpu,
                writes@,
            ),
    {
        let table = match interrupts {
            Some(s) => Some(s.as_str()),
            None => None,
        };
        match self.irq_affinity.detect_nic_irqs(table, nic_interface) {
            Ok(count) => {
                if count > 0 {
                    proof {
                        let found = table_irqs(*interrupts, nic_interface@);
                        lemma_numbered_prefix(
                            self.irq_affinity.nic_irqs@,
                            found,
                            self.irq_affinity.nic_irq_count as int,
                        );
                    }
                    match self.irq_affinity.bind_to_cpu(trading_cpu, writes) {
                        Ok(_) => {
                            result.tunings_applied = result.tunings_applied + 1;
                        },
                        Err(e) => {
                            result.add_error(e);
                        },
                    }
                } else {
                    let mut message = "No NIC IRQs found for interface: ".to_owned();
                    message.append(nic_interface);
                    result.add_warning(message.as_str());
                }
            },
            Err(e) => {
                result.add_error(e);
            },
        }
        assert(self.irq_affinity.nic_irqs@ =~= table_irqs(*interrupts, nic_interface@)
            + old(self).irq_affinity.nic_irqs@.skip(
            table_irqs(*interrupts, nic_interface@).len() as int,
        ));
        assert(result.messages() =~= old(result).messages() + irq_messages(
            *interrupts,
            nic_interface@,
            trading_cpu,
        ));
    }

    /// Take note of the buffers and of the limit of open files.
    fn tune_limits(&mut self, written: &[bool; 6], fd: FdOutcome, result: &mut TuningResult)
        requires
            old(result).inv(),
            old(result).messages().len() <= 10,
            old(result).tunings_applied <= 10,
        ensures
            final(result).inv(),
            final(result).messages() == old(result).messages() + fd_messages(fd),
            final(result).failures() == old(result).failures(),
            final(result).tunings_applied == old(result).tunings_applied + 1 + if fd.failed() {
                0int
            } else {
                1
            },
            *final(self) == (SystemTuning {
                tcp_rcvbuf: buffer_after(old(self).tcp_rcvbuf, written@[0], written@[2]),
                tcp_sndbuf: buffer_after(old(self).tcp_sndbuf, written@[1], written@[3]),
                fd_limit: fd.limit_after(old(self).fd_limit),
                ..*old(self)
            }),
    {
        match self.tune_tcp_buffers(written) {
            Ok(_) => {
                result.tunings_applied = result.tunings_applied + 1;
            },
            Err(e) => {
                result.add_warning(e);
            },
        }
        match self.increase_fd_limit(fd) {
            Ok(_) => {
                result.tunings_applied = result.tunings_applied + 1;
            },
            Err(e) => {
                result.add_warning(e);
            },
        }
        assert(result.messages() =~= old(result).messages() + fd_messages(fd));
    }

    /// Tune TCP buffer sizes for low latency: takes note of the settings that were written
    fn tune_tcp_buffers(&mut self, written: &[bool; 6]) -> (r: Result<(), &'static str>)
        ensures
            r is Ok,
            *final(self) == (SystemTuning {
                tcp_rcvbuf: buffer_after(old(self).tcp_rcvbuf, written@[0], written@[2]),
                tcp_sndbuf: buffer_after(old(self).tcp_sndbuf, written@[1], written@[3]),
                ..*old(self)
            }),
    {
        if written[0] || written[2] {
            self.tcp_rcvbuf = BUFFER_BYTES;
        }
        if written[1] || written[3] {
            self.tcp_sndbuf = BUFFER_BYTES;
        }
        Ok(())
    }

    /// Increase file descriptor limit: takes note of the limit, and of whether it could be raised
    fn increase_fd_limit(&mut self, fd: FdOutcome) -> (r: Result<(), &'static str>)
        ensures
            r is Ok <==> !fd.failed(),
            r matches Err(e) ==> e@ == "Failed to increase FD limit (may need root)"@,
            *final(self) == (SystemTuning {
                fd_limit: fd.limit_after(old(self).fd_limit),
                ..*old(self)
            }),
    {
        if let Some(limit) = fd.current {
            self.fd_limit = limit;
            if limit < FD_TARGET {
                if !fd.raised {
                    return Err("Failed to increase FD limit (may need root)");
                }
                self.fd_limit = FD_TARGET;
            }
        }
        Ok(())
    }

    /// Get tuning status
    pub fn get_status(&self) -> (s: TuningStatus)
        ensures
            s == (TuningStatus {
                tuning_applied: self.tuning_applied,
                tcp_sndbuf: self.tcp_sndbuf,
                tcp_rcvbuf: self.tcp_rcvbuf,
                fd_limit: self.fd_limit,
                isolcpus_detected: self.isolcpus.initialized,
                irq_affinity_set: self.irq_affinity.affinity_set,
                target_cpu: self.irq_affinity.target_cpu,
            }),
    {
        TuningStatus {
            tuning_applied: self.tuning_applied,
            tcp_sndbuf: self.tcp_sndbuf,
            tcp_rcvbuf: self.tcp_rcvbuf,
            fd_limit: self.fd_limit,
            isolcpus_detected: self.isolcpus.is_initialized(),
            irq_affinity_set: self.irq_affinity.is_affinity_set(),
            target_cpu: self.irq_affinity.get_target_cpu(),
        }
    }
}

impl Default for SystemTuning {
    fn default() -> (t: Self)
        ensures
            t.inv(),
            t.blank(),
    {
        Self::new()
    }
}

/// The limit of open files is raised to 65536 where it is lower and can be raised; it is never lowered,
/// and stays as it was where it is not known.
pub proof fn law_file_limit_is_raised(fd: FdOutcome, before: u64)
    ensures
        fd.current matches Some(limit) ==> fd.limit_after(before) >= limit,
        fd.current matches Some(limit) ==> (limit < 65536 && fd.raised ==> fd.limit_after(before)
            == 65536),
        fd.current matches Some(limit) ==> (limit >= 65536 || !fd.raised ==> fd.limit_after(before)
            == limit),
        fd.current is None ==> fd.limit_after(before) == before && !fd.failed(),
        fd.failed() <==> fd.current is Some && fd.limit_after(before) < 65536,
{
}

/// A buffer is sixteen mebibytes once either of its settings was written.
pub proof fn law_buffers_after_writes(before: u64)
    ensures
        buffer_after(before, true, true) == 16 * 1024 * 1024,
        buffer_after(before, true, false) == 16 * 1024 * 1024,
        buffer_after(before, false, true) == 16 * 1024 * 1024,
        buffer_after(before, false, false) == before,
{
}

/// Of five tunings two always take hold; isolation, interrupts and the limit of open files where
/// nothing stands in their way. What does is told: one message for isolation, two for the processor,
/// one for interrupts and one for the limit.
pub proof fn law_tunings_that_fail_are_told(
    isolcpus: IsolCpusManager,
    files: TuningFiles,
    cpu: usize,
    interface: Seq<char>,
    fd: FdOutcome,
)
    ensures
        ({
            let no_isolation = isolated_count(isolcpus, files.isolated) == 0;
            let bad_cpu = cpu >= 256 || !isolcpus.config.isolated(cpu as int);
            let no_irqs = table_irqs(files.interrupts, interface).len() == 0 || cpu >= 256;
            let a = if no_isolation { 1int } else { 0 };
            let b = if bad_cpu { 2int } else { 0 };
            let c = if no_irqs { 1int } else { 0 };
            let d = if fd.failed() { 1int } else { 0 };
            &&& tunings(isolcpus, files, cpu, interface, fd) == 5 - a - c - d
            &&& tuning_messages(isolcpus, files, cpu, interface, fd).len() == a + b + c + d
        }),
{
}

/// What the messages say.
pub proof fn law_messages_name_what_failed(
    isolcpus: IsolCpusManager,
    listing: Option<String>,
    table: Option<String>,
    interface: Seq<char>,
    cpu: usize,
    fd: FdOutcome,
)
    ensures
        listing is None ==> isolation_messages(isolcpus, listing)[0]
            == "Failed to read isolated CPUs from sysfs"@,
        listing is Some && isolated_count(isolcpus, listing) == 0 ==> isolation_messages(
            isolcpus,
            listing,
        )[0] == "No isolated CPUs detected - consider setting isolcpus kernel parameter"@,
        cpu >= 256 ==> cpu_messages(isolcpus, cpu)[1] == "CPU index out of range"@,
        cpu < 256 && !isolcpus.config.isolated(cpu as int) ==> cpu_messages(isolcpus, cpu)[1]
            == "CPU is not isolated - may experience scheduler preemption"@,
        table is None ==> irq_messages(table, interface, cpu)[0]
            == "Failed to read /proc/interrupts"@,
        table is Some && table_irqs(table, interface).len() == 0 ==> irq_messages(
            table,
            interface,
            cpu,
        )[0] == "No NIC IRQs found for interface: "@ + interface,
        table_irqs(table, interface).len() > 0 && cpu >= 256 ==> irq_messages(
            table,
            interface,
            cpu,
        )[0] == "CPU index out of range"@,
        fd.failed() ==> fd_messages(fd)[0] == "Failed to increase FD limit (may need root)"@,
        irqs_fail(table, interface, cpu) <==> table is None || (irq_messages(
            table,
            interface,
            cpu,
        ).len() > 0 && table_irqs(table, interface).len() > 0),
        one_if(true) == 1 && one_if(false) == 0,
{
}

/// The interrupts to bind are those of the network lines, without the ones below zero.
pub proof fn law_interrupts_to_bind(table: Option<String>, interface: Seq<char>)
    ensures
        irqs_of(table, interface) == table_irqs(table, interface).filter(|n: i32| n >= 0),
        table is None ==> irqs_of(table, interface).len() == 0,
        table_irqs(table, interface).len() <= 32,
{
    let found = table_irqs(table, interface);
    let masks = Seq::new(found.len(), |i: int| arbitrary::<crate::hardware::irq_affinity::CpuMask>());
    crate::hardware::irq_affinity::law_interrupts_below_zero_are_left_out(
        found,
        masks,
        found.len() as int,
    );
    assert(found.take(found.len() as int) =~= found);
    reveal(Seq::filter);
    if let Some(content) = table {
        crate::hardware::irq_affinity::law_interrupts_are_those_of_the_lines(
            crate::text::lines(content@),
            interface,
        );
    }
}

/// The network settings: the largest buffers of sixteen mebibytes in both directions, low latency,
/// and a backlog of 65536.
pub proof fn law_network_settings()
    ensures
        network_settings().len() == 6,
        network_settings()[0].path@ == "/proc/sys/net/core/rmem_max"@
            && network_settings()[0].value@ == "16777216"@,
        network_settings()[1].path@ == "/proc/sys/net/core/wmem_max"@
            && network_settings()[1].value@ == network_settings()[0].value@,
        network_settings()[2].path@ == "/proc/sys/net/ipv4/tcp_rmem"@
            && network_settings()[2].value@ == "4096 262144 16777216"@,
        network_settings()[3].path@ == "/proc/sys/net/ipv4/tcp_wmem"@
            && network_settings()[3].value@ == network_settings()[2].value@,
        network_settings()[4].path@ == "/proc/sys/net/ipv4/tcp_low_latency"@
            && network_settings()[4].value@ == "1"@,
        network_settings()[5].path@ == "/proc/sys/net/core/netdev_max_backlog"@
            && network_settings()[5].value@ == "65536"@,
{
}

/// As many processors are isolated as the mask names, unless the listing is missing or says nothing.
pub proof fn law_isolated_processors_are_counted(isolcpus: IsolCpusManager, listing: Option<String>)
    ensures
        listing is None ==> isolated_count(isolcpus, listing) == 0,
        listing matches Some(c) ==> (c@.len() == 0 ==> isolated_count(isolcpus, listing) == 0),
        listing matches Some(c) ==> (crate::text::trim(c@).len() > 0 ==> isolated_count(
            isolcpus,
            listing,
        ) == crate::tally::count(256, |cpu: int| isolcpus.config.isolated(cpu))),
{
    lemma_isolated_count(isolcpus, 256);
}

proof fn lemma_isolated_count(isolcpus: IsolCpusManager, below: nat)
    ensures
        crate::hardware::isolcpus::isolated_list(
            isolcpus.config.isolated_mask@,
            below as int,
        ).len() == crate::tally::count(below, |cpu: int| isolcpus.config.isolated(cpu)),
    decreases below,
{
    if below > 0 {
        lemma_isolated_count(isolcpus, (below - 1) as nat);
    }
}

} // verus!
