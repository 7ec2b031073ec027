use hft_core::hardware::config::{
    get_recommended_pool_sizes, recommended_stack_size, validate_core_assignments, CoreAssignmentError,
    CriticalTask, HardwareConfig,
};
use hft_core::hardware::cpu_pin::{
    core_exists, is_valid_core, num_cpus, num_physical_cores, physical_cores_of, CpuTopology, PinnedThreadBuilder,
};
use hft_core::hardware::diagnostic::{
    read_tjmax, DiagnosticEvent, HardwareDiagnostics, MitigationAction, PowerState, SensorFiles,
    ThermalSeverity, ThermalState,
};
use hft_core::hardware::irq_affinity::{AffinityWrite, CpuMask, IrqAffinity};
use hft_core::hardware::isolcpus::{IsolCpusConfig, IsolCpusManager};
use hft_core::hardware::monitor::HardwareMonitor;
use hft_core::hardware::numa::{
    get_hft_numa_config, get_total_memory, read_node_memory, NodeFiles, NumaAllocator, NumaTopology,
};
use hft_core::hardware::topology::{
    parse_online, read_cpu_model, CoreFiles, NodeEntry, SystemTopology, ThreadAffinityManager,
    ThreadPriority, TopologyFiles,
};
use hft_core::hardware::tuning::{
    irqs_to_bind, tcp_settings, FdOutcome, SystemTuning, TuningFiles, TuningResult,
};

const MEMINFO: &str = "MemTotal:       16384256 kB\nMemFree:         1000 kB\n";

fn text(s: &str) -> Option<String> {
    Some(s.to_string())
}

#[test]
fn test_cpu_topology_detection() {
    let topology = CpuTopology::detect();

    assert!(topology.logical_cpus > 0);
    assert!(topology.physical_cores > 0);
    assert!(topology.logical_cpus >= topology.physical_cores);

    println!("Detected CPU Topology: {:?}", topology);
}

#[test]
fn test_core_assignment() {
    let topology = CpuTopology::detect();
    let assignment = topology.get_hft_core_assignment();

    assert!(is_valid_core(assignment.market_data));
    assert!(is_valid_core(assignment.order_execution));
    assert!(is_valid_core(assignment.risk_management));
    assert!(is_valid_core(assignment.telemetry));

    println!("HFT Core Assignment: {:?}", assignment);
}

#[test]
fn test_is_valid_core() {
    let num = num_cpus();

    assert!(is_valid_core(0));
    assert!(!is_valid_core(num + 100));
}

#[test]
fn cores_of_a_large_machine() {
    let topology = CpuTopology::from_logical(16);
    assert_eq!(topology.logical_cpus, 16);
    assert_eq!(topology.physical_cores, 8);
    let a = topology.get_hft_core_assignment();
    assert_ne!(a.market_data, a.order_execution);
    assert_ne!(a.order_execution, a.risk_management);
    assert!(a.background.iter().all(|&c| c < 16));
    assert_eq!((physical_cores_of(1), physical_cores_of(16), physical_cores_of(17)), (0, 8, 8));
    assert_eq!(num_physical_cores(), physical_cores_of(num_cpus()));
    assert!(num_cpus() >= 1);
    assert!(core_exists(15, 16));
    assert!(!core_exists(16, 16));
    let builder = PinnedThreadBuilder::new("t".to_string(), 3, ()).stack_size(4096);
    assert_eq!(builder.core_id, 3);
    assert_eq!(builder.stack_size, Some(4096));
}

fn thermal(current_temp_mc: i32, is_throttling: bool) -> ThermalState {
    ThermalState {
        current_temp_mc,
        tjmax_mc: 100_000,
        critical_temp_mc: 95_000,
        is_throttling,
        throttle_percent: 0,
        timestamp_ns: 0,
    }
}

fn power(current_tdp_mw: u32) -> PowerState {
    PowerState {
        current_freq_mhz: 3500,
        base_freq_mhz: 3000,
        max_freq_mhz: 4500,
        current_tdp_mw,
        tdp_limit_mw: 45_000,
        is_power_capped: false,
        energy_counter_uj: 0,
    }
}

#[test]
fn test_diagnostics_initialization() {
    let diag = HardwareDiagnostics::new(&Vec::new());
    assert!(diag.is_active);
    assert_eq!(diag.get_sample_count(), 0);
}

#[test]
fn test_thermal_state_methods() {
    let thermal = thermal(75_000, false);
    assert!((thermal.current_temp_mc as f64 / 1000.0 - 75.0).abs() < 0.01);
    assert!((thermal.thermal_margin_mc() as f64 / 1000.0 - 25.0).abs() < 0.01);
    assert!(thermal.is_safe());
    assert_eq!(thermal.severity(), ThermalSeverity::Medium);
}

#[test]
fn test_health_score_calculation() {
    let diag = HardwareDiagnostics::new(&Vec::new());
    let health = diag.calculate_health_score(&thermal(80_000, false), &power(30_000), 0);
    assert!(health > 0 && health <= 100);
}

#[test]
fn heat_and_power_cost_health() {
    let diag = HardwareDiagnostics::new(&Vec::new());
    assert_eq!(diag.calculate_health_score(&thermal(80_000, false), &power(30_000), 0), 100);
    assert_eq!(diag.calculate_health_score(&thermal(96_000, false), &power(30_000), 0), 82);
    assert_eq!(diag.calculate_health_score(&thermal(80_000, true), &power(30_000), 0), 70);
    assert_eq!(diag.calculate_health_score(&thermal(80_000, false), &power(45_000), 10), 90);
    assert_eq!(diag.calculate_health_score(&thermal(80_000, false), &power(40_000), 10), 100);
    assert_eq!(thermal(96_000, false).severity(), ThermalSeverity::High);
    assert_eq!(thermal(95_000, false).severity(), ThermalSeverity::Medium);
    assert_eq!(thermal(75_000, false).severity(), ThermalSeverity::Medium);
    assert_eq!(thermal(74_999, false).severity(), ThermalSeverity::Low);
    assert_eq!(thermal(60_000, false).severity(), ThermalSeverity::Low);
    assert_eq!(thermal(60_000, true).severity(), ThermalSeverity::Critical);
    assert_eq!(diag.determine_mitigation(&thermal(60_000, true), 100), MitigationAction::EmergencyThrottle);
    assert_eq!(diag.determine_mitigation(&thermal(60_000, false), 100), MitigationAction::NoAction);
}

#[test]
fn scan_reads_the_sensors() {
    let mut diag = HardwareDiagnostics::new(&vec![text("90000\n")]);
    assert_eq!(read_tjmax(&vec![text("90000\n")]), 90_000);
    assert_eq!(read_tjmax(&vec![None, text("junk")]), 100_000);
    let files = SensorFiles {
        temperatures: vec![text("junk"), text("84000\n")],
        throttle: vec![None],
        frequency_mhz: Some(3200),
    };
    let (health, events) = diag.scan(&files, 5).unwrap();
    assert_eq!(health.thermal.current_temp_mc, 84_000);
    assert_eq!(health.health_score, 88);
    assert_eq!(events[0], DiagnosticEvent::TemperatureUpdate { temp_mc: 84_000, severity: ThermalSeverity::Medium });
    assert_eq!(diag.get_sample_count(), 1);
    assert_eq!(diag.health_total(), Some((88, 1)));
    diag.deactivate();
    assert!(diag.scan(&files, 6).is_none());
    diag.activate();
    diag.set_monitor_interval(50);
    assert!(diag.get_last_thermal().is_some());
    assert!(diag.get_last_power().is_some());
}

fn core_files(core: &str, frequency: &str) -> CoreFiles {
    CoreFiles {
        package_id: text("0"),
        core_id: text(core),
        l1_size: text("32K"),
        l2_size: text("256K"),
        frequency: text(frequency),
    }
}

fn topology_files() -> TopologyFiles {
    TopologyFiles {
        cpuinfo: text("processor : 0\nmodel name\t: Test CPU\n"),
        online: text("0-1\n"),
        cores: vec![core_files("4", "3000000"), core_files("5", "4000000")],
        nodes: vec![NodeEntry { name: "node0".to_string(), meminfo: None }],
        meminfo: text(MEMINFO),
    }
}

#[test]
fn test_monitor_creation() {
    let topology = SystemTopology::detect(&topology_files(), 1);
    let mut monitor = HardwareMonitor::new(topology, HardwareDiagnostics::new(&Vec::new()));
    assert!(!monitor.topology.cpu_model.is_empty());
    assert!(monitor.assign_optimal_core("t", ThreadPriority::Critical).is_some());
    let safe = SensorFiles { temperatures: vec![text("40000")], throttle: Vec::new(), frequency_mhz: Some(3000) };
    monitor.diagnostics.scan(&safe, 2);
    assert!(monitor.is_trading_safe());
}

#[test]
fn test_topology_detection() {
    let topology = SystemTopology::detect(&topology_files(), 77);

    assert!(!topology.cpu_model.is_empty());
    assert!(topology.detected_at_ns > 0);
    assert_eq!(topology.cpu_model.iter().collect::<String>(), "Test CPU");
    assert_eq!(topology.cores.len(), 2);
    assert_eq!(topology.total_memory_kb, 16384256);
}

#[test]
fn test_affinity_manager() {
    let topology = SystemTopology::detect(&topology_files(), 1);
    let mut manager = ThreadAffinityManager::new(topology);

    let core = manager.assign_thread("test_thread", ThreadPriority::Critical);
    assert!(core.is_some());
    assert_eq!(manager.get_assigned_core("test_thread"), core);
    assert_eq!(manager.get_assigned_core("other"), None);
    manager.assign_thread("other", ThreadPriority::Normal);
    assert!(manager.get_assigned_core("other").is_some());
    manager.deactivate();
    assert_eq!(manager.assign_thread("late", ThreadPriority::Critical), None);
}

#[test]
fn online_lists_are_read() {
    assert_eq!(parse_online(&text("0-2,5\n")), vec![0, 1, 2, 5]);
    assert_eq!(read_cpu_model(&text("model name : X\n")).iter().collect::<String>(), "X");
}

#[test]
fn test_cpu_mask_single() {
    let mask = CpuMask::single(4);
    assert!(mask.has_cpu(4));
    assert!(!mask.has_cpu(3));
    assert!(!mask.has_cpu(5));
}

#[test]
fn test_cpu_mask_range() {
    let mask = CpuMask::range(2, 5);
    assert!(mask.has_cpu(2));
    assert!(mask.has_cpu(3));
    assert!(mask.has_cpu(4));
    assert!(mask.has_cpu(5));
    assert!(!mask.has_cpu(1));
    assert!(!mask.has_cpu(6));
}

#[test]
fn test_cpu_mask_operations() {
    let mut mask = CpuMask::empty();
    mask.set_cpu(0);
    mask.set_cpu(64);
    mask.set_cpu(128);

    assert!(mask.has_cpu(0));
    assert!(mask.has_cpu(64));
    assert!(mask.has_cpu(128));

    mask.clear_cpu(64);
    assert!(!mask.has_cpu(64));
}

#[test]
fn test_irq_affinity_creation() {
    let affinity = IrqAffinity::new();
    assert_eq!(affinity.nic_irq_count, 0);
    assert!(!affinity.is_affinity_set());
}

#[test]
fn mask_reads_back_from_hex() {
    let mask = CpuMask::range(60, 70);
    let again = CpuMask::from_hex(&mask.to_hex());
    for cpu in 0..256 {
        assert_eq!(mask.has_cpu(cpu), again.has_cpu(cpu));
    }
    assert!(!mask.has_cpu(999));
}

const TABLE: &str = "           CPU0\n  24:   10  PCI-MSI  eth0-rx-0\n  25:   11  PCI-MSI  eth0-tx-0\n  26:   1  PCI-MSI  nvme0\n";

#[test]
fn irqs_are_bound_and_restored() {
    let mut affinity = IrqAffinity::new();
    assert_eq!(affinity.detect_nic_irqs(Some(TABLE), "eth0"), Ok(2));
    assert_eq!(affinity.get_nic_irqs(), &[24, 25]);
    assert_eq!(affinity.bindable_irqs(), vec![24, 25]);
    let old = CpuMask::single(1);
    let writes = [
        AffinityWrite { original: Some(old), written: true },
        AffinityWrite { original: None, written: false },
    ];
    assert_eq!(affinity.bind_to_cpu(3, &writes), Ok(1));
    assert!(affinity.is_affinity_set());
    assert_eq!(affinity.get_target_cpu(), 3);
    let restored = affinity.restore_original();
    assert_eq!(restored.len(), 2);
    assert_eq!(restored[0].0, 24);
    assert!(restored[0].1.has_cpu(1));
    assert!(IrqAffinity::new().detect_nic_irqs(None, "eth0").is_err());
    assert_eq!(irqs_to_bind(&text(TABLE), "eth0"), vec![24, 25]);
}

#[test]
fn test_isol_config_basic() {
    let mut config = IsolCpusConfig::new();

    config.isolated_mask[0] = 0b11110000;

    assert!(config.is_isolated(4));
    assert!(config.is_isolated(5));
    assert!(config.is_isolated(6));
    assert!(config.is_isolated(7));
    assert!(!config.is_isolated(0));
    assert!(!config.is_isolated(8));

    let list = config.get_isolated_list();
    assert_eq!(list, vec![4, 5, 6, 7]);
}

#[test]
fn isolcpus_test_manager_creation() {
    let manager = IsolCpusManager::new();
    assert!(!manager.is_initialized());
}

#[test]
fn isolated_processors_are_read() {
    let mut manager = IsolCpusManager::new();
    assert_eq!(manager.detect_from_cmdline(Some("quiet isolcpus=2-3,9 splash")), Ok(true));
    assert_eq!(manager.get_config().get_isolated_list(), vec![2, 3, 9]);
    assert!(manager.validate_trading_cpu(2).is_isolated);
    assert!(!manager.validate_trading_cpu(300).is_valid);
    let mut other = IsolCpusManager::new();
    assert_eq!(other.detect_from_sysfs(Some("4-5\n")), Ok(2));
    assert!(other.detect_from_sysfs(None).is_err());
    assert!(IsolCpusManager::new().detect_from_cmdline(None).is_err());
}

fn node_files() -> Vec<NodeFiles> {
    vec![NodeFiles {
        name: "node0".to_string(),
        meminfo: text("Node 0 MemTotal:       8000 kB\n"),
        distance: text("10\n"),
    }]
}

#[test]
fn test_hardware_config_detection() {
    let config = HardwareConfig::detect(&node_files(), Some(MEMINFO));

    assert!(config.cpu_topology.logical_cpus > 0);
    assert!(!config.numa_topology.nodes.is_empty());

    println!("{}", config.summary("7.8"));
}

#[test]
fn test_validate_core_assignments() {
    let config = HardwareConfig::detect(&node_files(), Some(MEMINFO));

    let result = validate_core_assignments(&config);

    if config.cpu_topology.logical_cpus < 4 {
        assert!(result.is_err());
    } else {
        assert!(result.is_ok());
    }
}

#[test]
fn test_recommended_pool_sizes() {
    let config = HardwareConfig::detect(&node_files(), Some(MEMINFO));
    let sizes = get_recommended_pool_sizes(&config);

    assert!(sizes.market_data_threads >= 2);
    assert!(sizes.order_execution_threads >= 1);
    assert!(sizes.background_threads >= 1);

    println!("{}", sizes.format());
    assert_eq!(recommended_stack_size(), 2 * 1024 * 1024);
}

#[test]
fn bad_core_assignments_are_named() {
    let topology = NumaTopology::detect(&node_files(), Some(MEMINFO));
    let mut config = HardwareConfig::from_topologies(CpuTopology::from_logical(16), topology);
    assert_eq!(validate_core_assignments(&config), Ok(()));
    config.core_assignment.market_data = 16;
    assert_eq!(
        validate_core_assignments(&config),
        Err(CoreAssignmentError::InvalidCore { task: CriticalTask::MarketData, core_id: 16, cpus: 16 })
    );
    config.core_assignment.market_data = config.core_assignment.order_execution;
    assert!(matches!(validate_core_assignments(&config), Err(CoreAssignmentError::Conflict(_))));
}

#[test]
fn test_numa_topology_detection() {
    let topology = NumaTopology::detect(&node_files(), Some(MEMINFO));

    assert!(!topology.nodes.is_empty());
    assert!(topology.nodes[0].available_memory > 0);

    println!("NUMA Topology: {:?}", topology);
    let none = NumaTopology::detect(&Vec::new(), Some(MEMINFO));
    assert_eq!(none.nodes.len(), 1);
    assert_eq!(none.nodes[0].available_memory, 16384256 * 1024);
}

#[test]
fn test_numa_allocator() {
    let mut allocator = NumaAllocator::new(0);

    assert_eq!(allocator.allocated_bytes(), 0);

    allocator.record_allocation(1024);
    assert_eq!(allocator.allocated_bytes(), 1024);

    allocator.record_deallocation(1024);
    assert_eq!(allocator.allocated_bytes(), 0);
}

#[test]
fn test_hft_numa_config() {
    let topology = NumaTopology::detect(&node_files(), Some(MEMINFO));
    let config = get_hft_numa_config(&topology);

    assert!(config.is_optimal);

    println!("HFT NUMA Config: {:?}", config);
    assert!(config.is_local("market_data"));
    assert_eq!(topology.get_node_for_cpu(0), 0);
    assert!(!topology.is_multi_node());
    assert_eq!(get_total_memory(Some(MEMINFO)), 16384256 * 1024);
    assert_eq!(read_node_memory("Node 0 MemTotal:       8000 kB\n"), Some(8000 * 1024));
}

#[test]
fn test_system_tuning_creation() {
    let tuning = SystemTuning::new();
    assert!(!tuning.get_status().tuning_applied);
}

#[test]
fn test_tuning_result() {
    let mut result = TuningResult::new();

    assert!(result.success);
    assert_eq!(result.error_count, 0);

    result.add_error("Test error");
    assert_eq!(result.error_count, 1);
    result.add_warning("Test warning");
    assert_eq!(result.error_count, 2);
    assert_eq!(result.warning_count, 1);
}

#[test]
fn tuning_applies_what_it_can() {
    let files = || TuningFiles {
        isolated: text("2-3\n"),
        package_ids: vec![text("0"); 256],
        interrupts: text(TABLE),
    };
    let writes = [AffinityWrite { original: None, written: true }, AffinityWrite { original: None, written: true }];
    let mut tuning = SystemTuning::new();
    let result = tuning.apply_all(
        2,
        "eth0",
        &files(),
        &writes,
        &[true; 6],
        FdOutcome { current: Some(1024), raised: true },
    );
    assert!(result.success);
    assert!(result.tunings_applied > 0);
    assert!(tuning.get_status().tuning_applied);
    assert_eq!(tuning.get_status().target_cpu, 2);
    assert_eq!(tuning.get_status().fd_limit, 65536);
    assert!(tuning.get_status().isolcpus_detected);
    assert_eq!(tuning.isolcpus.config.isolated_count, 2);
    assert_eq!(tuning.irq_affinity.nic_irq_count, 2);
    assert_eq!((tuning.get_status().tcp_rcvbuf, tuning.get_status().tcp_sndbuf), (16777216, 16777216));
    let mut part = SystemTuning::default();
    let fd = FdOutcome { current: None, raised: false };
    part.apply_all(2, "eth0", &files(), &writes, &[true, false, false, false, true, true], fd);
    assert_eq!((part.get_status().tcp_rcvbuf, part.get_status().tcp_sndbuf), (16777216, 0));
    part.apply_all(2, "eth0", &files(), &writes, &[false, false, false, true, true, true], fd);
    assert_eq!((part.get_status().tcp_rcvbuf, part.get_status().tcp_sndbuf), (16777216, 16777216));
    assert_eq!(tcp_settings().len(), 6);
    let mut failing = SystemTuning::new();
    let result = failing.apply_all(
        300,
        "eth0",
        &files(),
        &writes,
        &[false; 6],
        FdOutcome { current: None, raised: false },
    );
    assert!(!result.success);
    assert!(!result.get_errors().is_empty());
    // A missing interface is only a warning.
    let mut warned = SystemTuning::new();
    let mut quiet = files();
    quiet.interrupts = text("           CPU0\n");
    let result = warned.apply_all(2, "eth9", &quiet, &[], &[true; 6], FdOutcome { current: None, raised: false });
    assert!(result.success);
    assert!(!result.get_errors().is_empty());
}

#[test]
fn utilization_needs_a_limit() {
    let state = power(50_000);
    assert_eq!(state.power_utilization(0.5f64.to_bits()), 0.5f64.to_bits());
    assert_eq!(state.frequency_utilization(0.75f64.to_bits()), 0.75f64.to_bits());
    let unlimited = PowerState { tdp_limit_mw: 0, max_freq_mhz: 0, ..state };
    assert_eq!(unlimited.power_utilization(f64::NAN.to_bits()), 0.0f64.to_bits());
    assert_eq!(unlimited.frequency_utilization(f64::NAN.to_bits()), 0.0f64.to_bits());
}

#[test]
fn cores_of_a_node_are_listed() {
    let topology = SystemTopology::detect(&topology_files(), 1);
    let all: usize = (0..4).map(|node| topology.get_cores_on_numa(node).len()).sum();
    assert_eq!(all, 2);
    assert!(topology.get_cores_on_numa(63).is_empty());
    assert!(num_physical_cores() <= num_cpus());
    assert!(!IsolCpusManager::new().get_config().is_housekeeping(0));
}
