//! Thermal and power state of the machine, its health and what to do about it.
use crate::text::{chars_of, parse_signed, same, trimmed};
use crate::doubles::ZERO;
use vstd::prelude::*;

verus! {

/// Number of sensors that are looked at
pub const SENSORS: usize = 10;

/// Number of health scores that are kept
pub const HISTORY: usize = 60;

/// Highest safe temperature where the machine does not tell it, in millidegrees
pub const DEFAULT_TJMAX_MC: i32 = 100_000;

/// CPU thermal state
#[derive(Debug, Clone, Copy, PartialEq, Eq, Structural)]
pub struct ThermalState {
    /// Current temperature in millidegrees Celsius
    pub current_temp_mc: i32,
    /// Maximum safe temperature (TjMax)
    pub tjmax_mc: i32,
    /// Critical temperature threshold
    pub critical_temp_mc: i32,
    /// Is thermal throttling active
    pub is_throttling: bool,
    /// Throttle percentage (0-100)
    pub throttle_percent: u8,
    /// Timestamp
    pub timestamp_ns: u64,
}

/// Thermal severity levels
#[derive(Debug, Clone, Copy, PartialEq, Eq, Structural)]
pub enum ThermalSeverity {
    /// Normal operation
    Low,
    /// Elevated but safe
    Medium,
    /// Approaching limits
    High,
    /// Throttling active
    Critical,
}

impl ThermalState {
    /// How far the temperature is below the highest safe one, in millidegrees.
    pub open spec fn margin(&self) -> int {
        self.tjmax_mc - self.current_temp_mc
    }

    /// True where the machine is neither critically hot nor throttling.
    pub open spec fn safe(&self) -> bool {
        self.current_temp_mc < self.critical_temp_mc && !self.is_throttling
    }

    /// How severe the state is: within twenty-five degrees of the highest safe temperature it is
    /// elevated, within five it approaches the limits.
    pub open spec fn level(&self) -> ThermalSeverity {
        if self.is_throttling {
            ThermalSeverity::Critical
        } else if self.margin() < 5_000 {
            ThermalSeverity::High
        } else if self.margin() <= 25_000 {
            ThermalSeverity::Medium
        } else {
            ThermalSeverity::Low
        }
    }

    /// How far the temperature is below the highest safe one, in millidegrees
    pub fn thermal_margin_mc(&self) -> (r: i64)
        ensures
            r == self.margin(),
    {
        self.tjmax_mc as i64 - self.current_temp_mc as i64
    }

    pub fn is_safe(&self) -> (r: bool)
        ensures
            r == self.safe(),
    {
        self.current_temp_mc < self.critical_temp_mc && !self.is_throttling
    }

    pub fn severity(&self) -> (r: ThermalSeverity)
        ensures
            r == self.level(),
    {
        let margin: i64 = self.thermal_margin_mc();
        if self.is_throttling {
            ThermalSeverity::Critical
        } else if margin < 5_000 {
            ThermalSeverity::High
        } else if margin <= 25_000 {
            ThermalSeverity::Medium
        } else {
            ThermalSeverity::Low
        }
    }
}

/// Power state information
#[derive(Debug, Clone, Copy, PartialEq, Eq, Structural)]
pub struct PowerState {
    /// Current frequency in MHz
    pub current_freq_mhz: u32,
    /// Base frequency in MHz
    pub base_freq_mhz: u32,
    /// Max frequency in MHz
    pub max_freq_mhz: u32,
    /// Current TDP in milliwatts
    pub current_tdp_mw: u32,
    /// Package TDP limit in milliwatts
    pub tdp_limit_mw: u32,
    /// Is power capping active
    pub is_power_capped: bool,
    /// Energy counter (joules * 1e6)
    pub energy_counter_uj: u64,
}

impl PowerState {
    /// True where the power is above a share of its limit, in per cent.
    pub open spec fn above_share(self, percent: int) -> bool {
        self.tdp_limit_mw > 0 && self.current_tdp_mw * 100 > percent * self.tdp_limit_mw
    }

    /// What power costs of the health score, where it is above nine tenths of its limit.
    pub open spec fn penalty(self, points_over: i16) -> int {
        if self.above_share(90) {
            points_over as int
        } else {
            0
        }
    }

    /// The frequency as a share of the largest one, for their quotient: zero where that is zero
    pub fn frequency_utilization(&self, quotient: u64) -> (r: u64)
        ensures
            r == if self.max_freq_mhz == 0 {
                ZERO
            } else {
                quotient
            },
    {
        if self.max_freq_mhz == 0 {
            return ZERO;
        }
        quotient
    }

    /// The power as a share of its limit, for their quotient: zero where there is no limit
    pub fn power_utilization(&self, quotient: u64) -> (r: u64)
        ensures
            r == if self.tdp_limit_mw == 0 {
                ZERO
            } else {
                quotient
            },
    {
        if self.tdp_limit_mw == 0 {
            return ZERO;
        }
        quotient
    }

    /// True where the power is above a share of its limit, in per cent
    pub fn is_above_share(&self, percent: u8) -> (r: bool)
        ensures
            r == self.above_share(percent as int),
    {
        assert(self.current_tdp_mw * 100 <= u64::MAX) by (nonlinear_arith)
            requires
                self.current_tdp_mw <= u32::MAX,
        ;
        assert(percent * self.tdp_limit_mw <= u64::MAX) by (nonlinear_arith)
            requires
                percent <= u8::MAX,
                self.tdp_limit_mw <= u32::MAX,
        ;
        self.tdp_limit_mw > 0 && self.current_tdp_mw as u64 * 100 > percent as u64
            * self.tdp_limit_mw as u64
    }
}

/// Mitigation actions for thermal/power issues
#[derive(Debug, Clone, Copy, PartialEq, Eq, Structural)]
pub enum MitigationAction {
    /// No action needed
    NoAction,
    /// Reduce thread count slightly
    ReduceThreads(u8),
    /// Lower execution frequency, by percentage
    ReduceFrequency(u8),
    /// Aggressive throttling
    EmergencyThrottle,
    /// Shutdown non-critical systems
    ShutdownNonCritical,
}

/// Hardware health status
#[derive(Debug, Clone, Copy, PartialEq, Eq, Structural)]
pub struct HardwareHealth {
    pub thermal: ThermalState,
    pub power: PowerState,
    /// Recommended action
    pub recommended_action: MitigationAction,
    /// Health score (0-100)
    pub health_score: u8,
}

/// Diagnostic events
#[derive(Debug, Clone, Copy, PartialEq, Eq, Structural)]
pub enum DiagnosticEvent {
    /// Temperature reading, in millidegrees
    TemperatureUpdate { temp_mc: i32, severity: ThermalSeverity },
    /// Thermal throttling detected
    ThermalThrottling { temp_mc: i32, throttle_pct: u8 },
    /// Power cap hit
    PowerCapHit { current_tdp_mw: u32, tdp_limit_mw: u32 },
    /// Mitigation action triggered
    MitigationTriggered(MitigationAction),
    /// Health score update
    HealthScoreUpdate { score: u8, delta: i8 },
}

/// What the sensors say, where they could be read.
#[derive(Debug)]
pub struct SensorFiles {
    /// Temperatures, by sensor
    pub temperatures: Vec<Option<String>>,
    /// Throttle flags, by sensor
    pub throttle: Vec<Option<String>>,
    /// Current frequency in MHz
    pub frequency_mhz: Option<u32>,
}

/// The first number strictly between two bounds that a list of files holds.
pub open spec fn first_between(files: Seq<Option<String>>, low: int, high: int, from: int) -> Option<
    int,
>
    decreases files.len() - from,
{
    if from >= files.len() {
        None
    } else {
        let here = match files[from] {
            Some(s) => crate::text::signed(
                crate::text::trim(s@),
                -0x7fff_ffff,
                0x7fff_ffff,
            ),
            None => None,
        };
        match here {
            Some(n) if low < n && n < high => Some(n),
            _ => first_between(files, low, high, from + 1),
        }
    }
}

/// True where the first file that could be read holds a one.
pub open spec fn first_is_one(files: Seq<Option<String>>, from: int) -> bool
    decreases files.len() - from,
{
    if from >= files.len() {
        false
    } else {
        match files[from] {
            Some(s) => crate::text::trim(s@) == seq!['1'],
            None => first_is_one(files, from + 1),
        }
    }
}

/// Reads the first number strictly between two bounds that a list of files holds.
fn read_between(files: &Vec<Option<String>>, low: i32, high: i32) -> (r: Option<i32>)
    ensures
        match r {
            Some(n) => first_between(files@, low as int, high as int, 0) == Some(n as int),
            None => first_between(files@, low as int, high as int, 0) is None,
        },
{
    let mut i: usize = 0;
    while i < files.len()
        invariant
            i <= files@.len(),
            first_between(files@, low as int, high as int, 0) == first_between(
                files@,
                low as int,
                high as int,
                i as int,
            ),
        decreases files.len() - i,
    {
        if let Some(s) = &files[i] {
            let all = chars_of(s.as_str());
            let t = trimmed(all.as_slice());
            if let Some(n) = parse_signed(t.as_slice(), -0x7fff_ffff, 0x7fff_ffff) {
                if low as i64 <= n && n <= high as i64 && n != low as i64 && n != high as i64 {
                    return Some(n as i32);
                }
            }
        }
        i = i + 1;
    }
    None
}

/// True where the first file that could be read holds a one.
fn read_flag(files: &Vec<Option<String>>) -> (r: bool)
    ensures
        r == first_is_one(files@, 0),
{
    let mut one: Vec<char> = Vec::new();
    one.push('1');
    assert(one@ =~= seq!['1']);
    let mut i: usize = 0;
    while i < files.len()
        invariant
            i <= files@.len(),
            one@ == seq!['1'],
            first_is_one(files@, 0) == first_is_one(files@, i as int),
        decreases files.len() - i,
    {
        if let Some(s) = &files[i] {
            let all = chars_of(s.as_str());
            let t = trimmed(all.as_slice());
            return same(t.as_slice(), one.as_slice());
        }
        i = i + 1;
    }
    false
}

/// The highest safe temperature that the sensors tell, or a default.
pub open spec fn tjmax_of(files: Seq<Option<String>>) -> int {
    match first_between(files, 50_000, 150_000, 0) {
        Some(n) => n,
        None => DEFAULT_TJMAX_MC as int,
    }
}

/// Read the highest safe temperature from the limits that the sensors give
pub fn read_tjmax(limits: &Vec<Option<String>>) -> (r: i32)
    ensures
        r == tjmax_of(limits@),
        50_000 < r < 150_000,
{
    proof {
        lemma_between(limits@, 50_000, 150_000, 0);
    }
    match read_between(limits, 50_000, 150_000) {
        Some(n) => n,
        None => DEFAULT_TJMAX_MC,
    }
}

proof fn lemma_between(files: Seq<Option<String>>, low: int, high: int, from: int)
    ensures
        match first_between(files, low, high, from) {
            Some(n) => low < n < high,
            None => true,
        },
    decreases files.len() - from,
{
    if from < files.len() {
        lemma_between(files, low, high, from + 1);
    }
}

/// How much is throttled at a temperature: nothing below the critical one, everything at the highest
/// safe one, and by the distance in between.
pub open spec fn throttle_percent(temp_mc: int, tjmax_mc: int) -> u8 {
    if temp_mc >= tjmax_mc {
        100
    } else if temp_mc >= tjmax_mc - 5_000 {
        (((temp_mc - (tjmax_mc - 5_000)) * 100) / 5_000) as u8
    } else {
        0
    }
}

/// The thermal state that the sensors tell.
pub open spec fn thermal_of(files: SensorFiles, tjmax_mc: int, now_ns: u64) -> ThermalState {
    let temp = match first_between(files.temperatures@, 0, 150_000, 0) {
        Some(n) => n,
        None => 0,
    };
    ThermalState {
        current_temp_mc: temp as i32,
        tjmax_mc: tjmax_mc as i32,
        critical_temp_mc: (tjmax_mc - 5_000) as i32,
        is_throttling: first_is_one(files.throttle@, 0) || slow(files.frequency_mhz),
        throttle_percent: throttle_percent(temp, tjmax_mc),
        timestamp_ns: now_ns,
    }
}

/// True where the processor runs slower than two gigahertz, which suggests throttling.
pub open spec fn slow(frequency_mhz: Option<u32>) -> bool {
    match frequency_mhz {
        Some(f) => f < 2000,
        None => false,
    }
}

/// The power state at a frequency; the other values are assumed.
pub open spec fn power_of(frequency_mhz: Option<u32>) -> PowerState {
    PowerState {
        current_freq_mhz: match frequency_mhz {
            Some(f) => f,
            None => 0,
        },
        base_freq_mhz: 3000,
        max_freq_mhz: 4500,
        current_tdp_mw: 15_000,
        tdp_limit_mw: 45_000,
        is_power_capped: false,
        energy_counter_uj: 0,
    }
}

/// The health score: a hundred, less three points for each degree that the margin is below ten
/// degrees, less thirty for throttling, less the points for power that is above nine tenths of its
/// limit, within a hundred and zero.
pub open spec fn score_of(thermal: ThermalState, power: PowerState, points_over: i16) -> u8 {
    let heat = if thermal.margin() < 10_000 {
        let points = ((10_000 - thermal.margin()) * 3) / 1_000;
        if points > i16::MAX {
            i16::MAX as int
        } else {
            points
        }
    } else {
        0
    };
    let score = 100 - heat - (if thermal.is_throttling {
        30int
    } else {
        0
    }) - power.penalty(points_over);
    if score < 0 {
        0
    } else if score > 100 {
        100
    } else {
        score as u8
    }
}

/// What to do at a given state and health.
pub open spec fn mitigation_for(thermal: ThermalState, health: u8) -> MitigationAction {
    if thermal.is_throttling || health < 30 {
        MitigationAction::EmergencyThrottle
    } else if thermal.level() == ThermalSeverity::High || health < 50 {
        MitigationAction::ReduceFrequency(25)
    } else if thermal.level() == ThermalSeverity::Medium || health < 70 {
        MitigationAction::ReduceThreads(2)
    } else {
        MitigationAction::NoAction
    }
}

/// The events of a scan.
pub open spec fn events_of(
    thermal: ThermalState,
    power: PowerState,
    action: MitigationAction,
    health: u8,
) -> Seq<DiagnosticEvent> {
    seq![
        DiagnosticEvent::TemperatureUpdate {
            temp_mc: thermal.current_temp_mc,
            severity: thermal.level(),
        },
    ] + (if thermal.is_throttling {
        seq![
            DiagnosticEvent::ThermalThrottling {
                temp_mc: thermal.current_temp_mc,
                throttle_pct: thermal.throttle_percent,
            },
        ]
    } else {
        Seq::empty()
    }) + (if power.above_share(95) {
        seq![
            DiagnosticEvent::PowerCapHit {
                current_tdp_mw: power.current_tdp_mw,
                tdp_limit_mw: power.tdp_limit_mw,
            },
        ]
    } else {
        Seq::empty()
    }) + (if action != MitigationAction::NoAction {
        seq![DiagnosticEvent::MitigationTriggered(action)]
    } else {
        Seq::empty()
    }) + seq![DiagnosticEvent::HealthScoreUpdate { score: health, delta: 0 }]
}

/// The kept scores after one more: the latest sixty.
pub open spec fn history_with(history: Seq<(u64, u8)>, entry: (u64, u8)) -> Seq<(u64, u8)> {
    let all = history.push(entry);
    if all.len() > HISTORY {
        all.skip(1)
    } else {
        all
    }
}

/// The sum of health scores.
pub open spec fn health_sum(history: Seq<(u64, u8)>) -> nat
    decreases history.len(),
{
    if history.len() == 0 {
        0
    } else {
        health_sum(history.drop_last()) + history.last().1 as nat
    }
}

/// Main hardware diagnostic engine
#[derive(Debug)]
pub struct HardwareDiagnostics {
    /// Last thermal state
    pub last_thermal: Option<ThermalState>,
    /// Last power state
    pub last_power: Option<PowerState>,
    /// Health history (for trend analysis)
    pub health_history: Vec<(u64, u8)>,
    /// Baseline TJMax
    pub baseline_tjmax_mc: i32,
    /// Is monitoring active
    pub is_active: bool,
    /// Monitoring interval
    pub monitor_interval_ms: u32,
    /// Sample count
    pub sample_count: u64,
}

impl HardwareDiagnostics {
    pub open spec fn inv(&self) -> bool {
        &&& self.health_history@.len() <= HISTORY
        &&& 50_000 < self.baseline_tjmax_mc < 150_000
    }

    /// The health that a scan finds.
    pub open spec fn health(&self, files: SensorFiles, now_ns: u64) -> HardwareHealth {
        let thermal = thermal_of(files, self.baseline_tjmax_mc as int, now_ns);
        let power = power_of(files.frequency_mhz);
        let score = score_of(thermal, power, 0);
        HardwareHealth {
            thermal,
            power,
            recommended_action: mitigation_for(thermal, score),
            health_score: score,
        }
    }

    /// Diagnostics of a machine; `limits` are the highest safe temperatures that its sensors give
    pub fn new(limits: &Vec<Option<String>>) -> (d: Self)
        ensures
            d.inv(),
            d.last_thermal is None,
            d.last_power is None,
            d.health_history@.len() == 0,
            d.baseline_tjmax_mc == tjmax_of(limits@),
            d.is_active,
            d.monitor_interval_ms == 1000,
            d.sample_count == 0,
    {
        Self {
            last_thermal: None,
            last_power: None,
            health_history: Vec::new(),
            baseline_tjmax_mc: read_tjmax(limits),
            is_active: true,
            monitor_interval_ms: 1000,
            sample_count: 0,
        }
    }

    /// Perform a single diagnostic scan
    ///
    /// The events are to be published. Nothing is scanned while diagnostics are off.
    pub fn scan(&mut self, files: &SensorFiles, now_ns: u64) -> (r: Option<
        (HardwareHealth, Vec<DiagnosticEvent>),
    >)
        requires
            old(self).inv(),
        ensures
            final(self).inv(),
            final(self).baseline_tjmax_mc == old(self).baseline_tjmax_mc,
            final(self).is_active == old(self).is_active,
            final(self).monitor_interval_ms == old(self).monitor_interval_ms,
            if old(self).is_active {
                let health = old(self).health(*files, now_ns);
                &&& r matches Some((found, events)) && found == health && events@ == events_of(
                    health.thermal,
                    health.power,
                    health.recommended_action,
                    health.health_score,
                )
                &&& final(self).last_thermal == Some(health.thermal)
                &&& final(self).last_power == Some(health.power)
                &&& final(self).health_history@ == history_with(
                    old(self).health_history@,
                    (now_ns, health.health_score),
                )
                &&& final(self).sample_count == old(self).sample_count.wrapping_add(1)
            } else {
                r is None && *final(self) == *old(self)
            },
    {
        if !self.is_active {
            return None;
        }
        let thermal = self.read_thermal_state(files, now_ns);
        let power = self.read_power_state(files.frequency_mhz);
        let health_score: u8 = self.calculate_health_score(&thermal, &power, 0);
        let action = self.determine_mitigation(&thermal, health_score);
        self.last_thermal = Some(thermal);
        self.last_power = Some(power);
        let ghost before = self.health_history@;
        self.health_history.push((now_ns, health_score));
        if self.health_history.len() > HISTORY {
            let _ = self.health_history.remove(0);
            assert(self.health_history@ =~= before.push((now_ns, health_score)).skip(1));
        }
        self.sample_count = self.sample_count.wrapping_add(1);
        let events = self.emit_events(&thermal, &power, action, health_score);
        Some((HardwareHealth { thermal, power, recommended_action: action, health_score }, events))
    }

    fn read_thermal_state(&self, files: &SensorFiles, now_ns: u64) -> (t: ThermalState)
        requires
            self.inv(),
        ensures
            t == thermal_of(*files, self.baseline_tjmax_mc as int, now_ns),
    {
        proof {
            lemma_between(files.temperatures@, 0, 150_000, 0);
        }
        let current_temp_mc: i32 = match read_between(&files.temperatures, 0, 150_000) {
            Some(n) => n,
            None => 0,
        };
        let tjmax_mc: i32 = self.baseline_tjmax_mc;
        let mut is_throttling = read_flag(&files.throttle);
        if !is_throttling {
            is_throttling = match files.frequency_mhz {
                Some(f) => f < 2000,
                None => false,
            };
        }
        let critical_temp_mc: i32 = tjmax_mc - 5_000;
        let throttle_percent: u8 = if current_temp_mc >= tjmax_mc {
            100
        } else if current_temp_mc >= critical_temp_mc {
            (((current_temp_mc - critical_temp_mc) as u32 * 100) / 5_000) as u8
        } else {
            0
        };
        ThermalState {
            current_temp_mc,
            tjmax_mc,
            critical_temp_mc,
            is_throttling,
            throttle_percent,
            timestamp_ns: now_ns,
        }
    }

    fn read_power_state(&self, frequency_mhz: Option<u32>) -> (p: PowerState)
        ensures
            p == power_of(frequency_mhz),
    {
        PowerState {
            current_freq_mhz: match frequency_mhz {
                Some(f) => f,
                None => 0,
            },
            base_freq_mhz: 3000,
            max_freq_mhz: 4500,
            current_tdp_mw: 15_000,
            tdp_limit_mw: 45_000,
            is_power_capped: false,
            energy_counter_uj: 0,
        }
    }

    /// The health score of a thermal state
    pub fn calculate_health_score(
        &self,
        thermal: &ThermalState,
        power: &PowerState,
        points_over: i16,
    ) -> (r: u8)
        ensures
            r == score_of(*thermal, *power, points_over),
            r <= 100,
    {
        let mut score: i64 = 100;
        let margin: i64 = thermal.thermal_margin_mc();
        if margin < 10_000 {
            let points: i64 = (((10_000 - margin) as u64 * 3) / 1_000) as i64;
            score = score - if points > 32_767 {
                32_767
            } else {
                points
            };
        }
        if thermal.is_throttling {
            score = score - 30;
        }
        if power.is_above_share(90) {
            score = score - points_over as i64;
        }
        if score < 0 {
            0
        } else if score > 100 {
            100
        } else {
            score as u8
        }
    }

    /// What to do at a given state and health
    pub fn determine_mitigation(&self, thermal: &ThermalState, health: u8) -> (r: MitigationAction)
        ensures
            r == mitigation_for(*thermal, health),
    {
        if thermal.is_throttling || health < 30 {
            MitigationAction::EmergencyThrottle
        } else if thermal.severity() == ThermalSeverity::High || health < 50 {
            MitigationAction::ReduceFrequency(25)
        } else if thermal.severity() == ThermalSeverity::Medium || health < 70 {
            MitigationAction::ReduceThreads(2)
        } else {
            MitigationAction::NoAction
        }
    }

    fn emit_events(
        &self,
        thermal: &ThermalState,
        power: &PowerState,
        action: MitigationAction,
        health: u8,
    ) -> (events: Vec<DiagnosticEvent>)
        ensures
            events@ == events_of(*thermal, *power, action, health),
    {
        let mut events: Vec<DiagnosticEvent> = Vec::new();
        events.push(
            DiagnosticEvent::TemperatureUpdate {
                temp_mc: thermal.current_temp_mc,
                severity: thermal.severity(),
            },
        );
        if thermal.is_throttling {
            events.push(
                DiagnosticEvent::ThermalThrottling {
                    temp_mc: thermal.current_temp_mc,
                    throttle_pct: thermal.throttle_percent,
                },
            );
        }
        if power.is_above_share(95) {
            events.push(
                DiagnosticEvent::PowerCapHit {
                    current_tdp_mw: power.current_tdp_mw,
                    tdp_limit_mw: power.tdp_limit_mw,
                },
            );
        }
        if action != MitigationAction::NoAction {
            events.push(DiagnosticEvent::MitigationTriggered(action));
        }
        events.push(DiagnosticEvent::HealthScoreUpdate { score: health, delta: 0 });
        assert(events@ =~= events_of(*thermal, *power, action, health));
        events
    }

    /// Get last thermal state
    pub fn get_last_thermal(&self) -> (r: Option<ThermalState>)
        ensures
            r == self.last_thermal,
    {
        self.last_thermal
    }

    /// Get last power state
    pub fn get_last_power(&self) -> (r: Option<PowerState>)
        ensures
            r == self.last_power,
    {
        self.last_power
    }

    /// The sum of the health scores over recent history and their number; none where there are none
    pub fn health_total(&self) -> (r: Option<(u64, usize)>)
        requires
            self.inv(),
        ensures
            r == if self.health_history@.len() == 0 {
                None
            } else {
                Some((health_sum(self.health_history@) as u64, self.health_history@.len() as usize))
            },
    {
        let n: usize = self.health_history.len();
        if n == 0 {
            return None;
        }
        let ghost all = self.health_history@;
        let mut sum: u64 = 0;
        let mut i: usize = 0;
        assert(all.take(0) =~= Seq::<(u64, u8)>::empty());
        while i < n
            invariant
                i <= n,
                n == self.health_history@.len(),
                n <= HISTORY,
                all == self.health_history@,
                sum == health_sum(all.take(i as int)),
                sum <= 255 * i,
            decreases n - i,
        {
            assert(all.take(i + 1).drop_last() =~= all.take(i as int));
            sum = sum + self.health_history[i].1 as u64;
            i = i + 1;
        }
        assert(all.take(i as int) =~= all);
        Some((sum, n))
    }

    /// Set monitoring interval
    pub fn set_monitor_interval(&mut self, interval_ms: u32)
        ensures
            *final(self) == (HardwareDiagnostics {
                monitor_interval_ms: interval_ms,
                ..*old(self)
            }),
    {
        self.monitor_interval_ms = interval_ms;
    }

    /// Deactivate diagnostics
    pub fn deactivate(&mut self)
        ensures
            *final(self) == (HardwareDiagnostics { is_active: false, ..*old(self) }),
    {
        self.is_active = false;
    }

    /// Activate diagnostics
    pub fn activate(&mut self)
        ensures
            *final(self) == (HardwareDiagnostics { is_active: true, ..*old(self) }),
    {
        self.is_active = true;
    }

    /// Get sample count
    pub fn get_sample_count(&self) -> (r: u64)
        ensures
            r == self.sample_count,
    {
        self.sample_count
    }
}

/// A hotter machine never has a better health score, nor does one that throttles.
pub proof fn law_heat_never_helps(
    a: ThermalState,
    b: ThermalState,
    power: PowerState,
    points_over: i16,
)
    requires
        a.margin() <= b.margin(),
        b.is_throttling ==> a.is_throttling,
    ensures
        score_of(a, power, points_over) <= score_of(b, power, points_over),
{
}

/// The history keeps the latest scores only, never more than its limit, and the newest is last.
pub proof fn law_history_is_bounded(history: Seq<(u64, u8)>, entry: (u64, u8))
    requires
        history.len() <= HISTORY,
    ensures
        history_with(history, entry).len() <= HISTORY,
        history_with(history, entry).last() == entry,
{
}

/// A state grows more severe as the temperature comes nearer to the highest safe one: elevated from
/// twenty-five degrees on, high below five, critical where the machine throttles.
pub proof fn law_severity_goes_by_the_distance(t: ThermalState)
    ensures
        t.level() == ThermalSeverity::Critical <==> t.is_throttling,
        !t.is_throttling ==> (t.level() == ThermalSeverity::High <==> t.current_temp_mc + 5_000
            > t.tjmax_mc),
        !t.is_throttling ==> (t.level() == ThermalSeverity::Low <==> t.current_temp_mc + 25_000
            < t.tjmax_mc),
        t.safe() ==> !t.is_throttling && t.current_temp_mc < t.critical_temp_mc,
        !t.is_throttling && t.current_temp_mc < t.critical_temp_mc ==> t.safe(),
{
}

/// Power at the whole of its limit is above every smaller share of it; more power is above every
/// share that less is above; without a limit there are no shares.
pub proof fn law_shares_of_the_power_limit(a: PowerState, b: PowerState, percent: int)
    ensures
        a.tdp_limit_mw > 0 && a.current_tdp_mw == a.tdp_limit_mw ==> (a.above_share(percent)
            <==> percent < 100),
        a.tdp_limit_mw > 0 && a.current_tdp_mw == 2 * a.tdp_limit_mw ==> (a.above_share(percent)
            <==> percent < 200),
        a.tdp_limit_mw > 0 && 2 * a.current_tdp_mw == a.tdp_limit_mw ==> (a.above_share(percent)
            <==> percent < 50),
        a.tdp_limit_mw == 0 ==> !a.above_share(percent),
        a.tdp_limit_mw == b.tdp_limit_mw && a.current_tdp_mw <= b.current_tdp_mw && a.above_share(
            percent,
        ) ==> b.above_share(percent),
{
    let (c, l) = (a.current_tdp_mw as int, a.tdp_limit_mw as int);
    if l > 0 {
        assert(percent < 100 ==> percent * l < 100 * l) by (nonlinear_arith)
            requires
                l > 0,
        ;
        assert(percent >= 100 ==> percent * l >= 100 * l) by (nonlinear_arith)
            requires
                l > 0,
        ;
        assert(percent < 200 ==> percent * l < 200 * l) by (nonlinear_arith)
            requires
                l > 0,
        ;
        assert(percent >= 200 ==> percent * l >= 200 * l) by (nonlinear_arith)
            requires
                l > 0,
        ;
        assert(percent < 50 ==> percent * l < 50 * l) by (nonlinear_arith)
            requires
                l > 0,
        ;
        assert(percent >= 50 ==> percent * l >= 50 * l) by (nonlinear_arith)
            requires
                l > 0,
        ;
    }
}

/// The score starts at a hundred. It loses three for each degree by which the distance to the highest
/// safe temperature falls short of ten, thirty where the machine throttles, and what it is charged
/// where the power is above nine tenths of its limit; it does not fall below zero.
pub proof fn law_score_counts_degrees(
    t: ThermalState,
    power: PowerState,
    points_over: i16,
    degrees: int,
)
    requires
        0 <= degrees,
        t.current_temp_mc == t.tjmax_mc - 10_000 + 1_000 * degrees,
        0 <= points_over <= 100,
    ensures
        ({
            let lost = 3 * degrees + (if t.is_throttling { 30int } else { 0 }) + (
            if power.above_share(90) { points_over as int } else { 0 });
            &&& lost <= 100 ==> score_of(t, power, points_over) == 100 - lost
            &&& lost > 100 ==> score_of(t, power, points_over) == 0
        }),
{
    assert(t.margin() == 10_000 - 1_000 * degrees);
}

/// A cool machine that does not throttle and spares its power has the full score.
pub proof fn law_cool_machine_has_the_full_score(
    t: ThermalState,
    power: PowerState,
    points_over: i16,
)
    requires
        t.current_temp_mc + 10_000 <= t.tjmax_mc,
    ensures
        !t.is_throttling && !power.above_share(90) ==> score_of(t, power, points_over) == 100,
        t.is_throttling && !power.above_share(90) ==> score_of(t, power, points_over) == 70,
        !t.is_throttling && power.above_share(90) && 0 <= points_over <= 100 ==> score_of(
            t,
            power,
            points_over,
        ) == 100 - points_over,
        score_of(t, power, points_over) <= 100,
{
}

/// What is done goes by the worse of severity and health.
pub proof fn law_mitigation_goes_by_severity_and_health(t: ThermalState, health: u8)
    ensures
        mitigation_for(t, health) == MitigationAction::EmergencyThrottle <==> t.is_throttling
            || health < 30,
        mitigation_for(t, health) == MitigationAction::ReduceFrequency(25) <==> !t.is_throttling
            && health >= 30 && (t.current_temp_mc + 5_000 > t.tjmax_mc || health < 50),
        mitigation_for(t, health) == MitigationAction::NoAction <==> !t.is_throttling && health
            >= 70 && t.current_temp_mc + 25_000 < t.tjmax_mc,
        mitigation_for(t, health) == MitigationAction::ReduceThreads(2) || mitigation_for(t, health)
            == MitigationAction::NoAction || mitigation_for(t, health)
            == MitigationAction::ReduceFrequency(25) || mitigation_for(t, health)
            == MitigationAction::EmergencyThrottle,
{
}

/// The events of a sample: the temperature first and the score last, between them one for each of
/// throttling, power near its limit and something to be done, where it is so.
pub proof fn law_events_of_a_sample(
    t: ThermalState,
    power: PowerState,
    action: MitigationAction,
    health: u8,
)
    ensures
        ({
            let events = events_of(t, power, action, health);
            let a = if t.is_throttling { 1int } else { 0 };
            let b = if power.above_share(95) { 1int } else { 0 };
            let c = if action == MitigationAction::NoAction { 0int } else { 1 };
            &&& events.len() == 2 + a + b + c
            &&& events[0] == (DiagnosticEvent::TemperatureUpdate {
                temp_mc: t.current_temp_mc,
                severity: t.level(),
            })
            &&& a == 1 ==> events[1] == (DiagnosticEvent::ThermalThrottling {
                temp_mc: t.current_temp_mc,
                throttle_pct: t.throttle_percent,
            })
            &&& b == 1 ==> events[1 + a] == (DiagnosticEvent::PowerCapHit {
                current_tdp_mw: power.current_tdp_mw,
                tdp_limit_mw: power.tdp_limit_mw,
            })
            &&& c == 1 ==> events[1 + a + b] == DiagnosticEvent::MitigationTriggered(action)
            &&& events[1 + a + b + c] == (DiagnosticEvent::HealthScoreUpdate {
                score: health,
                delta: 0,
            })
        }),
{
}

/// The first sensor that holds a number between the bounds counts; sensors that are missing are passed
/// over.
pub proof fn law_first_sensor_counts(
    files: Seq<Option<String>>,
    low: int,
    high: int,
    from: int,
    k: int,
    n: nat,
    before: Seq<char>,
    after: Seq<char>,
)
    requires
        0 <= from <= k < files.len(),
        forall|j: int| from <= j < k ==> #[trigger] files[j] is None,
        crate::text::only_space(before),
        crate::text::only_space(after),
        files[k] matches Some(s) && s@ == before + crate::text::number(n) + after,
        low < n < high <= 0x7fff_ffff,
    ensures
        first_between(files, low, high, from) == Some(n as int),
    decreases k - from,
{
    if from < k {
        assert(files[from] is None);
        law_first_sensor_counts(files, low, high, from + 1, k, n, before, after);
    } else {
        lemma_trimmed_number(before, n, after);
        crate::text::law_signed_number_reads_back(n, -0x7fff_ffff, 0x7fff_ffff);
    }
}

proof fn lemma_trimmed_number(before: Seq<char>, n: nat, after: Seq<char>)
    requires
        crate::text::only_space(before),
        crate::text::only_space(after),
    ensures
        crate::text::trim(before + crate::text::number(n) + after) == crate::text::number(n),
{
    let d = crate::text::number(n);
    crate::text::lemma_number_digits(n);
    assert(crate::text::is_digit(d[0]) && crate::text::is_digit(d[d.len() - 1]));
    crate::text::law_white_space_is_cut_off(before, d, after);
}

/// A machine without sensors is taken for cold, one without limits for one of a hundred degrees; no
/// limit outside fifty and a hundred and fifty degrees is believed.
pub proof fn law_sensors_that_are_missing(files: SensorFiles, limits: Seq<Option<String>>, tjmax: int)
    requires
        50_000 < tjmax < 150_000,
    ensures
        files.temperatures@.len() == 0 ==> thermal_of(files, tjmax, 0).current_temp_mc == 0,
        limits.len() == 0 ==> tjmax_of(limits) == 100_000,
        50_000 < tjmax_of(limits) < 150_000,
        thermal_of(files, tjmax, 0).critical_temp_mc == tjmax - 5_000,
        thermal_of(files, tjmax, 0).tjmax_mc == tjmax,
        0 <= thermal_of(files, tjmax, 0).current_temp_mc < 150_000,
{
    lemma_between(limits, 50_000, 150_000, 0);
    lemma_between(files.temperatures@, 0, 150_000, 0);
}

/// The machine throttles where the first flag that is there is one, or where it runs below two
/// gigahertz.
pub proof fn law_machine_throttles(files: SensorFiles, tjmax: int, now_ns: u64, k: int)
    requires
        0 <= k < files.throttle@.len(),
        forall|j: int| 0 <= j < k ==> #[trigger] files.throttle@[j] is None,
        files.throttle@[k] is Some,
    ensures
        thermal_of(files, tjmax, now_ns).is_throttling <==> (crate::text::trim(
            files.throttle@[k]->0@,
        ) == seq!['1'] || (files.frequency_mhz is Some && files.frequency_mhz->0 < 2000)),
        thermal_of(files, tjmax, now_ns).timestamp_ns == now_ns,
{
    lemma_first_flag(files.throttle@, 0, k);
}

proof fn lemma_first_flag(files: Seq<Option<String>>, from: int, k: int)
    requires
        0 <= from <= k < files.len(),
        forall|j: int| from <= j < k ==> #[trigger] files[j] is None,
        files[k] is Some,
    ensures
        first_is_one(files, from) <==> crate::text::trim(files[k]->0@) == seq!['1'],
    decreases k - from,
{
    if from < k {
        assert(files[from] is None);
        lemma_first_flag(files, from + 1, k);
    }
}

/// Throttling sets in five degrees below the highest safe temperature and grows by a fifth with each
/// degree until it is whole.
pub proof fn law_throttling_grows_with_heat(temp: int, tjmax: int, degrees: int)
    ensures
        temp <= tjmax - 5_000 ==> throttle_percent(temp, tjmax) == 0,
        temp >= tjmax ==> throttle_percent(temp, tjmax) == 100,
        0 <= degrees <= 5 && temp == tjmax - 5_000 + 1_000 * degrees ==> throttle_percent(
            temp,
            tjmax,
        ) == 20 * degrees,
        throttle_percent(temp, tjmax) <= throttle_percent(temp + 1, tjmax),
{
}

/// The power of a machine: the frequency that was read, zero where there is none, and fixed limits.
pub proof fn law_power_of_a_machine(frequency_mhz: Option<u32>)
    ensures
        frequency_mhz matches Some(f) ==> power_of(frequency_mhz).current_freq_mhz == f,
        frequency_mhz is None ==> power_of(frequency_mhz).current_freq_mhz == 0,
        power_of(frequency_mhz).base_freq_mhz == 3000,
        power_of(frequency_mhz).max_freq_mhz == 4500,
        3 * power_of(frequency_mhz).current_tdp_mw == power_of(frequency_mhz).tdp_limit_mw,
        power_of(frequency_mhz).tdp_limit_mw == 45_000,
        !power_of(frequency_mhz).above_share(90),
        !power_of(frequency_mhz).is_power_capped,
        power_of(frequency_mhz).energy_counter_uj == 0,
{
}

/// The history drops its oldest score where it is full, and keeps the others in their order.
pub proof fn law_history_keeps_the_latest(history: Seq<(u64, u8)>, entry: (u64, u8), i: int)
    requires
        history.len() <= 60,
        0 <= i < history.len(),
    ensures
        history.len() < 60 ==> history_with(history, entry).len() == history.len() + 1
            && history_with(history, entry)[i] == history[i],
        history.len() == 60 ==> history_with(history, entry).len() == 60 && (i > 0
            ==> history_with(history, entry)[i - 1] == history[i]),
{
}

/// The health over time is the sum of the scores over their number.
pub proof fn law_health_is_summed(history: Seq<(u64, u8)>)
    ensures
        health_sum(history) == crate::tally::sum(history.len(), |i: int| history[i].1 as int),
    decreases history.len(),
{
    if history.len() > 0 {
        let t = history.drop_last();
        law_health_is_summed(t);
        crate::tally::lemma_sum_same(t.len(), |i: int| t[i].1 as int, |i: int| history[i].1 as int);
    }
}

} // verus!
