//! Isolated processors.
//!
//! Which processors the scheduler leaves alone, as the kernel command line or the system files
//! list them.
use crate::text::{
    begins_with, chars_of, has_part, parse_signed, parse_unsigned, part, split_on, trimmed,
    words_of,
};
use vstd::prelude::*;

verus! {

broadcast use vstd::array::group_array_axioms;

/// Maximum number of processors supported.
pub const MAX_ISOL_CPUS: usize = 256;

/// Configuration of isolated processors.
#[derive(Debug, Clone, Copy)]
pub struct IsolCpusConfig {
    /// Bitmask of isolated processors
    pub isolated_mask: [u64; 4],
    /// Number of isolated processors detected
    pub isolated_count: u32,
    /// Whether isolcpus was detected on the kernel command line
    pub isolcpus_detected: bool,
    /// Housekeeping processors (non-isolated)
    pub housekeeping_mask: [u64; 4],
    /// Memory node of each processor
    pub cpu_numa_node: [i8; 256],
}

/// The two numbers of a range, where a text is one.
pub open spec fn range_of(p: Seq<char>) -> Option<(nat, nat)> {
    let q = crate::text::split(p, '-');
    if q.len() == 2 {
        match (
            crate::text::unsigned(q[0], usize::MAX as nat),
            crate::text::unsigned(q[1], usize::MAX as nat),
        ) {
            (Some(a), Some(b)) => Some((a, b)),
            _ => None,
        }
    } else {
        None
    }
}

/// The processors that an entry of a list names, as a range; an entry that names none is `None`.
pub open spec fn entry_range(entry: Seq<char>) -> Option<(nat, nat)> {
    let p = crate::text::trim(entry);
    if crate::text::contains(p, seq!['-']) {
        range_of(p)
    } else {
        match crate::text::unsigned(p, usize::MAX as nat) {
            Some(n) => Some((n, n)),
            None => None,
        }
    }
}

/// True where an entry of a list names a processor.
pub open spec fn entry_names(entry: Seq<char>, cpu: int) -> bool {
    entry_range(entry) matches Some((a, b)) && a <= cpu <= b
}

/// The number of supported processors that an entry of a list names.
pub open spec fn entry_count(entry: Seq<char>) -> nat {
    match entry_range(entry) {
        Some((a, b)) => {
            let last = if b < 255 {
                b
            } else {
                255
            };
            if a <= last {
                (last - a + 1) as nat
            } else {
                0
            }
        },
        None => 0,
    }
}

/// True where a list names a processor.
pub open spec fn list_names(entries: Seq<Seq<char>>, cpu: int) -> bool {
    exists|i: int| 0 <= i < entries.len() && entry_names(#[trigger] entries[i], cpu)
}

/// How often a list names a supported processor.
pub open spec fn list_count(entries: Seq<Seq<char>>) -> nat
    decreases entries.len(),
{
    if entries.len() == 0 {
        0
    } else {
        list_count(entries.drop_last()) + entry_count(entries.last())
    }
}

/// The name of the kernel parameter, with its equals sign.
pub open spec fn parameter() -> Seq<char> {
    seq!['i', 's', 'o', 'l', 'c', 'p', 'u', 's', '=']
}

/// The list that a word of the command line gives, where it is the parameter.
pub open spec fn parameter_list(word: Seq<char>) -> Option<Seq<Seq<char>>> {
    if crate::text::starts_with(word, parameter()) {
        Some(crate::text::split(word.skip(parameter().len() as int), ','))
    } else {
        None
    }
}

/// True where a command line names a processor as isolated.
pub open spec fn cmdline_names(words: Seq<Seq<char>>, cpu: int) -> bool {
    exists|i: int|
        0 <= i < words.len() && (parameter_list(#[trigger] words[i]) matches Some(list)
            && list_names(list, cpu))
}

/// True where a command line has the parameter.
pub open spec fn cmdline_has(words: Seq<Seq<char>>) -> bool {
    exists|i: int| 0 <= i < words.len() && parameter_list(#[trigger] words[i]) is Some
}

/// How often a command line names a supported processor.
pub open spec fn cmdline_count(words: Seq<Seq<char>>) -> nat
    decreases words.len(),
{
    if words.len() == 0 {
        0
    } else {
        cmdline_count(words.drop_last()) + match parameter_list(words.last()) {
            Some(list) => list_count(list),
            None => 0,
        }
    }
}

/// The supported processors that are isolated, from the lowest up.
pub open spec fn isolated_list(words: Seq<u64>, below: int) -> Seq<usize>
    decreases below,
{
    if below <= 0 {
        Seq::empty()
    } else {
        let before = isolated_list(words, below - 1);
        if crate::hardware::irq_affinity::in_mask(words, below - 1) {
            before.push((below - 1) as usize)
        } else {
            before
        }
    }
}

/// Tests a bit of a mask.
fn test_bit(words: &[u64; 4], cpu: usize) -> (r: bool)
    ensures
        r == crate::hardware::irq_affinity::in_mask(words@, cpu as int),
{
    if cpu >= MAX_ISOL_CPUS {
        return false;
    }
    let idx: usize = cpu / 64;
    let b: u64 = (cpu % 64) as u64;
    (words[idx] & (1u64 << b)) != 0
}

/// Sets a bit of a mask.
fn set_bit(words: &mut [u64; 4], cpu: usize)
    requires
        cpu < MAX_ISOL_CPUS,
    ensures
        forall|c: int| #[trigger]
            crate::hardware::irq_affinity::in_mask(final(words)@, c) == (c == cpu
                || crate::hardware::irq_affinity::in_mask(old(words)@, c)),
{
    let idx: usize = cpu / 64;
    let b: u64 = (cpu % 64) as u64;
    let word: u64 = words[idx];
    words[idx] = word | (1u64 << b);
    proof {
        assert forall|c: int| #[trigger]
            crate::hardware::irq_affinity::in_mask(words@, c) == (c == cpu
                || crate::hardware::irq_affinity::in_mask(old(words)@, c)) by {
            if 0 <= c < 256 {
                crate::hardware::irq_affinity::lemma_set_bit(word, b, (c % 64) as u64);
                if c / 64 == idx {
                    assert(words@[c / 64] == word | (1u64 << b));
                    assert(c == 64 * (c / 64) + c % 64);
                    assert(cpu == 64 * idx + b);
                }
            }
        }
    }
}

/// No processor is in a mask of zeros.
proof fn lemma_empty_mask(words: Seq<u64>)
    requires
        words == Seq::new(4, |i: int| 0u64),
    ensures
        forall|c: int| !#[trigger] crate::hardware::irq_affinity::in_mask(words, c),
{
    assert forall|c: int| !#[trigger] crate::hardware::irq_affinity::in_mask(words, c) by {
        crate::hardware::irq_affinity::lemma_no_bit((c % 64) as u64);
    }
}

impl IsolCpusConfig {
    /// True where a processor is isolated.
    pub open spec fn isolated(&self, cpu: int) -> bool {
        crate::hardware::irq_affinity::in_mask(self.isolated_mask@, cpu)
    }

    /// True where a processor does housekeeping.
    pub open spec fn housekeeping(&self, cpu: int) -> bool {
        crate::hardware::irq_affinity::in_mask(self.housekeeping_mask@, cpu)
    }

    /// True where nothing is known of any processor.
    pub open spec fn blank(&self) -> bool {
        &&& forall|cpu: int| !#[trigger] self.isolated(cpu)
        &&& forall|cpu: int| !#[trigger] self.housekeeping(cpu)
        &&& self.isolated_count == 0
        &&& !self.isolcpus_detected
        &&& self.cpu_numa_node@ == Seq::new(256, |i: int| -1i8)
    }

    pub fn new() -> (c: Self)
        ensures
            c.blank(),
    {
        let c = Self {
            isolated_mask: [0u64;4],
            isolated_count: 0,
            isolcpus_detected: false,
            housekeeping_mask: [0u64;4],
            cpu_numa_node: [-1i8;256],
        };
        proof {
            assert(c.isolated_mask@ =~= Seq::new(4, |i: int| 0u64));
            assert(c.housekeeping_mask@ =~= Seq::new(4, |i: int| 0u64));
            lemma_empty_mask(c.isolated_mask@);
            lemma_empty_mask(c.housekeeping_mask@);
            assert(c.cpu_numa_node@ =~= Seq::new(256, |i: int| -1i8));
        }
        c
    }

    /// True where a processor is isolated.
    pub fn is_isolated(&self, cpu: usize) -> (r: bool)
        ensures
            r == self.isolated(cpu as int),
    {
        test_bit(&self.isolated_mask, cpu)
    }

    /// True where a processor does housekeeping.
    pub fn is_housekeeping(&self, cpu: usize) -> (r: bool)
        ensures
            r == self.housekeeping(cpu as int),
    {
        test_bit(&self.housekeeping_mask, cpu)
    }

    /// The isolated processors, from the lowest up.
    pub fn get_isolated_list(&self) -> (r: Vec<usize>)
        ensures
            r@ == isolated_list(self.isolated_mask@, 256),
            r@.len() <= 256,
    {
        let mut list: Vec<usize> = Vec::new();
        let mut cpu: usize = 0;
        while cpu < MAX_ISOL_CPUS
            invariant
                cpu <= MAX_ISOL_CPUS,
                list@ == isolated_list(self.isolated_mask@, cpu as int),
                list@.len() <= cpu,
            decreases MAX_ISOL_CPUS - cpu,
        {
            if self.is_isolated(cpu) {
                list.push(cpu);
            }
            cpu = cpu + 1;
        }
        list
    }

    /// The memory node of a processor; -1 where none is known.
    pub fn get_cpu_numa(&self, cpu: usize) -> (r: i8)
        ensures
            r == if cpu < MAX_ISOL_CPUS {
                self.cpu_numa_node@[cpu as int]
            } else {
                -1i8
            },
    {
        if cpu < MAX_ISOL_CPUS {
            self.cpu_numa_node[cpu]
        } else {
            -1
        }
    }
}

impl Default for IsolCpusConfig {
    fn default() -> (c: Self)
        ensures
            c.blank(),
    {
        Self::new()
    }
}

/// Result of a processor validation.
#[derive(Debug, Clone, Copy)]
pub struct CpuValidation {
    pub cpu: usize,
    pub is_valid: bool,
    pub is_isolated: bool,
    pub numa_node: i8,
    pub issues: [Option<&'static str>; 8],
    pub issue_count: usize,
}

impl CpuValidation {
    /// Adds an issue; beyond the eighth none is kept.
    fn add_issue(&mut self, issue: &'static str)
        requires
            old(self).issue_count <= 8,
        ensures
            final(self).cpu == old(self).cpu,
            final(self).is_valid == old(self).is_valid,
            final(self).is_isolated == old(self).is_isolated,
            final(self).numa_node == old(self).numa_node,
            if old(self).issue_count < 8 {
                &&& final(self).issue_count == old(self).issue_count + 1
                &&& final(self).issues@ == old(self).issues@.update(
                    old(self).issue_count as int,
                    Some(issue),
                )
            } else {
                final(self).issue_count == 8 && final(self).issues@ == old(self).issues@
            },
    {
        if self.issue_count < 8 {
            self.issues[self.issue_count] = Some(issue);
            self.issue_count = self.issue_count + 1;
        }
    }

    /// The issues.
    pub fn get_issues(&self) -> (r: &[Option<&'static str>])
        requires
            self.issue_count <= 8,
        ensures
            r@ == self.issues@.take(self.issue_count as int),
    {
        vstd::slice::slice_subrange(self.issues.as_slice(), 0, self.issue_count)
    }
}

/// Detects and validates isolated processors.
#[derive(Debug, Clone, Copy)]
pub struct IsolCpusManager {
    /// Current configuration
    pub config: IsolCpusConfig,
    /// Whether the manager is initialized
    pub initialized: bool,
}

impl IsolCpusManager {
    pub fn new() -> (m: Self)
        ensures
            m.config.blank(),
            !m.initialized,
    {
        Self { config: IsolCpusConfig::new(), initialized: false }
    }

    /// Marks a processor as isolated.
    fn set_isolated(&mut self, cpu: usize)
        requires
            cpu < MAX_ISOL_CPUS,
        ensures
            forall|c: int| #[trigger]
                final(self).config.isolated(c) == (c == cpu || old(self).config.isolated(c)),
            final(self).config.isolated_count == old(self).config.isolated_count.wrapping_add(1),
            final(self).config.isolcpus_detected == old(self).config.isolcpus_detected,
            final(self).config.housekeeping_mask == old(self).config.housekeeping_mask,
            final(self).config.cpu_numa_node == old(self).config.cpu_numa_node,
            final(self).initialized == old(self).initialized,
    {
        set_bit(&mut self.config.isolated_mask, cpu);
        self.config.isolated_count = self.config.isolated_count.wrapping_add(1);
        assert forall|c: int| #[trigger]
            self.config.isolated(c) == (c == cpu || old(self).config.isolated(c)) by {
            assert(crate::hardware::irq_affinity::in_mask(self.config.isolated_mask@, c) == (c
                == cpu || crate::hardware::irq_affinity::in_mask(
                old(self).config.isolated_mask@,
                c,
            )));
        }
    }

    /// Marks the processors of an entry as isolated.
    fn add_entry(&mut self, entry: &[char])
        ensures
            forall|c: int| #[trigger]
                final(self).config.isolated(c) == (old(self).config.isolated(c) || (0 <= c < 256
                    && entry_names(entry@, c))),
            final(self).config.isolated_count == (old(self).config.isolated_count + entry_count(
                entry@,
            )) % 0x1_0000_0000,
            final(self).config.isolcpus_detected == old(self).config.isolcpus_detected,
            final(self).config.housekeeping_mask == old(self).config.housekeeping_mask,
            final(self).config.cpu_numa_node == old(self).config.cpu_numa_node,
            final(self).initialized == old(self).initialized,
    {
        let p = trimmed(entry);
        let dash = chars_of("-");
        proof {
            reveal_strlit("-");
            assert(dash@ =~= seq!['-']);
        }
        let bounds: Option<(usize, usize)> = if has_part(p.as_slice(), dash.as_slice()) {
            let q = split_on(p.as_slice(), '-');
            let ghost parts = crate::text::split(p@, '-');
            assert(parts.len() == q@.len());
            if q.len() == 2 {
                assert(parts[0] == q@[0]@);
                assert(parts[1] == q@[1]@);
                match (
                    parse_unsigned(q[0].as_slice(), usize::MAX as u64),
                    parse_unsigned(q[1].as_slice(), usize::MAX as u64),
                ) {
                    (Some(a), Some(b)) => Some((a as usize, b as usize)),
                    _ => None,
                }
            } else {
                None
            }
        } else {
            match parse_unsigned(p.as_slice(), usize::MAX as u64) {
                Some(n) => Some((n as usize, n as usize)),
                None => None,
            }
        };
        if let Some((a, b)) = bounds {
            assert(entry_range(entry@) == Some((a as nat, b as nat)));
            let last: usize = if b < 255 {
                b
            } else {
                255
            };
            let mut cpu: usize = a;
            while cpu <= last
                invariant
                    a <= cpu,
                    last <= 255,
                    cpu <= last + 1 || cpu == a,
                    forall|c: int| #[trigger]
                        self.config.isolated(c) == (old(self).config.isolated(c) || (a <= c < cpu
                            && c <= last)),
                    self.config.isolated_count == (old(self).config.isolated_count + (cpu - a))
                        % 0x1_0000_0000,
                    self.config.isolcpus_detected == old(self).config.isolcpus_detected,
                    self.config.housekeeping_mask == old(self).config.housekeeping_mask,
                    self.config.cpu_numa_node == old(self).config.cpu_numa_node,
                    self.initialized == old(self).initialized,
                decreases last + 1 - cpu,
            {
                self.set_isolated(cpu);
                cpu = cpu + 1;
            }
        } else {
            assert(entry_range(entry@) is None);
        }
    }

    /// Marks the processors of a list as isolated.
    fn add_list(&mut self, list: &[char])
        ensures
            ({
                let entries = crate::text::split(list@, ',');
                &&& forall|c: int| #[trigger]
                    final(self).config.isolated(c) == (old(self).config.isolated(c) || (0 <= c
                        < 256 && list_names(entries, c)))
                &&& final(self).config.isolated_count == (old(self).config.isolated_count
                    + list_count(entries)) % 0x1_0000_0000
            }),
            final(self).config.isolcpus_detected == old(self).config.isolcpus_detected,
            final(self).config.housekeeping_mask == old(self).config.housekeeping_mask,
            final(self).config.cpu_numa_node == old(self).config.cpu_numa_node,
            final(self).initialized == old(self).initialized,
    {
        let parts = split_on(list, ',');
        let ghost entries = crate::text::split(list@, ',');
        let mut i: usize = 0;
        assert(entries.take(0) =~= Seq::<Seq<char>>::empty());
        while i < parts.len()
            invariant
                i <= parts@.len(),
                entries == crate::text::texts(parts@),
                forall|c: int| #[trigger]
                    self.config.isolated(c) == (old(self).config.isolated(c) || (0 <= c < 256
                        && list_names(entries.take(i as int), c))),
                self.config.isolated_count == (old(self).config.isolated_count + list_count(
                    entries.take(i as int),
                )) % 0x1_0000_0000,
                self.config.isolcpus_detected == old(self).config.isolcpus_detected,
                self.config.housekeeping_mask == old(self).config.housekeeping_mask,
                self.config.cpu_numa_node == old(self).config.cpu_numa_node,
                self.initialized == old(self).initialized,
            decreases parts.len() - i,
        {
            let ghost before = *self;
            proof {
                assert(entries.take(i + 1).drop_last() =~= entries.take(i as int));
                assert(entries.take(i + 1).last() == parts@[i as int]@);
            }
            self.add_entry(parts[i].as_slice());
            proof {
                assert forall|c: int| #[trigger]
                    self.config.isolated(c) == (old(self).config.isolated(c) || (0 <= c < 256
                        && list_names(entries.take(i + 1), c))) by {
                    assert(self.config.isolated(c) == (before.config.isolated(c) || (0 <= c < 256
                        && entry_names(parts@[i as int]@, c))));
                    lemma_list_names_push(entries, i as int, c);
                }
            }
            i = i + 1;
        }
        assert(entries.take(i as int) =~= entries);
    }

    /// Detects the isolated processors that the kernel command line names; the others do
    /// housekeeping. Returns whether the parameter was there.
    pub fn detect_from_cmdline(&mut self, cmdline: Option<&str>) -> (r: Result<
        bool,
        &'static str,
    >)
        ensures
            match cmdline {
                None => {
                    &&& r matches Err(e) && e@ == "Failed to read /proc/cmdline"@
                    &&& *final(self) == *old(self)
                },
                Some(line) => {
                    let words = crate::text::words(line@);
                    &&& r == Ok::<bool, &'static str>(cmdline_has(words))
                    &&& final(self).config.isolcpus_detected == cmdline_has(words)
                    &&& final(self).config.isolated_count == cmdline_count(words) % 0x1_0000_0000
                    &&& forall|c: int| #[trigger]
                        final(self).config.isolated(c) == (0 <= c < 256 && cmdline_names(words, c))
                    &&& forall|c: int| #[trigger]
                        final(self).config.housekeeping(c) == (0 <= c < 256 && !cmdline_names(
                            words,
                            c,
                        ))
                    &&& final(self).config.cpu_numa_node == old(self).config.cpu_numa_node
                    &&& final(self).initialized
                },
            },
    {
        let line = match cmdline {
            Some(l) => l,
            None => {
                return Err("Failed to read /proc/cmdline");
            },
        };
        self.config.isolcpus_detected = false;
        self.config.isolated_count = 0;
        self.config.isolated_mask = [0u64;4];
        self.config.housekeeping_mask = [0u64;4];
        let all = chars_of(line);
        let list = words_of(all.as_slice());
        let name = chars_of("isolcpus=");
        let ghost words = crate::text::words(line@);
        proof {
            reveal_strlit("isolcpus=");
            assert(name@ =~= parameter());
            assert(self.config.isolated_mask@ =~= Seq::new(4, |i: int| 0u64));
            assert(self.config.housekeeping_mask@ =~= Seq::new(4, |i: int| 0u64));
            lemma_empty_mask(self.config.isolated_mask@);
            lemma_empty_mask(self.config.housekeeping_mask@);
            assert(words.take(0) =~= Seq::<Seq<char>>::empty());
        }
        let ghost cleared = self.config.housekeeping_mask;
        let mut i: usize = 0;
        while i < list.len()
            invariant
                i <= list@.len(),
                words == crate::text::texts(list@),
                name@ == parameter(),
                self.config.isolcpus_detected == cmdline_has(words.take(i as int)),
                self.config.isolated_count == cmdline_count(words.take(i as int)) % 0x1_0000_0000,
                forall|c: int| #[trigger]
                    self.config.isolated(c) == (0 <= c < 256 && cmdline_names(
                        words.take(i as int),
                        c,
                    )),
                self.config.housekeeping_mask == cleared,
                self.config.cpu_numa_node == old(self).config.cpu_numa_node,
            decreases list.len() - i,
        {
            let word = &list[i];
            let ghost before = *self;
            proof {
                assert(words.take(i + 1).drop_last() =~= words.take(i as int));
                assert(words.take(i + 1).last() == word@);
                lemma_cmdline_push(words, i as int);
            }
            if begins_with(word.as_slice(), name.as_slice()) {
                self.config.isolcpus_detected = true;
                let value = part(word.as_slice(), name.len(), word.len());
                assert(value@ =~= word@.skip(parameter().len() as int));
                self.add_list(value.as_slice());
            }
            proof {
                assert forall|c: int| #[trigger]
                    self.config.isolated(c) == (0 <= c < 256 && cmdline_names(
                        words.take(i + 1),
                        c,
                    )) by {
                    assert(before.config.isolated(c) == (0 <= c < 256 && cmdline_names(
                        words.take(i as int),
                        c,
                    )));
                    assert(cmdline_names(words.take(i + 1), c) == (cmdline_names(
                        words.take(i as int),
                        c,
                    ) || (parameter_list(word@) matches Some(l) && list_names(l, c))));
                }
            }
            i = i + 1;
        }
        assert(words.take(i as int) =~= words);
        let mut cpu: usize = 0;
        let ghost isolated = self.config;
        while cpu < MAX_ISOL_CPUS
            invariant
                cpu <= MAX_ISOL_CPUS,
                self.config.isolated_mask == isolated.isolated_mask,
                self.config.isolated_count == isolated.isolated_count,
                self.config.isolcpus_detected == isolated.isolcpus_detected,
                self.config.cpu_numa_node == isolated.cpu_numa_node,
                forall|c: int| #[trigger]
                    self.config.housekeeping(c) == (0 <= c < cpu && !isolated.isolated(c)),
            decreases MAX_ISOL_CPUS - cpu,
        {
            let ghost before = self.config;
            if !self.config.is_isolated(cpu) {
                set_bit(&mut self.config.housekeeping_mask, cpu);
            }
            proof {
                assert forall|c: int| #[trigger]
                    self.config.housekeeping(c) == (0 <= c < cpu + 1 && !isolated.isolated(c)) by {
                    assert(before.housekeeping(c) == (0 <= c < cpu && !isolated.isolated(c)));
                    assert(before.isolated(cpu as int) == isolated.isolated(cpu as int));
                    if !isolated.isolated(cpu as int) {
                        assert(crate::hardware::irq_affinity::in_mask(
                            self.config.housekeeping_mask@,
                            c,
                        ) == (c == cpu || crate::hardware::irq_affinity::in_mask(
                            before.housekeeping_mask@,
                            c,
                        )));
                    }
                }
            }
            cpu = cpu + 1;
        }
        self.initialized = true;
        proof {
            assert forall|c: int| #[trigger]
                self.config.isolated(c) == (0 <= c < 256 && cmdline_names(words, c)) by {
                assert(isolated.isolated(c) == (0 <= c < 256 && cmdline_names(words, c)));
            }
            assert forall|c: int| #[trigger]
                self.config.housekeeping(c) == (0 <= c < 256 && !cmdline_names(words, c)) by {
                assert(isolated.isolated(c) == (0 <= c < 256 && cmdline_names(words, c)));
            }
        }
        Ok(self.config.isolcpus_detected)
    }

    /// Detects the isolated processors that the system files list. Returns how many there are.
    pub fn detect_from_sysfs(&mut self, isolated: Option<&str>) -> (r: Result<
        usize,
        &'static str,
    >)
        ensures
            match isolated {
                None => {
                    &&& r matches Err(e) && e@ == "Failed to read isolated CPUs from sysfs"@
                    &&& *final(self) == *old(self)
                },
                Some(content) => {
                    let list = crate::text::trim(content@);
                    let entries = crate::text::split(list, ',');
                    let found = isolated_list(final(self).config.isolated_mask@, 256);
                    &&& final(self).config.isolcpus_detected == old(self).config.isolcpus_detected
                    &&& final(self).config.housekeeping_mask == old(self).config.housekeeping_mask
                    &&& final(self).config.cpu_numa_node == old(self).config.cpu_numa_node
                    &&& if list.len() == 0 {
                        &&& r == Ok::<usize, &'static str>(0)
                        &&& final(self).config.isolated_count == 0
                        &&& forall|c: int| !#[trigger] final(self).config.isolated(c)
                        &&& final(self).initialized == old(self).initialized
                    } else {
                        &&& r == Ok::<usize, &'static str>(found.len() as usize)
                        &&& final(self).config.isolated_count == found.len()
                        &&& forall|c: int| #[trigger]
                            final(self).config.isolated(c) == (0 <= c < 256 && list_names(
                                entries,
                                c,
                            ))
                        &&& final(self).initialized
                    }
                },
            },
    {
        let content = match isolated {
            Some(c) => c,
            None => {
                return Err("Failed to read isolated CPUs from sysfs");
            },
        };
        self.config.isolated_count = 0;
        self.config.isolated_mask = [0u64;4];
        proof {
            assert(self.config.isolated_mask@ =~= Seq::new(4, |i: int| 0u64));
            lemma_empty_mask(self.config.isolated_mask@);
        }
        let all = chars_of(content);
        let list = trimmed(all.as_slice());
        if list.len() == 0 {
            return Ok(0);
        }
        let ghost cleared = self.config;
        self.add_list(list.as_slice());
        let ghost listed = self.config;
        let found = self.config.get_isolated_list();
        self.config.isolated_count = found.len() as u32;
        self.initialized = true;
        proof {
            let entries = crate::text::split(list@, ',');
            assert forall|c: int| #[trigger]
                self.config.isolated(c) == (0 <= c < 256 && list_names(entries, c)) by {
                assert(!crate::hardware::irq_affinity::in_mask(cleared.isolated_mask@, c));
                assert(listed.isolated(c) == (cleared.isolated(c) || (0 <= c < 256 && list_names(
                    entries,
                    c,
                ))));
            }
        }
        Ok(found.len())
    }

    /// Takes over the memory node of each processor whose file could be read and holds one.
    pub fn detect_numa_topology(&mut self, package_ids: &Vec<Option<String>>) -> (r: Result<
        (),
        &'static str,
    >)
        requires
            package_ids@.len() == MAX_ISOL_CPUS,
        ensures
            r is Ok,
            final(self).initialized == old(self).initialized,
            final(self).config.isolated_mask == old(self).config.isolated_mask,
            final(self).config.isolated_count == old(self).config.isolated_count,
            final(self).config.isolcpus_detected == old(self).config.isolcpus_detected,
            final(self).config.housekeeping_mask == old(self).config.housekeeping_mask,
            forall|cpu: int|
                0 <= cpu < 256 ==> #[trigger] final(self).config.cpu_numa_node@[cpu] == node_after(
                    old(self).config.cpu_numa_node@[cpu],
                    package_ids@[cpu],
                ),
    {
        let mut cpu: usize = 0;
        while cpu < MAX_ISOL_CPUS
            invariant
                cpu <= MAX_ISOL_CPUS,
                package_ids@.len() == MAX_ISOL_CPUS,
                self.initialized == old(self).initialized,
                self.config.isolated_mask == old(self).config.isolated_mask,
                self.config.isolated_count == old(self).config.isolated_count,
                self.config.isolcpus_detected == old(self).config.isolcpus_detected,
                self.config.housekeeping_mask == old(self).config.housekeeping_mask,
                forall|c: int|
                    0 <= c < cpu ==> #[trigger] self.config.cpu_numa_node@[c] == node_after(
                        old(self).config.cpu_numa_node@[c],
                        package_ids@[c],
                    ),
                forall|c: int|
                    cpu <= c < 256 ==> #[trigger] self.config.cpu_numa_node@[c] == old(self).config.cpu_numa_node@[c],
            decreases MAX_ISOL_CPUS - cpu,
        {
            if let Some(content) = &package_ids[cpu] {
                let all = chars_of(content.as_str());
                let t = trimmed(all.as_slice());
                if let Some(node) = parse_signed(t.as_slice(), -128, 127) {
                    self.config.cpu_numa_node[cpu] = node as i8;
                }
            }
            cpu = cpu + 1;
        }
        Ok(())
    }

    /// Validates that a processor is suitable for trading: in range and isolated.
    pub fn validate_trading_cpu(&self, cpu: usize) -> (v: CpuValidation)
        ensures
            v.cpu == cpu,
            v.issue_count <= 8,
            if cpu >= MAX_ISOL_CPUS {
                &&& !v.is_valid
                &&& !v.is_isolated
                &&& v.numa_node == -1
                &&& v.issue_count == 1
                &&& v.issues@[0] matches Some(text) && text@ == "CPU index out of range"@
            } else {
                &&& v.is_isolated == self.config.isolated(cpu as int)
                &&& v.numa_node == self.config.cpu_numa_node@[cpu as int]
                &&& v.is_valid == v.is_isolated
                &&& v.issue_count == if v.is_isolated {
                    0int
                } else {
                    1int
                }
                &&& !v.is_isolated ==> (v.issues@[0] matches Some(text) && text@
                    == "CPU is not isolated - may experience scheduler preemption"@)
            },
    {
        let mut validation = CpuValidation {
            cpu,
            is_valid: true,
            is_isolated: false,
            numa_node: -1,
            issues: [None;8],
            issue_count: 0,
        };
        if cpu >= MAX_ISOL_CPUS {
            validation.is_valid = false;
            validation.add_issue("CPU index out of range");
            return validation;
        }
        validation.is_isolated = self.config.is_isolated(cpu);
        validation.numa_node = self.config.get_cpu_numa(cpu);
        if !validation.is_isolated {
            validation.add_issue("CPU is not isolated - may experience scheduler preemption");
        }
        validation.is_valid = validation.issue_count == 0;
        validation
    }

    /// The configuration.
    pub fn get_config(&self) -> (r: &IsolCpusConfig)
        ensures
            *r == self.config,
    {
        &self.config
    }

    /// True once processors were detected.
    pub fn is_initialized(&self) -> (r: bool)
        ensures
            r == self.initialized,
    {
        self.initialized
    }
}

/// The memory node of a processor once its file was looked at.
pub open spec fn node_after(node: i8, content: Option<String>) -> i8 {
    match content {
        Some(c) => match crate::text::signed(crate::text::trim(c@), -128, 127) {
            Some(n) => n as i8,
            None => node,
        },
        None => node,
    }
}

/// One more entry adds the processors that it names.
proof fn lemma_list_names_push(entries: Seq<Seq<char>>, i: int, c: int)
    requires
        0 <= i < entries.len(),
    ensures
        list_names(entries.take(i + 1), c) == (list_names(entries.take(i), c) || entry_names(
            entries[i],
            c,
        )),
{
    let less = entries.take(i);
    let more = entries.take(i + 1);
    if list_names(less, c) {
        let j = choose|j: int| 0 <= j < less.len() && entry_names(#[trigger] less[j], c);
        assert(more[j] == less[j]);
    }
    if entry_names(entries[i], c) {
        assert(more[i] == entries[i]);
    }
    if list_names(more, c) {
        let j = choose|j: int| 0 <= j < more.len() && entry_names(#[trigger] more[j], c);
        if j < i {
            assert(less[j] == more[j]);
        }
    }
}

/// One more word of the command line adds what it names.
proof fn lemma_cmdline_push(words: Seq<Seq<char>>, i: int)
    requires
        0 <= i < words.len(),
    ensures
        cmdline_has(words.take(i + 1)) == (cmdline_has(words.take(i)) || parameter_list(
            words[i],
        ) is Some),
        forall|c: int| #[trigger]
            cmdline_names(words.take(i + 1), c) == (cmdline_names(words.take(i), c) || (
            parameter_list(words[i]) matches Some(l) && list_names(l, c))),
{
    let less = words.take(i);
    let more = words.take(i + 1);
    assert(more[i] == words[i]);
    assert forall|j: int| 0 <= j < i implies more[j] == less[j] by {}
    if cmdline_has(less) {
        let j = choose|j: int| 0 <= j < less.len() && parameter_list(#[trigger] less[j]) is Some;
        assert(more[j] == less[j]);
    }
    if cmdline_has(more) {
        let j = choose|j: int| 0 <= j < more.len() && parameter_list(#[trigger] more[j]) is Some;
        if j < i {
            assert(less[j] == more[j]);
        }
    }
    assert forall|c: int| #[trigger]
        cmdline_names(more, c) == (cmdline_names(less, c) || (parameter_list(words[i]) matches Some(
            l,
        ) && list_names(l, c))) by {
        if cmdline_names(less, c) {
            let j = choose|j: int|
                0 <= j < less.len() && (parameter_list(#[trigger] less[j]) matches Some(list)
                    && list_names(list, c));
            assert(more[j] == less[j]);
        }
        if cmdline_names(more, c) {
            let j = choose|j: int|
                0 <= j < more.len() && (parameter_list(#[trigger] more[j]) matches Some(list)
                    && list_names(list, c));
            if j < i {
                assert(less[j] == more[j]);
            }
        }
    }
}

/// The list of isolated processors holds exactly those, in ascending order.
pub proof fn law_isolated_list_is_sorted_and_complete(words: Seq<u64>, below: int)
    requires
        0 <= below <= 256,
    ensures
        ({
            let list = isolated_list(words, below);
            &&& list.len() <= below
            &&& forall|i: int, j: int| 0 <= i < j < list.len() ==> list[i] < list[j]
            &&& forall|i: int| 0 <= i < list.len() ==> (#[trigger] list[i]) < below
            &&& forall|cpu: int|
                0 <= cpu < below ==> (list.contains(cpu as usize)
                    <==> crate::hardware::irq_affinity::in_mask(words, cpu))
        }),
    decreases below,
{
    if below > 0 {
        law_isolated_list_is_sorted_and_complete(words, below - 1);
        let before = isolated_list(words, below - 1);
        let list = isolated_list(words, below);
        let last = (below - 1) as usize;
        assert forall|cpu: int| 0 <= cpu < below implies (list.contains(cpu as usize)
            <==> crate::hardware::irq_affinity::in_mask(words, cpu)) by {
            if cpu < below - 1 {
                if before.contains(cpu as usize) {
                    let k = choose|k: int| 0 <= k < before.len() && before[k] == cpu as usize;
                    assert(list[k] == cpu as usize);
                }
                if list.contains(cpu as usize) {
                    let k = choose|k: int| 0 <= k < list.len() && list[k] == cpu as usize;
                    assert(k < before.len());
                    assert(before[k] == cpu as usize);
                }
            } else {
                if crate::hardware::irq_affinity::in_mask(words, cpu) {
                    assert(list[before.len() as int] == last);
                } else if list.contains(cpu as usize) {
                    let k = choose|k: int| 0 <= k < list.len() && list[k] == cpu as usize;
                    assert(before[k] < below - 1);
                }
            }
        }
    }
}

impl Default for IsolCpusManager {
    fn default() -> (m: Self)
        ensures
            m.config.blank(),
            !m.initialized,
    {
        Self::new()
    }
}

/// An entry of a list names one processor, or all from one to another with a dash between them.
pub proof fn law_entries_name_ranges(a: nat, b: nat, cpu: int, before: Seq<char>, after: Seq<char>)
    requires
        a <= usize::MAX,
        b <= usize::MAX,
        crate::text::only_space(before),
        crate::text::only_space(after),
    ensures
        entry_names(before + crate::text::number(a) + after, cpu) <==> cpu == a,
        entry_names(
            before + (crate::text::number(a) + seq!['-'] + crate::text::number(b)) + after,
            cpu,
        ) <==> a <= cpu <= b,
{
    let (x, y) = (crate::text::number(a), crate::text::number(b));
    crate::text::lemma_number_digits(a);
    crate::text::lemma_number_digits(b);
    crate::text::law_number_reads_back(a, usize::MAX as nat);
    crate::text::law_number_reads_back(b, usize::MAX as nat);
    assert(crate::text::is_digit(x[0]) && crate::text::is_digit(x[x.len() - 1]));
    assert(crate::text::is_digit(y[0]) && crate::text::is_digit(y[y.len() - 1]));
    crate::text::law_white_space_is_cut_off(before, x, after);
    let s = x + seq!['-'] + y;
    assert(s[0] == x[0] && s.last() == y.last());
    crate::text::law_white_space_is_cut_off(before, s, after);
    assert forall|j: int| 0 <= j < x.len() implies x[j] != '-' by {
        assert(crate::text::is_digit(x[j]));
    }
    assert forall|j: int| 0 <= j < y.len() implies y[j] != '-' by {
        assert(crate::text::is_digit(y[j]));
    }
    assert(!crate::text::contains(x, seq!['-'])) by {
        if crate::text::contains(x, seq!['-']) {
            let i = choose|i: int| #[trigger] crate::text::holds_at(x, seq!['-'], i);
            assert(x.subrange(i, i + 1)[0] == '-');
            assert(x[i] == '-');
        }
    }
    assert(crate::text::contains(s, seq!['-'])) by {
        let i = x.len() as int;
        assert(s.subrange(i, i + 1) =~= seq!['-']);
        assert(crate::text::holds_at(s, seq!['-'], i));
    }
    crate::text::law_parts_stand_between_separators(x, y, '-');
    crate::text::law_parts_stand_between_separators(y, y, '-');
    let q = crate::text::split(s, '-');
    assert(q =~= seq![x, y]);
}

/// An entry counts as many processors as it names among the 256 that there can be.
pub proof fn law_entry_counts_what_it_names(entry: Seq<char>)
    ensures
        entry_count(entry) == crate::tally::count(256, |cpu: int| entry_names(entry, cpu)),
{
    let p = |cpu: int| entry_names(entry, cpu);
    match entry_range(entry) {
        Some((a, b)) => {
            lemma_count_range(256, a, b, p);
        },
        None => {
            lemma_count_none(256, p);
        },
    }
}

proof fn lemma_count_none(n: nat, p: spec_fn(int) -> bool)
    requires
        forall|i: int| 0 <= i < n ==> !#[trigger] p(i),
    ensures
        crate::tally::count(n, p) == 0,
    decreases n,
{
    if n > 0 {
        lemma_count_none((n - 1) as nat, p);
        assert(!p(n - 1));
    }
}

proof fn lemma_count_range(n: nat, a: nat, b: nat, p: spec_fn(int) -> bool)
    requires
        forall|i: int| 0 <= i < n ==> (#[trigger] p(i) <==> a <= i <= b),
    ensures
        crate::tally::count(n, p) == ({
            let last = if b < n { b as int } else { n - 1 };
            if a <= last { (last - a + 1) as nat } else { 0 }
        }),
    decreases n,
{
    if n > 0 {
        lemma_count_range((n - 1) as nat, a, b, p);
        assert(p(n - 1) <==> a <= n - 1 <= b);
    }
}

/// A list counts what its entries count, and a command line what its lists count.
pub proof fn law_lists_count_their_entries(entries: Seq<Seq<char>>)
    ensures
        list_count(entries) == crate::tally::sum(
            entries.len(),
            |i: int| entry_count(entries[i]) as int,
        ),
        cmdline_count(entries) == crate::tally::sum(
            entries.len(),
            |i: int|
                match parameter_list(entries[i]) {
                    Some(list) => list_count(list) as int,
                    None => 0,
                },
        ),
    decreases entries.len(),
{
    if entries.len() > 0 {
        let t = entries.drop_last();
        law_lists_count_their_entries(t);
        crate::tally::lemma_sum_same(
            t.len(),
            |i: int| entry_count(t[i]) as int,
            |i: int| entry_count(entries[i]) as int,
        );
        crate::tally::lemma_sum_same(
            t.len(),
            |i: int|
                match parameter_list(t[i]) {
                    Some(list) => list_count(list) as int,
                    None => 0,
                },
            |i: int|
                match parameter_list(entries[i]) {
                    Some(list) => list_count(list) as int,
                    None => 0,
                },
        );
    }
}

/// The processors of a command line are those behind "isolcpus=", with commas between them.
pub proof fn law_parameter_lists_processors(first: Seq<char>, rest: Seq<char>, word: Seq<char>)
    requires
        !first.contains(','),
    ensures
        parameter_list("isolcpus="@ + first) == Some(seq![first]),
        parameter_list("isolcpus="@ + (first + seq![','] + rest)) == Some(
            seq![first] + crate::text::split(rest, ','),
        ),
        parameter_list(word) is Some <==> crate::text::starts_with(word, "isolcpus="@),
{
    reveal_strlit("isolcpus=");
    let mark = "isolcpus="@;
    assert(mark =~= parameter());
    crate::text::law_parts_stand_between_separators(first, rest, ',');
    let s = mark + first;
    assert(s.take(9) =~= mark);
    assert(s.skip(9) =~= first);
    let list = first + seq![','] + rest;
    let t = mark + list;
    assert(t.take(9) =~= mark);
    assert(t.skip(9) =~= list);
}

/// The node of a processor is the number in its file; a file that is missing leaves the node as it is.
pub proof fn law_node_is_read(node: i8, content: Option<String>, n: nat, before: Seq<char>, after: Seq<char>)
    requires
        n <= 127,
        crate::text::only_space(before),
        crate::text::only_space(after),
    ensures
        content matches Some(c) ==> (c@ == before + crate::text::number(n) + after ==> node_after(
            node,
            content,
        ) == n),
        content matches Some(c) ==> (c@ == before + (seq!['-'] + crate::text::number(n)) + after
            ==> node_after(node, content) == -n),
        content is None ==> node_after(node, content) == node,
{
    let d = crate::text::number(n);
    crate::text::lemma_number_digits(n);
    assert(crate::text::is_digit(d[0]) && crate::text::is_digit(d[d.len() - 1]));
    crate::text::law_white_space_is_cut_off(before, d, after);
    let s = seq!['-'] + d;
    assert(s[0] == '-' && s.last() == d.last());
    crate::text::law_white_space_is_cut_off(before, s, after);
    crate::text::law_signed_number_reads_back(n, -128, 127);
}

} // verus!
