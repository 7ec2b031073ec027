//! Cores, caches and memory nodes of the machine, and which thread runs where.
use crate::text::{
    begins_with, chars_of, lines_of, parse_unsigned, part, split_on, trimmed, words_of,
};
use dashmap::DashMap;
use vstd::prelude::*;

verus! {

/// Cache of a core.
#[derive(Debug, Clone, Copy, PartialEq, Eq, Structural)]
pub struct CacheInfo {
    pub level: u32,
    pub size_kb: u32,
    pub line_size: u32,
    pub associativity: u32,
    pub cache_type: CacheType,
}

#[derive(Debug, Clone, Copy, PartialEq, Eq, Structural)]
pub enum CacheType {
    Instruction,
    Data,
    Unified,
}

/// Core.
#[derive(Debug, Clone, Copy, PartialEq, Eq, Structural)]
pub struct CoreInfo {
    pub core_id: u32,
    pub numa_node: u32,
    pub l1d_cache_kb: u32,
    pub l1i_cache_kb: u32,
    pub l2_cache_kb: u32,
    pub frequency_mhz: u32,
    pub is_performance_core: bool,
}

/// Memory node.
#[derive(Debug)]
pub struct NumaNode {
    pub node_id: u32,
    pub cpu_mask: u64,
    pub memory_kb: u64,
    pub distance_to_self: u32,
    pub distances_to_others: Vec<u32>,
}

/// What the files of a core hold, where they could be read.
#[derive(Debug)]
pub struct CoreFiles {
    /// topology/physical_package_id
    pub package_id: Option<String>,
    /// topology/core_id
    pub core_id: Option<String>,
    /// cache/index0/size
    pub l1_size: Option<String>,
    /// cache/index1/size
    pub l2_size: Option<String>,
    /// cpufreq/scaling_cur_freq
    pub frequency: Option<String>,
}

/// What the directory of a memory node is called and its memory file holds.
#[derive(Debug)]
pub struct NodeEntry {
    pub name: String,
    pub meminfo: Option<String>,
}

/// What the files of the machine hold, where they could be read.
#[derive(Debug)]
pub struct TopologyFiles {
    pub cpuinfo: Option<String>,
    pub online: Option<String>,
    /// One entry for each processor that is online, in the order of the list
    pub cores: Vec<CoreFiles>,
    pub nodes: Vec<NodeEntry>,
    pub meminfo: Option<String>,
}

/// The content of a file, where it could be read.
pub open spec fn content(file: Option<String>) -> Option<Seq<char>> {
    match file {
        Some(s) => Some(s@),
        None => None,
    }
}

/// The number that a file holds, or a default.
pub open spec fn number_or(file: Option<Seq<char>>, default: u32) -> u32 {
    match file {
        Some(s) => match crate::text::unsigned(crate::text::trim(s), u32::MAX as nat) {
            Some(n) => n as u32,
            None => default,
        },
        None => default,
    }
}

/// The size that a cache file holds, with or without a K at its end, or a default.
pub open spec fn size_or(file: Option<Seq<char>>, default: u32) -> u32 {
    match file {
        Some(s) => {
            let t = crate::text::trim(s);
            let digits = if t.len() > 0 && t.last() == 'K' {
                t.drop_last()
            } else {
                t
            };
            match crate::text::unsigned(digits, u32::MAX as nat) {
                Some(n) => n as u32,
                None => default,
            }
        },
        None => default,
    }
}

/// The numbers from `a` to `b`.
pub open spec fn numbers_from(a: u32, b: u32) -> Seq<u32> {
    if a <= b {
        Seq::new((b - a + 1) as nat, |i: int| (a + i) as u32)
    } else {
        Seq::empty()
    }
}

/// The processors that an entry of the online list names: a range, whose bounds default to zero and
/// to each other, or a single number.
pub open spec fn entry_cpus(entry: Seq<char>) -> Seq<u32> {
    match crate::text::position(entry, '-') {
        Some(i) => {
            let start = match crate::text::unsigned(entry.take(i), u32::MAX as nat) {
                Some(n) => n as u32,
                None => 0,
            };
            let end = match crate::text::unsigned(entry.skip(i + 1), u32::MAX as nat) {
                Some(n) => n as u32,
                None => start,
            };
            numbers_from(start, end)
        },
        None => match crate::text::unsigned(entry, u32::MAX as nat) {
            Some(n) => seq![n as u32],
            None => Seq::empty(),
        },
    }
}

/// The processors that entries of the online list name.
pub open spec fn entries_cpus(entries: Seq<Seq<char>>) -> Seq<u32>
    decreases entries.len(),
{
    if entries.len() == 0 {
        Seq::empty()
    } else {
        entries_cpus(entries.drop_last()) + entry_cpus(entries.last())
    }
}

/// The processors that the online list names.
pub open spec fn online_cpus(file: Option<Seq<char>>) -> Seq<u32> {
    match file {
        Some(s) => entries_cpus(crate::text::split(crate::text::trim(s), ',')),
        None => Seq::empty(),
    }
}

/// The core that files describe. Cores numbered four and up count as performance cores.
pub open spec fn core_of(cpu_id: u32, files: CoreFiles) -> CoreInfo {
    let core_id = number_or(content(files.core_id), cpu_id);
    CoreInfo {
        core_id,
        numa_node: number_or(content(files.package_id), 0),
        l1d_cache_kb: size_or(content(files.l1_size), 32),
        l1i_cache_kb: size_or(content(files.l1_size), 32),
        l2_cache_kb: size_or(content(files.l2_size), 512),
        frequency_mhz: number_or(content(files.frequency), 0) / 1000,
        is_performance_core: core_id >= 4,
    }
}

/// The first line that starts with a mark.
pub open spec fn marked_line(lines: Seq<Seq<char>>, mark: Seq<char>, from: int) -> Option<Seq<char>>
    decreases lines.len() - from,
{
    if from >= lines.len() {
        None
    } else if crate::text::starts_with(lines[from], mark) {
        Some(lines[from])
    } else {
        marked_line(lines, mark, from + 1)
    }
}

/// The kilobytes that a memory file gives in total; zero where it does not.
pub open spec fn memory_kb(file: Option<Seq<char>>) -> u64 {
    match file {
        Some(s) => match marked_line(crate::text::lines(s), "MemTotal"@, 0) {
            Some(line) => {
                let words = crate::text::words(line);
                if words.len() >= 2 {
                    match crate::text::unsigned(words[1], u64::MAX as nat) {
                        Some(n) => n as u64,
                        None => 0,
                    }
                } else {
                    0
                }
            },
            None => 0,
        },
        None => 0,
    }
}

/// The model that a processor file names, from line `from` on.
pub open spec fn model_in(lines: Seq<Seq<char>>, from: int) -> Option<Seq<char>>
    decreases lines.len() - from,
{
    if from >= lines.len() {
        None
    } else {
        match crate::text::position(lines[from], ':') {
            Some(i) if crate::text::starts_with(lines[from], "model name"@) => Some(
                crate::text::trim(lines[from].skip(i + 1)),
            ),
            _ => model_in(lines, from + 1),
        }
    }
}

/// The model of the processor; "Unknown" where it is not known.
pub open spec fn cpu_model_of(file: Option<Seq<char>>) -> Seq<char> {
    match file {
        Some(s) => match model_in(crate::text::lines(s), 0) {
            Some(m) => m,
            None => "Unknown"@,
        },
        None => "Unknown"@,
    }
}

/// The number of a memory node, from the name of its directory.
pub open spec fn node_number(name: Seq<char>) -> Option<nat> {
    if crate::text::starts_with(name, seq!['n', 'o', 'd', 'e']) {
        crate::text::unsigned(name.skip(4), u32::MAX as nat)
    } else {
        None
    }
}

/// The numbers and sizes of the memory nodes among entries.
pub open spec fn nodes_in(entries: Seq<NodeEntry>) -> Seq<(u32, u64)>
    decreases entries.len(),
{
    if entries.len() == 0 {
        Seq::empty()
    } else {
        let before = nodes_in(entries.drop_last());
        match node_number(entries.last().name@) {
            Some(n) => before.push((n as u32, memory_kb(content(entries.last().meminfo)))),
            None => before,
        }
    }
}

/// The second-level caches of cores together.
pub open spec fn l2_total(cores: Seq<CoreInfo>) -> nat
    decreases cores.len(),
{
    if cores.len() == 0 {
        0
    } else {
        l2_total(cores.drop_last()) + cores.last().l2_cache_kb as nat
    }
}

/// The cores that files describe.
pub open spec fn cores_of(files: TopologyFiles) -> Seq<CoreInfo> {
    let cpus = online_cpus(content(files.online));
    Seq::new(cpus.len(), |i: int| core_of(cpus[i], files.cores@[i]))
}

/// Reads the number that a file holds.
fn read_number(file: &Option<String>, default: u32) -> (r: u32)
    ensures
        r == number_or(content(*file), default),
{
    match file {
        Some(s) => {
            let all = chars_of(s.as_str());
            let t = trimmed(all.as_slice());
            match parse_unsigned(t.as_slice(), u32::MAX as u64) {
                Some(n) => n as u32,
                None => default,
            }
        },
        None => default,
    }
}

/// Reads the size that a cache file holds.
fn read_cache_size(file: &Option<String>, default: u32) -> (r: u32)
    ensures
        r == size_or(content(*file), default),
{
    match file {
        Some(s) => {
            let all = chars_of(s.as_str());
            let t = trimmed(all.as_slice());
            let n: usize = t.len();
            let end: usize = if n > 0 && t[n - 1] == 'K' {
                n - 1
            } else {
                n
            };
            let digits = part(t.as_slice(), 0, end);
            proof {
                if end < n {
                    assert(digits@ =~= t@.drop_last());
                } else {
                    assert(digits@ =~= t@);
                }
            }
            match parse_unsigned(digits.as_slice(), u32::MAX as u64) {
                Some(v) => v as u32,
                None => default,
            }
        },
        None => default,
    }
}

/// Reads the processors that an entry of the online list names.
fn read_entry(entry: &Vec<char>, out: &mut Vec<u32>)
    ensures
        final(out)@ == old(out)@ + entry_cpus(entry@),
{
    let mut i: usize = 0;
    while i < entry.len() && entry[i] != '-'
        invariant
            i <= entry@.len(),
            forall|j: int| 0 <= j < i ==> entry@[j] != '-',
        decreases entry.len() - i,
    {
        i = i + 1;
    }
    proof {
        crate::text::lemma_position(entry@, '-');
    }
    if i < entry.len() {
        proof {
            crate::text::lemma_position_is(entry@, '-', i as int);
        }
        let first = part(entry.as_slice(), 0, i);
        let second = part(entry.as_slice(), i + 1, entry.len());
        assert(first@ =~= entry@.take(i as int));
        assert(second@ =~= entry@.skip(i + 1));
        let start: u32 = match parse_unsigned(first.as_slice(), u32::MAX as u64) {
            Some(n) => n as u32,
            None => 0,
        };
        let end: u32 = match parse_unsigned(second.as_slice(), u32::MAX as u64) {
            Some(n) => n as u32,
            None => start,
        };
        let ghost before = out@;
        let mut k: u64 = start as u64;
        assert(out@ =~= before + numbers_from(start, end).take(0));
        while k <= end as u64
            invariant
                start <= k,
                k <= end + 1 || k == start,
                start <= end ==> out@ == before + numbers_from(start, end).take(k - start),
                start > end ==> out@ == before,
            decreases end + 1 - k,
        {
            out.push(k as u32);
            proof {
                let all = numbers_from(start, end);
                assert(all.take(k - start + 1) =~= all.take(k - start).push(k as u32));
                assert(out@ =~= before + all.take(k - start + 1));
            }
            k = k + 1;
        }
        proof {
            let all = numbers_from(start, end);
            if start <= end {
                assert(all.take(k - start) =~= all);
            } else {
                assert(before + all =~= before);
            }
        }
    } else {
        match parse_unsigned(entry.as_slice(), u32::MAX as u64) {
            Some(n) => {
                out.push(n as u32);
            },
            None => {
                assert(out@ =~= old(out)@ + Seq::<u32>::empty());
            },
        }
    }
}

/// Reads the processors that the online list names.
pub fn parse_online(file: &Option<String>) -> (r: Vec<u32>)
    ensures
        r@ == online_cpus(content(*file)),
{
    let mut cpus: Vec<u32> = Vec::new();
    if let Some(s) = file {
        let all = chars_of(s.as_str());
        let t = trimmed(all.as_slice());
        let parts = split_on(t.as_slice(), ',');
        let ghost entries = crate::text::split(t@, ',');
        let mut i: usize = 0;
        assert(entries.take(0) =~= Seq::<Seq<char>>::empty());
        while i < parts.len()
            invariant
                i <= parts@.len(),
                entries == crate::text::texts(parts@),
                cpus@ == entries_cpus(entries.take(i as int)),
            decreases parts.len() - i,
        {
            proof {
                assert(entries.take(i + 1).drop_last() =~= entries.take(i as int));
                assert(entries.take(i + 1).last() == parts@[i as int]@);
            }
            read_entry(&parts[i], &mut cpus);
            i = i + 1;
        }
        assert(entries.take(i as int) =~= entries);
    }
    cpus
}

/// Reads the core that files describe.
pub fn detect_core(cpu_id: u32, files: &CoreFiles) -> (c: CoreInfo)
    ensures
        c == core_of(cpu_id, *files),
{
    let core_id = read_number(&files.core_id, cpu_id);
    CoreInfo {
        core_id,
        numa_node: read_number(&files.package_id, 0),
        l1d_cache_kb: read_cache_size(&files.l1_size, 32),
        l1i_cache_kb: read_cache_size(&files.l1_size, 32),
        l2_cache_kb: read_cache_size(&files.l2_size, 512),
        frequency_mhz: read_number(&files.frequency, 0) / 1000,
        is_performance_core: core_id >= 4,
    }
}

/// Reads the kilobytes that a memory file gives in total.
pub fn read_total_memory(file: &Option<String>) -> (r: u64)
    ensures
        r == memory_kb(content(*file)),
{
    if let Some(s) = file {
        let all = chars_of(s.as_str());
        let lines = lines_of(all.as_slice());
        let mark = chars_of("MemTotal");
        let ghost texts = crate::text::lines(s@);
        let mut i: usize = 0;
        while i < lines.len()
            invariant
                i <= lines@.len(),
                texts == crate::text::texts(lines@),
                texts == crate::text::lines(s@),
                mark@ == "MemTotal"@,
                content(*file) == Some(s@),
                marked_line(texts, mark@, 0) == marked_line(texts, mark@, i as int),
            decreases lines.len() - i,
        {
            let line = lines[i].as_slice();
            assert(texts[i as int] == line@);
            if begins_with(line, mark.as_slice()) {
                let words = words_of(line);
                let ghost parts = crate::text::words(line@);
                assert(parts.len() == words@.len());
                if words.len() >= 2 {
                    assert(parts[1] == words@[1]@);
                    return match parse_unsigned(words[1].as_slice(), u64::MAX) {
                        Some(n) => n,
                        None => 0,
                    };
                }
                return 0;
            }
            i = i + 1;
        }
    }
    0
}

/// Reads the model of the processor.
pub fn read_cpu_model(file: &Option<String>) -> (r: Vec<char>)
    ensures
        r@ == cpu_model_of(content(*file)),
{
    if let Some(s) = file {
        let all = chars_of(s.as_str());
        let lines = lines_of(all.as_slice());
        let mark = chars_of("model name");
        let ghost texts = crate::text::lines(s@);
        let mut i: usize = 0;
        while i < lines.len()
            invariant
                i <= lines@.len(),
                texts == crate::text::texts(lines@),
                texts == crate::text::lines(s@),
                mark@ == "model name"@,
                content(*file) == Some(s@),
                model_in(texts, 0) == model_in(texts, i as int),
            decreases lines.len() - i,
        {
            let line = &lines[i];
            assert(texts[i as int] == line@);
            if begins_with(line.as_slice(), mark.as_slice()) {
                let mut k: usize = 0;
                while k < line.len() && line[k] != ':'
                    invariant
                        k <= line@.len(),
                        forall|j: int| 0 <= j < k ==> line@[j] != ':',
                    decreases line.len() - k,
                {
                    k = k + 1;
                }
                proof {
                    crate::text::lemma_position(line@, ':');
                }
                if k < line.len() {
                    proof {
                        crate::text::lemma_position_is(line@, ':', k as int);
                    }
                    let rest = part(line.as_slice(), k + 1, line.len());
                    assert(rest@ =~= line@.skip(k + 1));
                    return trimmed(rest.as_slice());
                }
            }
            i = i + 1;
        }
    }
    chars_of("Unknown")
}

/// Topology of the machine.
#[derive(Debug)]
pub struct SystemTopology {
    pub cores: Vec<CoreInfo>,
    pub numa_nodes: Vec<NumaNode>,
    pub l3_cache_kb: u32,
    pub total_memory_kb: u64,
    pub cpu_model: Vec<char>,
    pub detected_at_ns: u64,
}

/// True where a resting core stays in front of one that comes later: a larger second-level cache,
/// or one of the same size and a frequency at least as high.
pub open spec fn core_in_front(a: CoreInfo, b: CoreInfo) -> bool {
    a.l2_cache_kb > b.l2_cache_kb || (a.l2_cache_kb == b.l2_cache_kb && a.frequency_mhz
        >= b.frequency_mhz)
}

/// Where a core goes among sorted ones: behind those that stay in front of it.
pub open spec fn core_place(sorted: Seq<CoreInfo>, c: CoreInfo, from: int) -> int
    decreases sorted.len() - from,
{
    if from >= sorted.len() {
        sorted.len() as int
    } else if core_in_front(sorted[from], c) {
        core_place(sorted, c, from + 1)
    } else {
        from
    }
}

/// The performance cores, largest second-level cache first, then by frequency, then as listed.
pub open spec fn ranked(cores: Seq<CoreInfo>) -> Seq<CoreInfo>
    decreases cores.len(),
{
    if cores.len() == 0 {
        Seq::empty()
    } else {
        let before = ranked(cores.drop_last());
        let c = cores.last();
        if c.is_performance_core {
            before.insert(core_place(before, c, 0), c)
        } else {
            before
        }
    }
}

/// The identifiers of at most `count` cores.
pub open spec fn first_ids(cores: Seq<CoreInfo>, count: nat) -> Seq<u32> {
    Seq::new(
        if cores.len() <= count {
            cores.len()
        } else {
            count
        },
        |i: int| cores[i].core_id,
    )
}

/// The identifiers of the cores on a memory node.
pub open spec fn ids_on_node(cores: Seq<CoreInfo>, node: u32) -> Seq<u32>
    decreases cores.len(),
{
    if cores.len() == 0 {
        Seq::empty()
    } else {
        let before = ids_on_node(cores.drop_last(), node);
        if cores.last().numa_node == node {
            before.push(cores.last().core_id)
        } else {
            before
        }
    }
}

/// The number of performance cores with a second-level cache of at least 256 kilobytes.
pub open spec fn capable_cores(cores: Seq<CoreInfo>) -> nat
    decreases cores.len(),
{
    if cores.len() == 0 {
        0
    } else {
        capable_cores(cores.drop_last()) + if cores.last().is_performance_core
            && cores.last().l2_cache_kb >= 256 {
            1nat
        } else {
            0nat
        }
    }
}

/// The first core that is no performance core.
pub open spec fn first_small(cores: Seq<CoreInfo>, from: int) -> Option<u32>
    decreases cores.len() - from,
{
    if from >= cores.len() {
        None
    } else if !cores[from].is_performance_core {
        Some(cores[from].core_id)
    } else {
        first_small(cores, from + 1)
    }
}

impl SystemTopology {
    /// The topology that the files of the machine describe. The third-level cache is estimated as
    /// twice the second-level caches together.
    pub fn detect(files: &TopologyFiles, now_ns: u64) -> (t: Self)
        requires
            files.cores@.len() == online_cpus(content(files.online)).len(),
            l2_total(cores_of(*files)) * 2 <= u32::MAX,
            forall|i: int|
                0 <= i < nodes_in(files.nodes@).len() ==> (#[trigger] nodes_in(files.nodes@)[i]).0
                    < 64,
        ensures
            t.cores@ == cores_of(*files),
            t.numa_nodes@.len() == nodes_in(files.nodes@).len(),
            forall|i: int|
                0 <= i < t.numa_nodes@.len() ==> {
                    let n = #[trigger] t.numa_nodes@[i];
                    &&& n.node_id == nodes_in(files.nodes@)[i].0
                    &&& n.memory_kb == nodes_in(files.nodes@)[i].1
                    &&& n.cpu_mask == 1u64 << (n.node_id as u64)
                    &&& n.distance_to_self == 10
                    &&& n.distances_to_others@ == seq![20u32]
                },
            t.l3_cache_kb == l2_total(cores_of(*files)) * 2,
            t.total_memory_kb == memory_kb(content(files.meminfo)),
            t.cpu_model@ == cpu_model_of(content(files.cpuinfo)),
            t.detected_at_ns == now_ns,
    {
        let cpus = parse_online(&files.online);
        let ghost all = cores_of(*files);
        let mut cores: Vec<CoreInfo> = Vec::new();
        let mut l2: u32 = 0;
        let mut i: usize = 0;
        assert(all.take(0) =~= Seq::<CoreInfo>::empty());
        while i < cpus.len()
            invariant
                i <= cpus@.len(),
                cpus@ == online_cpus(content(files.online)),
                files.cores@.len() == cpus@.len(),
                all == cores_of(*files),
                l2_total(all) * 2 <= u32::MAX,
                cores@ == all.take(i as int),
                l2 == l2_total(all.take(i as int)),
            decreases cpus.len() - i,
        {
            let c = detect_core(cpus[i], &files.cores[i]);
            proof {
                assert(c == all[i as int]);
                assert(all.take(i + 1).drop_last() =~= all.take(i as int));
                lemma_l2_prefix(all, i + 1);
            }
            cores.push(c);
            assert(cores@ =~= all.take(i + 1));
            l2 = l2 + c.l2_cache_kb;
            i = i + 1;
        }
        assert(all.take(i as int) =~= all);
        let mut numa_nodes: Vec<NumaNode> = Vec::new();
        let ghost found = nodes_in(files.nodes@);
        let mut k: usize = 0;
        assert(files.nodes@.take(0) =~= Seq::<NodeEntry>::empty());
        while k < files.nodes.len()
            invariant
                k <= files.nodes@.len(),
                found == nodes_in(files.nodes@),
                forall|i: int| 0 <= i < found.len() ==> (#[trigger] found[i]).0 < 64,
                numa_nodes@.len() == nodes_in(files.nodes@.take(k as int)).len(),
                forall|i: int|
                    0 <= i < numa_nodes@.len() ==> {
                        let n = #[trigger] numa_nodes@[i];
                        &&& n.node_id == nodes_in(files.nodes@.take(k as int))[i].0
                        &&& n.memory_kb == nodes_in(files.nodes@.take(k as int))[i].1
                        &&& n.cpu_mask == 1u64 << (n.node_id as u64)
                        &&& n.distance_to_self == 10
                        &&& n.distances_to_others@ == seq![20u32]
                    },
            decreases files.nodes.len() - k,
        {
            let entry = &files.nodes[k];
            let ghost before = nodes_in(files.nodes@.take(k as int));
            proof {
                assert(files.nodes@.take(k + 1).drop_last() =~= files.nodes@.take(k as int));
                assert(files.nodes@.take(k + 1).last() == *entry);
                lemma_nodes_prefix(files.nodes@, k + 1);
            }
            let name = chars_of(entry.name.as_str());
            let mark = chars_of("node");
            proof {
                reveal_strlit("node");
                assert(mark@ =~= seq!['n', 'o', 'd', 'e']);
            }
            if begins_with(name.as_slice(), mark.as_slice()) {
                let number = part(name.as_slice(), 4, name.len());
                assert(number@ =~= name@.skip(4));
                if let Some(id) = parse_unsigned(number.as_slice(), u32::MAX as u64) {
                    proof {
                        let now = nodes_in(files.nodes@.take(k + 1));
                        assert(now[before.len() as int].0 == id);
                        assert(found[before.len() as int] == now[before.len() as int]);
                    }
                    numa_nodes.push(Self::detect_numa_node(id as u32, &entry.meminfo));
                }
            }
            k = k + 1;
        }
        assert(files.nodes@.take(k as int) =~= files.nodes@);
        SystemTopology {
            cores,
            numa_nodes,
            l3_cache_kb: l2 * 2,
            total_memory_kb: read_total_memory(&files.meminfo),
            cpu_model: read_cpu_model(&files.cpuinfo),
            detected_at_ns: now_ns,
        }
    }

    /// The memory node with a given number.
    fn detect_numa_node(node_id: u32, meminfo: &Option<String>) -> (n: NumaNode)
        requires
            node_id < 64,
        ensures
            n.node_id == node_id,
            n.cpu_mask == 1u64 << (node_id as u64),
            n.memory_kb == memory_kb(content(*meminfo)),
            n.distance_to_self == 10,
            n.distances_to_others@ == seq![20u32],
    {
        let mut distances: Vec<u32> = Vec::new();
        distances.push(20);
        assert(distances@ =~= seq![20u32]);
        NumaNode {
            node_id,
            cpu_mask: 1u64 << (node_id as u64),
            memory_kb: read_total_memory(meminfo),
            distance_to_self: 10,
            distances_to_others: distances,
        }
    }

    /// The best cores for latency-critical threads: performance cores, largest second-level cache
    /// first, then by frequency.
    pub fn get_low_latency_cores(&self, count: usize) -> (r: Vec<u32>)
        ensures
            r@ == first_ids(ranked(self.cores@), count as nat),
    {
        let ghost all = self.cores@;
        let mut sorted: Vec<CoreInfo> = Vec::new();
        let mut i: usize = 0;
        assert(all.take(0) =~= Seq::<CoreInfo>::empty());
        while i < self.cores.len()
            invariant
                i <= self.cores@.len(),
                all == self.cores@,
                sorted@ == ranked(all.take(i as int)),
            decreases self.cores.len() - i,
        {
            let c = self.cores[i];
            assert(all.take(i + 1).drop_last() =~= all.take(i as int));
            if c.is_performance_core {
                let mut k: usize = 0;
                while k < sorted.len() && (sorted[k].l2_cache_kb > c.l2_cache_kb || (
                sorted[k].l2_cache_kb == c.l2_cache_kb && sorted[k].frequency_mhz
                    >= c.frequency_mhz))
                    invariant
                        k <= sorted@.len(),
                        core_place(sorted@, c, 0) == core_place(sorted@, c, k as int),
                    decreases sorted.len() - k,
                {
                    k = k + 1;
                }
                sorted.insert(k, c);
            }
            i = i + 1;
        }
        assert(all.take(i as int) =~= all);
        let mut ids: Vec<u32> = Vec::new();
        let mut j: usize = 0;
        while j < sorted.len() && j < count
            invariant
                j <= sorted@.len(),
                j <= count,
                ids@.len() == j,
                forall|m: int| 0 <= m < j ==> #[trigger] ids@[m] == sorted@[m].core_id,
            decreases sorted.len() - j,
        {
            ids.push(sorted[j].core_id);
            j = j + 1;
        }
        assert(ids@ =~= first_ids(sorted@, count as nat));
        ids
    }

    /// The cores on a memory node.
    pub fn get_cores_on_numa(&self, node_id: u32) -> (r: Vec<u32>)
        ensures
            r@ == ids_on_node(self.cores@, node_id),
    {
        let ghost all = self.cores@;
        let mut ids: Vec<u32> = Vec::new();
        let mut i: usize = 0;
        assert(all.take(0) =~= Seq::<CoreInfo>::empty());
        while i < self.cores.len()
            invariant
                i <= self.cores@.len(),
                all == self.cores@,
                ids@ == ids_on_node(all.take(i as int), node_id),
            decreases self.cores.len() - i,
        {
            assert(all.take(i + 1).drop_last() =~= all.take(i as int));
            if self.cores[i].numa_node == node_id {
                ids.push(self.cores[i].core_id);
            }
            i = i + 1;
        }
        assert(all.take(i as int) =~= all);
        ids
    }

    /// True where at least two performance cores have a second-level cache of 256 kilobytes or more.
    pub fn is_hft_suitable(&self) -> (r: bool)
        ensures
            r == (capable_cores(self.cores@) >= 2),
    {
        let ghost all = self.cores@;
        let mut count: usize = 0;
        let mut i: usize = 0;
        assert(all.take(0) =~= Seq::<CoreInfo>::empty());
        while i < self.cores.len()
            invariant
                i <= self.cores@.len(),
                all == self.cores@,
                count <= i,
                count == capable_cores(all.take(i as int)),
            decreases self.cores.len() - i,
        {
            assert(all.take(i + 1).drop_last() =~= all.take(i as int));
            if self.cores[i].is_performance_core && self.cores[i].l2_cache_kb >= 256 {
                count = count + 1;
            }
            i = i + 1;
        }
        assert(all.take(i as int) =~= all);
        count >= 2
    }

    /// The core for a thread of a given priority: the best for a critical one, the second best for
    /// a high one, the first for a normal one, and the first that is no performance core for a
    /// background one.
    pub open spec fn core_for(&self, priority: ThreadPriority) -> Option<u32> {
        let best = ranked(self.cores@);
        match priority {
            ThreadPriority::Critical => if best.len() > 0 {
                Some(best[0].core_id)
            } else {
                None
            },
            ThreadPriority::High => if best.len() > 1 {
                Some(best[1].core_id)
            } else if best.len() == 1 {
                Some(best[0].core_id)
            } else {
                None
            },
            ThreadPriority::Normal => if self.cores@.len() > 0 {
                Some(self.cores@[0].core_id)
            } else {
                None
            },
            ThreadPriority::Background => first_small(self.cores@, 0),
        }
    }

    /// The core for a thread of a given priority.
    pub fn choose_core(&self, priority: ThreadPriority) -> (r: Option<u32>)
        ensures
            r == self.core_for(priority),
    {
        match priority {
            ThreadPriority::Critical => {
                let best = self.get_low_latency_cores(1);
                if best.len() > 0 {
                    Some(best[0])
                } else {
                    None
                }
            },
            ThreadPriority::High => {
                let best = self.get_low_latency_cores(2);
                let n: usize = best.len();
                if n > 0 {
                    Some(best[n - 1])
                } else {
                    None
                }
            },
            ThreadPriority::Normal => {
                if self.cores.len() > 0 {
                    Some(self.cores[0].core_id)
                } else {
                    None
                }
            },
            ThreadPriority::Background => {
                let mut i: usize = 0;
                while i < self.cores.len()
                    invariant
                        i <= self.cores@.len(),
                        priority == ThreadPriority::Background,
                        first_small(self.cores@, 0) == first_small(self.cores@, i as int),
                    decreases self.cores.len() - i,
                {
                    if !self.cores[i].is_performance_core {
                        return Some(self.cores[i].core_id);
                    }
                    i = i + 1;
                }
                None
            },
        }
    }
}

/// Some of the cores have no more cache than all of them.
proof fn lemma_l2_prefix(cores: Seq<CoreInfo>, k: int)
    requires
        0 <= k <= cores.len(),
    ensures
        l2_total(cores.take(k)) <= l2_total(cores),
    decreases cores.len(),
{
    if k == cores.len() {
        assert(cores.take(k) =~= cores);
    } else {
        lemma_l2_prefix(cores.drop_last(), k);
        assert(cores.drop_last().take(k) =~= cores.take(k));
    }
}

/// The nodes of some of the entries are the first nodes of all of them.
proof fn lemma_nodes_prefix(entries: Seq<NodeEntry>, k: int)
    requires
        0 <= k <= entries.len(),
    ensures
        nodes_in(entries.take(k)).len() <= nodes_in(entries).len(),
        forall|i: int|
            0 <= i < nodes_in(entries.take(k)).len() ==> nodes_in(entries.take(k))[i]
                == #[trigger] nodes_in(entries)[i],
    decreases entries.len(),
{
    if k == entries.len() {
        assert(entries.take(k) =~= entries);
    } else {
        lemma_nodes_prefix(entries.drop_last(), k);
        assert(entries.drop_last().take(k) =~= entries.take(k));
    }
}

/// Thread priority levels.
#[derive(Debug, Clone, Copy, PartialEq, Eq, Structural)]
pub enum ThreadPriority {
    /// Order entry, market data
    Critical,
    /// Risk checks, signal generation
    High,
    /// Telemetry, logging
    Normal,
    /// Housekeeping
    Background,
}

/// What a map from thread names to cores holds.
pub uninterp spec fn assigned(m: DashMap<String, u32>) -> Map<Seq<char>, u32>;

/// No thread has a core.
pub open spec fn nothing_assigned() -> Map<Seq<char>, u32> {
    Map::empty()
}

/// Calls `dashmap::DashMap::new`, which makes an empty map.
#[verifier::external_body]
fn no_assignments() -> (m: DashMap<String, u32>)
    ensures
        assigned(m) == nothing_assigned(),
{
    DashMap::new()
}

/// Calls `dashmap::DashMap::insert`, which maps the key to the value whatever it was mapped to
/// before.
#[verifier::external_body]
fn assign(m: &mut DashMap<String, u32>, name: String, core_id: u32)
    ensures
        assigned(*final(m)) == assigned(*old(m)).insert(name@, core_id),
{
    m.insert(name, core_id);
}

/// Calls `dashmap::DashMap::get`, which finds the value that the key is mapped to.
#[verifier::external_body]
fn lookup(m: &DashMap<String, u32>, name: &str) -> (r: Option<u32>)
    ensures
        r == if assigned(*m).contains_key(name@) {
            Some(assigned(*m)[name@])
        } else {
            None
        },
{
    m.get(name).map(|v| *v)
}

/// The concurrent map of cores by thread name
pub struct CoreTable {
    map: DashMap<String, u32>,
}

impl View for CoreTable {
    type V = Map<Seq<char>, u32>;

    closed spec fn view(&self) -> Map<Seq<char>, u32> {
        assigned(self.map)
    }
}

/// Assigns threads to cores.
pub struct ThreadAffinityManager {
    pub topology: SystemTopology,
    pub assigned_cores: CoreTable,
    pub is_active: bool,
}

impl ThreadAffinityManager {
    /// The cores that threads were assigned to.
    pub open spec fn assignments(&self) -> Map<Seq<char>, u32> {
        self.assigned_cores@
    }

    pub fn new(topology: SystemTopology) -> (m: Self)
        ensures
            m.topology == topology,
            m.assignments() == nothing_assigned(),
            m.is_active,
    {
        Self { topology, assigned_cores: CoreTable { map: no_assignments() }, is_active: true }
    }

    /// Assigns a thread to the core for its priority, where there is one.
    pub fn assign_thread(&mut self, thread_name: &str, priority: ThreadPriority) -> (r: Option<u32>)
        ensures
            final(self).topology == old(self).topology,
            final(self).is_active == old(self).is_active,
            r == if old(self).is_active {
                old(self).topology.core_for(priority)
            } else {
                None
            },
            final(self).assignments() == match r {
                Some(core_id) => old(self).assignments().insert(thread_name@, core_id),
                None => old(self).assignments(),
            },
    {
        if !self.is_active {
            return None;
        }
        let chosen = self.topology.choose_core(priority);
        if let Some(core_id) = chosen {
            assign(&mut self.assigned_cores.map, thread_name.to_owned(), core_id);
        }
        chosen
    }

    /// The core that a thread was assigned to.
    pub fn get_assigned_core(&self, thread_name: &str) -> (r: Option<u32>)
        ensures
            r == if self.assignments().contains_key(thread_name@) {
                Some(self.assignments()[thread_name@])
            } else {
                None
            },
    {
        lookup(&self.assigned_cores.map, thread_name)
    }

    /// Stops assigning.
    pub fn deactivate(&mut self)
        ensures
            *final(self) == (ThreadAffinityManager { is_active: false, ..*old(self) }),
    {
        self.is_active = false;
    }
}

/// The ranking holds performance cores only, each in front of the ones that are no better.
pub proof fn law_ranking_is_sorted(cores: Seq<CoreInfo>)
    ensures
        forall|i: int|
            0 <= i < ranked(cores).len() ==> (#[trigger] ranked(cores)[i]).is_performance_core,
        forall|i: int, j: int|
            0 <= i < j < ranked(cores).len() ==> core_in_front(
                #[trigger] ranked(cores)[i],
                #[trigger] ranked(cores)[j],
            ),
    decreases cores.len(),
{
    if cores.len() > 0 {
        law_ranking_is_sorted(cores.drop_last());
        let before = ranked(cores.drop_last());
        let c = cores.last();
        if c.is_performance_core {
            lemma_core_place(before, c, 0);
            let k = core_place(before, c, 0);
            let after = before.insert(k, c);
            assert forall|i: int| 0 <= i < after.len() implies (
            #[trigger] after[i]).is_performance_core by {
                if i < k {
                    assert(after[i] == before[i]);
                } else if i > k {
                    assert(after[i] == before[i - 1]);
                }
            }
            assert forall|i: int, j: int| 0 <= i < j < after.len() implies core_in_front(
                #[trigger] after[i],
                #[trigger] after[j],
            ) by {
                if j < k {
                    assert(after[i] == before[i]);
                    assert(after[j] == before[j]);
                } else if i < k && j > k {
                    assert(after[i] == before[i]);
                    assert(after[j] == before[j - 1]);
                } else if i < k {
                    assert(after[i] == before[i]);
                } else if i == k {
                    assert(after[j] == before[j - 1]);
                    if j - 1 > k {
                        assert(core_in_front(before[k], before[j - 1]));
                    }
                } else {
                    assert(after[i] == before[i - 1]);
                    assert(after[j] == before[j - 1]);
                }
            }
        }
    }
}

proof fn lemma_core_place(sorted: Seq<CoreInfo>, c: CoreInfo, from: int)
    requires
        0 <= from <= sorted.len(),
    ensures
        ({
            let k = core_place(sorted, c, from);
            &&& from <= k <= sorted.len()
            &&& forall|i: int| from <= i < k ==> core_in_front(#[trigger] sorted[i], c)
            &&& k < sorted.len() ==> !core_in_front(sorted[k], c)
        }),
    decreases sorted.len() - from,
{
    if from < sorted.len() && core_in_front(sorted[from], c) {
        lemma_core_place(sorted, c, from + 1);
    }
}

/// An assigned thread is found at its core.
pub proof fn law_assignment_is_found(before: Map<Seq<char>, u32>, name: Seq<char>, core_id: u32)
    ensures
        before.insert(name, core_id).contains_key(name),
        before.insert(name, core_id)[name] == core_id,
{
}

/// A file that holds a number, with white space around it, is read as the number; a file that is
/// missing leaves the default.
pub proof fn law_file_numbers_are_read(
    before: Seq<char>,
    n: nat,
    after: Seq<char>,
    default: u32,
)
    requires
        n <= u32::MAX,
        crate::text::only_space(before),
        crate::text::only_space(after),
    ensures
        number_or(Some(before + crate::text::number(n) + after), default) == n,
        size_or(Some(before + crate::text::number(n) + after), default) == n,
        size_or(Some(before + crate::text::number(n).push('K') + after), default) == n,
        number_or(None, default) == default,
        size_or(None, default) == default,
{
    let d = crate::text::number(n);
    crate::text::lemma_number_digits(n);
    assert(crate::text::is_digit(d[0]) && crate::text::is_digit(d[d.len() - 1]));
    crate::text::law_white_space_is_cut_off(before, d, after);
    crate::text::law_number_reads_back(n, u32::MAX as nat);
    assert(d.push('K')[0] == d[0]);
    crate::text::law_white_space_is_cut_off(before, d.push('K'), after);
    assert(d.push('K').drop_last() =~= d);
}

/// An entry of the list of processors is one number, or two with a dash between them for all from the
/// first to the second.
pub proof fn law_processor_ranges(a: nat, b: nat, cpu: u32)
    requires
        a <= u32::MAX,
        b <= u32::MAX,
    ensures
        entry_cpus(crate::text::number(a)) == seq![a as u32],
        entry_cpus(crate::text::number(a) + seq!['-'] + crate::text::number(b)).contains(cpu)
            <==> a <= cpu <= b,
        entry_cpus(crate::text::number(a) + seq!['-'] + crate::text::number(b)).len() == if a <= b {
            b - a + 1
        } else {
            0
        },
{
    let (x, y) = (crate::text::number(a), crate::text::number(b));
    crate::text::lemma_number_digits(a);
    crate::text::law_number_reads_back(a, u32::MAX as nat);
    crate::text::law_number_reads_back(b, u32::MAX as nat);
    assert forall|j: int| 0 <= j < x.len() implies x[j] != '-' by {
        assert(crate::text::is_digit(x[j]));
    }
    crate::text::lemma_position(x, '-');
    let s = x + seq!['-'] + y;
    assert forall|j: int| 0 <= j < x.len() implies s[j] != '-' by {
        assert(s[j] == x[j]);
    }
    assert(s[x.len() as int] == '-');
    crate::text::lemma_position_is(s, '-', x.len() as int);
    assert(s.take(x.len() as int) =~= x);
    assert(s.skip(x.len() as int + 1) =~= y);
    if a <= cpu <= b {
        assert(numbers_from(a as u32, b as u32)[cpu - a] == cpu);
    }
}

/// The processors of a list are those of its entries, in their order.
pub proof fn law_entries_are_read_in_turn(entries: Seq<Seq<char>>, entry: Seq<char>, cpu: u32)
    ensures
        entries_cpus(entries.push(entry)) == entries_cpus(entries) + entry_cpus(entry),
        entries_cpus(entries).contains(cpu) <==> exists|i: int|
            0 <= i < entries.len() && entry_cpus(#[trigger] entries[i]).contains(cpu),
        online_cpus(None).len() == 0,
    decreases entries.len(),
{
    assert(entries.push(entry).drop_last() =~= entries);
    if entries.len() > 0 {
        let t = entries.drop_last();
        law_entries_are_read_in_turn(t, entry, cpu);
        let (x, y) = (entries_cpus(t), entry_cpus(entries.last()));
        if x.contains(cpu) {
            let k = choose|k: int| 0 <= k < x.len() && x[k] == cpu;
            assert((x + y)[k] == cpu);
        }
        if y.contains(cpu) {
            let k = choose|k: int| 0 <= k < y.len() && y[k] == cpu;
            assert((x + y)[x.len() + k] == cpu);
        }
        if (x + y).contains(cpu) {
            let k = choose|k: int| 0 <= k < (x + y).len() && (x + y)[k] == cpu;
            if k < x.len() {
                assert(x[k] == cpu);
            } else {
                assert(y[k - x.len()] == cpu);
            }
        }
        if exists|i: int| 0 <= i < t.len() && entry_cpus(#[trigger] t[i]).contains(cpu) {
            let i = choose|i: int| 0 <= i < t.len() && entry_cpus(#[trigger] t[i]).contains(cpu);
            assert(entries[i] == t[i]);
        }
        if exists|i: int| 0 <= i < entries.len() && entry_cpus(#[trigger] entries[i]).contains(
            cpu,
        ) {
            let i = choose|i: int|
                0 <= i < entries.len() && entry_cpus(#[trigger] entries[i]).contains(cpu);
            if i < t.len() {
                assert(t[i] == entries[i]);
            }
        }
        assert(entries[entries.len() - 1] == entries.last());
    }
}

/// What is known of a core without files, and what its files change: cores from number four on are
/// for performance, and a frequency in kilohertz is kept in megahertz.
pub proof fn law_cores_without_files(cpu_id: u32, files: CoreFiles)
    ensures
        files.core_id is None ==> core_of(cpu_id, files).core_id == cpu_id,
        files.package_id is None ==> core_of(cpu_id, files).numa_node == 0,
        files.l1_size is None ==> core_of(cpu_id, files).l1d_cache_kb == 32,
        core_of(cpu_id, files).l1i_cache_kb == core_of(cpu_id, files).l1d_cache_kb,
        files.l2_size is None ==> core_of(cpu_id, files).l2_cache_kb == 512,
        files.frequency is None ==> core_of(cpu_id, files).frequency_mhz == 0,
        core_of(cpu_id, files).is_performance_core <==> core_of(cpu_id, files).core_id >= 4,
        files.frequency matches Some(f) ==> 1000 * core_of(cpu_id, files).frequency_mhz
            <= number_or(Some(f@), 0) < 1000 * core_of(cpu_id, files).frequency_mhz + 1000,
        files.core_id matches Some(f) ==> core_of(cpu_id, files).core_id == number_or(
            Some(f@),
            cpu_id,
        ),
        files.package_id matches Some(f) ==> core_of(cpu_id, files).numa_node == number_or(
            Some(f@),
            0,
        ),
        files.l1_size matches Some(f) ==> core_of(cpu_id, files).l1d_cache_kb == size_or(
            Some(f@),
            32,
        ),
        files.l2_size matches Some(f) ==> core_of(cpu_id, files).l2_cache_kb == size_or(
            Some(f@),
            512,
        ),
{
}

/// The first line that starts with the mark is found.
pub proof fn law_first_line_is_found(lines: Seq<Seq<char>>, mark: Seq<char>, from: int)
    requires
        0 <= from <= lines.len(),
    ensures
        match marked_line(lines, mark, from) {
            Some(line) => exists|k: int|
                #![trigger lines[k]]
                from <= k < lines.len() && lines[k] == line && crate::text::starts_with(line, mark)
                    && forall|j: int|
                    from <= j < k ==> !crate::text::starts_with(#[trigger] lines[j], mark),
            None => forall|j: int|
                from <= j < lines.len() ==> !crate::text::starts_with(#[trigger] lines[j], mark),
        },
    decreases lines.len() - from,
{
    if from < lines.len() {
        if crate::text::starts_with(lines[from], mark) {
            assert(lines[from] == lines[from]);
        } else {
            law_first_line_is_found(lines, mark, from + 1);
            if let Some(line) = marked_line(lines, mark, from + 1) {
                let k = choose|k: int|
                    #![trigger lines[k]]
                    from + 1 <= k < lines.len() && lines[k] == line && crate::text::starts_with(
                        line,
                        mark,
                    ) && forall|j: int|
                        from + 1 <= j < k ==> !crate::text::starts_with(#[trigger] lines[j], mark);
                assert(lines[k] == line);
            }
        }
    }
}

/// The memory of a machine is the number behind the mark of the line that tells it.
pub proof fn law_memory_is_read(text: Seq<char>, n: u64)
    ensures
        memory_kb(None) == 0,
        (forall|j: int|
            0 <= j < crate::text::lines(text).len() ==> !crate::text::starts_with(
                #[trigger] crate::text::lines(text)[j],
                "MemTotal"@,
            )) ==> memory_kb(Some(text)) == 0,
        marked_line(crate::text::lines(text), "MemTotal"@, 0) matches Some(line) ==> (
        crate::text::words(line).len() >= 2 && crate::text::words(line)[1] == crate::text::number(
            n as nat,
        ) ==> memory_kb(Some(text)) == n),
{
    law_first_line_is_found(crate::text::lines(text), "MemTotal"@, 0);
    crate::text::law_number_reads_back(n as nat, u64::MAX as nat);
}

/// The model is what stands behind the colon of the first line that names it.
pub proof fn law_model_is_read(lines: Seq<Seq<char>>, from: int)
    requires
        0 <= from <= lines.len(),
    ensures
        match model_in(lines, from) {
            Some(model) => exists|k: int, i: int|
                #![trigger lines[k], lines[k][i]]
                from <= k < lines.len() && crate::text::starts_with(lines[k], "model name"@) && 0
                    <= i < lines[k].len() && lines[k][i] == ':' && (forall|j: int|
                    0 <= j < i ==> lines[k][j] != ':') && model == crate::text::trim(
                    lines[k].skip(i + 1),
                ) && forall|j: int|
                    from <= j < k ==> !(crate::text::starts_with(#[trigger] lines[j], "model name"@)
                        && lines[j].contains(':')),
            None => forall|j: int|
                from <= j < lines.len() ==> !(crate::text::starts_with(
                    #[trigger] lines[j],
                    "model name"@,
                ) && lines[j].contains(':')),
        },
        cpu_model_of(None) == "Unknown"@,
    decreases lines.len() - from,
{
    if from < lines.len() {
        let line = lines[from];
        crate::text::lemma_position(line, ':');
        law_model_is_read(lines, from + 1);
        if crate::text::starts_with(line, "model name"@) && line.contains(':') {
            let i = crate::text::position(line, ':')->0;
            assert(lines[from][i] == ':');
        } else {
            if crate::text::position(line, ':') is Some {
                assert(line.contains(line[crate::text::position(line, ':')->0]));
            }
            assert(model_in(lines, from) == model_in(lines, from + 1));
            if let Some(model) = model_in(lines, from + 1) {
                let (k, i) = choose|k: int, i: int|
                    #![trigger lines[k], lines[k][i]]
                    from + 1 <= k < lines.len() && crate::text::starts_with(
                        lines[k],
                        "model name"@,
                    ) && 0 <= i < lines[k].len() && lines[k][i] == ':' && (forall|j: int|
                        0 <= j < i ==> lines[k][j] != ':') && model == crate::text::trim(
                        lines[k].skip(i + 1),
                    ) && forall|j: int|
                        from + 1 <= j < k ==> !(crate::text::starts_with(
                            #[trigger] lines[j],
                            "model name"@,
                        ) && lines[j].contains(':'));
                assert(lines[k][i] == ':');
            }
        }
    }
}

/// The third cache is twice as large as the second ones together, and a core counts as capable where
/// it is for performance and its second cache holds 256 kilobytes.
pub proof fn law_caches_and_capable_cores(cores: Seq<CoreInfo>)
    ensures
        l2_total(cores) == crate::tally::sum(cores.len(), |i: int| cores[i].l2_cache_kb as int),
        capable_cores(cores) == crate::tally::count(
            cores.len(),
            |i: int| cores[i].is_performance_core && cores[i].l2_cache_kb >= 256,
        ),
    decreases cores.len(),
{
    if cores.len() > 0 {
        let t = cores.drop_last();
        law_caches_and_capable_cores(t);
        crate::tally::lemma_sum_same(
            t.len(),
            |i: int| t[i].l2_cache_kb as int,
            |i: int| cores[i].l2_cache_kb as int,
        );
        crate::tally::lemma_count_same(
            t.len(),
            |i: int| t[i].is_performance_core && t[i].l2_cache_kb >= 256,
            |i: int| cores[i].is_performance_core && cores[i].l2_cache_kb >= 256,
        );
    }
}

/// The cores of a node are those that name it, in their order.
pub proof fn law_cores_of_a_node(cores: Seq<CoreInfo>, node: u32)
    ensures
        ids_on_node(cores, node) == cores.filter(|c: CoreInfo| c.numa_node == node).map_values(
            |c: CoreInfo| c.core_id,
        ),
    decreases cores.len(),
{
    reveal(Seq::filter);
    if cores.len() > 0 {
        law_cores_of_a_node(cores.drop_last(), node);
    }
    assert(ids_on_node(cores, node) =~= cores.filter(
        |c: CoreInfo| c.numa_node == node,
    ).map_values(|c: CoreInfo| c.core_id));
}

/// Every performance core is ranked, once: a larger second cache comes first, and of two equal ones
/// the one of the faster core.
pub proof fn law_every_performance_core_is_ranked(cores: Seq<CoreInfo>, core: CoreInfo)
    ensures
        ranked(cores).contains(core) <==> core.is_performance_core && cores.contains(core),
        ranked(cores).len() == crate::tally::count(
            cores.len(),
            |i: int| cores[i].is_performance_core,
        ),
        forall|i: int, j: int|
            0 <= i < j < ranked(cores).len() ==> (#[trigger] ranked(cores)[i]).l2_cache_kb >= (
            #[trigger] ranked(cores)[j]).l2_cache_kb,
        forall|i: int, j: int|
            0 <= i < j < ranked(cores).len() && (#[trigger] ranked(cores)[i]).l2_cache_kb == (
            #[trigger] ranked(cores)[j]).l2_cache_kb ==> ranked(cores)[i].frequency_mhz >= ranked(
                cores,
            )[j].frequency_mhz,
    decreases cores.len(),
{
    law_ranking_is_sorted(cores);
    if cores.len() > 0 {
        let t = cores.drop_last();
        let c = cores.last();
        let before = ranked(t);
        let after = ranked(cores);
        law_every_performance_core_is_ranked(t, core);
        crate::tally::lemma_count_same(
            t.len(),
            |i: int| t[i].is_performance_core,
            |i: int| cores[i].is_performance_core,
        );
        assert(cores =~= t.push(c));
        assert(cores[cores.len() - 1] == c);
        if t.contains(core) {
            let j = choose|j: int| 0 <= j < t.len() && t[j] == core;
            assert(cores[j] == core);
        }
        if cores.contains(core) && core != c {
            let j = choose|j: int| 0 <= j < cores.len() && cores[j] == core;
            assert(t[j] == core);
        }
        if c.is_performance_core {
            lemma_core_place(before, c, 0);
            let k = core_place(before, c, 0);
            assert(after[k] == c);
            if before.contains(core) {
                let j = choose|j: int| 0 <= j < before.len() && before[j] == core;
                assert(after[if j < k {
                    j
                } else {
                    j + 1
                }] == core);
            }
            if after.contains(core) {
                let j = choose|j: int| 0 <= j < after.len() && after[j] == core;
                if j < k {
                    assert(before[j] == core);
                } else if j > k {
                    assert(before[j - 1] == core);
                }
            }
        }
    }
}

/// Critical work gets a performance core that no other exceeds; work of high priority the next one,
/// or the same where it is alone; normal work the first core of all; work in the background the first
/// core that is not for performance.
pub proof fn law_cores_go_by_priority(t: SystemTopology, core: CoreInfo)
    requires
        t.cores@.contains(core),
    ensures
        core.is_performance_core ==> exists|best: CoreInfo|
            t.cores@.contains(best) && best.is_performance_core && #[trigger] t.core_for(
                ThreadPriority::Critical,
            ) == Some(best.core_id) && (best.l2_cache_kb > core.l2_cache_kb || (best.l2_cache_kb
                == core.l2_cache_kb && best.frequency_mhz >= core.frequency_mhz)),
        t.core_for(ThreadPriority::Critical) is Some <==> exists|c: CoreInfo| #[trigger]
            t.cores@.contains(c) && c.is_performance_core,
        t.core_for(ThreadPriority::High) is Some <==> t.core_for(ThreadPriority::Critical) is Some,
        ranked(t.cores@).len() == 1 ==> t.core_for(ThreadPriority::High) == t.core_for(
            ThreadPriority::Critical,
        ),
        ranked(t.cores@).len() >= 2 ==> t.core_for(ThreadPriority::High) == Some(
            ranked(t.cores@)[1].core_id,
        ),
        t.core_for(ThreadPriority::Normal) == Some(t.cores@[0].core_id),
        t.core_for(ThreadPriority::Background) is Some <==> exists|c: CoreInfo| #[trigger]
            t.cores@.contains(c) && !c.is_performance_core,
{
    let best = ranked(t.cores@);
    law_every_performance_core_is_ranked(t.cores@, core);
    law_ranking_is_sorted(t.cores@);
    if best.len() > 0 {
        law_every_performance_core_is_ranked(t.cores@, best[0]);
        assert(best.contains(best[0]));
        assert(t.cores@.contains(best[0]));
        if core.is_performance_core {
            let j = choose|j: int| 0 <= j < best.len() && best[j] == core;
            if j > 0 {
                assert(core_in_front(best[0], best[j]));
            }
            assert(t.core_for(ThreadPriority::Critical) == Some(best[0].core_id));
        }
    } else if exists|c: CoreInfo| #[trigger] t.cores@.contains(c) && c.is_performance_core {
        let c = choose|c: CoreInfo| #[trigger] t.cores@.contains(c) && c.is_performance_core;
        law_every_performance_core_is_ranked(t.cores@, c);
    }
    law_first_small_core(t.cores@, 0);
    if t.core_for(ThreadPriority::Background) is Some {
        let k = choose|k: int|
            #![trigger t.cores@[k]]
            0 <= k < t.cores@.len() && !t.cores@[k].is_performance_core;
        assert(t.cores@.contains(t.cores@[k]));
    } else if exists|c: CoreInfo| #[trigger] t.cores@.contains(c) && !c.is_performance_core {
        let c = choose|c: CoreInfo| #[trigger] t.cores@.contains(c) && !c.is_performance_core;
        let k = choose|k: int| 0 <= k < t.cores@.len() && t.cores@[k] == c;
        assert(t.cores@[k].is_performance_core);
    }
}

/// The first core that is not for performance is found.
pub proof fn law_first_small_core(cores: Seq<CoreInfo>, from: int)
    requires
        0 <= from <= cores.len(),
    ensures
        match first_small(cores, from) {
            Some(id) => exists|k: int|
                #![trigger cores[k]]
                from <= k < cores.len() && !cores[k].is_performance_core && cores[k].core_id == id
                    && forall|j: int| from <= j < k ==> (#[trigger] cores[j]).is_performance_core,
            None => forall|j: int|
                from <= j < cores.len() ==> (#[trigger] cores[j]).is_performance_core,
        },
    decreases cores.len() - from,
{
    if from < cores.len() {
        if !cores[from].is_performance_core {
            assert(!cores[from].is_performance_core);
        } else {
            law_first_small_core(cores, from + 1);
            if let Some(id) = first_small(cores, from + 1) {
                let k = choose|k: int|
                    #![trigger cores[k]]
                    from + 1 <= k < cores.len() && !cores[k].is_performance_core
                        && cores[k].core_id == id && forall|j: int|
                        from + 1 <= j < k ==> (#[trigger] cores[j]).is_performance_core;
                assert(!cores[k].is_performance_core);
            }
        }
    }
}

/// The best cores are the first of the ranking, as many as were asked for or as there are.
pub proof fn law_first_cores(cores: Seq<CoreInfo>, count: nat, i: int)
    requires
        0 <= i < cores.len(),
        i < count,
    ensures
        first_ids(cores, count).len() <= count,
        first_ids(cores, count).len() <= cores.len(),
        first_ids(cores, count).len() == count || first_ids(cores, count).len() == cores.len(),
        first_ids(cores, count)[i] == cores[i].core_id,
{
}

/// A directory "node" with a number stands for the node of that number, with the memory that its file
/// tells; other directories stand for none.
pub proof fn law_nodes_are_read_in_turn(entries: Seq<NodeEntry>, entry: NodeEntry, n: u32)
    ensures
        nodes_in(Seq::empty()).len() == 0,
        entry.name@ == seq!['n', 'o', 'd', 'e'] + crate::text::number(n as nat) ==> nodes_in(
            entries.push(entry),
        ) == nodes_in(entries).push((n, memory_kb(content(entry.meminfo)))),
        entry.name@.len() <= 4 ==> nodes_in(entries.push(entry)) == nodes_in(entries),
        entry.name@.len() > 0 && entry.name@[0] != 'n' ==> nodes_in(entries.push(entry))
            == nodes_in(entries),
{
    assert(entries.push(entry).drop_last() =~= entries);
    let mark = seq!['n', 'o', 'd', 'e'];
    let s = mark + crate::text::number(n as nat);
    assert(s.take(4) =~= mark);
    assert(s.skip(4) =~= crate::text::number(n as nat));
    crate::text::law_number_reads_back(n as nat, u32::MAX as nat);
    let name = entry.name@;
    if crate::text::starts_with(name, mark) {
        assert(name.take(4)[0] == name[0]);
        if name.len() <= 4 {
            assert(name.skip(4).len() == 0);
        }
    }
}

} // verus!
