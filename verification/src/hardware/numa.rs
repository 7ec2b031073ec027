//! Memory nodes.
use crate::text::{
    begins_with, chars_of, has_part, lines_of, parse_unsigned, part, same_str, words_of,
};
use vstd::prelude::*;

verus! {

/// Largest number of kilobytes that is counted in bytes.
pub const MAX_KILOBYTES: u64 = 18_014_398_509_481_983;

/// Memory node.
#[derive(Debug)]
pub struct NumaNode {
    /// Node ID
    pub id: usize,
    /// Amount of memory available on this node (bytes)
    pub available_memory: u64,
    /// Distance to other nodes (lower is better)
    pub distances: Vec<u32>,
}

/// A memory node.
#[verifier::ext_equal]
pub struct NodeView {
    pub id: usize,
    pub available_memory: u64,
    pub distances: Seq<u32>,
}

impl View for NumaNode {
    type V = NodeView;

    open spec fn view(&self) -> NodeView {
        NodeView {
            id: self.id,
            available_memory: self.available_memory,
            distances: self.distances@,
        }
    }
}

impl NumaNode {
    /// Creates a node at distance 10 to itself.
    pub fn new(id: usize, available_memory: u64) -> (n: Self)
        ensures
            n@ == (NodeView { id, available_memory, distances: seq![10u32] }),
    {
        let mut distances: Vec<u32> = Vec::new();
        distances.push(10);
        let n = Self { id, available_memory, distances };
        assert(n@ =~= (NodeView { id, available_memory, distances: seq![10u32] }));
        n
    }

    /// Adds the distance to another node.
    pub fn set_distance(&mut self, distance: u32)
        ensures
            final(self)@ == (NodeView {
                distances: old(self)@.distances.push(distance),
                ..old(self)@
            }),
    {
        self.distances.push(distance);
    }
}

/// The first word that holds a mark, from word `from` on.
pub open spec fn marked_word(words: Seq<Seq<char>>, mark: Seq<char>, from: int) -> int
    decreases words.len() - from,
{
    if from >= words.len() {
        words.len() as int
    } else if crate::text::contains(words[from], mark) {
        from
    } else {
        marked_word(words, mark, from + 1)
    }
}

/// The memory, in bytes, that the word after the mark gives in kilobytes.
pub open spec fn line_memory(line: Seq<char>, mark: Seq<char>) -> Option<u64> {
    let words = crate::text::words(line);
    let at = marked_word(words, mark, 0) + 1;
    if at < words.len() {
        match crate::text::unsigned(words[at], MAX_KILOBYTES as nat) {
            Some(kb) => Some((kb * 1024) as u64),
            None => None,
        }
    } else {
        None
    }
}

/// The memory that the first line with a mark gives, from line `from` on.
pub open spec fn marked_memory(
    lines: Seq<Seq<char>>,
    mark: Seq<char>,
    at_start: bool,
    from: int,
) -> Option<u64>
    decreases lines.len() - from,
{
    if from >= lines.len() {
        None
    } else {
        let marked = if at_start {
            crate::text::starts_with(lines[from], mark)
        } else {
            crate::text::contains(lines[from], mark)
        };
        if marked && line_memory(lines[from], mark) is Some {
            line_memory(lines[from], mark)
        } else {
            marked_memory(lines, mark, at_start, from + 1)
        }
    }
}

/// The memory of a node, from its memory file.
pub open spec fn node_memory(content: Seq<char>) -> Option<u64> {
    marked_memory(crate::text::lines(content), "MemTotal"@, false, 0)
}

/// The memory of the machine, from the memory file; eight gigabytes where it is not known.
pub open spec fn total_memory(content: Option<Seq<char>>) -> u64 {
    match content {
        Some(c) => match marked_memory(crate::text::lines(c), "MemTotal:"@, true, 0) {
            Some(m) => m,
            None => 8_589_934_592,
        },
        None => 8_589_934_592,
    }
}

/// Reads the memory that stands behind the mark of a line.
fn read_line(line: &[char], mark: &[char]) -> (r: Option<u64>)
    ensures
        r == line_memory(line@, mark@),
{
    let words = words_of(line);
    let ghost parts = crate::text::words(line@);
    assert(parts == crate::text::texts(words@));
    let mut k: usize = 0;
    while k < words.len() && !has_part(words[k].as_slice(), mark)
        invariant
            k <= words@.len(),
            parts == crate::text::texts(words@),
            marked_word(parts, mark@, 0) == marked_word(parts, mark@, k as int),
        decreases words.len() - k,
    {
        assert(parts[k as int] == words@[k as int]@);
        k = k + 1;
    }
    proof {
        if k < words@.len() {
            assert(parts[k as int] == words@[k as int]@);
        }
        assert(marked_word(parts, mark@, 0) == k);
    }
    if k < words.len() && k + 1 < words.len() {
        assert(parts[k + 1] == words@[k + 1]@);
        if let Some(kb) = parse_unsigned(words[k + 1].as_slice(), MAX_KILOBYTES) {
            return Some(kb * 1024);
        }
    }
    None
}

/// Finds the memory that a marked line gives.
fn find_memory(content: &str, mark: &str, at_start: bool) -> (r: Option<u64>)
    ensures
        r == marked_memory(crate::text::lines(content@), mark@, at_start, 0),
{
    let all = chars_of(content);
    let lines = lines_of(all.as_slice());
    let wanted = chars_of(mark);
    let ghost texts = crate::text::lines(content@);
    let mut i: usize = 0;
    while i < lines.len()
        invariant
            i <= lines@.len(),
            texts == crate::text::texts(lines@),
            texts == crate::text::lines(content@),
            wanted@ == mark@,
            marked_memory(texts, mark@, at_start, 0) == marked_memory(
                texts,
                mark@,
                at_start,
                i as int,
            ),
        decreases lines.len() - i,
    {
        let line = lines[i].as_slice();
        assert(texts[i as int] == line@);
        let marked = if at_start {
            begins_with(line, wanted.as_slice())
        } else {
            has_part(line, wanted.as_slice())
        };
        if marked {
            if let Some(bytes) = read_line(line, wanted.as_slice()) {
                return Some(bytes);
            }
        }
        i = i + 1;
    }
    None
}

/// Reads the memory of a node from its memory file.
pub fn read_node_memory(content: &str) -> (r: Option<u64>)
    ensures
        r == node_memory(content@),
{
    find_memory(content, "MemTotal", false)
}

/// Reads the memory of the machine from the memory file.
pub fn get_total_memory(content: Option<&str>) -> (r: u64)
    ensures
        r == total_memory(
            match content {
                Some(c) => Some(c@),
                None => None,
            },
        ),
{
    match content {
        Some(c) => match find_memory(c, "MemTotal:", true) {
            Some(m) => m,
            None => 8_589_934_592,
        },
        None => 8_589_934_592,
    }
}

/// The files of a node: the name of its directory and what could be read there.
#[derive(Debug)]
pub struct NodeFiles {
    pub name: String,
    pub meminfo: Option<String>,
    pub distance: Option<String>,
}

/// The number of a node, from the name of its directory.
pub open spec fn node_id(name: Seq<char>) -> Option<nat> {
    if crate::text::starts_with(name, seq!['n', 'o', 'd', 'e']) {
        crate::text::unsigned(name.skip(4), usize::MAX as nat)
    } else {
        None
    }
}

/// The numbers among words.
pub open spec fn numbers_in(words: Seq<Seq<char>>) -> Seq<u32>
    decreases words.len(),
{
    if words.len() == 0 {
        Seq::empty()
    } else {
        let before = numbers_in(words.drop_last());
        match crate::text::unsigned(words.last(), u32::MAX as nat) {
            Some(n) => before.push(n as u32),
            None => before,
        }
    }
}

/// The node that files describe; `None` where the directory is not that of a node.
pub open spec fn node_of(files: NodeFiles) -> Option<NodeView> {
    match node_id(files.name@) {
        Some(id) => Some(
            NodeView {
                id: id as usize,
                available_memory: match files.meminfo {
                    Some(m) => match node_memory(m@) {
                        Some(bytes) => bytes,
                        None => 0,
                    },
                    None => 0,
                },
                distances: match files.distance {
                    Some(d) => seq![10u32] + numbers_in(crate::text::words(d@)),
                    None => seq![10u32],
                },
            },
        ),
        None => None,
    }
}

/// Where a node goes in a list that is sorted by number: behind those with a number no higher.
pub open spec fn node_place(nodes: Seq<NodeView>, id: usize, from: int) -> int
    decreases nodes.len() - from,
{
    if from >= nodes.len() {
        nodes.len() as int
    } else if nodes[from].id <= id {
        node_place(nodes, id, from + 1)
    } else {
        from
    }
}

/// The nodes that files describe, sorted by number and in order of appearance within a number.
pub open spec fn nodes_of(files: Seq<NodeFiles>) -> Seq<NodeView>
    decreases files.len(),
{
    if files.len() == 0 {
        Seq::empty()
    } else {
        let before = nodes_of(files.drop_last());
        match node_of(files.last()) {
            Some(n) => before.insert(node_place(before, n.id, 0), n),
            None => before,
        }
    }
}

/// The views of nodes.
pub open spec fn node_views(nodes: Seq<NumaNode>) -> Seq<NodeView> {
    Seq::new(nodes.len(), |i: int| nodes[i]@)
}

/// Reads the node that files describe.
fn read_node(files: &NodeFiles) -> (r: Option<NumaNode>)
    ensures
        match r {
            Some(n) => node_of(*files) == Some(n@),
            None => node_of(*files) is None,
        },
{
    let name = chars_of(files.name.as_str());
    let mark = chars_of("node");
    proof {
        reveal_strlit("node");
        assert(mark@ =~= seq!['n', 'o', 'd', 'e']);
    }
    if !begins_with(name.as_slice(), mark.as_slice()) {
        return None;
    }
    let number = part(name.as_slice(), 4, name.len());
    assert(number@ =~= name@.skip(4));
    let id = match parse_unsigned(number.as_slice(), usize::MAX as u64) {
        Some(n) => n as usize,
        None => return None,
    };
    let memory = match &files.meminfo {
        Some(m) => match read_node_memory(m.as_str()) {
            Some(bytes) => bytes,
            None => 0,
        },
        None => 0,
    };
    let mut node = NumaNode::new(id, memory);
    if let Some(d) = &files.distance {
        let all = chars_of(d.as_str());
        let words = words_of(all.as_slice());
        let ghost texts = crate::text::words(d@);
        let mut i: usize = 0;
        assert(texts.take(0) =~= Seq::<Seq<char>>::empty());
        assert(node@.distances =~= seq![10u32] + numbers_in(texts.take(0)));
        while i < words.len()
            invariant
                i <= words@.len(),
                texts == crate::text::texts(words@),
                node@.id == id,
                node@.available_memory == memory,
                node@.distances == seq![10u32] + numbers_in(texts.take(i as int)),
            decreases words.len() - i,
        {
            proof {
                assert(texts.take(i + 1).drop_last() =~= texts.take(i as int));
                assert(texts.take(i + 1).last() == words@[i as int]@);
            }
            if let Some(n) = parse_unsigned(words[i].as_slice(), u32::MAX as u64) {
                let ghost before = node@.distances;
                node.set_distance(n as u32);
                assert(node@.distances =~= seq![10u32] + numbers_in(texts.take(i + 1)));
            }
            i = i + 1;
        }
        assert(texts.take(i as int) =~= texts);
    }
    Some(node)
}

/// Reads the nodes that files describe, sorted by number.
pub fn read_numa_nodes(files: &Vec<NodeFiles>) -> (r: Vec<NumaNode>)
    ensures
        node_views(r@) == nodes_of(files@),
{
    let mut nodes: Vec<NumaNode> = Vec::new();
    let mut i: usize = 0;
    assert(files@.take(0) =~= Seq::<NodeFiles>::empty());
    assert(node_views(nodes@) =~= Seq::<NodeView>::empty());
    while i < files.len()
        invariant
            i <= files@.len(),
            node_views(nodes@) == nodes_of(files@.take(i as int)),
        decreases files.len() - i,
    {
        proof {
            assert(files@.take(i + 1).drop_last() =~= files@.take(i as int));
        }
        if let Some(node) = read_node(&files[i]) {
            let ghost before = node_views(nodes@);
            let mut k: usize = 0;
            while k < nodes.len() && nodes[k].id <= node.id
                invariant
                    k <= nodes@.len(),
                    before == node_views(nodes@),
                    node_place(before, node.id, 0) == node_place(before, node.id, k as int),
                decreases nodes.len() - k,
            {
                assert(before[k as int].id <= node.id);
                k = k + 1;
            }
            proof {
                if k < nodes.len() {
                    assert(before[k as int].id > node.id);
                }
            }
            let ghost n = node@;
            let ghost was = nodes@;
            nodes.insert(k, node);
            assert(node_views(nodes@) =~= before.insert(k as int, n));
        }
        i = i + 1;
    }
    assert(files@.take(i as int) =~= files@);
    nodes
}

/// Memory topology of the machine.
#[derive(Debug)]
pub struct NumaTopology {
    /// Available memory nodes
    pub nodes: Vec<NumaNode>,
    /// Current node for this process
    pub current_node: usize,
    /// Whether more than a fallback is known
    pub numa_supported: bool,
}

/// The nodes that files describe, or, where there are none, a single node with all the memory.
pub open spec fn nodes_or_single(files: Seq<NodeFiles>, meminfo: Option<Seq<char>>) -> Seq<
    NodeView,
> {
    if nodes_of(files).len() > 0 {
        nodes_of(files)
    } else {
        seq![NodeView { id: 0, available_memory: total_memory(meminfo), distances: seq![10u32] }]
    }
}

impl NumaTopology {
    /// The topology that the files of the machine describe: the nodes, or, where there are none, a
    /// single node with all the memory.
    pub fn detect(files: &Vec<NodeFiles>, meminfo: Option<&str>) -> (t: Self)
        ensures
            t.current_node == 0,
            t.numa_supported == (nodes_of(files@).len() > 0),
            node_views(t.nodes@) == nodes_or_single(
                files@,
                match meminfo {
                    Some(c) => Some(c@),
                    None => None,
                },
            ),
    {
        let nodes = read_numa_nodes(files);
        if nodes.len() > 0 {
            return Self { nodes, current_node: 0, numa_supported: true };
        }
        let memory = get_total_memory(meminfo);
        let mut single: Vec<NumaNode> = Vec::new();
        single.push(NumaNode::new(0, memory));
        let ghost only = NodeView { id: 0, available_memory: memory, distances: seq![10u32] };
        assert(node_views(single@) =~= seq![only]);
        Self { nodes: single, current_node: 0, numa_supported: false }
    }

    /// The node for a processor: they are spread over the nodes in turn.
    pub fn get_node_for_cpu(&self, cpu_core: usize) -> (r: usize)
        requires
            self.nodes@.len() > 0,
        ensures
            r == if self.nodes@.len() == 1 {
                0
            } else {
                cpu_core as int % self.nodes@.len() as int
            },
    {
        if self.nodes.len() == 1 {
            return 0;
        }
        cpu_core % self.nodes.len()
    }

    /// The node on which this process runs.
    pub fn local_node(&self) -> (r: usize)
        ensures
            r == self.current_node,
    {
        self.current_node
    }

    /// True where several nodes are known.
    pub fn is_multi_node(&self) -> (r: bool)
        ensures
            r == (self.numa_supported && self.nodes@.len() > 1),
    {
        self.numa_supported && self.nodes.len() > 1
    }
}

/// Accounts for the memory that was allocated for a node.
#[derive(Debug, Clone, Copy, PartialEq, Eq, Structural)]
pub struct NumaAllocator {
    /// Target memory node
    pub target_node: usize,
    /// Total allocated bytes
    pub allocated_bytes: usize,
}

impl NumaAllocator {
    pub fn new(target_node: usize) -> (a: Self)
        ensures
            a == (NumaAllocator { target_node, allocated_bytes: 0 }),
    {
        Self { target_node, allocated_bytes: 0 }
    }

    /// Accounts for an allocation that succeeded.
    pub fn record_allocation(&mut self, size: usize)
        ensures
            *final(self) == (NumaAllocator {
                allocated_bytes: old(self).allocated_bytes.wrapping_add(size),
                ..*old(self)
            }),
    {
        self.allocated_bytes = self.allocated_bytes.wrapping_add(size);
    }

    /// Accounts for a deallocation.
    pub fn record_deallocation(&mut self, size: usize)
        ensures
            *final(self) == (NumaAllocator {
                allocated_bytes: old(self).allocated_bytes.wrapping_sub(size),
                ..*old(self)
            }),
    {
        self.allocated_bytes = self.allocated_bytes.wrapping_sub(size);
    }

    /// Total allocated bytes.
    pub fn allocated_bytes(&self) -> (r: usize)
        ensures
            r == self.allocated_bytes,
    {
        self.allocated_bytes
    }
}

/// What is allocated and deallocated again leaves the account as it was.
pub proof fn law_deallocation_undoes_allocation(bytes: usize, size: usize)
    ensures
        bytes.wrapping_add(size).wrapping_sub(size) == bytes,
{
}

/// Memory nodes for the different kinds of work.
#[derive(Debug, Clone, Copy, PartialEq, Eq, Structural)]
pub struct NumaConfig {
    /// Memory node for market data processing
    pub market_data_node: usize,
    /// Memory node for order execution
    pub order_execution_node: usize,
    /// Memory node for memory pools
    pub memory_pool_node: usize,
    /// Whether the configuration is optimal
    pub is_optimal: bool,
}

/// The recommended memory nodes: all on the first, which mostly is nearest to the network card.
pub fn get_hft_numa_config(topology: &NumaTopology) -> (c: NumaConfig)
    ensures
        c == (NumaConfig {
            market_data_node: 0,
            order_execution_node: 0,
            memory_pool_node: 0,
            is_optimal: true,
        }),
{
    NumaConfig {
        market_data_node: 0,
        order_execution_node: 0,
        memory_pool_node: 0,
        is_optimal: true,
    }
}

impl NumaConfig {
    /// True where a component is on the local node.
    pub fn is_local(&self, component: &str) -> (r: bool)
        ensures
            r == if component@ == "market_data"@ {
                self.market_data_node == 0
            } else if component@ == "order_execution"@ {
                self.order_execution_node == 0
            } else if component@ == "memory_pool"@ {
                self.memory_pool_node == 0
            } else {
                false
            },
    {
        if same_str(component, "market_data") {
            self.market_data_node == 0
        } else if same_str(component, "order_execution") {
            self.order_execution_node == 0
        } else if same_str(component, "memory_pool") {
            self.memory_pool_node == 0
        } else {
            false
        }
    }
}

/// The nodes that files describe are sorted by number.
pub proof fn law_nodes_are_sorted(files: Seq<NodeFiles>)
    ensures
        forall|i: int, j: int|
            0 <= i <= j < nodes_of(files).len() ==> (#[trigger] nodes_of(files)[i]).id <= (
            #[trigger] nodes_of(files)[j]).id,
    decreases files.len(),
{
    if files.len() > 0 {
        law_nodes_are_sorted(files.drop_last());
        let before = nodes_of(files.drop_last());
        match node_of(files.last()) {
            Some(n) => {
                lemma_node_place(before, n.id, 0);
                let k = node_place(before, n.id, 0);
                let after = before.insert(k, n);
                assert forall|i: int, j: int| 0 <= i <= j < after.len() implies (
                #[trigger] after[i]).id <= (#[trigger] after[j]).id by {
                    if i < k && j > k {
                        assert(after[i] == before[i]);
                        assert(after[j] == before[j - 1]);
                    } else if i == k && j > k {
                        assert(after[j] == before[j - 1]);
                        assert(before[k].id <= before[j - 1].id);
                    } else if i > k {
                        assert(after[i] == before[i - 1]);
                        assert(after[j] == before[j - 1]);
                    } else if j < k {
                        assert(after[i] == before[i]);
                        assert(after[j] == before[j]);
                    } else if i < k {
                        assert(after[i] == before[i]);
                    }
                }
            },
            None => {},
        }
    }
}

proof fn lemma_node_place(nodes: Seq<NodeView>, id: usize, from: int)
    requires
        0 <= from <= nodes.len(),
    ensures
        ({
            let k = node_place(nodes, id, from);
            &&& from <= k <= nodes.len()
            &&& forall|i: int| from <= i < k ==> (#[trigger] nodes[i]).id <= id
            &&& k < nodes.len() ==> nodes[k].id > id
        }),
    decreases nodes.len() - from,
{
    if from < nodes.len() && nodes[from].id <= id {
        lemma_node_place(nodes, id, from + 1);
    }
}

/// A line tells of as many kilobytes as the word behind the first one with the mark says.
pub proof fn law_memory_stands_behind_its_mark(line: Seq<char>, mark: Seq<char>, k: int)
    requires
        0 <= k < crate::text::words(line).len(),
        crate::text::contains(crate::text::words(line)[k], mark),
        forall|j: int| 0 <= j < k ==> !crate::text::contains(crate::text::words(line)[j], mark),
    ensures
        k + 1 == crate::text::words(line).len() ==> line_memory(line, mark) is None,
        forall|kb: nat|
            k + 1 < crate::text::words(line).len() && crate::text::words(line)[k + 1]
                == #[trigger] crate::text::number(kb) && kb * 1024 <= u64::MAX ==> line_memory(
                line,
                mark,
            ) == Some((1024 * kb) as u64),
        line_memory(line, mark) matches Some(bytes) ==> bytes % 1024 == 0,
{
    let words = crate::text::words(line);
    lemma_marked_word(words, mark, 0, k);
    assert forall|kb: nat|
        k + 1 < words.len() && words[k + 1] == #[trigger] crate::text::number(kb) && kb * 1024
            <= u64::MAX implies line_memory(line, mark) == Some((1024 * kb) as u64) by {
        crate::text::law_number_reads_back(kb, MAX_KILOBYTES as nat);
    }
    if k + 1 < words.len() {
        if let Some(kb) = crate::text::unsigned(words[k + 1], MAX_KILOBYTES as nat) {
            assert(kb * 1024 <= u64::MAX);
        }
    }
}

proof fn lemma_marked_word(words: Seq<Seq<char>>, mark: Seq<char>, from: int, k: int)
    requires
        0 <= from <= k < words.len(),
        crate::text::contains(words[k], mark),
        forall|j: int| from <= j < k ==> !crate::text::contains(words[j], mark),
    ensures
        marked_word(words, mark, from) == k,
    decreases k - from,
{
    if from < k {
        assert(!crate::text::contains(words[from], mark));
        lemma_marked_word(words, mark, from + 1, k);
    }
}

/// True where a line gives an amount of memory.
pub open spec fn gives_memory(line: Seq<char>, mark: Seq<char>, at_start: bool) -> bool {
    &&& at_start ==> crate::text::starts_with(line, mark)
    &&& crate::text::contains(line, mark)
    &&& line_memory(line, mark) is Some
}

/// The first line with the mark that gives an amount counts.
pub proof fn law_first_marked_line_counts(
    lines: Seq<Seq<char>>,
    mark: Seq<char>,
    at_start: bool,
    from: int,
)
    requires
        0 <= from <= lines.len(),
    ensures
        match marked_memory(lines, mark, at_start, from) {
            Some(bytes) => exists|k: int|
                #![trigger lines[k]]
                from <= k < lines.len() && gives_memory(lines[k], mark, at_start) && line_memory(
                    lines[k],
                    mark,
                ) == Some(bytes) && forall|j: int|
                    from <= j < k ==> !gives_memory(#[trigger] lines[j], mark, at_start),
            None => forall|j: int|
                from <= j < lines.len() ==> !gives_memory(#[trigger] lines[j], mark, at_start),
        },
    decreases lines.len() - from,
{
    if from < lines.len() {
        let line = lines[from];
        if crate::text::starts_with(line, mark) {
            assert(line.subrange(0, mark.len() as int) =~= line.take(mark.len() as int));
            assert(crate::text::holds_at(line, mark, 0));
        }
        law_first_marked_line_counts(lines, mark, at_start, from + 1);
        if !gives_memory(line, mark, at_start) {
            if marked_memory(lines, mark, at_start, from) is Some {
                let bytes = marked_memory(lines, mark, at_start, from)->0;
                let k = choose|k: int|
                    #![trigger lines[k]]
                    from + 1 <= k < lines.len() && gives_memory(lines[k], mark, at_start)
                        && line_memory(lines[k], mark) == Some(bytes) && forall|j: int|
                        from + 1 <= j < k ==> !gives_memory(#[trigger] lines[j], mark, at_start);
                assert(gives_memory(lines[k], mark, at_start));
            }
        }
    }
}

/// A machine that does not tell its memory counts as one of eight gibibytes.
pub proof fn law_memory_that_is_not_told(content: Option<Seq<char>>)
    ensures
        content is None ==> total_memory(content) == 8 * 1024 * 1024 * 1024,
        content matches Some(c) ==> (forall|j: int|
            0 <= j < crate::text::lines(c).len() ==> !gives_memory(
                #[trigger] crate::text::lines(c)[j],
                "MemTotal:"@,
                true,
            )) ==> total_memory(content) == 8 * 1024 * 1024 * 1024,
{
    if let Some(c) = content {
        law_first_marked_line_counts(crate::text::lines(c), "MemTotal:"@, true, 0);
    }
}

/// A directory stands for a node where its name is "node" and a number, which is that of the node.
pub proof fn law_nodes_are_named_by_their_numbers(n: nat, name: Seq<char>)
    requires
        n <= usize::MAX,
    ensures
        node_id(seq!['n', 'o', 'd', 'e'] + crate::text::number(n)) == Some(n),
        node_id(name) is Some ==> name.len() > 4 && name[0] == 'n' && name[1] == 'o' && name[2]
            == 'd' && name[3] == 'e',
{
    let mark = seq!['n', 'o', 'd', 'e'];
    let s = mark + crate::text::number(n);
    assert(s.take(4) =~= mark);
    assert(s.skip(4) =~= crate::text::number(n));
    crate::text::law_number_reads_back(n, usize::MAX as nat);
    if node_id(name) is Some {
        assert(name.take(4)[0] == name[0] && name.take(4)[1] == name[1] && name.take(4)[2]
            == name[2] && name.take(4)[3] == name[3]);
        assert(name.skip(4).len() > 0);
    }
}

/// The distances of a node are ten, to itself, and the numbers that stand in its file, in their order.
pub proof fn law_distances_are_read_in_order(files: NodeFiles, words: Seq<Seq<char>>, n: u32)
    ensures
        numbers_in(words.push(crate::text::number(n as nat))) == numbers_in(words).push(n),
        numbers_in(Seq::empty()) == Seq::<u32>::empty(),
        node_of(files) is Some ==> node_of(files)->0.distances.len() >= 1
            && node_of(files)->0.distances[0] == 10,
        node_of(files) is Some && files.distance is None ==> node_of(files)->0.distances.len() == 1,
        node_of(files) is Some && files.distance is Some ==> node_of(files)->0.distances.skip(1)
            == numbers_in(crate::text::words(files.distance->0@)),
        node_of(files) is Some <==> node_id(files.name@) is Some,
        node_of(files) is Some ==> node_of(files)->0.id == node_id(files.name@)->0,
        node_of(files) is Some && files.meminfo is None ==> node_of(files)->0.available_memory == 0,
{
    let s = words.push(crate::text::number(n as nat));
    assert(s.drop_last() =~= words);
    crate::text::law_number_reads_back(n as nat, u32::MAX as nat);
    if node_of(files) is Some {
        if let Some(d) = files.distance {
            assert(node_of(files)->0.distances.skip(1) =~= numbers_in(crate::text::words(d@)));
        }
    }
}

/// The nodes are exactly those that the directories stand for, one for each.
pub proof fn law_every_node_is_listed(files: Seq<NodeFiles>, node: NodeView)
    ensures
        nodes_of(files).contains(node) <==> exists|i: int|
            0 <= i < files.len() && node_of(#[trigger] files[i]) == Some(node),
        nodes_of(files).len() == crate::tally::count(
            files.len(),
            |i: int| node_of(files[i]) is Some,
        ),
    decreases files.len(),
{
    if files.len() > 0 {
        let t = files.drop_last();
        let before = nodes_of(t);
        let after = nodes_of(files);
        law_every_node_is_listed(t, node);
        crate::tally::lemma_count_same(
            t.len(),
            |i: int| node_of(t[i]) is Some,
            |i: int| node_of(files[i]) is Some,
        );
        assert(files[files.len() - 1] == files.last());
        if let Some(n) = node_of(files.last()) {
            lemma_node_place(before, n.id, 0);
            let k = node_place(before, n.id, 0);
            assert(after[k] == n);
            if before.contains(node) {
                let j = choose|j: int| 0 <= j < before.len() && before[j] == node;
                assert(after[if j < k {
                    j
                } else {
                    j + 1
                }] == node);
            }
            if after.contains(node) {
                let j = choose|j: int| 0 <= j < after.len() && after[j] == node;
                if j < k {
                    assert(before[j] == node);
                } else if j > k {
                    assert(before[j - 1] == node);
                }
            }
        }
        if exists|i: int| 0 <= i < t.len() && node_of(#[trigger] t[i]) == Some(node) {
            let i = choose|i: int| 0 <= i < t.len() && node_of(#[trigger] t[i]) == Some(node);
            assert(files[i] == t[i]);
        }
        if exists|i: int| 0 <= i < files.len() && node_of(#[trigger] files[i]) == Some(node) {
            let i = choose|i: int| 0 <= i < files.len() && node_of(#[trigger] files[i]) == Some(node);
            if i < t.len() {
                assert(t[i] == files[i]);
            }
        }
    }
}

/// A machine that tells of no nodes counts as one node, number zero, with all its memory.
pub proof fn law_single_node(files: Seq<NodeFiles>, meminfo: Option<Seq<char>>)
    ensures
        nodes_or_single(files, meminfo).len() >= 1,
        nodes_of(files).len() > 0 ==> nodes_or_single(files, meminfo) == nodes_of(files),
        nodes_of(files).len() == 0 ==> nodes_or_single(files, meminfo).len() == 1
            && nodes_or_single(files, meminfo)[0].id == 0 && nodes_or_single(
            files,
            meminfo,
        )[0].available_memory == total_memory(meminfo) && nodes_or_single(
            files,
            meminfo,
        )[0].distances == seq![10u32],
{
}

} // verus!
