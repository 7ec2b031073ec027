//! Interrupt affinity.
//!
//! Network interrupts are bound to chosen processors by masks that the kernel reads and writes as
//! hexadecimal text.
use crate::text::{
    ascii_string, begins_with, chars_of, has_part, lines_of, parse_hex, parse_signed, push_hex16,
    split_on, trimmed,
};
use vstd::prelude::*;

verus! {

broadcast use vstd::array::group_array_axioms;

/// Maximum number of processors supported.
pub const MAX_CPUS: usize = 256;

/// Maximum number of network interrupts tracked.
pub const MAX_NIC_IRQS: usize = 32;

/// True where a bit of a word is set.
pub open spec fn bit(word: u64, b: u64) -> bool {
    word & (1u64 << b) != 0
}

/// True where a processor is in the mask that the words make up.
pub open spec fn in_mask(words: Seq<u64>, cpu: int) -> bool {
    0 <= cpu < 256 && bit(words[cpu / 64], (cpu % 64) as u64)
}

/// Setting a bit sets that bit and no other.
pub proof fn lemma_set_bit(word: u64, b: u64, c: u64)
    requires
        b < 64,
        c < 64,
    ensures
        bit(word | (1u64 << b), c) == (b == c || bit(word, c)),
{
    assert(((word | (1u64 << b)) & (1u64 << c) != 0) == (b == c || word & (1u64 << c) != 0))
        by (bit_vector)
        requires
            b < 64,
            c < 64,
    ;
}

/// Clearing a bit clears that bit and no other.
pub proof fn lemma_clear_bit(word: u64, b: u64, c: u64)
    requires
        b < 64,
        c < 64,
    ensures
        bit(word & !(1u64 << b), c) == (b != c && bit(word, c)),
{
    assert(((word & !(1u64 << b)) & (1u64 << c) != 0) == (b != c && word & (1u64 << c) != 0))
        by (bit_vector)
        requires
            b < 64,
            c < 64,
    ;
}

/// A word of zeros has no bit.
pub proof fn lemma_no_bit(c: u64)
    ensures
        !bit(0, c),
{
    assert(0u64 & (1u64 << c) == 0) by (bit_vector);
}

/// Processor mask.
#[derive(Debug, Clone, Copy)]
pub struct CpuMask {
    pub bits: [u64; 4],
}

impl CpuMask {
    /// True where a processor is in the mask.
    pub open spec fn has(self, cpu: int) -> bool {
        in_mask(self.bits@, cpu)
    }

    pub fn empty() -> (m: Self)
        ensures
            m.bits@ == seq![0u64, 0u64, 0u64, 0u64],
            forall|cpu: int| !#[trigger] m.has(cpu),
    {
        let m = CpuMask { bits: [0u64;4] };
        proof {
            assert(m.bits@ =~= seq![0u64, 0u64, 0u64, 0u64]);
            assert forall|cpu: int| !#[trigger] m.has(cpu) by {
                lemma_no_bit((cpu % 64) as u64);
            }
        }
        m
    }

    /// Adds a processor; one out of range is ignored.
    pub fn set_cpu(&mut self, cpu: usize)
        ensures
            forall|c: int| #[trigger]
                final(self).has(c) == (old(self).has(c) || (c == cpu && cpu < MAX_CPUS)),
    {
        if cpu < MAX_CPUS {
            let idx: usize = cpu / 64;
            let b: u64 = (cpu % 64) as u64;
            let word: u64 = self.bits[idx];
            self.bits[idx] = word | (1u64 << b);
            proof {
                assert forall|c: int| #[trigger] self.has(c) == (old(self).has(c) || c == cpu) by {
                    if 0 <= c < 256 {
                        lemma_set_bit(word, b, (c % 64) as u64);
                        if c / 64 == idx {
                            assert(self.bits@[c / 64] == word | (1u64 << b));
                            assert(c == 64 * (c / 64) + c % 64);
                            assert(cpu == 64 * idx + b);
                        }
                    }
                }
            }
        }
    }

    /// Removes a processor.
    pub fn clear_cpu(&mut self, cpu: usize)
        ensures
            forall|c: int| #[trigger] final(self).has(c) == (old(self).has(c) && c != cpu),
    {
        if cpu < MAX_CPUS {
            let idx: usize = cpu / 64;
            let b: u64 = (cpu % 64) as u64;
            let word: u64 = self.bits[idx];
            self.bits[idx] = word & !(1u64 << b);
            proof {
                assert forall|c: int| #[trigger] self.has(c) == (old(self).has(c) && c != cpu) by {
                    if 0 <= c < 256 {
                        lemma_clear_bit(word, b, (c % 64) as u64);
                        if c / 64 == idx {
                            assert(self.bits@[c / 64] == word & !(1u64 << b));
                            assert(c == 64 * (c / 64) + c % 64);
                            assert(cpu == 64 * idx + b);
                        }
                    }
                }
            }
        }
    }

    /// True where a processor is in the mask.
    pub fn has_cpu(&self, cpu: usize) -> (r: bool)
        ensures
            r == self.has(cpu as int),
    {
        if cpu >= MAX_CPUS {
            return false;
        }
        let idx: usize = cpu / 64;
        let b: u64 = (cpu % 64) as u64;
        (self.bits[idx] & (1u64 << b)) != 0
    }

    /// The mask as the kernel reads it: the words from the highest down, sixteen digits each; the
    /// highest only where it is not zero.
    pub open spec fn hex_text(self) -> Seq<char> {
        let low = crate::text::hex16(self.bits@[2]) + crate::text::hex16(self.bits@[1])
            + crate::text::hex16(self.bits@[0]);
        if self.bits@[3] != 0 {
            crate::text::hex16(self.bits@[3]) + low
        } else {
            low
        }
    }

    /// The mask as the kernel reads it.
    pub fn to_hex(&self) -> (r: String)
        ensures
            r@ == self.hex_text(),
    {
        let mut out: Vec<u8> = Vec::new();
        assert(crate::text::ascii(out@) =~= Seq::<char>::empty());
        if self.bits[3] != 0 {
            push_hex16(&mut out, self.bits[3]);
        }
        push_hex16(&mut out, self.bits[2]);
        push_hex16(&mut out, self.bits[1]);
        push_hex16(&mut out, self.bits[0]);
        let r = ascii_string(out.as_slice());
        assert(r@ =~= self.hex_text());
        r
    }

    /// The mask of one processor; empty where it is out of range.
    pub fn single(cpu: usize) -> (m: Self)
        ensures
            forall|c: int| #[trigger] m.has(c) == (c == cpu && cpu < MAX_CPUS),
    {
        let mut mask = Self::empty();
        mask.set_cpu(cpu);
        mask
    }

    /// The mask of the processors from `start` to `end`.
    pub fn range(start: usize, end: usize) -> (m: Self)
        ensures
            forall|c: int| #[trigger] m.has(c) == (start <= c <= end && c < MAX_CPUS),
    {
        let mut mask = Self::empty();
        let last: usize = if end < MAX_CPUS - 1 {
            end
        } else {
            MAX_CPUS - 1
        };
        let mut cpu: usize = start;
        while cpu <= last
            invariant
                last == if end < MAX_CPUS - 1 {
                    end as int
                } else {
                    MAX_CPUS - 1
                },
                start <= cpu,
                cpu <= last + 1 || cpu == start,
                forall|c: int| #[trigger]
                    mask.has(c) == (start <= c < cpu && c <= last),
            decreases last + 1 - cpu,
        {
            mask.set_cpu(cpu);
            cpu = cpu + 1;
        }
        mask
    }

    /// The mask that a text of the kernel denotes.
    pub fn from_hex(content: &str) -> (m: Self)
        ensures
            forall|i: int| 0 <= i < 4 ==> #[trigger] m.bits@[i] == word_of(hex_digits(content@), i),
    {
        let all = chars_of(content);
        let text = trimmed(all.as_slice());
        let prefix = chars_of("0x");
        let mut from: usize = 0;
        proof {
            reveal_strlit("0x");
            assert(prefix@ =~= seq!['0', 'x']);
            assert(text@.skip(0) =~= text@);
        }
        while begins_with(vstd::slice::slice_subrange(text.as_slice(), from, text.len()), prefix.as_slice())
            invariant
                from <= text@.len(),
                prefix@ == seq!['0', 'x'],
                without_prefix(text@) == without_prefix(text@.skip(from as int)),
            decreases text.len() - from,
        {
            proof {
                assert(text@.subrange(from as int, text@.len() as int) =~= text@.skip(from as int));
                assert(text@.skip(from as int).skip(2) =~= text@.skip(from + 2));
            }
            from = from + 2;
        }
        assert(text@.subrange(from as int, text@.len() as int) =~= text@.skip(from as int));
        let hex = vstd::slice::slice_subrange(text.as_slice(), from, text.len());
        let n: usize = hex.len();
        let mut bits: [u64; 4] = [0u64;4];
        let mut i: usize = 0;
        while i < 4
            invariant
                i <= 4,
                n == hex@.len(),
                hex@ == hex_digits(content@),
                forall|j: int| 0 <= j < i ==> #[trigger] bits@[j] == word_of(hex@, j),
            decreases 4 - i,
        {
            if n > 16 * i {
                let end: usize = n - 16 * i;
                let start: usize = if end > 16 {
                    end - 16
                } else {
                    0
                };
                let chunk = vstd::slice::slice_subrange(hex, start, end);
                proof {
                    if let Some(v) = crate::text::hex_number(chunk@) {
                        lemma_hex_number_fits(chunk@);
                    }
                }
                match parse_hex(chunk) {
                    Some(v) => {
                        bits[i] = v;
                    },
                    None => {
                        bits[i] = 0;
                    },
                }
            } else {
                bits[i] = 0;
            }
            i = i + 1;
        }
        CpuMask { bits }
    }
}

/// A number of at most sixteen digits fits in 64 bits.
proof fn lemma_hex_number_fits(s: Seq<char>)
    requires
        s.len() <= 16,
    ensures
        crate::text::hex_number(s) matches Some(n) ==> n <= u64::MAX,
{
    let digits = if s.len() > 0 && s[0] == '+' {
        s.skip(1)
    } else {
        s
    };
    crate::text::lemma_hex_value_bound(digits);
    crate::text::lemma_pow16();
    crate::text::lemma_pow16_grows(digits.len(), 16);
}

/// A text without the `0x` marks at its start.
pub open spec fn without_prefix(s: Seq<char>) -> Seq<char>
    decreases s.len(),
{
    if crate::text::starts_with(s, seq!['0', 'x']) {
        without_prefix(s.skip(2))
    } else {
        s
    }
}

/// The digits of an affinity file.
pub open spec fn hex_digits(content: Seq<char>) -> Seq<char> {
    without_prefix(crate::text::trim(content))
}

/// Word `i` of a mask, counted from the end of its digits in groups of sixteen; zero where there is
/// none or it is no number.
pub open spec fn word_of(digits: Seq<char>, i: int) -> u64 {
    let end = digits.len() - 16 * i;
    let start = if end > 16 {
        end - 16
    } else {
        0
    };
    if end > 0 {
        match crate::text::hex_number(digits.subrange(start, end)) {
            Some(n) => n as u64,
            None => 0,
        }
    } else {
        0
    }
}

impl Default for CpuMask {
    fn default() -> (m: Self)
        ensures
            forall|cpu: int| !#[trigger] m.has(cpu),
    {
        Self::empty()
    }
}

/// A mask that was written reads back as itself.
pub proof fn law_mask_reads_back(mask: CpuMask, i: int)
    requires
        0 <= i < 4,
    ensures
        word_of(hex_digits(mask.hex_text()), i) == mask.bits@[i],
{
    let s = mask.hex_text();
    crate::text::lemma_pow16();
    crate::text::lemma_hex_roundtrip(mask.bits@[0] as nat, 16);
    crate::text::lemma_hex_roundtrip(mask.bits@[1] as nat, 16);
    crate::text::lemma_hex_roundtrip(mask.bits@[2] as nat, 16);
    crate::text::lemma_hex_roundtrip(mask.bits@[3] as nat, 16);
    let w0 = crate::text::hex16(mask.bits@[0]);
    let w1 = crate::text::hex16(mask.bits@[1]);
    let w2 = crate::text::hex16(mask.bits@[2]);
    let w3 = crate::text::hex16(mask.bits@[3]);
    let n = s.len() as int;
    assert(n == 48 || n == 64);
    assert forall|j: int| 0 <= j < n implies crate::text::hex_digit_value(
        #[trigger] s[j],
    ) is Some by {
        let k = j - (n - 48);
        if k < 0 {
            assert(s[j] == w3[j]);
        } else if k < 16 {
            assert(s[j] == w2[k]);
        } else if k < 32 {
            assert(s[j] == w1[k - 16]);
        } else {
            assert(s[j] == w0[k - 32]);
        }
    }
    assert(crate::text::hex_digit_value(s[0]) is Some);
    assert(crate::text::hex_digit_value(s[1]) is Some);
    assert(crate::text::hex_digit_value(s[n - 1]) is Some);
    assert(!crate::text::is_space(s[0]));
    assert(!crate::text::is_space(s.last()));
    assert(crate::text::trim(s) == s);
    assert(s.take(2)[1] == s[1]);
    assert(seq!['0', 'x'][1] == 'x');
    assert(hex_digits(s) == s);
    if n == 64 {
        assert(s.subrange(0, 16) =~= w3);
    }
    assert(s.subrange(n - 48, n - 32) =~= w2);
    assert(s.subrange(n - 32, n - 16) =~= w1);
    assert(s.subrange(n - 16, n) =~= w0);
    assert(w0[0] != '+' && w1[0] != '+' && w2[0] != '+' && w3[0] != '+') by {
        assert(crate::text::hex_digit_value(w0[0]) is Some);
        assert(crate::text::hex_digit_value(w1[0]) is Some);
        assert(crate::text::hex_digit_value(w2[0]) is Some);
        assert(crate::text::hex_digit_value(w3[0]) is Some);
    }
}

/// The number of the interrupt that a line of the interrupt table describes.
pub open spec fn irq_of(line: Seq<char>) -> Option<int> {
    crate::text::signed(
        crate::text::trim(crate::text::split(line, ':')[0]),
        i32::MIN as int,
        i32::MAX as int,
    )
}

/// True where a line of the interrupt table describes a network card: it names the interface, or
/// holds one of the usual names of network interfaces.
pub open spec fn is_nic_line(line: Seq<char>, interface: Seq<char>) -> bool {
    ||| crate::text::contains(line, interface)
    ||| crate::text::contains(line, seq!['e', 't', 'h'])
    ||| crate::text::contains(line, seq!['e', 'n', 'p'])
}

/// The interrupts of network cards in a table, in order.
pub open spec fn nic_irqs_in(lines: Seq<Seq<char>>, interface: Seq<char>) -> Seq<i32>
    decreases lines.len(),
{
    if lines.len() == 0 {
        Seq::empty()
    } else {
        let before = nic_irqs_in(lines.drop_last(), interface);
        match irq_of(lines.last()) {
            Some(n) if is_nic_line(lines.last(), interface) => before.push(n as i32),
            _ => before,
        }
    }
}

/// At most as many numbers as are tracked.
pub open spec fn first_irqs(irqs: Seq<i32>) -> Seq<i32> {
    if irqs.len() <= MAX_NIC_IRQS {
        irqs
    } else {
        irqs.take(MAX_NIC_IRQS as int)
    }
}

/// What came of writing the affinity of an interrupt: the mask that was read before, where it could
/// be read, and whether the new one was written.
#[derive(Debug, Clone, Copy)]
pub struct AffinityWrite {
    pub original: Option<CpuMask>,
    pub written: bool,
}

/// Affinity of the network interrupts.
#[derive(Debug, Clone, Copy)]
pub struct IrqAffinity {
    /// Detected NIC interrupts
    pub nic_irqs: [i32; 32],
    /// Number of detected NIC interrupts
    pub nic_irq_count: usize,
    /// Target processor for NIC interrupts
    pub target_cpu: u32,
    /// Whether affinity was successfully set
    pub affinity_set: bool,
    /// Original affinity masks (for restoration)
    pub original_masks: [CpuMask; 32],
}

/// The interrupts among the first `count` that have a number.
pub open spec fn numbered(irqs: Seq<i32>, count: int) -> Seq<i32>
    decreases count,
{
    if count <= 0 {
        Seq::empty()
    } else {
        let before = numbered(irqs, count - 1);
        if irqs[count - 1] >= 0 {
            before.push(irqs[count - 1])
        } else {
            before
        }
    }
}

/// The first slot of an interrupt.
pub open spec fn slot_of(irqs: Seq<i32>, irq: i32, from: int) -> Option<int>
    decreases irqs.len() - from,
{
    if from >= irqs.len() {
        None
    } else if irqs[from] == irq {
        Some(from)
    } else {
        slot_of(irqs, irq, from + 1)
    }
}

/// The original masks once the writes to the given interrupts are known: each mask that was read
/// goes to the slot of its interrupt.
pub open spec fn masks_after(
    masks: Seq<CpuMask>,
    irqs: Seq<i32>,
    written: Seq<i32>,
    outcomes: Seq<AffinityWrite>,
    k: int,
) -> Seq<CpuMask>
    decreases k,
{
    if k <= 0 {
        masks
    } else {
        let before = masks_after(masks, irqs, written, outcomes, k - 1);
        match (outcomes[k - 1].original, slot_of(irqs, written[k - 1], 0)) {
            (Some(mask), Some(slot)) => before.update(slot, mask),
            _ => before,
        }
    }
}

/// The number of writes among the first `k` that succeeded.
pub open spec fn successes(outcomes: Seq<AffinityWrite>, k: int) -> nat
    decreases k,
{
    if k <= 0 {
        0
    } else {
        successes(outcomes, k - 1) + if outcomes[k - 1].written {
            1nat
        } else {
            0nat
        }
    }
}

impl IrqAffinity {
    pub open spec fn wf(&self) -> bool {
        self.nic_irq_count <= MAX_NIC_IRQS
    }

    /// True where no interrupt is known or bound.
    pub open spec fn blank(&self) -> bool {
        &&& self.nic_irq_count == 0
        &&& self.nic_irqs@ == Seq::new(32, |i: int| -1i32)
        &&& self.target_cpu == 0
        &&& !self.affinity_set
        &&& forall|i: int, cpu: int|
            0 <= i < 32 ==> !(#[trigger] self.original_masks@[i].has(cpu))
    }

    pub fn new() -> (a: Self)
        ensures
            a.wf(),
            a.blank(),
    {
        let a = Self {
            nic_irqs: [-1i32;32],
            nic_irq_count: 0,
            target_cpu: 0,
            affinity_set: false,
            original_masks: [CpuMask::empty();32],
        };
        assert(a.nic_irqs@ =~= Seq::new(32, |i: int| -1i32));
        a
    }

    /// Detects the network interrupts in an interrupt table. Where the table could not be read none
    /// are known.
    pub fn detect_nic_irqs(&mut self, table: Option<&str>, interface: &str) -> (r: Result<
        usize,
        &'static str,
    >)
        requires
            old(self).wf(),
        ensures
            final(self).wf(),
            final(self).target_cpu == old(self).target_cpu,
            final(self).affinity_set == old(self).affinity_set,
            final(self).original_masks == old(self).original_masks,
            match table {
                None => {
                    &&& r matches Err(e) && e@ == "Failed to read /proc/interrupts"@
                    &&& final(self).nic_irq_count == 0
                    &&& final(self).nic_irqs@ == old(self).nic_irqs@
                },
                Some(content) => {
                    let found = first_irqs(
                        nic_irqs_in(crate::text::lines(content@), interface@),
                    );
                    &&& r == Ok::<usize, &'static str>(found.len() as usize)
                    &&& final(self).nic_irq_count == found.len()
                    &&& final(self).nic_irqs@ == found + old(self).nic_irqs@.skip(
                        found.len() as int,
                    )
                },
            },
    {
        self.nic_irq_count = 0;
        let content = match table {
            Some(c) => c,
            None => {
                return Err("Failed to read /proc/interrupts");
            },
        };
        let all = chars_of(content);
        let lines = lines_of(all.as_slice());
        let wanted = chars_of(interface);
        let eth = chars_of("eth");
        let enp = chars_of("enp");
        proof {
            reveal_strlit("eth");
            reveal_strlit("enp");
            assert(eth@ =~= seq!['e', 't', 'h']);
            assert(enp@ =~= seq!['e', 'n', 'p']);
        }
        let ghost texts = crate::text::texts(lines@);
        let mut i: usize = 0;
        assert(texts.take(0) =~= Seq::<Seq<char>>::empty());
        assert(self.nic_irqs@ =~= Seq::<i32>::empty() + old(self).nic_irqs@.skip(0));
        while i < lines.len()
            invariant
                i <= lines@.len(),
                texts == crate::text::texts(lines@),
                wanted@ == interface@,
                eth@ == seq!['e', 't', 'h'],
                enp@ == seq!['e', 'n', 'p'],
                self.target_cpu == old(self).target_cpu,
                self.affinity_set == old(self).affinity_set,
                self.original_masks == old(self).original_masks,
                self.nic_irq_count <= MAX_NIC_IRQS,
                ({
                    let found = first_irqs(nic_irqs_in(texts.take(i as int), interface@));
                    &&& self.nic_irq_count == found.len()
                    &&& self.nic_irqs@ == found + old(self).nic_irqs@.skip(found.len() as int)
                }),
            decreases lines.len() - i,
        {
            let line = &lines[i];
            let ghost before = nic_irqs_in(texts.take(i as int), interface@);
            proof {
                assert(texts.take(i + 1).drop_last() =~= texts.take(i as int));
                assert(texts.take(i + 1).last() == line@);
            }
            let parts = split_on(line.as_slice(), ':');
            proof {
                lemma_split_nonempty(line@, ':');
                assert(crate::text::texts(parts@)[0] == parts@[0]@);
            }
            let number = trimmed(parts[0].as_slice());
            if let Some(n) = parse_signed(number.as_slice(), i32::MIN as i64, i32::MAX as i64) {
                if has_part(line.as_slice(), wanted.as_slice()) || has_part(
                    line.as_slice(),
                    eth.as_slice(),
                ) || has_part(line.as_slice(), enp.as_slice()) {
                    proof {
                        assert(nic_irqs_in(texts.take(i + 1), interface@) == before.push(n as i32));
                    }
                    if self.nic_irq_count < MAX_NIC_IRQS {
                        self.nic_irqs[self.nic_irq_count] = n as i32;
                        self.nic_irq_count = self.nic_irq_count + 1;
                        assert(self.nic_irqs@ =~= before.push(n as i32) + old(self).nic_irqs@.skip(before.len() as int + 1));
                    } else {
                        assert(before.push(n as i32).take(32) =~= first_irqs(before));
                    }
                }
            }
            i = i + 1;
        }
        assert(texts.take(i as int) =~= texts);
        Ok(self.nic_irq_count)
    }

    /// The interrupts that binding writes to.
    pub fn bindable_irqs(&self) -> (r: Vec<i32>)
        requires
            self.wf(),
        ensures
            r@ == numbered(self.nic_irqs@, self.nic_irq_count as int),
    {
        let mut r: Vec<i32> = Vec::new();
        let mut i: usize = 0;
        while i < self.nic_irq_count
            invariant
                self.wf(),
                i <= self.nic_irq_count,
                r@ == numbered(self.nic_irqs@, i as int),
            decreases self.nic_irq_count - i,
        {
            if self.nic_irqs[i] >= 0 {
                r.push(self.nic_irqs[i]);
            }
            i = i + 1;
        }
        r
    }

    /// Records that the network interrupts were bound to a processor, given what came of each
    /// write in the order of `bindable_irqs`, and returns how many succeeded.
    pub fn bind_to_cpu(&mut self, cpu: usize, outcomes: &[AffinityWrite]) -> (r: Result<
        usize,
        &'static str,
    >)
        requires
            old(self).wf(),
            outcomes@.len() == numbered(old(self).nic_irqs@, old(self).nic_irq_count as int).len(),
        ensures
            final(self).wf(),
            final(self).nic_irqs == old(self).nic_irqs,
            final(self).nic_irq_count == old(self).nic_irq_count,
            if cpu >= MAX_CPUS {
                r matches Err(e) && e@ == "CPU index out of range"@ && *final(self) == *old(self)
            } else {
                let irqs = numbered(old(self).nic_irqs@, old(self).nic_irq_count as int);
                let bound = successes(outcomes@, outcomes@.len() as int);
                &&& r == Ok::<usize, &'static str>(bound as usize)
                &&& final(self).target_cpu == cpu
                &&& final(self).affinity_set == (old(self).affinity_set || bound > 0)
                &&& final(self).original_masks@ == masks_after(
                    old(self).original_masks@,
                    old(self).nic_irqs@,
                    irqs,
                    outcomes@,
                    outcomes@.len() as int,
                )
            },
    {
        if cpu >= MAX_CPUS {
            return Err("CPU index out of range");
        }
        self.target_cpu = cpu as u32;
        let irqs = self.bindable_irqs();
        let mut bound: usize = 0;
        let mut k: usize = 0;
        while k < irqs.len()
            invariant
                k <= irqs@.len(),
                irqs@.len() == outcomes@.len(),
                self.nic_irqs == old(self).nic_irqs,
                self.nic_irq_count == old(self).nic_irq_count,
                self.target_cpu == cpu,
                bound <= k,
                bound == successes(outcomes@, k as int),
                self.affinity_set == (old(self).affinity_set || bound > 0),
                self.original_masks@ == masks_after(
                    old(self).original_masks@,
                    old(self).nic_irqs@,
                    irqs@,
                    outcomes@,
                    k as int,
                ),
            decreases irqs.len() - k,
        {
            if let Some(mask) = outcomes[k].original {
                self.save_original(irqs[k], mask);
            }
            if outcomes[k].written {
                self.affinity_set = true;
                bound = bound + 1;
            }
            k = k + 1;
        }
        Ok(bound)
    }

    /// Keeps the mask that an interrupt had.
    fn save_original(&mut self, irq: i32, mask: CpuMask)
        ensures
            final(self).nic_irqs == old(self).nic_irqs,
            final(self).nic_irq_count == old(self).nic_irq_count,
            final(self).target_cpu == old(self).target_cpu,
            final(self).affinity_set == old(self).affinity_set,
            final(self).original_masks@ == match slot_of(old(self).nic_irqs@, irq, 0) {
                Some(slot) => old(self).original_masks@.update(slot, mask),
                None => old(self).original_masks@,
            },
    {
        let mut i: usize = 0;
        while i < 32
            invariant
                i <= 32,
                *self == *old(self),
                slot_of(self.nic_irqs@, irq, 0) == slot_of(self.nic_irqs@, irq, i as int),
            decreases 32 - i,
        {
            if self.nic_irqs[i] == irq {
                self.original_masks[i] = mask;
                return ;
            }
            i = i + 1;
        }
    }

    /// The masks to write so that the interrupts are as they were before they were bound.
    pub fn restore_original(&self) -> (r: Vec<(i32, CpuMask)>)
        requires
            self.wf(),
        ensures
            r@ == restored(self.nic_irqs@, self.original_masks@, self.nic_irq_count as int),
    {
        let mut r: Vec<(i32, CpuMask)> = Vec::new();
        let mut i: usize = 0;
        while i < self.nic_irq_count
            invariant
                self.wf(),
                i <= self.nic_irq_count,
                r@ == restored(self.nic_irqs@, self.original_masks@, i as int),
            decreases self.nic_irq_count - i,
        {
            if self.nic_irqs[i] >= 0 {
                r.push((self.nic_irqs[i], self.original_masks[i]));
            }
            i = i + 1;
        }
        r
    }

    /// The detected network interrupts.
    pub fn get_nic_irqs(&self) -> (r: &[i32])
        requires
            self.wf(),
        ensures
            r@ == self.nic_irqs@.take(self.nic_irq_count as int),
    {
        vstd::slice::slice_subrange(self.nic_irqs.as_slice(), 0, self.nic_irq_count)
    }

    /// True once an affinity was written.
    pub fn is_affinity_set(&self) -> (r: bool)
        ensures
            r == self.affinity_set,
    {
        self.affinity_set
    }

    /// The processor that the interrupts were bound to.
    pub fn get_target_cpu(&self) -> (r: u32)
        ensures
            r == self.target_cpu,
    {
        self.target_cpu
    }
}

/// The masks that restoring writes, one per interrupt that has a number.
pub open spec fn restored(irqs: Seq<i32>, masks: Seq<CpuMask>, count: int) -> Seq<(i32, CpuMask)>
    decreases count,
{
    if count <= 0 {
        Seq::empty()
    } else {
        let before = restored(irqs, masks, count - 1);
        if irqs[count - 1] >= 0 {
            before.push((irqs[count - 1], masks[count - 1]))
        } else {
            before
        }
    }
}

/// A split text has at least one part.
pub proof fn lemma_split_nonempty(s: Seq<char>, separator: char)
    ensures
        crate::text::split(s, separator).len() >= 1,
{
    crate::text::lemma_position(s, separator);
}

impl Default for IrqAffinity {
    fn default() -> (a: Self)
        ensures
            a.wf(),
            a.blank(),
    {
        Self::new()
    }
}

/// A processor is in a mask where its binary digit is one: the digits of a word count from the least
/// significant on, and 64 processors share a word.
pub proof fn law_mask_holds_binary_digits(words: Seq<u64>, cpu: int)
    requires
        words.len() == 4,
        0 <= cpu < 256,
    ensures
        in_mask(words, cpu) <==> (words[cpu / 64] as nat / vstd::arithmetic::power2::pow2(
            (cpu % 64) as nat,
        )) % 2 == 1,
        !in_mask(words, -1) && !in_mask(words, 256),
{
    let w = words[cpu / 64];
    let b = (cpu % 64) as u64;
    vstd::bits::lemma_u64_shr_is_div(w, b);
    assert((w & (1u64 << b) != 0) == ((w >> b) % 2 == 1)) by (bit_vector)
        requires
            b < 64,
    ;
}

/// A mask is written as one hexadecimal number, the word of the highest processors first.
pub proof fn law_mask_is_one_number(mask: CpuMask)
    ensures
        ({
            let p = 0x1_0000_0000_0000_0000nat;
            let b = mask.bits@;
            crate::text::hex_value(mask.hex_text()) == Some(
                (((b[3] * p + b[2]) * p + b[1]) * p + b[0]) as nat,
            )
        }),
{
    let b = mask.bits@;
    crate::text::lemma_pow16();
    crate::text::lemma_hex_roundtrip(b[0] as nat, 16);
    crate::text::lemma_hex_roundtrip(b[1] as nat, 16);
    crate::text::lemma_hex_roundtrip(b[2] as nat, 16);
    crate::text::lemma_hex_roundtrip(b[3] as nat, 16);
    let w0 = crate::text::hex16(b[0]);
    let w1 = crate::text::hex16(b[1]);
    let w2 = crate::text::hex16(b[2]);
    let w3 = crate::text::hex16(b[3]);
    crate::text::law_hexadecimal_places(w2, w1);
    crate::text::law_hexadecimal_places(w2 + w1, w0);
    if b[3] != 0 {
        crate::text::law_hexadecimal_places(w3, w2);
        crate::text::law_hexadecimal_places(w3 + w2, w1);
        crate::text::law_hexadecimal_places(w3 + w2 + w1, w0);
        assert(mask.hex_text() =~= w3 + w2 + w1 + w0);
    } else {
        assert(mask.hex_text() =~= w2 + w1 + w0);
    }
}

/// The number of an interrupt stands before the first colon of its line.
pub proof fn law_interrupt_stands_before_the_colon(
    before: Seq<char>,
    n: nat,
    after: Seq<char>,
    rest: Seq<char>,
)
    requires
        crate::text::only_space(before),
        crate::text::only_space(after),
        n <= i32::MAX,
    ensures
        irq_of(before + crate::text::number(n) + after + seq![':'] + rest) == Some(n as int),
{
    let d = crate::text::number(n);
    crate::text::lemma_number_digits(n);
    assert(crate::text::is_digit(d[0]) && crate::text::is_digit(d[d.len() - 1]));
    crate::text::law_white_space_is_cut_off(before, d, after);
    crate::text::law_signed_number_reads_back(n, i32::MIN as int, i32::MAX as int);
    let s = before + d + after;
    assert forall|j: int| 0 <= j < s.len() implies s[j] != ':' by {
        if j < before.len() {
            assert(crate::text::is_space(before[j]));
        } else if j < before.len() + d.len() {
            assert(crate::text::is_digit(d[j - before.len()]));
        } else {
            assert(crate::text::is_space(after[j - before.len() - d.len()]));
        }
    }
    crate::text::law_parts_stand_between_separators(s, rest, ':');
}

/// A line is about a network interface where it names the one in question or any "eth" or "enp".
pub proof fn law_network_lines(a: Seq<char>, b: Seq<char>, interface: Seq<char>, line: Seq<char>)
    ensures
        is_nic_line(a + interface + b, interface),
        is_nic_line(a + seq!['e', 't', 'h'] + b, interface),
        is_nic_line(a + seq!['e', 'n', 'p'] + b, interface),
        is_nic_line(line, interface) ==> exists|x: Seq<char>, y: Seq<char>|
            line == #[trigger] (x + interface + y) || line == x + seq!['e', 't', 'h'] + y || line
                == x + seq!['e', 'n', 'p'] + y,
{
    lemma_part_is_held(a, interface, b);
    lemma_part_is_held(a, seq!['e', 't', 'h'], b);
    lemma_part_is_held(a, seq!['e', 'n', 'p'], b);
    if is_nic_line(line, interface) {
        let part = if crate::text::contains(line, interface) {
            interface
        } else if crate::text::contains(line, seq!['e', 't', 'h']) {
            seq!['e', 't', 'h']
        } else {
            seq!['e', 'n', 'p']
        };
        let i = choose|i: int| #[trigger] crate::text::holds_at(line, part, i);
        let (x, y) = (line.take(i), line.skip(i + part.len()));
        assert(line =~= x + part + y) by {
            assert forall|j: int| 0 <= j < line.len() implies line[j] == (x + part + y)[j] by {
                if i <= j < i + part.len() {
                    assert(line.subrange(i, i + part.len())[j - i] == line[j]);
                }
            }
        }
        assert(x + interface + y == x + interface + y);
    }
}

proof fn lemma_part_is_held(a: Seq<char>, part: Seq<char>, b: Seq<char>)
    ensures
        crate::text::contains(a + part + b, part),
{
    let s = a + part + b;
    assert(s.subrange(a.len() as int, a.len() as int + part.len()) =~= part);
    assert(crate::text::holds_at(s, part, a.len() as int));
}

/// The interrupts of a network interface are those of its lines, in their order, and no more than 32.
pub proof fn law_interrupts_are_those_of_the_lines(lines: Seq<Seq<char>>, interface: Seq<char>)
    ensures
        nic_irqs_in(lines, interface) == lines.filter(
            |l: Seq<char>| is_nic_line(l, interface) && irq_of(l) is Some,
        ).map_values(|l: Seq<char>| irq_of(l)->0 as i32),
        first_irqs(nic_irqs_in(lines, interface)).len() <= 32,
        nic_irqs_in(lines, interface).len() <= 32 ==> first_irqs(nic_irqs_in(lines, interface))
            == nic_irqs_in(lines, interface),
        first_irqs(nic_irqs_in(lines, interface)).is_prefix_of(nic_irqs_in(lines, interface)),
    decreases lines.len(),
{
    reveal(Seq::filter);
    let f = |l: Seq<char>| is_nic_line(l, interface) && irq_of(l) is Some;
    let g = |l: Seq<char>| irq_of(l)->0 as i32;
    if lines.len() > 0 {
        law_interrupts_are_those_of_the_lines(lines.drop_last(), interface);
    }
    assert(nic_irqs_in(lines, interface) =~= lines.filter(f).map_values(g));
}

/// Interrupts with numbers below zero are left out, and the others keep their order.
pub proof fn law_interrupts_below_zero_are_left_out(irqs: Seq<i32>, masks: Seq<CpuMask>, count: int)
    requires
        0 <= count <= irqs.len(),
        irqs.len() == masks.len(),
    ensures
        numbered(irqs, count) == irqs.take(count).filter(|n: i32| n >= 0),
        restored(irqs, masks, count) == Seq::new(
            count as nat,
            |i: int| (irqs[i], masks[i]),
        ).filter(|p: (i32, CpuMask)| p.0 >= 0),
    decreases count,
{
    reveal(Seq::filter);
    if count > 0 {
        law_interrupts_below_zero_are_left_out(irqs, masks, count - 1);
        assert(irqs.take(count).drop_last() =~= irqs.take(count - 1));
        let all = Seq::new(count as nat, |i: int| (irqs[i], masks[i]));
        assert(all.drop_last() =~= Seq::new((count - 1) as nat, |i: int| (irqs[i], masks[i])));
    } else {
        assert(irqs.take(0) =~= Seq::<i32>::empty());
        assert(Seq::new(0, |i: int| (irqs[i], masks[i])) =~= Seq::<(i32, CpuMask)>::empty());
    }
}

/// As many writes have succeeded as are marked so.
pub proof fn law_successes_are_counted(outcomes: Seq<AffinityWrite>, k: int)
    requires
        0 <= k <= outcomes.len(),
    ensures
        successes(outcomes, k) == crate::tally::count(k as nat, |i: int| outcomes[i].written),
    decreases k,
{
    if k > 0 {
        law_successes_are_counted(outcomes, k - 1);
    }
}

/// The mask that an interrupt had is kept in its place: that of the write to it, where one was read,
/// and else the one from before.
pub proof fn law_masks_are_kept_with_their_interrupts(
    masks: Seq<CpuMask>,
    irqs: Seq<i32>,
    written: Seq<i32>,
    outcomes: Seq<AffinityWrite>,
    k: int,
    i: int,
    j: int,
)
    requires
        masks.len() == irqs.len(),
        written.len() == outcomes.len(),
        0 <= k <= written.len(),
        0 <= i < irqs.len(),
        irqs.no_duplicates(),
        written.no_duplicates(),
    ensures
        masks_after(masks, irqs, written, outcomes, k).len() == masks.len(),
        0 <= j < k && written[j] == irqs[i] ==> masks_after(masks, irqs, written, outcomes, k)[i]
            == match outcomes[j].original {
            Some(mask) => mask,
            None => masks[i],
        },
        (forall|h: int| 0 <= h < k ==> written[h] != irqs[i]) ==> masks_after(
            masks,
            irqs,
            written,
            outcomes,
            k,
        )[i] == masks[i],
    decreases k,
{
    if k > 0 {
        law_masks_are_kept_with_their_interrupts(masks, irqs, written, outcomes, k - 1, i, j);
        let before = masks_after(masks, irqs, written, outcomes, k - 1);
        let last = written[k - 1];
        lemma_slot_of(irqs, last, 0);
        if last == irqs[i] {
            assert(slot_of(irqs, last, 0) == Some(i));
            assert(before[i] == masks[i]);
        } else if let Some(slot) = slot_of(irqs, last, 0) {
            assert(slot != i);
        }
    }
}

proof fn lemma_slot_of(irqs: Seq<i32>, irq: i32, from: int)
    requires
        0 <= from <= irqs.len(),
    ensures
        match slot_of(irqs, irq, from) {
            Some(s) => from <= s < irqs.len() && irqs[s] == irq && forall|j: int|
                from <= j < s ==> irqs[j] != irq,
            None => forall|j: int| from <= j < irqs.len() ==> irqs[j] != irq,
        },
    decreases irqs.len() - from,
{
    if from < irqs.len() && irqs[from] != irq {
        lemma_slot_of(irqs, irq, from + 1);
    }
}

} // verus!
