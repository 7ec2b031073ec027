//! Windows of observations, and contexts as bytes. Numbers that are not whole stand as the bits of
//! doubles.
use crate::doubles::{above, ZERO};
use crate::bytes::{push_u32_le, push_u64_le, read_u32_le, read_u64_le};
use std::collections::VecDeque;
use vstd::prelude::*;

verus! {

/// Configuration for temporal attention
#[derive(Debug, Clone, Copy, PartialEq, Eq, Structural)]
pub struct TemporalAttentionConfig {
    /// Maximum sequence length (bounded for memory)
    pub max_sequence_length: usize,
    /// Decay factor for exponential weights (0.5 to 0.99)
    pub decay_factor: u64,
    /// Number of attention heads (simplified: different time scales)
    pub num_time_scales: usize,
}

impl Default for TemporalAttentionConfig {
    fn default() -> (c: Self)
        ensures
            c == (TemporalAttentionConfig {
                max_sequence_length: 1000,
                decay_factor: USUAL_DECAY,
                num_time_scales: 4,
            }),
    {
        Self { max_sequence_length: 1000, decay_factor: USUAL_DECAY, num_time_scales: 4 }
    }
}

/// The bits of 0.95, the usual decay of weights.
pub const USUAL_DECAY: u64 = 0x3fee_6666_6666_6666;

/// The last entries of a sequence, at most as many as are allowed.
pub open spec fn latest(s: Seq<u64>, max: nat) -> Seq<u64> {
    if s.len() <= max {
        s
    } else {
        s.skip(s.len() - max)
    }
}

/// Window of observations, each number as the bits of a double.
#[derive(Debug)]
pub struct TemporalAttentionExtractor {
    pub config: TemporalAttentionConfig,
    /// Price history with bounded size
    pub prices: VecDeque<u64>,
    /// Volume history
    pub volumes: VecDeque<u64>,
    /// Returns history
    pub returns: VecDeque<u64>,
    /// Current position in sequence
    pub current_position: usize,
}

/// Drops entries from the front until no more are left than are allowed.
fn trim_front(window: &mut VecDeque<u64>, max: usize)
    ensures
        final(window)@ == latest(old(window)@, max as nat),
{
    let ghost all = window@;
    assert(all.skip(0) =~= all);
    while window.len() > max
        invariant
            window@.len() <= all.len(),
            window@ == all.skip(all.len() - window@.len()),
            all.len() > max ==> window@.len() >= max,
            all.len() <= max ==> window@ == all,
        decreases window.len(),
    {
        let ghost before = window@;
        let _ = window.pop_front();
        assert(window@ =~= before.skip(1));
        assert(before.skip(1) =~= all.skip(all.len() - window@.len()));
    }
}

impl TemporalAttentionExtractor {
    /// Prices and volumes go together, and there are never more than are allowed.
    pub open spec fn inv(&self) -> bool {
        &&& self.prices@.len() == self.volumes@.len()
        &&& self.prices@.len() <= self.config.max_sequence_length
    }

    /// True where there is a last price and it is positive.
    pub open spec fn is_comparable(&self) -> bool {
        self.prices@.len() > 0 && crate::doubles::greater(self.prices@.last(), ZERO)
    }

    pub fn new(config: TemporalAttentionConfig) -> (e: Self)
        ensures
            e.inv(),
            e.config == config,
            e.prices@.len() == 0,
            e.volumes@.len() == 0,
            e.returns@.len() == 0,
            e.current_position == 0,
    {
        Self {
            config,
            prices: VecDeque::new(),
            volumes: VecDeque::new(),
            returns: VecDeque::new(),
            current_position: 0,
        }
    }

    /// What an observation makes of a window: price and volume are added, and the return since the
    /// last price, or zero where there is none or it is not positive.
    pub open spec fn observed(
        before: TemporalAttentionExtractor,
        after: TemporalAttentionExtractor,
        price: u64,
        volume: u64,
        ret: u64,
    ) -> bool {
        let max = before.config.max_sequence_length as nat;
        &&& after.config == before.config
        &&& after.current_position == before.current_position + 1
        &&& after.prices@ == latest(before.prices@.push(price), max)
        &&& after.volumes@ == latest(before.volumes@.push(volume), max)
        &&& after.returns@ == if before.is_comparable() {
            latest(before.returns@.push(ret), max)
        } else {
            before.returns@.push(ZERO)
        }
    }

    /// True where there is room for an observation, and a scale to weigh it by.
    pub open spec fn has_room(&self) -> bool {
        &&& self.current_position < usize::MAX
        &&& self.config.max_sequence_length < usize::MAX
        &&& self.returns@.len() < usize::MAX
        &&& self.config.num_time_scales > 0
    }

    /// Add a new observation
    ///
    /// `ret` is the return since the last price.
    pub fn add_observation(&mut self, price: u64, volume: u64, ret: u64)
        requires
            old(self).inv(),
            old(self).has_room(),
        ensures
            final(self).inv(),
            Self::observed(*old(self), *final(self), price, volume, ret),
    {
        let max: usize = self.config.max_sequence_length;
        let comparable = self.prices.len() > 0 && above(self.prices[self.prices.len() - 1], ZERO);
        if comparable {
            self.returns.push_back(ret);
            trim_front(&mut self.returns, max);
        } else {
            self.returns.push_back(0);
        }
        self.prices.push_back(price);
        self.volumes.push_back(volume);
        self.current_position = self.current_position + 1;
        trim_front(&mut self.prices, max);
        trim_front(&mut self.volumes, max);
    }

    /// The window of prices, the latest last
    pub fn price_window(&self) -> (r: Vec<u64>)
        ensures
            r@ == self.prices@,
    {
        copy_window(&self.prices)
    }

    /// The window of volumes, the latest last
    pub fn volume_window(&self) -> (r: Vec<u64>)
        ensures
            r@ == self.volumes@,
    {
        copy_window(&self.volumes)
    }

    /// The window of returns, the latest last
    pub fn return_window(&self) -> (r: Vec<u64>)
        ensures
            r@ == self.returns@,
    {
        copy_window(&self.returns)
    }

    /// The prices of the window with their ages, the latest of which is zero
    pub fn price_terms(&self) -> (r: Vec<(usize, u64)>)
        ensures
            r@ == aged(self.prices@),
    {
        aged_window(&self.prices)
    }

    /// The volumes of the window with their ages, the latest of which is zero
    pub fn volume_terms(&self) -> (r: Vec<(usize, u64)>)
        ensures
            r@ == aged(self.volumes@),
    {
        aged_window(&self.volumes)
    }

    /// Get attention-weighted average price, for the weighted sum of the prices over that of the
    /// weights: zero where there is no price
    pub fn attention_weighted_price(&self, quotient: u64) -> (r: u64)
        ensures
            r == weighted_over(self.prices@, quotient),
    {
        if self.prices.len() == 0 {
            return ZERO;
        }
        quotient
    }

    /// Get attention-weighted volume, for the weighted sum of the volumes over that of the weights
    pub fn attention_weighted_volume(&self, quotient: u64) -> (r: u64)
        ensures
            r == weighted_over(self.volumes@, quotient),
    {
        if self.volumes.len() == 0 {
            return ZERO;
        }
        quotient
    }

    /// Get multi-scale attention features, for the attention-weighted prices of the scales: zeros
    /// where there is no price
    pub fn get_multi_scale_features(&self, quotients: &Vec<u64>) -> (r: Vec<u64>)
        requires
            quotients@.len() == self.config.num_time_scales,
        ensures
            r@ == self.scales_of(quotients@),
    {
        let mut features: Vec<u64> = Vec::new();
        let mut i: usize = 0;
        while i < quotients.len()
            invariant
                i <= quotients@.len(),
                quotients@.len() == self.config.num_time_scales,
                features@ == self.scales_of(quotients@).take(i as int),
            decreases quotients.len() - i,
        {
            features.push(self.attention_weighted_price(quotients[i]));
            i = i + 1;
            assert(features@ =~= self.scales_of(quotients@).take(i as int));
        }
        assert(features@ =~= self.scales_of(quotients@));
        features
    }

    /// The price of each scale.
    pub open spec fn scales_of(&self, quotients: Seq<u64>) -> Seq<u64> {
        Seq::new(
            self.config.num_time_scales as nat,
            |i: int| weighted_over(self.prices@, quotients[i]),
        )
    }

    /// Attention between two points of the window, for what it decays to over their distance: zero
    /// where one lies outside
    pub fn pairwise_attention(&self, t1: usize, t2: usize, decayed: u64) -> (r: u64)
        ensures
            r == if t1 >= self.prices@.len() || t2 >= self.prices@.len() {
                ZERO
            } else {
                decayed
            },
    {
        match self.distance(t1, t2) {
            Some(_) => decayed,
            None => ZERO,
        }
    }

    /// The context of a window.
    pub open spec fn context(&self, f: ContextFigures) -> ContextView {
        ContextView {
            sequence_length: self.prices@.len() as u64,
            attention_price: weighted_over(self.prices@, f.attention_price),
            attention_volume: weighted_over(self.volumes@, f.attention_volume),
            multi_scale_prices: self.scales_of(f.scales@),
            price_decay_rate: self.config.decay_factor,
            current_price: if self.prices@.len() == 0 {
                ZERO
            } else {
                self.prices@.last()
            },
            avg_return: f.avg_return,
        }
    }

    /// Get context vector for ML consumption
    pub fn get_context_vector(&self, figures: &ContextFigures) -> (c: TemporalContext)
        requires
            figures.scales@.len() == self.config.num_time_scales,
        ensures
            c@ == self.context(*figures),
    {
        let n: usize = self.prices.len();
        TemporalContext {
            sequence_length: n as u64,
            attention_price: self.attention_weighted_price(figures.attention_price),
            attention_volume: self.attention_weighted_volume(figures.attention_volume),
            multi_scale_prices: self.get_multi_scale_features(&figures.scales),
            price_decay_rate: self.config.decay_factor,
            current_price: if n == 0 {
                ZERO
            } else {
                self.prices[n - 1]
            },
            avg_return: figures.avg_return,
        }
    }

    /// The distance between two points of the window; none where one lies outside
    pub fn distance(&self, t1: usize, t2: usize) -> (r: Option<usize>)
        ensures
            r == if t1 >= self.prices@.len() || t2 >= self.prices@.len() {
                None
            } else if t1 <= t2 {
                Some((t2 - t1) as usize)
            } else {
                Some((t1 - t2) as usize)
            },
    {
        if t1 >= self.prices.len() || t2 >= self.prices.len() {
            return None;
        }
        if t1 <= t2 {
            Some(t2 - t1)
        } else {
            Some(t1 - t2)
        }
    }

    /// Get the number of observations
    pub fn sequence_length(&self) -> (n: usize)
        ensures
            n == self.prices@.len(),
    {
        self.prices.len()
    }

    /// Check if we have enough data
    pub fn is_ready(&self) -> (r: bool)
        ensures
            r == (self.prices@.len() >= 10),
    {
        self.prices.len() >= 10
    }

    /// Clear all data
    pub fn clear(&mut self)
        ensures
            final(self).inv(),
            final(self).config == old(self).config,
            final(self).prices@.len() == 0,
            final(self).volumes@.len() == 0,
            final(self).returns@.len() == 0,
            final(self).current_position == 0,
    {
        self.prices.clear();
        self.volumes.clear();
        self.returns.clear();
        self.current_position = 0;
    }
}

/// A weighted mean, for the quotient of its sums: zero over an empty window.
pub open spec fn weighted_over(window: Seq<u64>, quotient: u64) -> u64 {
    if window.len() == 0 {
        ZERO
    } else {
        quotient
    }
}

/// The entries of a window with their ages, the latest of which is zero.
pub open spec fn aged(window: Seq<u64>) -> Seq<(usize, u64)> {
    Seq::new(window.len(), |i: int| ((window.len() - 1 - i) as usize, window[i]))
}

/// What arithmetic makes of a window
#[derive(Debug)]
pub struct ContextFigures {
    /// The weighted sum of the prices over that of the weights
    pub attention_price: u64,
    /// The weighted sum of the volumes over that of the weights
    pub attention_volume: u64,
    /// The attention-weighted prices of the scales
    pub scales: Vec<u64>,
    /// The sum of the returns over the number of prices, which counts as one at least
    pub avg_return: u64,
}

/// The entries of a window with their ages.
fn aged_window(window: &VecDeque<u64>) -> (r: Vec<(usize, u64)>)
    ensures
        r@ == aged(window@),
{
    let n: usize = window.len();
    let mut r: Vec<(usize, u64)> = Vec::new();
    let mut i: usize = 0;
    while i < n
        invariant
            i <= n,
            n == window@.len(),
            r@ == aged(window@).take(i as int),
        decreases n - i,
    {
        r.push((n - 1 - i, window[i]));
        i = i + 1;
        assert(r@ =~= aged(window@).take(i as int));
    }
    assert(r@ =~= aged(window@));
    r
}

/// The entries of a window.
fn copy_window(window: &VecDeque<u64>) -> (r: Vec<u64>)
    ensures
        r@ == window@,
{
    let mut r: Vec<u64> = Vec::new();
    let mut i: usize = 0;
    while i < window.len()
        invariant
            i <= window@.len(),
            r@ == window@.take(i as int),
        decreases window.len() - i,
    {
        r.push(window[i]);
        assert(r@ =~= window@.take(i + 1));
        i = i + 1;
    }
    assert(window@.take(i as int) =~= window@);
    r
}

/// Context vector for IPC serialization, each number that is not whole as the bits of a double
#[derive(Debug)]
pub struct TemporalContext {
    pub sequence_length: u64,
    pub attention_price: u64,
    pub attention_volume: u64,
    pub multi_scale_prices: Vec<u64>,
    pub price_decay_rate: u64,
    pub current_price: u64,
    pub avg_return: u64,
}

/// A context, with its prices as a sequence.
#[verifier::ext_equal]
pub struct ContextView {
    pub sequence_length: u64,
    pub attention_price: u64,
    pub attention_volume: u64,
    pub multi_scale_prices: Seq<u64>,
    pub price_decay_rate: u64,
    pub current_price: u64,
    pub avg_return: u64,
}

impl View for TemporalContext {
    type V = ContextView;

    open spec fn view(&self) -> ContextView {
        ContextView {
            sequence_length: self.sequence_length,
            attention_price: self.attention_price,
            attention_volume: self.attention_volume,
            multi_scale_prices: self.multi_scale_prices@,
            price_decay_rate: self.price_decay_rate,
            current_price: self.current_price,
            avg_return: self.avg_return,
        }
    }
}

/// Eight bytes of a number, the least significant first.
pub open spec fn word(n: u64) -> Seq<u8> {
    crate::bytes::le_bytes(n as nat, 8)
}

/// The bytes of numbers, eight for each.
pub open spec fn words(values: Seq<u64>) -> Seq<u8> {
    Seq::new(values.len() * 8, |j: int| word(values[j / 8])[j % 8])
}

/// The number at a place.
pub open spec fn word_at(bytes: Seq<u8>, at: int) -> u64 {
    crate::bytes::le_number(bytes.subrange(at, at + 8)) as u64
}

/// The numbers from a place on.
pub open spec fn words_at(bytes: Seq<u8>, at: int, count: nat) -> Seq<u64> {
    Seq::new(count, |i: int| word_at(bytes, at + 8 * i))
}

/// The four bytes of a number, the least significant first, read at a place.
pub open spec fn half_at(bytes: Seq<u8>, at: int) -> nat {
    crate::bytes::le_number(bytes.subrange(at, at + 4))
}

/// The bytes of a context: its length, price and volume, the number of its scales and their prices,
/// and its decay rate, current price and average return.
pub open spec fn context_bytes(c: ContextView) -> Seq<u8> {
    word(c.sequence_length) + word(c.attention_price) + word(c.attention_volume)
        + crate::bytes::le_bytes(c.multi_scale_prices.len(), 4) + words(c.multi_scale_prices)
        + word(c.price_decay_rate) + word(c.current_price) + word(c.avg_return)
}

/// The number of scales that bytes announce.
pub open spec fn scales_in(bytes: Seq<u8>) -> nat {
    half_at(bytes, 24)
}

/// True where bytes hold everything that they announce.
pub open spec fn complete(bytes: Seq<u8>) -> bool {
    bytes.len() >= 52 + 8 * scales_in(bytes)
}

/// The context that bytes hold.
pub open spec fn context_of(bytes: Seq<u8>) -> ContextView {
    let n = scales_in(bytes);
    ContextView {
        sequence_length: word_at(bytes, 0),
        attention_price: word_at(bytes, 8),
        attention_volume: word_at(bytes, 16),
        multi_scale_prices: words_at(bytes, 28, n),
        price_decay_rate: word_at(bytes, 28 + 8 * n as int),
        current_price: word_at(bytes, 36 + 8 * n as int),
        avg_return: word_at(bytes, 44 + 8 * n as int),
    }
}

/// A number has eight bytes.
pub proof fn lemma_word(n: u64)
    ensures
        word(n).len() == 8,
        crate::bytes::le_number(word(n)) == n,
{
    crate::bytes::lemma_pow256();
    crate::bytes::lemma_le_roundtrip(n as nat, 8);
}

/// One more number adds its eight bytes.
pub proof fn lemma_words_push(values: Seq<u64>, n: u64)
    ensures
        words(values.push(n)) == words(values) + word(n),
{
    lemma_word(n);
    assert(words(values.push(n)) =~= words(values) + word(n));
}

/// A number written among others is read at its place.
pub proof fn lemma_words_at(values: Seq<u64>, before: Seq<u8>, after: Seq<u8>, i: int)
    requires
        0 <= i < values.len(),
    ensures
        word_at(before + words(values) + after, before.len() + 8 * i) == values[i],
{
    let all = before + words(values) + after;
    let at = before.len() + 8 * i;
    lemma_word(values[i]);
    assert(all.subrange(at, at + 8) =~= word(values[i])) by {
        assert forall|j: int| 0 <= j < 8 implies all.subrange(at, at + 8)[j] == word(
            values[i],
        )[j] by {
            assert(all[at + j] == words(values)[8 * i + j]);
            assert((8 * i + j) / 8 == i && (8 * i + j) % 8 == j);
        }
    }
}

/// A number written at a place is read there.
pub proof fn lemma_word_at(before: Seq<u8>, n: u64, after: Seq<u8>)
    ensures
        word_at(before + word(n) + after, before.len() as int) == n,
{
    lemma_word(n);
    let all = before + word(n) + after;
    assert(all.subrange(before.len() as int, before.len() as int + 8) =~= word(n));
}

impl TemporalContext {
    /// Serialize to bytes for IPC (simple binary format)
    pub fn to_bytes(&self) -> (r: Vec<u8>)
        requires
            self.multi_scale_prices@.len() <= u32::MAX,
        ensures
            r@ == context_bytes(self@),
    {
        let mut bytes: Vec<u8> = Vec::new();
        push_u64_le(&mut bytes, self.sequence_length);
        push_u64_le(&mut bytes, self.attention_price);
        push_u64_le(&mut bytes, self.attention_volume);
        push_u32_le(&mut bytes, self.multi_scale_prices.len() as u32);
        let ghost front = bytes@;
        let ghost prices = self.multi_scale_prices@;
        let mut i: usize = 0;
        assert(front + words(prices.take(0)) =~= front);
        while i < self.multi_scale_prices.len()
            invariant
                i <= self.multi_scale_prices@.len(),
                prices == self.multi_scale_prices@,
                bytes@ == front + words(prices.take(i as int)),
            decreases self.multi_scale_prices.len() - i,
        {
            proof {
                assert(prices.take(i + 1) =~= prices.take(i as int).push(prices[i as int]));
                lemma_words_push(prices.take(i as int), prices[i as int]);
            }
            push_u64_le(&mut bytes, self.multi_scale_prices[i]);
            assert(bytes@ =~= front + words(prices.take(i + 1)));
            i = i + 1;
        }
        assert(prices.take(i as int) =~= prices);
        push_u64_le(&mut bytes, self.price_decay_rate);
        push_u64_le(&mut bytes, self.current_price);
        push_u64_le(&mut bytes, self.avg_return);
        assert(bytes@ =~= context_bytes(self@));
        bytes
    }

    /// True where bytes that are not too short hold everything that they announce
    pub fn is_complete(bytes: &[u8]) -> (r: bool)
        ensures
            r == (bytes@.len() < 40 || complete(bytes@)),
    {
        if bytes.len() < 40 {
            return true;
        }
        let n: u32 = read_u32_le(bytes, 24);
        bytes.len() as u64 >= 52 + 8 * n as u64
    }

    /// Deserialize from bytes
    pub fn from_bytes(bytes: &[u8]) -> (r: Option<Self>)
        requires
            bytes@.len() >= 40 ==> complete(bytes@),
        ensures
            bytes@.len() < 40 ==> r is None,
            bytes@.len() >= 40 ==> r is Some && r->0@ == context_of(bytes@),
    {
        let total: usize = bytes.len();
        if total < 40 {
            return None;
        }
        let sequence_length: u64 = read_u64_le(bytes, 0);
        let attention_price: u64 = read_u64_le(bytes, 8);
        let attention_volume: u64 = read_u64_le(bytes, 16);
        let count: u32 = read_u32_le(bytes, 24);
        let mut offset: usize = 28;
        let mut multi_scale_prices: Vec<u64> = Vec::new();
        let mut i: u32 = 0;
        while i < count
            invariant
                i <= count,
                total == bytes@.len(),
                count == scales_in(bytes@),
                complete(bytes@),
                offset == 28 + 8 * i,
                multi_scale_prices@.len() == i,
                forall|j: int|
                    0 <= j < i ==> #[trigger] multi_scale_prices@[j] == word_at(
                        bytes@,
                        28 + 8 * j,
                    ),
            decreases count - i,
        {
            multi_scale_prices.push(read_u64_le(bytes, offset));
            offset = offset + 8;
            i = i + 1;
        }
        let price_decay_rate: u64 = read_u64_le(bytes, offset);
        let current_price: u64 = read_u64_le(bytes, offset + 8);
        let avg_return: u64 = read_u64_le(bytes, offset + 16);
        let c = TemporalContext {
            sequence_length,
            attention_price,
            attention_volume,
            multi_scale_prices,
            price_decay_rate,
            current_price,
            avg_return,
        };
        assert(c@ =~= context_of(bytes@));
        Some(c)
    }
}

/// A context that is written as bytes and read back is the same.
pub proof fn law_context_reads_back(c: ContextView)
    requires
        c.multi_scale_prices.len() <= u32::MAX,
    ensures
        complete(context_bytes(c)),
        context_of(context_bytes(c)) == c,
{
    let all = context_bytes(c);
    let n = c.multi_scale_prices.len();
    let none = Seq::<u8>::empty();
    let half = crate::bytes::le_bytes(n, 4);
    let middle = words(c.multi_scale_prices);
    let h1 = word(c.sequence_length);
    let h2 = word(c.attention_price);
    let h3 = word(c.attention_volume);
    let t1 = word(c.price_decay_rate);
    let t2 = word(c.current_price);
    let t3 = word(c.avg_return);
    lemma_word(c.sequence_length);
    lemma_word(c.attention_price);
    lemma_word(c.attention_volume);
    lemma_word(c.price_decay_rate);
    lemma_word(c.current_price);
    lemma_word(c.avg_return);
    crate::bytes::lemma_pow256();
    crate::bytes::lemma_le_roundtrip(n, 4);
    assert(all.subrange(24, 28) =~= half);
    lemma_word_at(none, c.sequence_length, h2 + h3 + half + middle + t1 + t2 + t3);
    assert(none + h1 + (h2 + h3 + half + middle + t1 + t2 + t3) =~= all);
    lemma_word_at(h1, c.attention_price, h3 + half + middle + t1 + t2 + t3);
    assert(h1 + h2 + (h3 + half + middle + t1 + t2 + t3) =~= all);
    lemma_word_at(h1 + h2, c.attention_volume, half + middle + t1 + t2 + t3);
    assert(h1 + h2 + h3 + (half + middle + t1 + t2 + t3) =~= all);
    let front = h1 + h2 + h3 + half;
    lemma_word_at(front + middle, c.price_decay_rate, t2 + t3);
    assert(front + middle + t1 + (t2 + t3) =~= all);
    lemma_word_at(front + middle + t1, c.current_price, t3);
    assert(front + middle + t1 + t2 + t3 =~= all);
    lemma_word_at(front + middle + t1 + t2, c.avg_return, none);
    assert(front + middle + t1 + t2 + t3 + none =~= all);
    assert forall|i: int| 0 <= i < n implies word_at(all, 28 + 8 * i)
        == c.multi_scale_prices[i] by {
        lemma_words_at(c.multi_scale_prices, front, t1 + t2 + t3, i);
        assert(front + middle + (t1 + t2 + t3) =~= all);
    }
    assert(context_of(all).multi_scale_prices =~= c.multi_scale_prices);
}

/// A window never holds more than is allowed, and the latest observation is its last.
pub proof fn law_window_is_bounded(s: Seq<u64>, n: u64, max: nat)
    requires
        max > 0,
    ensures
        latest(s.push(n), max).len() <= max,
        latest(s.push(n), max).last() == n,
{
}

/// A context stands in its bytes in a fixed order: length, price and volume, how many scales there
/// are and these, and behind them the decay, the current price and the average return, each in eight
/// bytes but for the count in four.
pub proof fn law_context_has_its_layout(c: ContextView)
    requires
        c.multi_scale_prices.len() <= u32::MAX,
    ensures
        ({
            let b = context_bytes(c);
            let n = c.multi_scale_prices.len() as int;
            &&& b.len() == 52 + 8 * n
            &&& crate::bytes::le_number(b.subrange(0, 8)) == c.sequence_length
            &&& crate::bytes::le_number(b.subrange(8, 16)) == c.attention_price
            &&& crate::bytes::le_number(b.subrange(16, 24)) == c.attention_volume
            &&& crate::bytes::le_number(b.subrange(24, 28)) == n
            &&& crate::bytes::le_number(b.subrange(28 + 8 * n, 36 + 8 * n)) == c.price_decay_rate
            &&& crate::bytes::le_number(b.subrange(36 + 8 * n, 44 + 8 * n)) == c.current_price
            &&& crate::bytes::le_number(b.subrange(44 + 8 * n, 52 + 8 * n)) == c.avg_return
        }),
{
    let b = context_bytes(c);
    let n = c.multi_scale_prices.len() as int;
    lemma_word(c.sequence_length);
    lemma_word(c.attention_price);
    lemma_word(c.attention_volume);
    lemma_word(c.price_decay_rate);
    lemma_word(c.current_price);
    lemma_word(c.avg_return);
    crate::bytes::lemma_pow256();
    crate::bytes::lemma_le_roundtrip(n as nat, 4);
    assert(b.subrange(0, 8) =~= word(c.sequence_length));
    assert(b.subrange(8, 16) =~= word(c.attention_price));
    assert(b.subrange(16, 24) =~= word(c.attention_volume));
    assert(b.subrange(24, 28) =~= crate::bytes::le_bytes(n as nat, 4));
    assert(b.subrange(28 + 8 * n, 36 + 8 * n) =~= word(c.price_decay_rate));
    assert(b.subrange(36 + 8 * n, 44 + 8 * n) =~= word(c.current_price));
    assert(b.subrange(44 + 8 * n, 52 + 8 * n) =~= word(c.avg_return));
}

/// A window keeps the latest values in their order; the last of them has the age zero, and each
/// before it is older by one.
pub proof fn law_latest_values_are_kept(s: Seq<u64>, max: nat, i: int)
    requires
        0 <= i < latest(s, max).len(),
        s.len() <= usize::MAX,
    ensures
        latest(s, max).len() == if s.len() <= max {
            s.len()
        } else {
            max
        },
        latest(s, max)[latest(s, max).len() - 1 - i] == s[s.len() - 1 - i],
        aged(s).len() == s.len(),
        aged(s)[s.len() - 1 - i].0 == i,
        aged(s)[s.len() - 1 - i].1 == s[s.len() - 1 - i],
{
}

/// A context reports its window: how long it is, its last price and the figures taken over it, which
/// are zero for an empty one.
pub proof fn law_context_reports_the_window(e: TemporalAttentionExtractor, f: ContextFigures)
    requires
        e.inv(),
        e.prices@.len() <= u64::MAX,
    ensures
        ({
            let c = e.context(f);
            &&& c.sequence_length == e.prices@.len()
            &&& c.price_decay_rate == e.config.decay_factor
            &&& c.avg_return == f.avg_return
            &&& e.prices@.len() > 0 ==> c.attention_price == f.attention_price
                && c.attention_volume == f.attention_volume && c.current_price
                == e.prices@[e.prices@.len() - 1]
            &&& e.prices@.len() == 0 ==> c.attention_price == ZERO && c.attention_volume == ZERO
                && c.current_price == ZERO
            &&& c.multi_scale_prices.len() == e.config.num_time_scales
        }),
{
}

/// An observation comes in last everywhere; its return counts where the price before it was
/// positive, and is zero otherwise.
pub proof fn law_observation_comes_in_last(
    before: TemporalAttentionExtractor,
    after: TemporalAttentionExtractor,
    price: u64,
    volume: u64,
    ret: u64,
)
    requires
        before.inv(),
        TemporalAttentionExtractor::observed(before, after, price, volume, ret),
        before.config.max_sequence_length > 0,
    ensures
        after.prices@.last() == price,
        after.volumes@.last() == volume,
        before.prices@.len() == 0 ==> after.returns@.last() == ZERO,
        before.prices@.len() > 0 && crate::doubles::is_finite(before.prices@.last()) ==> (
        after.returns@.last() == if crate::doubles::units(before.prices@.last()) > 0 {
            ret
        } else {
            ZERO
        }),
        after.current_position == before.current_position + 1,
{
    if before.prices@.len() > 0 && crate::doubles::is_finite(before.prices@.last()) {
        crate::doubles::law_values_are_ordered(before.prices@.last(), ZERO);
    }
}

} // verus!
