//! The rolling windows of symbols.
use crate::features::rolling::RollingFeatures;
use dashmap::DashMap;
use vstd::prelude::*;

verus! {

/// What the map of slots holds.
pub uninterp spec fn slots_held(m: DashMap<String, usize>) -> Map<Seq<char>, usize>;

/// No slots.
pub open spec fn no_slots() -> Map<Seq<char>, usize> {
    Map::empty()
}

/// Calls `dashmap::DashMap::new`, which makes an empty map.
#[verifier::external_body]
fn new_slots() -> (m: DashMap<String, usize>)
    ensures
        slots_held(m) == no_slots(),
{
    DashMap::new()
}

/// Calls `dashmap::DashMap::insert`, which maps the key to the value whatever it was mapped to
/// before.
#[verifier::external_body]
fn put_slot(m: &mut DashMap<String, usize>, symbol: String, slot: usize)
    ensures
        slots_held(*final(m)) == slots_held(*old(m)).insert(symbol@, slot),
{
    m.insert(symbol, slot);
}

/// Calls `dashmap::DashMap::get`, which finds the value that the key is mapped to.
#[verifier::external_body]
fn slot_at(m: &DashMap<String, usize>, symbol: &str) -> (r: Option<usize>)
    ensures
        r == if slots_held(*m).contains_key(symbol@) {
            Some(slots_held(*m)[symbol@])
        } else {
            None
        },
{
    m.get(symbol).map(|v| *v)
}

/// No windows.
pub open spec fn no_windows() -> Map<Seq<char>, RollingFeatures> {
    Map::empty()
}

/// The rolling windows by symbol: the concurrent map says where the windows of a symbol stand
pub struct WindowTable {
    slots: DashMap<String, usize>,
    windows: Vec<RollingFeatures>,
}

impl View for WindowTable {
    type V = Map<Seq<char>, RollingFeatures>;

    closed spec fn view(&self) -> Map<Seq<char>, RollingFeatures> {
        Map::new(
            |symbol: Seq<char>| slots_held(self.slots).contains_key(symbol),
            |symbol: Seq<char>| self.windows@[slots_held(self.slots)[symbol] as int],
        )
    }
}

impl WindowTable {
    /// Each symbol has windows of its own.
    pub closed spec fn inv(&self) -> bool {
        let slots = slots_held(self.slots);
        &&& forall|s: Seq<char>| #[trigger]
            slots.contains_key(s) ==> slots[s] < self.windows@.len()
        &&& forall|s: Seq<char>, t: Seq<char>|
            #![trigger slots[s], slots[t]]
            slots.contains_key(s) && slots.contains_key(t) && s != t ==> slots[s] != slots[t]
    }

    /// A table without windows
    pub fn new() -> (t: Self)
        ensures
            t.inv(),
            t@ == no_windows(),
    {
        let t = Self { slots: new_slots(), windows: Vec::new() };
        assert(t@ =~= no_windows());
        t
    }

    /// Puts windows in the place of those of a symbol, if it has some
    pub fn put(&mut self, symbol: &str, windows: RollingFeatures)
        requires
            old(self).inv(),
        ensures
            final(self).inv(),
            final(self)@ == old(self)@.insert(symbol@, windows),
    {
        match slot_at(&self.slots, symbol) {
            Some(slot) => {
                self.windows[slot] = windows;
            },
            None => {
                let slot: usize = self.windows.len();
                self.windows.push(windows);
                put_slot(&mut self.slots, symbol.to_owned(), slot);
            },
        }
        assert(self@ =~= old(self)@.insert(symbol@, windows));
    }

    /// The windows of a symbol
    pub fn get(&self, symbol: &str) -> (r: Option<&RollingFeatures>)
        requires
            self.inv(),
        ensures
            match r {
                Some(w) => self@.contains_key(symbol@) && *w == self@[symbol@],
                None => !self@.contains_key(symbol@),
            },
    {
        match slot_at(&self.slots, symbol) {
            Some(slot) => Some(&self.windows[slot]),
            None => None,
        }
    }

    /// True where a symbol has windows
    pub fn has(&self, symbol: &str) -> (r: bool)
        ensures
            r == self@.contains_key(symbol@),
    {
        slot_at(&self.slots, symbol).is_some()
    }

    /// Takes a tick into the windows of a symbol; without windows nothing changes
    pub fn update(&mut self, symbol: &str, price: u64, volume: u64, change: u64, now_ns: u64)
        requires
            old(self).inv(),
            old(self)@.contains_key(symbol@) ==> old(self)@[symbol@].can_update(),
        ensures
            final(self).inv(),
            final(self)@.dom() == old(self)@.dom(),
            forall|s: Seq<char>| #[trigger]
                old(self)@.contains_key(s) && s != symbol@ ==> final(self)@[s] == old(self)@[s],
            old(self)@.contains_key(symbol@) ==> final(self)@[symbol@].is_updated(
                old(self)@[symbol@],
                price,
                volume,
                change,
                now_ns,
            ),
    {
        if let Some(slot) = slot_at(&self.slots, symbol) {
            let ghost before = self.windows@;
            let windows = &mut self.windows[slot];
            windows.update(price, volume, change, now_ns);
            assert(self.windows@ =~= before.update(slot as int, self.windows@[slot as int]));
        }
        assert(self@.dom() =~= old(self)@.dom());
    }

    /// Keeps the indicators that the windows of a symbol give; without windows nothing changes
    pub fn set_indicators(&mut self, symbol: &str, rsi: u64, macd: u64)
        requires
            old(self).inv(),
        ensures
            final(self).inv(),
            final(self)@ == if old(self)@.contains_key(symbol@) {
                old(self)@.insert(symbol@, old(self)@[symbol@].with_indicators(rsi, macd))
            } else {
                old(self)@
            },
    {
        if let Some(slot) = slot_at(&self.slots, symbol) {
            let ghost before = self.windows@;
            let windows = &mut self.windows[slot];
            windows.set_indicators(rsi, macd);
            assert(self.windows@ =~= before.update(slot as int, self.windows@[slot as int]));
            assert(self@ =~= old(self)@.insert(
                symbol@,
                old(self)@[symbol@].with_indicators(rsi, macd),
            ));
        }
    }
}

} // verus!
