//! Snapshot of one poll cycle and the diff engine: a snapshot maps the
//! host-assigned identity key (bus number, device address) to the device
//! record, and the diff reports the keys present now but absent before.
use vstd::prelude::*;
use crate::device::UsbDeviceInfo;

verus! {

/// The mapping a sequence of entries stands for; a later entry with the
/// same key replaces an earlier one.
pub open spec fn snap_map(s: Seq<((u8, u8), UsbDeviceInfo)>) -> Map<(u8, u8), UsbDeviceInfo>
    decreases s.len(),
{
    if s.len() == 0 {
        Map::empty()
    } else {
        snap_map(s.drop_last()).insert(s.last().0, s.last().1)
    }
}

/// A key that no entry carries is not in the mapping.
proof fn lemma_snap_map_absent(s: Seq<((u8, u8), UsbDeviceInfo)>, k: (u8, u8))
    requires
        forall|j: int| 0 <= j < s.len() ==> s[j].0 != k,
    ensures
        !snap_map(s).dom().contains(k),
    decreases s.len(),
{
    if s.len() > 0 {
        assert forall|j: int| 0 <= j < s.drop_last().len() implies s.drop_last()[j].0 != k by {
            assert(s.drop_last()[j] == s[j]);
        }
        lemma_snap_map_absent(s.drop_last(), k);
    }
}

/// A key that some entry carries is in the mapping.
proof fn lemma_snap_map_present(s: Seq<((u8, u8), UsbDeviceInfo)>, i: int)
    requires
        0 <= i < s.len(),
    ensures
        snap_map(s).dom().contains(s[i].0),
    decreases s.len(),
{
    if i == s.len() - 1 {
    } else {
        assert(s.drop_last()[i] == s[i]);
        lemma_snap_map_present(s.drop_last(), i);
    }
}

/// A key of the mapping is carried by some entry.
proof fn lemma_snap_map_entry(s: Seq<((u8, u8), UsbDeviceInfo)>, k: (u8, u8))
    requires
        snap_map(s).dom().contains(k),
    ensures
        exists|i: int| 0 <= i < s.len() && #[trigger] s[i].0 == k,
    decreases s.len(),
{
    if s.len() > 0 {
        if k == s.last().0 {
            assert(s[s.len() - 1].0 == k);
        } else {
            lemma_snap_map_entry(s.drop_last(), k);
            let i = choose|i: int| 0 <= i < s.drop_last().len() && #[trigger] s.drop_last()[i].0
                == k;
            assert(s[i].0 == k);
        }
    }
}

/// The last entry that carries a key decides its value in the mapping.
proof fn lemma_snap_map_last_wins(s: Seq<((u8, u8), UsbDeviceInfo)>, i: int)
    requires
        0 <= i < s.len(),
        forall|j: int| i < j < s.len() ==> s[j].0 != s[i].0,
    ensures
        snap_map(s).dom().contains(s[i].0),
        snap_map(s)[s[i].0] == s[i].1,
    decreases s.len(),
{
    if i == s.len() - 1 {
    } else {
        assert(s.drop_last()[i] == s[i]);
        lemma_snap_map_last_wins(s.drop_last(), i);
    }
}

/// One poll cycle's view of the attached devices, keyed by (bus number,
/// device address). Rebuilt from scratch each cycle; an insert with a key
/// already present replaces that key's record.
pub struct Snapshot {
    entries: Vec<((u8, u8), UsbDeviceInfo)>,
}

impl View for Snapshot {
    type V = Map<(u8, u8), UsbDeviceInfo>;

    closed spec fn view(&self) -> Map<(u8, u8), UsbDeviceInfo> {
        snap_map(self.entries@)
    }
}

impl Snapshot {
    /// An empty snapshot, as substituted when enumeration fails.
    pub fn new() -> (r: Snapshot)
        ensures
            r@ == Map::<(u8, u8), UsbDeviceInfo>::empty(),
    {
        Snapshot { entries: Vec::new() }
    }

    /// Records one device under its identity key.
    pub fn insert(&mut self, bus: u8, address: u8, info: UsbDeviceInfo)
        ensures
            final(self)@ == old(self)@.insert((bus, address), info),
    {
        let ghost before = self.entries@;
        self.entries.push(((bus, address), info));
        proof {
            assert(self.entries@.drop_last() =~= before);
        }
    }

    /// Whether a device with this identity key is in the snapshot.
    pub fn contains_key(&self, bus: u8, address: u8) -> (r: bool)
        ensures
            r == self@.dom().contains((bus, address)),
    {
        let n = self.entries.len();
        let mut i: usize = 0;
        while i < n
            invariant
                i <= n,
                n == self.entries@.len(),
                forall|j: int| 0 <= j < i ==> self.entries@[j].0 != (bus, address),
            decreases n - i,
        {
            if self.entries[i].0.0 == bus && self.entries[i].0.1 == address {
                proof {
                    lemma_snap_map_present(self.entries@, i as int);
                }
                return true;
            }
            i += 1;
        }
        proof {
            lemma_snap_map_absent(self.entries@, (bus, address));
        }
        false
    }

    /// The record stored under an identity key, if any.
    pub fn get(&self, bus: u8, address: u8) -> (r: Option<&UsbDeviceInfo>)
        ensures
            match r {
                Some(info) => self@.dom().contains((bus, address)) && *info == self@[(bus,
                    address)],
                None => !self@.dom().contains((bus, address)),
            },
    {
        let mut i: usize = self.entries.len();
        while i > 0
            invariant
                i <= self.entries@.len(),
                forall|j: int| i <= j < self.entries@.len() ==> self.entries@[j].0 != (bus,
                address),
            decreases i,
        {
            i -= 1;
            if self.entries[i].0.0 == bus && self.entries[i].0.1 == address {
                proof {
                    lemma_snap_map_last_wins(self.entries@, i as int);
                }
                return Some(&self.entries[i].1);
            }
        }
        proof {
            lemma_snap_map_absent(self.entries@, (bus, address));
        }
        None
    }

    /// The stored entries, for walking a snapshot's devices in order.
    pub fn entries(&self) -> (r: &Vec<((u8, u8), UsbDeviceInfo)>)
        ensures
            snap_map(r@) == self@,
            forall|j: int|
                0 <= j < r@.len() ==> #[trigger] self@.dom().contains(r@[j].0),
            forall|k: (u8, u8)|
                self@.dom().contains(k) ==> exists|j: int|
                    0 <= j < r@.len() && #[trigger] r@[j].0 == k,
    {
        proof {
            assert forall|j: int| 0 <= j < self.entries@.len() implies #[trigger] self@.dom()
                .contains(self.entries@[j].0) by {
                lemma_snap_map_present(self.entries@, j);
            }
            assert forall|k: (u8, u8)| self@.dom().contains(k) implies exists|j: int|
                0 <= j < self.entries@.len() && #[trigger] self.entries@[j].0 == k by {
                lemma_snap_map_entry(self.entries@, k);
            }
        }
        &self.entries
    }
}

/// The keys of `current` that `previous` lacks: the newly connected
/// devices. Keys that left between the cycles are never reported. The
/// result carries no duplicate key.
pub fn new_device_keys(previous: &Snapshot, current: &Snapshot) -> (r: Vec<(u8, u8)>)
    ensures
        forall|k: (u8, u8)|
            r@.contains(k) <==> (current@.dom().contains(k) && !previous@.dom().contains(k)),
        forall|i: int, j: int| 0 <= i < j < r@.len() ==> r@[i] != r@[j],
{
    let entries = current.entries();
    let n = entries.len();
    let mut r: Vec<(u8, u8)> = Vec::new();
    let mut i: usize = 0;
    while i < n
        invariant
            i <= n,
            n == entries@.len(),
            snap_map(entries@) == current@,
            forall|j: int| 0 <= j < entries@.len() ==> #[trigger] current@.dom().contains(
                entries@[j].0),
            forall|k: (u8, u8)|
                r@.contains(k) ==> (current@.dom().contains(k) && !previous@.dom().contains(k)),
            forall|j: int|
                0 <= j < i ==> (!previous@.dom().contains(#[trigger] entries@[j].0) ==> r@
                    .contains(entries@[j].0)),
            forall|i2: int, j2: int| 0 <= i2 < j2 < r@.len() ==> r@[i2] != r@[j2],
        decreases n - i,
    {
        let key = entries[i].0;
        if !previous.contains_key(key.0, key.1) && !key_vec_contains(&r, key.0, key.1) {
            let ghost rold = r@;
            r.push(key);
            proof {
                assert(r@ == rold.push(key));
                assert(r@[rold.len() as int] == key);
                assert(r@.contains(key));
                assert(current@.dom().contains(entries@[i as int].0));
                assert((key.0, key.1) == key);
                assert(!previous@.dom().contains(key));
                assert forall|k: (u8, u8)| rold.contains(k) implies r@.contains(k) by {
                    let idx = choose|idx: int| 0 <= idx < rold.len() && rold[idx] == k;
                    assert(r@[idx] == k);
                }
                assert forall|k: (u8, u8)| r@.contains(k) implies rold.contains(k) || k
                    == key by {
                    let idx = choose|idx: int| 0 <= idx < r@.len() && r@[idx] == k;
                    if idx < rold.len() {
                        assert(rold[idx] == k);
                    }
                }
                assert forall|k: (u8, u8)| r@.contains(k) implies current@.dom().contains(k)
                    && !previous@.dom().contains(k) by {
                    if rold.contains(k) {
                    } else {
                        assert(k == key);
                    }
                }
            }
        }
        i += 1;
    }
    proof {
        assert forall|k: (u8, u8)| current@.dom().contains(k) && !previous@.dom().contains(
            k) implies r@.contains(k) by {
            let j = choose|j: int| 0 <= j < entries@.len() && #[trigger] entries@[j].0 == k;
            assert(r@.contains(entries@[j].0));
        }
    }
    r
}

/// One poll cycle's registry step: reports the keys newly present in
/// `current`, and hands `current` back as the snapshot to store —
/// the stored snapshot is replaced wholesale, whether or not any device
/// was new, so devices that left leave no trace.
pub fn advance_cycle(previous: &Snapshot, current: Snapshot) -> (r: (Vec<(u8, u8)>, Snapshot))
    ensures
        forall|k: (u8, u8)|
            r.0@.contains(k) <==> (current@.dom().contains(k) && !previous@.dom().contains(k)),
        forall|i: int, j: int| 0 <= i < j < r.0@.len() ==> r.0@[i] != r.0@[j],
        r.1@ == current@,
{
    let new_keys = new_device_keys(previous, &current);
    (new_keys, current)
}

/// Whether a key vector already holds this (bus, address) pair.
fn key_vec_contains(v: &Vec<(u8, u8)>, bus: u8, address: u8) -> (r: bool)
    ensures
        r == v@.contains((bus, address)),
{
    let n = v.len();
    let mut i: usize = 0;
    while i < n
        invariant
            i <= n,
            n == v@.len(),
            forall|j: int| 0 <= j < i ==> v@[j] != (bus, address),
        decreases n - i,
    {
        if v[i].0 == bus && v[i].1 == address {
            proof {
                assert(v@[i as int] == (bus, address));
            }
            return true;
        }
        i += 1;
    }
    false
}

} // verus!
