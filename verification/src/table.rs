//! The device instance table: the mapping from a discovered radio peer to
//! its bound device state.
//!
//! A binding is created on first discovery of a peer carrying a supported
//! vendor identifier, exactly one binding per peer, and lives for the whole
//! session.  `dispatch` routes one advertisement to the bound device; a
//! failed decode or a mismatched vendor identifier is reported and leaves
//! the device's published values untouched.

use vstd::prelude::*;

use crate::govee::{
    Device, DeviceView, GoveeDevice, GoveeError, device_step, fresh_device, from_id_and_name,
    resolve_model,
};

verus! {

/// What became of one advertisement handed to `dispatch`.
#[derive(Clone, Copy, Debug, PartialEq, Eq, Structural)]
pub enum DispatchOutcome {
    /// The payload decoded; the device's sink now holds the new values.
    Updated,
    /// No binding exists for the peer; nothing to update.
    UnknownPeer,
    /// The advertisement's vendor identifier is not the one the peer was
    /// bound under; the advertisement is dropped.
    VendorMismatch,
    /// The payload did not decode; the sink keeps its previous values.
    DecodeFailed,
}

/// The association of one radio peer with its bound device state.
pub struct Binding {
    pub peer_id: u64,
    pub device: Device,
}

spec fn distinct_peers(s: Seq<Binding>) -> bool {
    forall|i: int, j: int| 0 <= i < j < s.len() ==> s[i].peer_id != s[j].peer_id
}

spec fn contains_peer(s: Seq<Binding>, p: u64) -> bool {
    exists|i: int| 0 <= i < s.len() && s[i].peer_id == p
}

spec fn index_of_peer(s: Seq<Binding>, p: u64) -> int {
    choose|i: int| 0 <= i < s.len() && s[i].peer_id == p
}

spec fn peers_map(s: Seq<Binding>) -> Map<u64, DeviceView> {
    Map::new(|p: u64| contains_peer(s, p), |p: u64| s[index_of_peer(s, p)].device.dview())
}

proof fn lemma_index_of(s: Seq<Binding>, p: u64, i: int)
    requires
        distinct_peers(s),
        0 <= i < s.len(),
        s[i].peer_id == p,
    ensures
        contains_peer(s, p),
        index_of_peer(s, p) == i,
        peers_map(s).contains_key(p),
        peers_map(s)[p] == s[i].device.dview(),
{
    assert(contains_peer(s, p)) by {
        assert(0 <= i < s.len() && s[i].peer_id == p);
    }
    let k = index_of_peer(s, p);
    assert(0 <= k < s.len() && s[k].peer_id == p);
    if k < i {
        assert(s[k].peer_id != s[i].peer_id);
    } else if i < k {
        assert(s[i].peer_id != s[k].peer_id);
    }
}

proof fn lemma_no_peer(s: Seq<Binding>, p: u64)
    requires
        forall|i: int| 0 <= i < s.len() ==> s[i].peer_id != p,
    ensures
        !contains_peer(s, p),
        !peers_map(s).contains_key(p),
{
    if contains_peer(s, p) {
        let i = index_of_peer(s, p);
        assert(0 <= i < s.len() && s[i].peer_id == p);
        assert(false);
    }
}

proof fn lemma_push(s: Seq<Binding>, b: Binding)
    requires
        distinct_peers(s),
        !contains_peer(s, b.peer_id),
    ensures
        distinct_peers(s.push(b)),
        peers_map(s.push(b)) == peers_map(s).insert(b.peer_id, b.device.dview()),
{
    let t = s.push(b);
    assert forall|i: int, j: int| 0 <= i < j < t.len() implies t[i].peer_id != t[j].peer_id by {
        assert(t[i] == s[i]);
        if j < s.len() {
            assert(t[j] == s[j]);
        } else {
            assert(t[j] == b);
            if s[i].peer_id == b.peer_id {
                assert(contains_peer(s, b.peer_id)) by {
                    assert(0 <= i < s.len() && s[i].peer_id == b.peer_id);
                }
            }
        }
    }
    let m1 = peers_map(t);
    let m2 = peers_map(s).insert(b.peer_id, b.device.dview());
    assert forall|q: u64| #[trigger] m1.contains_key(q) implies m2.contains_key(q) && m1[q]
        == m2[q] by {
        if q == b.peer_id {
            assert(t[s.len() as int] == b);
            lemma_index_of(t, q, s.len() as int);
        } else {
            let k = index_of_peer(t, q);
            assert(0 <= k < t.len() && t[k].peer_id == q);
            assert(k != s.len());
            assert(t[k] == s[k]);
            lemma_index_of(s, q, k);
            lemma_index_of(t, q, k);
        }
    }
    assert forall|q: u64| #[trigger] m2.contains_key(q) implies m1.contains_key(q) by {
        if q == b.peer_id {
            assert(t[s.len() as int] == b);
            lemma_index_of(t, q, s.len() as int);
        } else {
            let k = index_of_peer(s, q);
            assert(0 <= k < s.len() && s[k].peer_id == q);
            assert(t[k] == s[k]);
            lemma_index_of(t, q, k);
        }
    }
    assert(m1 =~= m2);
}

proof fn lemma_update(s: Seq<Binding>, i: int, b: Binding)
    requires
        distinct_peers(s),
        0 <= i < s.len(),
        b.peer_id == s[i].peer_id,
    ensures
        distinct_peers(s.update(i, b)),
        peers_map(s.update(i, b)) == peers_map(s).insert(b.peer_id, b.device.dview()),
{
    let t = s.update(i, b);
    assert forall|x: int, y: int| 0 <= x < y < t.len() implies t[x].peer_id != t[y].peer_id by {
        assert(t[x].peer_id == s[x].peer_id);
        assert(t[y].peer_id == s[y].peer_id);
    }
    let m1 = peers_map(t);
    let m2 = peers_map(s).insert(b.peer_id, b.device.dview());
    assert forall|q: u64| #[trigger] m1.contains_key(q) implies m2.contains_key(q) && m1[q]
        == m2[q] by {
        if q == b.peer_id {
            assert(t[i] == b);
            lemma_index_of(t, q, i);
            lemma_index_of(s, q, i);
        } else {
            let k = index_of_peer(t, q);
            assert(0 <= k < t.len() && t[k].peer_id == q);
            assert(k != i);
            assert(t[k] == s[k]);
            lemma_index_of(s, q, k);
            lemma_index_of(t, q, k);
        }
    }
    assert forall|q: u64| #[trigger] m2.contains_key(q) implies m1.contains_key(q) by {
        if q == b.peer_id {
            assert(t[i] == b);
            lemma_index_of(t, q, i);
        } else {
            let k = index_of_peer(s, q);
            assert(0 <= k < s.len() && s[k].peer_id == q);
            assert(k != i);
            assert(t[k] == s[k]);
            lemma_index_of(t, q, k);
        }
    }
    assert(m1 =~= m2);
}

proof fn lemma_insert_same(m: Map<u64, DeviceView>, k: u64)
    requires
        m.contains_key(k),
    ensures
        m.insert(k, m[k]) == m,
{
    assert(m.insert(k, m[k]) =~= m);
}

/// The table after an attempt to bind a peer: a new binding with a fresh
/// sink when the vendor identifier resolves and the peer is not yet bound,
/// the table unchanged otherwise.
pub open spec fn spec_bind(m: Map<u64, DeviceView>, p: u64, vendor_id: u16, name: Seq<char>) -> Map<
    u64,
    DeviceView,
> {
    match resolve_model(vendor_id) {
        Some(model) => if m.contains_key(p) {
            m
        } else {
            m.insert(p, fresh_device(vendor_id, model, name))
        },
        None => m,
    }
}

/// The table and outcome after one advertisement is dispatched: an unbound
/// peer is reported and ignored; a bound device makes its step, and only a
/// successful decode changes the table.
pub open spec fn spec_dispatch(
    m: Map<u64, DeviceView>,
    p: u64,
    vendor_id: u16,
    bytes: Seq<u8>,
) -> (Map<u64, DeviceView>, DispatchOutcome) {
    if !m.contains_key(p) {
        (m, DispatchOutcome::UnknownPeer)
    } else {
        let (dv, err) = device_step(m[p], vendor_id, bytes);
        match err {
            None => (m.insert(p, dv), DispatchOutcome::Updated),
            Some(GoveeError::ManufacturerIdMismatch) => (m, DispatchOutcome::VendorMismatch),
            Some(_) => (m, DispatchOutcome::DecodeFailed),
        }
    }
}

/// The device instance table, keyed by session-scoped peer identifier.
///
/// Its mathematical model is the map from each bound peer to the abstract
/// state of its device.
pub struct InstanceTable {
    entries: Vec<Binding>,
}

impl View for InstanceTable {
    type V = Map<u64, DeviceView>;

    closed spec fn view(&self) -> Map<u64, DeviceView> {
        peers_map(self.entries@)
    }
}

fn find_peer(entries: &Vec<Binding>, peer_id: u64) -> (r: Option<usize>)
    ensures
        match r {
            Some(i) => i < entries@.len() && entries@[i as int].peer_id == peer_id,
            None => forall|k: int| 0 <= k < entries@.len() ==> entries@[k].peer_id != peer_id,
        },
{
    let mut i: usize = 0;
    while i < entries.len()
        invariant
            i <= entries@.len(),
            forall|k: int| 0 <= k < i ==> entries@[k].peer_id != peer_id,
        decreases entries@.len() - i,
    {
        if entries[i].peer_id == peer_id {
            return Some(i);
        }
        i = i + 1;
    }
    None
}

impl InstanceTable {
    #[verifier::type_invariant]
    spec fn wf(self) -> bool {
        distinct_peers(self.entries@)
    }

    /// An empty table: no peer is bound.
    pub fn new() -> (t: InstanceTable)
        ensures
            t@ == Map::<u64, DeviceView>::empty(),
    {
        let t = InstanceTable { entries: Vec::new() };
        proof {
            assert(t@ =~= Map::<u64, DeviceView>::empty());
        }
        t
    }

    /// Bind a discovered peer to the model registered for the given vendor
    /// identifier.  Returns whether a new binding was created: binding an
    /// already-bound peer, or an unrecognized vendor identifier, changes
    /// nothing.
    pub fn bind(&mut self, peer_id: u64, vendor_id: u16, name: &str) -> (created: bool)
        ensures
            final (self)@ == spec_bind(old(self)@, peer_id, vendor_id, name@),
            created == (!old(self)@.contains_key(peer_id) && resolve_model(vendor_id) is Some),
    {
        proof {
            use_type_invariant(&*self);
        }
        let mut entries: Vec<Binding> = Vec::new();
        core::mem::swap(&mut entries, &mut self.entries);
        let ghost s0 = entries@;
        let created: bool;
        match find_peer(&entries, peer_id) {
            Some(i) => {
                proof {
                    lemma_index_of(s0, peer_id, i as int);
                }
                created = false;
            },
            None => {
                proof {
                    lemma_no_peer(s0, peer_id);
                }
                match from_id_and_name(&vendor_id, name) {
                    Ok(device) => {
                        let b = Binding { peer_id, device };
                        proof {
                            lemma_push(s0, b);
                        }
                        entries.push(b);
                        created = true;
                    },
                    Err(_) => {
                        created = false;
                    },
                }
            },
        }
        self.entries = entries;
        created
    }

    /// The binding for a peer, if one exists.
    pub fn lookup(&self, peer_id: u64) -> (r: Option<&Binding>)
        ensures
            match r {
                Some(b) => self@.contains_key(peer_id) && b.peer_id == peer_id
                    && b.device.dview() == self@[peer_id],
                None => !self@.contains_key(peer_id),
            },
    {
        proof {
            use_type_invariant(self);
        }
        match find_peer(&self.entries, peer_id) {
            Some(i) => {
                proof {
                    lemma_index_of(self.entries@, peer_id, i as int);
                }
                Some(&self.entries[i])
            },
            None => {
                proof {
                    lemma_no_peer(self.entries@, peer_id);
                }
                None
            },
        }
    }

    /// Route one advertisement to the device bound for the peer.  Only a
    /// successful decode changes the table; every failure leaves the bound
    /// device, its sink values and its counter exactly as they were.
    pub fn dispatch(&mut self, peer_id: u64, vendor_id: u16, bytes: &[u8]) -> (r: DispatchOutcome)
        ensures
            final (self)@ == spec_dispatch(old(self)@, peer_id, vendor_id, bytes@).0,
            r == spec_dispatch(old(self)@, peer_id, vendor_id, bytes@).1,
            r != DispatchOutcome::Updated ==> final (self)@ == old(self)@,
    {
        proof {
            use_type_invariant(&*self);
        }
        let ghost m0 = self@;
        let mut entries: Vec<Binding> = Vec::new();
        core::mem::swap(&mut entries, &mut self.entries);
        let ghost s0 = entries@;
        let r: DispatchOutcome;
        match find_peer(&entries, peer_id) {
            None => {
                proof {
                    lemma_no_peer(s0, peer_id);
                }
                r = DispatchOutcome::UnknownPeer;
            },
            Some(i) => {
                proof {
                    lemma_index_of(s0, peer_id, i as int);
                }
                let b = &mut entries[i];
                let err = b.device.update_metrics_from_mfg_bytes(&vendor_id, bytes);
                proof {
                    lemma_update(s0, i as int, entries@[i as int]);
                    if err is Some {
                        lemma_insert_same(m0, peer_id);
                    }
                }
                r = match err {
                    None => DispatchOutcome::Updated,
                    Some(GoveeError::ManufacturerIdMismatch) => DispatchOutcome::VendorMismatch,
                    Some(_) => DispatchOutcome::DecodeFailed,
                };
            },
        }
        self.entries = entries;
        r
    }
}

} // verus!
