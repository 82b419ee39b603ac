//! The advertisement event router.
//!
//! Each peer is either unbound or bound, and bound is terminal for the
//! session.  A discovery event tries every advertised vendor identifier
//! against the registry and binds the peer on the first match; a peer none
//! of whose identifiers resolve is simply not of interest, which is not an
//! error.  An advertisement event for a bound peer is dispatched with the
//! payload entry matching the vendor identifier the peer was bound under.

use vstd::prelude::*;

use crate::govee::{DeviceView, GoveeDevice, resolve_model, vendor_recognized};
use crate::table::{DispatchOutcome, InstanceTable, spec_bind, spec_dispatch};

verus! {

/// One event from the radio subsystem, with the peer's advertised
/// properties already queried.
pub enum Event {
    /// A peer was discovered; `vendor_ids` holds the vendor identifiers
    /// present in its manufacturer data, in order, and `name` its
    /// best-effort broadcast name.
    DeviceDiscovered { peer_id: u64, vendor_ids: Vec<u16>, name: String },
    /// A manufacturer-data advertisement: one payload per vendor
    /// identifier, in order.
    ManufacturerDataAdvertisement { peer_id: u64, manufacturer_data: Vec<(u16, Vec<u8>)> },
}

/// Mathematical model of an `Event`.
pub ghost enum EventView {
    DeviceDiscovered { peer_id: u64, vendor_ids: Seq<u16>, name: Seq<char> },
    ManufacturerDataAdvertisement { peer_id: u64, manufacturer_data: Seq<(u16, Seq<u8>)> },
}

/// The model of a manufacturer-data list: each payload as a byte sequence.
pub open spec fn data_view(s: Seq<(u16, Vec<u8>)>) -> Seq<(u16, Seq<u8>)> {
    s.map_values(|e: (u16, Vec<u8>)| (e.0, e.1@))
}

impl View for Event {
    type V = EventView;

    open spec fn view(&self) -> EventView {
        match self {
            Event::DeviceDiscovered { peer_id, vendor_ids, name } => EventView::DeviceDiscovered {
                peer_id: *peer_id,
                vendor_ids: vendor_ids@,
                name: name@,
            },
            Event::ManufacturerDataAdvertisement {
                peer_id,
                manufacturer_data,
            } => EventView::ManufacturerDataAdvertisement {
                peer_id: *peer_id,
                manufacturer_data: data_view(manufacturer_data@),
            },
        }
    }
}

/// What the router did with one event.
#[derive(Clone, Copy, Debug, PartialEq, Eq, Structural)]
pub enum RouterOutcome {
    /// A discovery event bound the peer under this vendor identifier.
    Bound(u16),
    /// A discovery event bound nothing: either no advertised vendor
    /// identifier resolves, or the peer was already bound.  Not an error.
    NotBound,
    /// An advertisement event was dispatched with this outcome.
    Dispatched(DispatchOutcome),
}

/// The first advertised vendor identifier that resolves in the registry.
pub open spec fn first_resolvable(vendors: Seq<u16>) -> Option<u16>
    decreases vendors.len(),
{
    if vendors.len() == 0 {
        None
    } else if resolve_model(vendors[0]) is Some {
        Some(vendors[0])
    } else {
        first_resolvable(vendors.drop_first())
    }
}

proof fn lemma_first_resolvable_skip(vendors: Seq<u16>, i: int)
    requires
        0 <= i <= vendors.len(),
        forall|k: int| 0 <= k < i ==> resolve_model(vendors[k]) is None,
    ensures
        first_resolvable(vendors) == first_resolvable(vendors.skip(i)),
    decreases i,
{
    if i > 0 {
        assert(vendors.skip(0) =~= vendors);
        let rest = vendors.drop_first();
        assert forall|k: int| 0 <= k < i - 1 implies resolve_model(rest[k]) is None by {
            assert(rest[k] == vendors[k + 1]);
        }
        lemma_first_resolvable_skip(rest, i - 1);
        assert(rest.skip(i - 1) =~= vendors.skip(i));
    } else {
        assert(vendors.skip(0) =~= vendors);
    }
}

/// The first payload advertised under the given vendor identifier.
pub open spec fn first_match(data: Seq<(u16, Seq<u8>)>, v: u16) -> Option<Seq<u8>>
    decreases data.len(),
{
    if data.len() == 0 {
        None
    } else if data[0].0 == v {
        Some(data[0].1)
    } else {
        first_match(data.drop_first(), v)
    }
}

proof fn lemma_first_match_skip(data: Seq<(u16, Seq<u8>)>, v: u16, i: int)
    requires
        0 <= i <= data.len(),
        forall|k: int| 0 <= k < i ==> data[k].0 != v,
    ensures
        first_match(data, v) == first_match(data.skip(i), v),
    decreases i,
{
    if i > 0 {
        assert(data.skip(0) =~= data);
        let rest = data.drop_first();
        assert forall|k: int| 0 <= k < i - 1 implies rest[k].0 != v by {
            assert(rest[k] == data[k + 1]);
        }
        lemma_first_match_skip(rest, v, i - 1);
        assert(rest.skip(i - 1) =~= data.skip(i));
    } else {
        assert(data.skip(0) =~= data);
    }
}

/// The table and outcome after one discovery event: the peer is bound
/// under the first advertised vendor identifier that resolves, if any and
/// if the peer is not already bound; otherwise nothing changes.
pub open spec fn spec_discover(
    m: Map<u64, DeviceView>,
    p: u64,
    vendors: Seq<u16>,
    name: Seq<char>,
) -> (Map<u64, DeviceView>, RouterOutcome) {
    match first_resolvable(vendors) {
        None => (m, RouterOutcome::NotBound),
        Some(v) => (
            spec_bind(m, p, v, name),
            if m.contains_key(p) {
                RouterOutcome::NotBound
            } else {
                RouterOutcome::Bound(v)
            },
        ),
    }
}

/// The table and outcome after one advertisement event: the payload entry
/// matching the peer's bound vendor identifier is dispatched; an unbound
/// peer, or an advertisement carrying no entry for the bound identifier,
/// changes nothing.
pub open spec fn spec_advertise(
    m: Map<u64, DeviceView>,
    p: u64,
    data: Seq<(u16, Seq<u8>)>,
) -> (Map<u64, DeviceView>, DispatchOutcome) {
    if !m.contains_key(p) {
        (m, DispatchOutcome::UnknownPeer)
    } else {
        match first_match(data, m[p].vendor_id) {
            None => (m, DispatchOutcome::VendorMismatch),
            Some(bytes) => spec_dispatch(m, p, m[p].vendor_id, bytes),
        }
    }
}

/// The router's transition on one event.
pub open spec fn spec_step(m: Map<u64, DeviceView>, e: EventView) -> (Map<u64, DeviceView>,
RouterOutcome) {
    match e {
        EventView::DeviceDiscovered { peer_id, vendor_ids, name } => spec_discover(
            m,
            peer_id,
            vendor_ids,
            name,
        ),
        EventView::ManufacturerDataAdvertisement { peer_id, manufacturer_data } => {
            let (m2, o) = spec_advertise(m, peer_id, manufacturer_data);
            (m2, RouterOutcome::Dispatched(o))
        },
    }
}

/// Handle one discovery event: try every advertised vendor identifier
/// against the registry, in order, and bind the peer on the first match.
pub fn handle_discovery(
    table: &mut InstanceTable,
    peer_id: u64,
    vendor_ids: &Vec<u16>,
    name: &str,
) -> (r: RouterOutcome)
    ensures
        final (table)@ == spec_discover(old(table)@, peer_id, vendor_ids@, name@).0,
        r == spec_discover(old(table)@, peer_id, vendor_ids@, name@).1,
{
    let n = vendor_ids.len();
    let mut i: usize = 0;
    while i < n
        invariant
            n == vendor_ids@.len(),
            i <= n,
            *table == *old(table),
            forall|k: int| 0 <= k < i ==> resolve_model(vendor_ids@[k]) is None,
        decreases n - i,
    {
        let v = vendor_ids[i];
        if vendor_recognized(v) {
            proof {
                lemma_first_resolvable_skip(vendor_ids@, i as int);
                assert(vendor_ids@.skip(i as int)[0] == vendor_ids@[i as int]);
                assert(vendor_ids@.skip(i as int).len() == n - i);
                assert(first_resolvable(vendor_ids@) == Some(v));
            }
            let created = table.bind(peer_id, v, name);
            return if created {
                RouterOutcome::Bound(v)
            } else {
                RouterOutcome::NotBound
            };
        }
        i = i + 1;
    }
    proof {
        lemma_first_resolvable_skip(vendor_ids@, n as int);
        assert(vendor_ids@.skip(n as int) =~= Seq::<u16>::empty());
    }
    RouterOutcome::NotBound
}

/// Handle one advertisement event for a peer: dispatch the payload entry
/// matching the vendor identifier the peer was bound under.
pub fn handle_advertisement(
    table: &mut InstanceTable,
    peer_id: u64,
    manufacturer_data: &Vec<(u16, Vec<u8>)>,
) -> (r: DispatchOutcome)
    ensures
        final (table)@ == spec_advertise(old(table)@, peer_id, data_view(manufacturer_data@)).0,
        r == spec_advertise(old(table)@, peer_id, data_view(manufacturer_data@)).1,
{
    let bound_vendor: u16 = match table.lookup(peer_id) {
        None => {
            return DispatchOutcome::UnknownPeer;
        },
        Some(b) => b.device.vendor_id(),
    };
    let ghost d = data_view(manufacturer_data@);
    let n = manufacturer_data.len();
    let mut i: usize = 0;
    while i < n
        invariant
            n == manufacturer_data@.len(),
            i <= n,
            *table == *old(table),
            old(table)@.contains_key(peer_id),
            bound_vendor == old(table)@[peer_id].vendor_id,
            d == data_view(manufacturer_data@),
            forall|k: int| 0 <= k < i ==> d[k].0 != bound_vendor,
        decreases n - i,
    {
        if manufacturer_data[i].0 == bound_vendor {
            proof {
                let ghost entry = manufacturer_data@[i as int];
                assert(d[i as int] == (entry.0, entry.1@));
                assert(d[i as int].0 == bound_vendor);
                lemma_first_match_skip(d, bound_vendor, i as int);
                assert(d.skip(i as int)[0] == d[i as int]);
                assert(d.skip(i as int).len() == n - i);
                assert(first_match(d, bound_vendor) == Some(d[i as int].1));
            }
            return table.dispatch(peer_id, bound_vendor, &manufacturer_data[i].1);
        }
        proof {
            assert(d[i as int].0 == manufacturer_data@[i as int].0);
        }
        i = i + 1;
    }
    proof {
        lemma_first_match_skip(d, bound_vendor, n as int);
        assert(d.skip(n as int) =~= Seq::<(u16, Seq<u8>)>::empty());
    }
    DispatchOutcome::VendorMismatch
}

/// Drive the router's state machine one event forward.
pub fn handle_event(table: &mut InstanceTable, e: &Event) -> (r: RouterOutcome)
    ensures
        final (table)@ == spec_step(old(table)@, e@).0,
        r == spec_step(old(table)@, e@).1,
{
    match e {
        Event::DeviceDiscovered { peer_id, vendor_ids, name } => handle_discovery(
            table,
            *peer_id,
            vendor_ids,
            name.as_str(),
        ),
        Event::ManufacturerDataAdvertisement { peer_id, manufacturer_data } => {
            RouterOutcome::Dispatched(handle_advertisement(table, *peer_id, manufacturer_data))
        },
    }
}

} // verus!
