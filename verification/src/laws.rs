//! Laws of the pipeline, stated and proved over the abstract models that
//! the executable functions' contracts are written in.

use vstd::prelude::*;

use crate::govee::{DeviceModel, DeviceView, device_step, gvh5075, resolve_model};
use crate::metrics::lemma_apply_channels_counter;
use crate::router::{EventView, RouterOutcome, first_resolvable, spec_discover, spec_step};
use crate::table::{DispatchOutcome, spec_bind, spec_dispatch};

verus! {

/// Re-discovery is idempotent: binding the same peer a second time, under
/// the same vendor identifier and name, leaves the table exactly as the
/// first bind left it — one binding, with its sink not reconstructed.
pub proof fn lemma_bind_idempotent(
    m: Map<u64, DeviceView>,
    p: u64,
    vendor_id: u16,
    name: Seq<char>,
)
    ensures
        spec_bind(spec_bind(m, p, vendor_id, name), p, vendor_id, name) == spec_bind(
            m,
            p,
            vendor_id,
            name,
        ),
{
}

/// Stale on failure: when a successful update is followed by a failing
/// decode for the same peer, the table — and in particular that peer's
/// sink — is exactly what the successful update left.
pub proof fn lemma_stale_on_failure(
    m: Map<u64, DeviceView>,
    p: u64,
    v1: u16,
    b1: Seq<u8>,
    v2: u16,
    b2: Seq<u8>,
)
    requires
        spec_dispatch(m, p, v1, b1).1 == DispatchOutcome::Updated,
        spec_dispatch(spec_dispatch(m, p, v1, b1).0, p, v2, b2).1 == DispatchOutcome::DecodeFailed,
    ensures
        spec_dispatch(spec_dispatch(m, p, v1, b1).0, p, v2, b2).0 == spec_dispatch(m, p, v1, b1).0,
        spec_dispatch(spec_dispatch(m, p, v1, b1).0, p, v2, b2).0[p].sink == spec_dispatch(
            m,
            p,
            v1,
            b1,
        ).0[p].sink,
{
}

/// Vendor isolation: an advertisement whose vendor identifier is not the
/// one a peer was bound under is reported as a mismatch and leaves the
/// whole table, and so that peer's sink, untouched.
pub proof fn lemma_vendor_isolation(m: Map<u64, DeviceView>, p: u64, v: u16, bytes: Seq<u8>)
    requires
        m.contains_key(p),
        resolve_model(m[p].vendor_id) == Some(m[p].model),
        v != m[p].vendor_id,
    ensures
        spec_dispatch(m, p, v, bytes) == (m, DispatchOutcome::VendorMismatch),
{
}

proof fn lemma_first_resolvable_none(vendors: Seq<u16>)
    requires
        forall|k: int| 0 <= k < vendors.len() ==> resolve_model(vendors[k]) is None,
    ensures
        first_resolvable(vendors) is None,
    decreases vendors.len(),
{
    if vendors.len() > 0 {
        let rest = vendors.drop_first();
        assert forall|k: int| 0 <= k < rest.len() implies resolve_model(rest[k]) is None by {
            assert(rest[k] == vendors[k + 1]);
        }
        lemma_first_resolvable_none(rest);
    }
}

/// Unknown-vendor silence: a discovery event none of whose advertised
/// vendor identifiers resolves in the registry binds nothing and reports
/// nothing — the peer is simply not of interest.
pub proof fn lemma_unknown_vendor_silence(
    m: Map<u64, DeviceView>,
    p: u64,
    vendors: Seq<u16>,
    name: Seq<char>,
)
    requires
        forall|k: int| 0 <= k < vendors.len() ==> resolve_model(vendors[k]) is None,
    ensures
        spec_discover(m, p, vendors, name) == (m, RouterOutcome::NotBound),
{
    lemma_first_resolvable_none(vendors);
}

/// The table after the router has consumed a sequence of events, in order.
pub open spec fn run(m: Map<u64, DeviceView>, events: Seq<EventView>) -> Map<u64, DeviceView>
    decreases events.len(),
{
    if events.len() == 0 {
        m
    } else {
        run(spec_step(m, events[0]).0, events.drop_first())
    }
}

/// The peer an event concerns.
pub open spec fn event_peer(e: EventView) -> u64 {
    match e {
        EventView::DeviceDiscovered { peer_id, .. } => peer_id,
        EventView::ManufacturerDataAdvertisement { peer_id, .. } => peer_id,
    }
}

/// Whether an event, consumed against table `m`, is a successfully
/// dispatched update for peer `p`.
pub open spec fn is_successful_update(m: Map<u64, DeviceView>, e: EventView, p: u64) -> bool {
    event_peer(e) == p && spec_step(m, e).1 == RouterOutcome::Dispatched(DispatchOutcome::Updated)
}

/// How many of the events, consumed in order against table `m`, are
/// successfully dispatched updates for peer `p`.
pub open spec fn updated_count(m: Map<u64, DeviceView>, events: Seq<EventView>, p: u64) -> nat
    decreases events.len(),
{
    if events.len() == 0 {
        0
    } else {
        (if is_successful_update(m, events[0], p) {
            1nat
        } else {
            0nat
        }) + updated_count(spec_step(m, events[0]).0, events.drop_first(), p)
    }
}

/// A peer's advertisement counter, zero while it is unbound.
pub open spec fn counter_of(m: Map<u64, DeviceView>, p: u64) -> u64 {
    if m.contains_key(p) {
        m[p].sink.advertisements
    } else {
        0
    }
}

proof fn lemma_step_counter(m: Map<u64, DeviceView>, e: EventView, p: u64)
    requires
        counter_of(m, p) < u64::MAX,
    ensures
        counter_of(spec_step(m, e).0, p) == counter_of(m, p) + (if is_successful_update(m, e, p) {
            1int
        } else {
            0int
        }),
{
    match e {
        EventView::DeviceDiscovered { .. } => {},
        EventView::ManufacturerDataAdvertisement { peer_id, manufacturer_data } => {
            if m.contains_key(peer_id) {
                let pre = m[peer_id];
                match crate::router::first_match(manufacturer_data, pre.vendor_id) {
                    Some(bytes) => {
                        let (dv, err) = device_step(pre, pre.vendor_id, bytes);
                        if err is None && pre.model is Gvh5075 {
                            lemma_apply_channels_counter(
                                pre.sink,
                                seq![Some(gvh5075::decoded_reading(bytes))],
                            );
                        }
                    },
                    None => {},
                }
            }
        },
    }
}

/// Counter monotonicity: after any sequence of events a peer's
/// advertisement counter equals what it started at plus the number of
/// successfully dispatched updates for that peer, and so it never
/// decreases.  The premise only rules out counter saturation, which no
/// session of fewer events than the counter can hold could ever reach.
pub proof fn lemma_counter_monotonicity(m: Map<u64, DeviceView>, events: Seq<EventView>, p: u64)
    requires
        counter_of(m, p) + events.len() <= u64::MAX,
    ensures
        counter_of(run(m, events), p) == counter_of(m, p) + updated_count(m, events, p),
        counter_of(run(m, events), p) >= counter_of(m, p),
    decreases events.len(),
{
    if events.len() > 0 {
        lemma_step_counter(m, events[0], p);
        lemma_counter_monotonicity(spec_step(m, events[0]).0, events.drop_first(), p);
    }
}

} // verus!
