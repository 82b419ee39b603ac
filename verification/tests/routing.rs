//! Tests for the registry, the instance table and the event router.

use govee_exporter::govee::{Device, GoveeError, from_id_and_name, gvh5055, gvh5075, vendor_recognized};
use govee_exporter::router::{Event, RouterOutcome, handle_advertisement, handle_discovery, handle_event};
use govee_exporter::table::{DispatchOutcome, InstanceTable};

const GOOD: [u8; 6] = [0, 3, 112, 165, 90, 88];

fn sink_of(table: &InstanceTable, peer: u64) -> govee_exporter::metrics::MetricSink {
    match &table.lookup(peer).expect("peer should be bound").device {
        Device::Gvh5075(d) => d.sink,
        Device::Gvh5055(d) => d.sink,
    }
}

#[test]
fn registry_resolves_known_vendors() {
    assert!(matches!(from_id_and_name(&gvh5075::MANUFACTURER_ID, "a"), Ok(Device::Gvh5075(_))));
    assert!(matches!(from_id_and_name(&gvh5055::MANUFACTURER_ID, "b"), Ok(Device::Gvh5055(_))));
    assert!(matches!(from_id_and_name(&1234, "c"), Err(GoveeError::UnsupportedDevice)));
    assert!(vendor_recognized(gvh5075::MANUFACTURER_ID));
    assert!(vendor_recognized(gvh5055::MANUFACTURER_ID));
    assert!(!vendor_recognized(0));
}

#[test]
fn bind_is_idempotent() {
    let mut table = InstanceTable::new();
    assert!(table.bind(7, gvh5075::MANUFACTURER_ID, "office"));
    // A successful update distinguishes the first-created sink from a fresh one.
    assert_eq!(table.dispatch(7, gvh5075::MANUFACTURER_ID, &GOOD), DispatchOutcome::Updated);
    let before = sink_of(&table, 7);
    assert!(!table.bind(7, gvh5075::MANUFACTURER_ID, "office"));
    // Exactly one binding, and the sink was not reconstructed.
    let after = sink_of(&table, 7);
    assert_eq!(before, after);
    assert_eq!(after.advertisements, 1);
    assert_eq!(after.temperature_decicelsius, 225);
}

#[test]
fn bind_unrecognized_vendor_creates_nothing() {
    let mut table = InstanceTable::new();
    assert!(!table.bind(7, 4242, "mystery"));
    assert!(table.lookup(7).is_none());
}

#[test]
fn dispatch_unknown_peer() {
    let mut table = InstanceTable::new();
    assert_eq!(table.dispatch(9, gvh5075::MANUFACTURER_ID, &GOOD), DispatchOutcome::UnknownPeer);
}

#[test]
fn stale_values_survive_failed_decode() {
    let mut table = InstanceTable::new();
    assert!(table.bind(7, gvh5075::MANUFACTURER_ID, "office"));
    assert_eq!(table.dispatch(7, gvh5075::MANUFACTURER_ID, &GOOD), DispatchOutcome::Updated);
    let before = sink_of(&table, 7);
    assert_eq!(
        table.dispatch(7, gvh5075::MANUFACTURER_ID, &GOOD[..4]),
        DispatchOutcome::DecodeFailed
    );
    let after = sink_of(&table, 7);
    assert_eq!(before, after);
    assert_eq!(after.temperature_decicelsius, 225);
    assert_eq!(after.humidity_decipercent, 445);
    assert_eq!(after.battery_percentage, 90);
    assert_eq!(after.advertisements, 1);
}

#[test]
fn vendor_mismatch_leaves_sink_untouched() {
    let mut table = InstanceTable::new();
    assert!(table.bind(7, gvh5075::MANUFACTURER_ID, "office"));
    assert_eq!(table.dispatch(7, gvh5075::MANUFACTURER_ID, &GOOD), DispatchOutcome::Updated);
    let before = sink_of(&table, 7);
    assert_eq!(
        table.dispatch(7, gvh5055::MANUFACTURER_ID, &GOOD),
        DispatchOutcome::VendorMismatch
    );
    assert_eq!(sink_of(&table, 7), before);
}

#[test]
fn recognized_but_undecodable_model() {
    let mut table = InstanceTable::new();
    assert!(table.bind(3, gvh5055::MANUFACTURER_ID, "porch"));
    assert_eq!(table.dispatch(3, gvh5055::MANUFACTURER_ID, &GOOD), DispatchOutcome::DecodeFailed);
    assert_eq!(sink_of(&table, 3).advertisements, 0);
}

#[test]
fn discovery_binds_first_resolvable_vendor() {
    let mut table = InstanceTable::new();
    let vendors = vec![1, 2, gvh5075::MANUFACTURER_ID, gvh5055::MANUFACTURER_ID];
    assert_eq!(
        handle_discovery(&mut table, 7, &vendors, "office"),
        RouterOutcome::Bound(gvh5075::MANUFACTURER_ID)
    );
    assert!(table.lookup(7).is_some());
    // A repeated discovery binds nothing new.
    assert_eq!(handle_discovery(&mut table, 7, &vendors, "office"), RouterOutcome::NotBound);
}

#[test]
fn unknown_vendor_discovery_is_silent() {
    let mut table = InstanceTable::new();
    let vendors = vec![1, 2, 3];
    assert_eq!(handle_discovery(&mut table, 7, &vendors, "stranger"), RouterOutcome::NotBound);
    assert!(table.lookup(7).is_none());
}

#[test]
fn advertisement_picks_bound_vendor_entry() {
    let mut table = InstanceTable::new();
    assert!(table.bind(7, gvh5075::MANUFACTURER_ID, "office"));
    let data = vec![(1u16, vec![9u8, 9, 9]), (gvh5075::MANUFACTURER_ID, GOOD.to_vec())];
    assert_eq!(handle_advertisement(&mut table, 7, &data), DispatchOutcome::Updated);
    assert_eq!(sink_of(&table, 7).temperature_decicelsius, 225);
}

#[test]
fn advertisement_without_bound_vendor_is_mismatch() {
    let mut table = InstanceTable::new();
    assert!(table.bind(7, gvh5075::MANUFACTURER_ID, "office"));
    let data = vec![(1u16, vec![9u8, 9, 9])];
    assert_eq!(handle_advertisement(&mut table, 7, &data), DispatchOutcome::VendorMismatch);
    assert_eq!(sink_of(&table, 7).advertisements, 0);
}

#[test]
fn counter_counts_updates_exactly() {
    let mut table = InstanceTable::new();
    let events = vec![
        Event::DeviceDiscovered {
            peer_id: 7,
            vendor_ids: vec![gvh5075::MANUFACTURER_ID],
            name: "office".to_string(),
        },
        Event::ManufacturerDataAdvertisement {
            peer_id: 7,
            manufacturer_data: vec![(gvh5075::MANUFACTURER_ID, GOOD.to_vec())],
        },
        Event::ManufacturerDataAdvertisement {
            peer_id: 7,
            manufacturer_data: vec![(gvh5075::MANUFACTURER_ID, GOOD[..3].to_vec())],
        },
        Event::ManufacturerDataAdvertisement {
            peer_id: 7,
            manufacturer_data: vec![(gvh5075::MANUFACTURER_ID, vec![0, 0, 100, 0, 55])],
        },
        Event::ManufacturerDataAdvertisement {
            peer_id: 99,
            manufacturer_data: vec![(gvh5075::MANUFACTURER_ID, GOOD.to_vec())],
        },
    ];
    let mut updates: u64 = 0;
    let mut last_counter: u64 = 0;
    for e in &events {
        let out = handle_event(&mut table, e);
        if out == RouterOutcome::Dispatched(DispatchOutcome::Updated) {
            updates += 1;
        }
        let counter = match table.lookup(7) {
            Some(_) => sink_of(&table, 7).advertisements,
            None => 0,
        };
        // The counter never decreases and always equals the updates seen.
        assert!(counter >= last_counter);
        assert_eq!(counter, updates);
        last_counter = counter;
    }
    assert_eq!(updates, 2);
    assert_eq!(sink_of(&table, 7).advertisements, 2);
}
