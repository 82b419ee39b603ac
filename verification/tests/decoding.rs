//! Tests for the payload decoders and the measurement data model.

use govee_exporter::govee::gvh5055::DeviceStatus;
use govee_exporter::govee::{GoveeDevice, GoveeError, gvh5055, gvh5075};
use govee_exporter::metrics::{Measurement, MetricSink, Reading};

#[test]
fn decode_reference_layout() {
    // bytes [_, 3, 112, 165, 90, 88]: E = 3*65536 + 112*256 + 165 = 225445,
    // so 22.5 degrees Celsius, 44.5 % humidity, battery 90.
    let bytes = [0u8, 3, 112, 165, 90, 88];
    let m = gvh5075::decode(&bytes).unwrap();
    let Measurement::Gvh5075 { channels } = m;
    assert_eq!(channels.len(), 1);
    let r = channels[0].unwrap();
    assert_eq!(r.temperature_decicelsius, 225);
    assert_eq!(r.humidity_decipercent, 445);
    assert_eq!(r.battery_percentage, 90);
    assert_eq!(r.temperature_decicelsius as f64 / 10.0, 22.5);
    assert_eq!(r.humidity_decipercent as f64 / 10.0, 44.5);
}

#[test]
fn decode_exactly_five_bytes() {
    let bytes = [0u8, 3, 112, 165, 90];
    let m = gvh5075::decode(&bytes).unwrap();
    let Measurement::Gvh5075 { channels } = m;
    let r = channels[0].unwrap();
    assert_eq!(r.temperature_decicelsius, 225);
    assert_eq!(r.humidity_decipercent, 445);
    assert_eq!(r.battery_percentage, 90);
}

#[test]
fn decode_short_buffers_fail() {
    let bytes = [0u8, 3, 112, 165, 90];
    for len in 0..=4usize {
        match gvh5075::decode(&bytes[..len]) {
            Err(GoveeError::DataDecode) => {},
            other => panic!("length {} gave {:?}", len, other.map(|_| ())),
        }
    }
}

#[test]
fn decode_extreme_values() {
    // E = 0xFFFFFF = 16777215: temperature 1677.7, humidity 21.5.
    let bytes = [0u8, 255, 255, 255, 100];
    let m = gvh5075::decode(&bytes).unwrap();
    let Measurement::Gvh5075 { channels } = m;
    let r = channels[0].unwrap();
    assert_eq!(r.temperature_decicelsius, 16777);
    assert_eq!(r.humidity_decipercent, 215);
    assert_eq!(r.battery_percentage, 100);
}

#[test]
fn gvh5055_layout_is_unimplemented() {
    // The GVH5055 vendor identifier is recognized, but its layout is not:
    // every decode attempt fails, whatever the buffer holds.
    assert!(matches!(
        DeviceStatus::from_mfg_data_bytes(&[1, 2, 3, 4, 5, 6, 7]),
        Err(GoveeError::DataDecode)
    ));
    assert!(matches!(DeviceStatus::from_mfg_data_bytes(&[]), Err(GoveeError::DataDecode)));
}

#[test]
fn sink_update_applies_channels_in_order() {
    let mut sink = MetricSink::new();
    let r1 = Reading { temperature_decicelsius: 10, humidity_decipercent: 20, battery_percentage: 30 };
    let r2 = Reading { temperature_decicelsius: 40, humidity_decipercent: 50, battery_percentage: 60 };
    let m = Measurement::Gvh5075 { channels: vec![None, Some(r1), Some(r2)] };
    sink.update(&m);
    assert_eq!(sink.temperature_decicelsius, 40);
    assert_eq!(sink.humidity_decipercent, 50);
    assert_eq!(sink.battery_percentage, 60);
    assert_eq!(sink.advertisements, 1);
}

#[test]
fn sink_update_with_absent_channels_keeps_values() {
    let mut sink = MetricSink::new();
    let r1 = Reading { temperature_decicelsius: 11, humidity_decipercent: 22, battery_percentage: 33 };
    sink.update(&Measurement::Gvh5075 { channels: vec![Some(r1)] });
    sink.update(&Measurement::Gvh5075 { channels: vec![None] });
    assert_eq!(sink.temperature_decicelsius, 11);
    assert_eq!(sink.humidity_decipercent, 22);
    assert_eq!(sink.battery_percentage, 33);
    assert_eq!(sink.advertisements, 2);
}

#[test]
fn device_update_rejects_mismatched_vendor() {
    let mut d = gvh5075::GVH5075::from_name("office");
    let good = [0u8, 3, 112, 165, 90, 88];
    assert!(matches!(
        d.update_metrics_from_mfg_bytes(&gvh5055::MANUFACTURER_ID, &good),
        Some(GoveeError::ManufacturerIdMismatch)
    ));
    assert_eq!(d.sink.advertisements, 0);
    assert!(d.update_metrics_from_mfg_bytes(&gvh5075::MANUFACTURER_ID, &good).is_none());
    assert_eq!(d.sink.advertisements, 1);
    assert_eq!(d.sink.temperature_decicelsius, 225);
}

#[test]
fn device_names_and_models() {
    let d = gvh5075::GVH5075::from_name("kitchen");
    assert_eq!(d.get_name(), "kitchen");
    assert_eq!(d.get_model(), "GVH5075");
    let d = gvh5055::GVH5055::from_name("porch");
    assert_eq!(d.get_name(), "porch");
    assert_eq!(d.get_model(), "GVH5055");
}
