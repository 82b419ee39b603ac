//! The GVH5075-class temperature and humidity sensor.
//!
//! Payload layout: bytes 1, 2 and 3 form a 24-bit big-endian unsigned
//! integer `E`; the temperature in tenths of a degree Celsius is `E / 1000`
//! (truncating), the humidity in tenths of a percent is `E % 1000`, and the
//! battery percentage is the raw byte at index 4.  A buffer shorter than
//! five bytes is a decode failure.

use vstd::prelude::*;

use crate::govee::{DeviceModel, DeviceView, GoveeDevice, GoveeError};
use crate::metrics::{Measurement, MeasurementView, MetricSink, Reading, sink_update, sink_zero};

verus! {

/// Vendor identifier this model advertises under.
pub const MANUFACTURER_ID: u16 = 60552;

/// The 24-bit big-endian integer formed by payload bytes 1, 2 and 3.
pub open spec fn encoded_value(b: Seq<u8>) -> int {
    b[1] * 0x10000 + b[2] * 0x100 + b[3]
}

/// The reading one well-formed payload decodes to.
pub open spec fn decoded_reading(b: Seq<u8>) -> Reading {
    Reading {
        temperature_decicelsius: (encoded_value(b) / 1000) as u16,
        humidity_decipercent: (encoded_value(b) % 1000) as u16,
        battery_percentage: b[4],
    }
}

/// Decode one advertisement payload for this model.
///
/// Returns the measurement exactly when the buffer has at least five
/// bytes; any shorter buffer is reported as a decode failure, never read
/// out of bounds.
pub fn decode(bytes: &[u8]) -> (r: Result<Measurement, GoveeError>)
    ensures
        bytes@.len() >= 5 ==> (r matches Ok(m) && m@ == (MeasurementView::Gvh5075 {
            channels: seq![Some(decoded_reading(bytes@))],
        })),
        bytes@.len() < 5 ==> (r matches Err(e) && e == GoveeError::DataDecode),
{
    if bytes.len() < 5 {
        return Err(GoveeError::DataDecode);
    }
    let e: u32 = (bytes[1] as u32) * 0x10000 + (bytes[2] as u32) * 0x100 + (bytes[3] as u32);
    proof {
        assert(e / 1000 < 0x10000 && e % 1000 < 1000) by (nonlinear_arith)
            requires
                e < 0x1000000,
        ;
    }
    let reading = Reading {
        temperature_decicelsius: (e / 1000) as u16,
        humidity_decipercent: (e % 1000) as u16,
        battery_percentage: bytes[4],
    };
    let channels: Vec<Option<Reading>> = vec![Some(reading)];
    proof {
        assert(channels@ =~= seq![Some(decoded_reading(bytes@))]);
    }
    Ok(Measurement::Gvh5075 { channels })
}

/// The transition a device of this model makes on one advertisement: a
/// mismatched vendor identifier or a malformed payload leaves the state
/// untouched and reports the error; a well-formed payload overwrites the
/// sink with the decoded reading and counts the advertisement.
pub open spec fn gvh5075_step(pre: DeviceView, id: u16, bytes: Seq<u8>) -> (DeviceView, Option<
    GoveeError,
>) {
    if id != MANUFACTURER_ID {
        (pre, Some(GoveeError::ManufacturerIdMismatch))
    } else if bytes.len() < 5 {
        (pre, Some(GoveeError::DataDecode))
    } else {
        (
            DeviceView {
                sink: sink_update(
                    pre.sink,
                    MeasurementView::Gvh5075 { channels: seq![Some(decoded_reading(bytes))] },
                ),
                ..pre
            },
            None,
        )
    }
}

/// Per-device state for one discovered GVH5075-class sensor.
pub struct GVH5075 {
    pub name: String,
    pub sink: MetricSink,
}

impl GVH5075 {
    /// The state a freshly discovered device of this model starts with.
    pub fn from_name(name: &str) -> (d: GVH5075)
        ensures
            d.dview() == (DeviceView {
                vendor_id: MANUFACTURER_ID,
                model: DeviceModel::Gvh5075,
                name: name@,
                sink: sink_zero(),
            }),
    {
        GVH5075 { name: name.to_owned(), sink: MetricSink::new() }
    }
}

impl GoveeDevice for GVH5075 {
    open spec fn dview(&self) -> DeviceView {
        DeviceView {
            vendor_id: MANUFACTURER_ID,
            model: DeviceModel::Gvh5075,
            name: self.name@,
            sink: self.sink,
        }
    }

    open spec fn step(pre: DeviceView, id: u16, bytes: Seq<u8>) -> (DeviceView, Option<
        GoveeError,
    >) {
        gvh5075_step(pre, id, bytes)
    }

    fn get_name(&self) -> (s: String) {
        self.name.clone()
    }

    fn get_model(&self) -> (s: String) {
        "GVH5075".to_owned()
    }

    fn update_metrics_from_mfg_bytes(&mut self, id: &u16, bytes: &[u8]) -> (r: Option<
        GoveeError,
    >) {
        if *id != MANUFACTURER_ID {
            return Some(GoveeError::ManufacturerIdMismatch);
        }
        match decode(bytes) {
            Ok(m) => {
                self.sink.update(&m);
                None
            },
            Err(e) => Some(e),
        }
    }
}

} // verus!
