//! The GVH5055-class sensor: a recognized vendor identifier whose payload
//! layout is not implemented.
//!
//! Devices of this model are still bound and given a metric sink, but
//! every decode attempt reports a failure instead of fabricating values,
//! so their gauges never move and their counter stays at zero.

use vstd::prelude::*;

use crate::govee::{DeviceModel, DeviceView, GoveeDevice, GoveeError};
use crate::metrics::{MetricSink, sink_zero};

verus! {

/// Vendor identifier this model advertises under.
pub const MANUFACTURER_ID: u16 = 44566;

/// The decoded status of one advertisement of this model.  No layout is
/// implemented yet, so no value of this type is ever produced.
pub struct DeviceStatus {}

impl DeviceStatus {
    /// Decode one advertisement payload for this model.  The layout is
    /// unknown, so every buffer is reported as a decode failure.
    pub fn from_mfg_data_bytes(_bytes: &[u8]) -> (r: Result<DeviceStatus, GoveeError>)
        ensures
            r matches Err(e) && e == GoveeError::DataDecode,
    {
        Err(GoveeError::DataDecode)
    }
}

/// The transition a device of this model makes on one advertisement: a
/// mismatched vendor identifier is reported as such; everything else is a
/// decode failure.  The state is never changed.
pub open spec fn gvh5055_step(pre: DeviceView, id: u16, bytes: Seq<u8>) -> (DeviceView, Option<
    GoveeError,
>) {
    if id != MANUFACTURER_ID {
        (pre, Some(GoveeError::ManufacturerIdMismatch))
    } else {
        (pre, Some(GoveeError::DataDecode))
    }
}

/// Per-device state for one discovered GVH5055-class sensor.
pub struct GVH5055 {
    pub name: String,
    pub sink: MetricSink,
}

impl GVH5055 {
    /// The state a freshly discovered device of this model starts with.
    pub fn from_name(name: &str) -> (d: GVH5055)
        ensures
            d.dview() == (DeviceView {
                vendor_id: MANUFACTURER_ID,
                model: DeviceModel::Gvh5055,
                name: name@,
                sink: sink_zero(),
            }),
    {
        GVH5055 { name: name.to_owned(), sink: MetricSink::new() }
    }
}

impl GoveeDevice for GVH5055 {
    open spec fn dview(&self) -> DeviceView {
        DeviceView {
            vendor_id: MANUFACTURER_ID,
            model: DeviceModel::Gvh5055,
            name: self.name@,
            sink: self.sink,
        }
    }

    open spec fn step(pre: DeviceView, id: u16, bytes: Seq<u8>) -> (DeviceView, Option<
        GoveeError,
    >) {
        gvh5055_step(pre, id, bytes)
    }

    fn get_name(&self) -> (s: String) {
        self.name.clone()
    }

    fn get_model(&self) -> (s: String) {
        "GVH5055".to_owned()
    }

    fn update_metrics_from_mfg_bytes(&mut self, id: &u16, bytes: &[u8]) -> (r: Option<
        GoveeError,
    >) {
        if *id != MANUFACTURER_ID {
            return Some(GoveeError::ManufacturerIdMismatch);
        }
        match DeviceStatus::from_mfg_data_bytes(bytes) {
            Ok(_) => Some(GoveeError::DataDecode),
            Err(e) => Some(e),
        }
    }
}

} // verus!
