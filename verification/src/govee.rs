//! Device model registry and the per-model device abstraction.
//!
//! Each supported sensor model registers a vendor identifier, a payload
//! decoder and a metric-sink constructor.  `from_id_and_name` is the
//! registry lookup: it recognizes a vendor identifier and constructs the
//! device state a fresh binding starts with.  Adding a model means adding
//! one implementation of `GoveeDevice` and one arm to the registry; the
//! instance table and router are untouched.

pub mod gvh5055;
pub mod gvh5075;

use vstd::prelude::*;

use crate::metrics::MetricSink;

verus! {

/// Everything that can go wrong while handling one advertisement.
#[derive(Clone, Copy, Debug, PartialEq, Eq, Structural)]
pub enum GoveeError {
    /// The payload was present but structurally invalid, or the model has
    /// no implemented layout.  The advertisement is dropped; previously
    /// published values stay.
    DataDecode,
    /// No registered model matches the vendor identifier.  Expected for
    /// irrelevant traffic and ignored silently.
    UnsupportedDevice,
    /// The advertisement's vendor identifier disagrees with the one the
    /// device was bound under.  Reported, never silently repaired.
    ManufacturerIdMismatch,
}

/// The supported device models.
#[derive(Clone, Copy, Debug, PartialEq, Eq, Structural)]
pub enum DeviceModel {
    Gvh5075,
    Gvh5055,
}

/// The human-readable model label, as republished with each metric.
pub open spec fn model_label(m: DeviceModel) -> Seq<char> {
    match m {
        DeviceModel::Gvh5075 => "GVH5075"@,
        DeviceModel::Gvh5055 => "GVH5055"@,
    }
}

/// Mathematical model of one bound device: its identity and its sink.
pub ghost struct DeviceView {
    pub vendor_id: u16,
    pub model: DeviceModel,
    pub name: Seq<char>,
    pub sink: MetricSink,
}

/// One supported sensor model's behaviour: a name, a model label, and the
/// transition its state makes on one advertisement payload.
pub trait GoveeDevice: Sized {
    /// Abstract state of the device.
    spec fn dview(&self) -> DeviceView;

    /// The device's transition on one advertisement: the state after the
    /// payload is handled, and the error reported, if any.
    spec fn step(pre: DeviceView, id: u16, bytes: Seq<u8>) -> (DeviceView, Option<GoveeError>);

    fn get_name(&self) -> (s: String)
        ensures
            s@ == self.dview().name,
    ;

    fn get_model(&self) -> (s: String)
        ensures
            s@ == model_label(self.dview().model),
    ;

    /// Handle one advertisement payload carrying vendor identifier `id`:
    /// on a successful decode the metric sink is overwritten and its
    /// counter grows; on any error the state is left untouched.
    fn update_metrics_from_mfg_bytes(&mut self, id: &u16, bytes: &[u8]) -> (r: Option<
        GoveeError,
    >)
        ensures
            (final (self).dview(), r) == Self::step(old(self).dview(), *id, bytes@),
    ;
}

/// One bound device, of whichever supported model it was discovered as.
pub enum Device {
    Gvh5075(gvh5075::GVH5075),
    Gvh5055(gvh5055::GVH5055),
}

/// The transition a device of the given abstract state makes on one
/// advertisement payload, dispatched by its model.
pub open spec fn device_step(pre: DeviceView, id: u16, bytes: Seq<u8>) -> (DeviceView, Option<
    GoveeError,
>) {
    match pre.model {
        DeviceModel::Gvh5075 => gvh5075::gvh5075_step(pre, id, bytes),
        DeviceModel::Gvh5055 => gvh5055::gvh5055_step(pre, id, bytes),
    }
}

impl GoveeDevice for Device {
    open spec fn dview(&self) -> DeviceView {
        match self {
            Device::Gvh5075(d) => d.dview(),
            Device::Gvh5055(d) => d.dview(),
        }
    }

    open spec fn step(pre: DeviceView, id: u16, bytes: Seq<u8>) -> (DeviceView, Option<
        GoveeError,
    >) {
        device_step(pre, id, bytes)
    }

    fn get_name(&self) -> (s: String) {
        match self {
            Device::Gvh5075(d) => d.get_name(),
            Device::Gvh5055(d) => d.get_name(),
        }
    }

    fn get_model(&self) -> (s: String) {
        match self {
            Device::Gvh5075(d) => d.get_model(),
            Device::Gvh5055(d) => d.get_model(),
        }
    }

    fn update_metrics_from_mfg_bytes(&mut self, id: &u16, bytes: &[u8]) -> (r: Option<
        GoveeError,
    >) {
        match self {
            Device::Gvh5075(d) => d.update_metrics_from_mfg_bytes(id, bytes),
            Device::Gvh5055(d) => d.update_metrics_from_mfg_bytes(id, bytes),
        }
    }
}

impl Device {
    /// The vendor identifier this device was bound under.
    pub fn vendor_id(&self) -> (v: u16)
        ensures
            v == self.dview().vendor_id,
    {
        match self {
            Device::Gvh5075(_) => gvh5075::MANUFACTURER_ID,
            Device::Gvh5055(_) => gvh5055::MANUFACTURER_ID,
        }
    }
}

/// Which model, if any, the registry has for a vendor identifier.
pub open spec fn resolve_model(id: u16) -> Option<DeviceModel> {
    if id == gvh5075::MANUFACTURER_ID {
        Some(DeviceModel::Gvh5075)
    } else if id == gvh5055::MANUFACTURER_ID {
        Some(DeviceModel::Gvh5055)
    } else {
        None
    }
}

/// The abstract state a freshly bound device of the given model starts
/// with: zeroed gauges and a zero advertisement counter.
pub open spec fn fresh_device(vendor: u16, model: DeviceModel, name: Seq<char>) -> DeviceView {
    DeviceView { vendor_id: vendor, model, name, sink: crate::metrics::sink_zero() }
}

/// Every device value is consistent: the vendor identifier in its
/// abstract state is exactly the one the registry resolves to its model.
pub proof fn lemma_device_consistent(d: &Device)
    ensures
        resolve_model(d.dview().vendor_id) == Some(d.dview().model),
{
}

/// Whether some registered model matches a vendor identifier.
pub fn vendor_recognized(id: u16) -> (r: bool)
    ensures
        r == (resolve_model(id) is Some),
{
    id == gvh5075::MANUFACTURER_ID || id == gvh5055::MANUFACTURER_ID
}

/// Registry lookup: construct the device state for a vendor identifier, or
/// report that no registered model matches it.
pub fn from_id_and_name(id: &u16, name: &str) -> (r: Result<Device, GoveeError>)
    ensures
        match resolve_model(*id) {
            Some(m) => r matches Ok(d) && d.dview() == fresh_device(*id, m, name@),
            None => r matches Err(e) && e == GoveeError::UnsupportedDevice,
        },
{
    if *id == gvh5075::MANUFACTURER_ID {
        Ok(Device::Gvh5075(gvh5075::GVH5075::from_name(name)))
    } else if *id == gvh5055::MANUFACTURER_ID {
        Ok(Device::Gvh5055(gvh5055::GVH5055::from_name(name)))
    } else {
        Err(GoveeError::UnsupportedDevice)
    }
}

} // verus!
