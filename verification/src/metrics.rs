//! Measurement records and the per-device metric sink.
//!
//! A `Measurement` is the typed result of decoding one advertisement
//! payload.  A `MetricSink` holds the last successfully decoded values for
//! one bound device, together with a counter of successful updates; it is
//! the externally observable state that the metrics boundary republishes.

use vstd::prelude::*;

verus! {

/// One decoded measurement channel.
///
/// Temperature is stored in tenths of a degree Celsius and humidity in
/// tenths of a percent, so that the decoded values are exact integers; the
/// unverified metrics boundary divides by ten when it republishes them as
/// gauges.
#[derive(Clone, Copy, Debug, PartialEq, Eq, Structural)]
pub struct Reading {
    pub temperature_decicelsius: u16,
    pub humidity_decipercent: u16,
    pub battery_percentage: u8,
}

/// A decoded advertisement, tagged by the device model it came from.
///
/// Each variant carries an ordered sequence of optional sub-readings, so a
/// model with several measurement channels (for example a multi-probe
/// sensor) can report any subset of them in one advertisement.
pub enum Measurement {
    Gvh5075 { channels: Vec<Option<Reading>> },
}

/// Mathematical model of a `Measurement`.
pub ghost enum MeasurementView {
    Gvh5075 { channels: Seq<Option<Reading>> },
}

impl View for Measurement {
    type V = MeasurementView;

    open spec fn view(&self) -> MeasurementView {
        match self {
            Measurement::Gvh5075 { channels } => MeasurementView::Gvh5075 {
                channels: channels@,
            },
        }
    }
}

/// Last-known values and advertisement counter for one bound device.
#[derive(Clone, Copy, Debug, PartialEq, Eq, Structural)]
pub struct MetricSink {
    pub temperature_decicelsius: u16,
    pub humidity_decipercent: u16,
    pub battery_percentage: u8,
    pub advertisements: u64,
}

/// The sink a device starts with: all gauges at zero, no advertisements.
pub open spec fn sink_zero() -> MetricSink {
    MetricSink {
        temperature_decicelsius: 0,
        humidity_decipercent: 0,
        battery_percentage: 0,
        advertisements: 0,
    }
}

/// The advertisement counter after one more successful update: it grows by
/// one and saturates at the largest representable count.
pub open spec fn bump(c: u64) -> u64 {
    if c < u64::MAX {
        (c + 1) as u64
    } else {
        c
    }
}

/// The gauge values after the sub-readings in `channels` have been applied
/// in order: each present reading overwrites all three values, each absent
/// one leaves them as they were.  The counter field is not touched.
pub open spec fn apply_channels(s: MetricSink, channels: Seq<Option<Reading>>) -> MetricSink
    decreases channels.len(),
{
    if channels.len() == 0 {
        s
    } else {
        let rest = apply_channels(s, channels.drop_last());
        match channels.last() {
            Some(r) => MetricSink {
                temperature_decicelsius: r.temperature_decicelsius,
                humidity_decipercent: r.humidity_decipercent,
                battery_percentage: r.battery_percentage,
                advertisements: rest.advertisements,
            },
            None => rest,
        }
    }
}

/// The sink state after one successful update: the measurement's channels
/// are applied and the advertisement counter grows by one.
pub open spec fn sink_update(s: MetricSink, m: MeasurementView) -> MetricSink {
    match m {
        MeasurementView::Gvh5075 { channels } => {
            let t = apply_channels(s, channels);
            MetricSink {
                temperature_decicelsius: t.temperature_decicelsius,
                humidity_decipercent: t.humidity_decipercent,
                battery_percentage: t.battery_percentage,
                advertisements: bump(t.advertisements),
            }
        },
    }
}

/// Applying channels never changes the advertisement counter.
pub proof fn lemma_apply_channels_counter(s: MetricSink, channels: Seq<Option<Reading>>)
    ensures
        apply_channels(s, channels).advertisements == s.advertisements,
    decreases channels.len(),
{
    if channels.len() > 0 {
        lemma_apply_channels_counter(s, channels.drop_last());
    }
}

impl MetricSink {
    /// A fresh sink with all values at zero.
    pub fn new() -> (s: MetricSink)
        ensures
            s == sink_zero(),
    {
        MetricSink {
            temperature_decicelsius: 0,
            humidity_decipercent: 0,
            battery_percentage: 0,
            advertisements: 0,
        }
    }

    /// Overwrite the last-known values with one decoded measurement and
    /// count it.
    pub fn update(&mut self, m: &Measurement)
        ensures
            *final(self) == sink_update(*old(self), m@),
    {
        match m {
            Measurement::Gvh5075 { channels } => {
                let n = channels.len();
                let mut i: usize = 0;
                while i < n
                    invariant
                        n == channels@.len(),
                        i <= n,
                        *self == apply_channels(*old(self), channels@.take(i as int)),
                    decreases n - i,
                {
                    match channels[i] {
                        Some(r) => {
                            self.temperature_decicelsius = r.temperature_decicelsius;
                            self.humidity_decipercent = r.humidity_decipercent;
                            self.battery_percentage = r.battery_percentage;
                        },
                        None => {},
                    }
                    i = i + 1;
                    proof {
                        assert(channels@.take(i as int).drop_last() =~= channels@.take(
                            i as int - 1,
                        ));
                        assert(channels@.take(i as int).last() == channels@[i as int - 1]);
                    }
                }
                proof {
                    assert(channels@.take(n as int) =~= channels@);
                }
                if self.advertisements < u64::MAX {
                    self.advertisements = self.advertisements + 1;
                }
            },
        }
    }
}

} // verus!
