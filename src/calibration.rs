use vstd::prelude::*;
use std::collections::HashMap;
use crate::config::SensorConfig;

verus! {

broadcast use vstd::std_specs::hash::group_hash_axioms;

/// Scale given to sensors when neither they nor the configuration name one:
/// 0.0078 degrees per raw count, in millionths.
pub const INTERNAL_TEMPERATURE_SCALE: i32 = 7800;

/// Scale of every sensor that names none of its own.
pub open spec fn fallback_scale(global: Option<i32>) -> i32 {
    match global {
        Some(k) => k,
        None => INTERNAL_TEMPERATURE_SCALE,
    }
}

/// Scale of one sensor once resolved.
pub open spec fn scale_of(s: SensorConfig, fallback: i32) -> i32 {
    match s.temperature_scaling {
        Some(k) => k,
        None => fallback,
    }
}

/// The table that the sensor list gives: each id mapped to its resolved
/// scale; where an id is listed twice, the later entry wins.
pub open spec fn resolved_scales(sensors: Seq<SensorConfig>, fallback: i32) -> Map<u16, i32>
    decreases sensors.len(),
{
    if sensors.len() == 0 {
        Map::empty()
    } else {
        resolved_scales(sensors.drop_last(), fallback).insert(
            sensors.last().id,
            scale_of(sensors.last(), fallback),
        )
    }
}

/// Calibration scales by sensor id, in millionths of a degree per raw count.
/// Built once from the configuration, every scale resolved, and not changed
/// afterwards.
#[derive(Debug)]
pub struct CalibrationTable {
    scales: HashMap<u16, i32>,
}

impl View for CalibrationTable {
    type V = Map<u16, i32>;

    closed spec fn view(&self) -> Map<u16, i32> {
        self.scales@
    }
}

impl CalibrationTable {
    /// Resolves every sensor's scale: its own if it names one, else the
    /// global scale, else the built-in default.
    pub fn resolve(global: Option<i32>, sensors: &Vec<SensorConfig>) -> (r: CalibrationTable)
        ensures
            r@ == resolved_scales(sensors@, fallback_scale(global)),
    {
        let fallback: i32 = match global {
            Some(k) => k,
            None => INTERNAL_TEMPERATURE_SCALE,
        };
        let mut scales: HashMap<u16, i32> = HashMap::new();
        let mut i: usize = 0;
        while i < sensors.len()
            invariant
                i <= sensors@.len(),
                fallback == fallback_scale(global),
                scales@ == resolved_scales(sensors@.take(i as int), fallback),
            decreases sensors@.len() - i,
        {
            let s = &sensors[i];
            let k: i32 = match s.temperature_scaling {
                Some(k) => k,
                None => fallback,
            };
            scales.insert(s.id, k);
            proof {
                let next = sensors@.take(i + 1);
                assert(next.drop_last() =~= sensors@.take(i as int));
                assert(next.last() == sensors@[i as int]);
            }
            i = i + 1;
        }
        assert(sensors@.take(sensors@.len() as int) =~= sensors@);
        CalibrationTable { scales }
    }

    /// The scale of `sensor`, if the table has one.
    pub fn scale(&self, sensor: u16) -> (r: Option<i32>)
        ensures
            r == (if self@.contains_key(sensor) {
                Some(self@[sensor])
            } else {
                None::<i32>
            }),
    {
        match self.scales.get(&sensor) {
            Some(k) => Some(*k),
            None => None,
        }
    }
}

} // verus!
