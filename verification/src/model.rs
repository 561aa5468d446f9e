//! Plain value types shared by the controller modules.

use vstd::prelude::*;

use crate::assoc::{
    assoc_map, keys_unique, lemma_assoc_absent, lemma_assoc_get, lemma_assoc_push, lemma_assoc_update,
};

verus! {

/// Identifier of a device group (the RF group number of a fan chain).
#[derive(Clone, Copy, Debug, PartialEq, Eq, Structural)]
pub struct GroupId(pub u8);

impl GroupId {
    /// Wraps a raw group number.
    pub fn new(v: u8) -> (g: GroupId)
        ensures
            g.0 == v,
    {
        GroupId(v)
    }

    /// The raw group number.
    pub fn value(&self) -> (v: u8)
        ensures
            v == self.0,
    {
        self.0
    }
}

/// A temperature (or load) source.
#[derive(Clone, Copy, Debug, PartialEq, Eq, Structural)]
pub enum Sensor {
    Cpu,
    Gpu,
    GpuHotspot,
    GpuVram,
    GpuPower,
    GpuUsage,
    Water,
    Motherboard { channel: u8 },
    Weighted { cpu_pct: u8, gpu_pct: u8 },
}

/// Latest reading of each sensor, in thousandths of the sensor's unit
/// (milli-degrees Celsius for temperatures).
#[derive(Clone, Debug)]
pub struct SensorReadings {
    pub entries: Vec<(Sensor, i32)>,
}

impl SensorReadings {
    /// The readings as a map.
    pub open spec fn view(&self) -> Map<Sensor, i32> {
        assoc_map(self.entries@)
    }

    pub open spec fn wf(&self) -> bool {
        keys_unique(self.entries@)
    }

    pub fn new() -> (r: SensorReadings)
        ensures
            r.wf(),
            r.view() == Map::<Sensor, i32>::empty(),
    {
        SensorReadings { entries: Vec::new() }
    }

    fn position(&self, sensor: Sensor) -> (r: Option<usize>)
        ensures
            match r {
                Some(i) => i < self.entries@.len() && self.entries@[i as int].0 == sensor,
                None => forall|j: int| 0 <= j < self.entries@.len() ==> (#[trigger] self.entries@[j]).0 != sensor,
            },
    {
        let mut i: usize = 0;
        while i < self.entries.len()
            invariant
                i <= self.entries@.len(),
                forall|j: int| 0 <= j < i ==> (#[trigger] self.entries@[j]).0 != sensor,
            decreases self.entries@.len() - i,
        {
            if self.entries[i].0 == sensor {
                return Some(i);
            }
            i = i + 1;
        }
        None
    }

    /// The latest reading of `sensor`.
    pub fn get(&self, sensor: Sensor) -> (r: Option<i32>)
        requires
            self.wf(),
        ensures
            r == (if self.view().contains_key(sensor) {
                Some(self.view()[sensor])
            } else {
                None::<i32>
            }),
    {
        match self.position(sensor) {
            Some(i) => {
                proof {
                    lemma_assoc_get(self.entries@, i as int);
                }
                Some(self.entries[i].1)
            },
            None => {
                proof {
                    lemma_assoc_absent(self.entries@, sensor);
                }
                None
            },
        }
    }

    /// Records the latest reading of `sensor`.
    pub fn insert(&mut self, sensor: Sensor, value: i32)
        requires
            old(self).wf(),
        ensures
            final(self).wf(),
            final(self).view() == old(self).view().insert(sensor, value),
    {
        let ghost w = self.entries@;
        match self.position(sensor) {
            Some(i) => {
                proof {
                    lemma_assoc_update(w, i as int, value);
                }
                self.entries.set(i, (sensor, value));
            },
            None => {
                self.entries.push((sensor, value));
                proof {
                    lemma_assoc_push(w, sensor, value);
                }
            },
        }
    }
}

/// An RGB colour.
#[derive(Clone, Copy, Debug, PartialEq, Eq, Structural)]
pub struct Rgb {
    pub r: u8,
    pub g: u8,
    pub b: u8,
}

/// Which LED ring of a fan an effect applies to.
#[derive(Clone, Copy, Debug, PartialEq, Eq, Structural)]
pub enum Ring {
    Inner,
    Outer,
    Both,
}

} // verus!
