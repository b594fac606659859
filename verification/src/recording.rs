//! The recording of one simulation run: a start time and two fixed-length
//! sample sequences, filled index by index with paired timestamps.

use vstd::prelude::*;

use crate::digits::FRAC_DENOM;
use crate::sample::{Acceleration, Gyroscope};

verus! {

/// Samples generated per second.
pub const NUMBER_OF_ENTRIES_PER_SECOND: u32 = 30;

/// Samples per sequence: the rate times a sixty-second run.
pub const NUMBER_OF_ENTRIES_PER_MIN: usize = 30 * 60;

/// Milliseconds a caller should pause between consecutive samples.
pub const SLEEP_MILLISEC: u32 = 1000 / NUMBER_OF_ENTRIES_PER_SECOND;

/// Largest value the wall-clock nanosecond reading can take; readings above
/// 999_999_999 mark a leap second.
pub const MAX_NANOSEC: u32 = 1999999999;

/// One step of simulation input: a timestamp and six axis magnitudes, three
/// for the accelerometer and three for the gyroscope.
#[derive(Clone, Copy, PartialEq, Eq, Structural, Debug)]
pub struct SampleInput {
    pub t: u32,
    pub ax: u32,
    pub ay: u32,
    pub az: u32,
    pub gx: u32,
    pub gy: u32,
    pub gz: u32,
}

impl SampleInput {
    /// All six magnitudes are in range.
    pub open spec fn valid(self) -> bool {
        self.ax < FRAC_DENOM && self.ay < FRAC_DENOM && self.az < FRAC_DENOM && self.gx
            < FRAC_DENOM && self.gy < FRAC_DENOM && self.gz < FRAC_DENOM
    }
}

/// Why a save was refused.
#[derive(Clone, Copy, PartialEq, Eq, Structural, Debug)]
pub enum SaveError {
    /// The target file already exists; it is never overwritten.
    PreexistingFile,
    /// The recording could not be turned into its JSON form.
    SerializationFailure,
    /// The file could not be created or written.
    FileIOFailure,
}

/// Relies on chrono's `Utc::now` and `Timelike::nanosecond`: the nanosecond
/// count within the current wall-clock second, at most `MAX_NANOSEC`.
#[verifier::external_body]
fn now_nanosec() -> (r: u32)
    ensures
        r <= MAX_NANOSEC,
{
    chrono::Timelike::nanosecond(&chrono::Utc::now().time())
}

/// The complete in-memory record of one simulation run.
#[derive(Clone, PartialEq, Eq, Debug)]
pub struct Recording {
    pub start_time: u32,
    pub accelerations: Vec<Acceleration>,
    pub gyroscope_angles: Vec<Gyroscope>,
}

impl Recording {
    /// Both sequences hold exactly `NUMBER_OF_ENTRIES_PER_MIN` samples, each
    /// with in-range magnitudes.
    pub open spec fn wf(self) -> bool {
        &&& self.accelerations@.len() == NUMBER_OF_ENTRIES_PER_MIN
        &&& self.gyroscope_angles@.len() == NUMBER_OF_ENTRIES_PER_MIN
        &&& forall|i: int|
            0 <= i < self.accelerations@.len() ==> (#[trigger] self.accelerations@[i]).valid()
        &&& forall|i: int|
            0 <= i < self.gyroscope_angles@.len() ==> (#[trigger] self.gyroscope_angles@[i]).valid()
    }

    /// Paired sampling: entry `i` of both sequences carries the same timestamp.
    pub open spec fn timestamps_paired(self) -> bool {
        forall|i: int|
            0 <= i < self.accelerations@.len() && i < self.gyroscope_angles@.len() ==> (
            #[trigger] self.accelerations@[i]).t == (#[trigger] self.gyroscope_angles@[i]).t
    }

    /// Timestamps never decrease as the index grows.
    pub open spec fn timestamps_nondecreasing(self) -> bool {
        &&& forall|i: int, j: int|
            0 <= i <= j < self.accelerations@.len() ==> (#[trigger] self.accelerations@[i]).t <= (
            #[trigger] self.accelerations@[j]).t
        &&& forall|i: int, j: int|
            0 <= i <= j < self.gyroscope_angles@.len() ==> (#[trigger] self.gyroscope_angles@[i]).t
                <= (#[trigger] self.gyroscope_angles@[j]).t
    }

    /// A fresh recording: both sequences filled with zeroed samples stamped
    /// with the start time.
    pub fn new(start_time: u32) -> (r: Recording)
        ensures
            r.wf(),
            r.start_time == start_time,
            forall|i: int|
                0 <= i < NUMBER_OF_ENTRIES_PER_MIN ==> #[trigger] r.accelerations@[i] == (
                Acceleration { t: start_time, x: 0, y: 0, z: 0 }),
            forall|i: int|
                0 <= i < NUMBER_OF_ENTRIES_PER_MIN ==> #[trigger] r.gyroscope_angles@[i] == (
                Gyroscope { t: start_time, x: 0, y: 0, z: 0 }),
            r.timestamps_paired(),
            r.timestamps_nondecreasing(),
    {
        let mut accelerations: Vec<Acceleration> = Vec::new();
        let mut gyroscope_angles: Vec<Gyroscope> = Vec::new();
        let mut i: usize = 0;
        while i < NUMBER_OF_ENTRIES_PER_MIN
            invariant
                i <= NUMBER_OF_ENTRIES_PER_MIN,
                accelerations@.len() == i,
                gyroscope_angles@.len() == i,
                forall|k: int|
                    0 <= k < i ==> #[trigger] accelerations@[k] == (Acceleration {
                        t: start_time,
                        x: 0,
                        y: 0,
                        z: 0,
                    }),
                forall|k: int|
                    0 <= k < i ==> #[trigger] gyroscope_angles@[k] == (Gyroscope {
                        t: start_time,
                        x: 0,
                        y: 0,
                        z: 0,
                    }),
            decreases NUMBER_OF_ENTRIES_PER_MIN - i,
        {
            accelerations.push(Acceleration::new(start_time));
            gyroscope_angles.push(Gyroscope::new(start_time));
            i += 1;
        }
        Recording { start_time, accelerations, gyroscope_angles }
    }

    /// A fresh recording whose start time is the wall clock's nanosecond
    /// reading at the moment of the call.
    pub fn start_now() -> (r: Recording)
        ensures
            r.wf(),
            r.start_time <= MAX_NANOSEC,
            r.timestamps_paired(),
            r.timestamps_nondecreasing(),
    {
        let start_time = now_nanosec();
        Recording::new(start_time)
    }

    /// Writes sample `ind` of both sequences: timestamp `t` and the given
    /// magnitudes, the first three for the accelerometer, the last three for
    /// the gyroscope.
    pub fn record_sample_at(&mut self, ind: usize, t: u32, ax: u32, ay: u32, az: u32, gx: u32, gy: u32, gz: u32)
        requires
            old(self).wf(),
            ind < NUMBER_OF_ENTRIES_PER_MIN,
            ax < FRAC_DENOM,
            ay < FRAC_DENOM,
            az < FRAC_DENOM,
            gx < FRAC_DENOM,
            gy < FRAC_DENOM,
            gz < FRAC_DENOM,
        ensures
            final(self).wf(),
            final(self).start_time == old(self).start_time,
            final(self).accelerations@ == old(self).accelerations@.update(
                ind as int,
                Acceleration { t, x: ax, y: ay, z: az },
            ),
            final(self).gyroscope_angles@ == old(self).gyroscope_angles@.update(
                ind as int,
                Gyroscope { t, x: gx, y: gy, z: gz },
            ),
            old(self).timestamps_paired() ==> final(self).timestamps_paired(),
    {
        self.accelerations[ind].save_data(t, ax, ay, az);
        self.gyroscope_angles[ind].save_data(t, gx, gy, gz);
    }

    /// Writes sample `ind` of both sequences with the wall clock's nanosecond
    /// reading, taken once so that both sequences share the same timestamp.
    pub fn record_sample(&mut self, ind: usize, ax: u32, ay: u32, az: u32, gx: u32, gy: u32, gz: u32) -> (t: u32)
        requires
            old(self).wf(),
            ind < NUMBER_OF_ENTRIES_PER_MIN,
            ax < FRAC_DENOM,
            ay < FRAC_DENOM,
            az < FRAC_DENOM,
            gx < FRAC_DENOM,
            gy < FRAC_DENOM,
            gz < FRAC_DENOM,
        ensures
            t <= MAX_NANOSEC,
            final(self).wf(),
            final(self).start_time == old(self).start_time,
            final(self).accelerations@ == old(self).accelerations@.update(
                ind as int,
                Acceleration { t, x: ax, y: ay, z: az },
            ),
            final(self).gyroscope_angles@ == old(self).gyroscope_angles@.update(
                ind as int,
                Gyroscope { t, x: gx, y: gy, z: gz },
            ),
            old(self).timestamps_paired() ==> final(self).timestamps_paired(),
    {
        let t = now_nanosec();
        self.record_sample_at(ind, t, ax, ay, az, gx, gy, gz);
        t
    }

    /// Runs the whole simulation from supplied inputs, one per entry, in
    /// increasing index order. Entry `i` of both sequences gets timestamp
    /// `inputs[i].t`; if the supplied timestamps never decrease, neither do
    /// the recorded ones.
    pub fn simulate_with(&mut self, inputs: &Vec<SampleInput>)
        requires
            old(self).wf(),
            inputs@.len() == NUMBER_OF_ENTRIES_PER_MIN,
            forall|i: int| 0 <= i < inputs@.len() ==> (#[trigger] inputs@[i]).valid(),
        ensures
            final(self).wf(),
            final(self).start_time == old(self).start_time,
            forall|i: int|
                0 <= i < NUMBER_OF_ENTRIES_PER_MIN ==> #[trigger] final(self).accelerations@[i]
                    == (Acceleration {
                    t: inputs@[i].t,
                    x: inputs@[i].ax,
                    y: inputs@[i].ay,
                    z: inputs@[i].az,
                }),
            forall|i: int|
                0 <= i < NUMBER_OF_ENTRIES_PER_MIN ==> #[trigger] final(self).gyroscope_angles@[i]
                    == (Gyroscope {
                    t: inputs@[i].t,
                    x: inputs@[i].gx,
                    y: inputs@[i].gy,
                    z: inputs@[i].gz,
                }),
            final(self).timestamps_paired(),
            (forall|i: int, j: int|
                0 <= i <= j < inputs@.len() ==> (#[trigger] inputs@[i]).t <= (
                #[trigger] inputs@[j]).t) ==> final(self).timestamps_nondecreasing(),
    {
        let mut ind: usize = 0;
        while ind < NUMBER_OF_ENTRIES_PER_MIN
            invariant
                ind <= NUMBER_OF_ENTRIES_PER_MIN,
                self.wf(),
                self.start_time == old(self).start_time,
                inputs@.len() == NUMBER_OF_ENTRIES_PER_MIN,
                forall|i: int| 0 <= i < inputs@.len() ==> (#[trigger] inputs@[i]).valid(),
                forall|i: int|
                    0 <= i < ind ==> #[trigger] self.accelerations@[i] == (Acceleration {
                        t: inputs@[i].t,
                        x: inputs@[i].ax,
                        y: inputs@[i].ay,
                        z: inputs@[i].az,
                    }),
                forall|i: int|
                    0 <= i < ind ==> #[trigger] self.gyroscope_angles@[i] == (Gyroscope {
                        t: inputs@[i].t,
                        x: inputs@[i].gx,
                        y: inputs@[i].gy,
                        z: inputs@[i].gz,
                    }),
            decreases NUMBER_OF_ENTRIES_PER_MIN - ind,
        {
            let inp = inputs[ind];
            self.record_sample_at(ind, inp.t, inp.ax, inp.ay, inp.az, inp.gx, inp.gy, inp.gz);
            ind += 1;
        }
        proof {
            assert forall|i: int|
                0 <= i < self.accelerations@.len() && i
                    < self.gyroscope_angles@.len() implies (#[trigger] self.accelerations@[i]).t
                == (#[trigger] self.gyroscope_angles@[i]).t by {
                assert(self.accelerations@[i].t == inputs@[i].t);
                assert(self.gyroscope_angles@[i].t == inputs@[i].t);
            }
            if forall|i: int, j: int|
                0 <= i <= j < inputs@.len() ==> (#[trigger] inputs@[i]).t <= (
                #[trigger] inputs@[j]).t {
                assert forall|i: int, j: int|
                    0 <= i <= j < self.accelerations@.len() implies (
                #[trigger] self.accelerations@[i]).t <= (#[trigger] self.accelerations@[j]).t by {
                    assert(inputs@[i].t <= inputs@[j].t);
                }
                assert forall|i: int, j: int|
                    0 <= i <= j < self.gyroscope_angles@.len() implies (
                #[trigger] self.gyroscope_angles@[i]).t <= (
                #[trigger] self.gyroscope_angles@[j]).t by {
                    assert(inputs@[i].t <= inputs@[j].t);
                }
            }
        }
    }

    /// Checks well-formedness at run time, so that unverified callers can
    /// test it before relying on it.
    pub fn is_well_formed(&self) -> (r: bool)
        ensures
            r == self.wf(),
    {
        if self.accelerations.len() != NUMBER_OF_ENTRIES_PER_MIN {
            return false;
        }
        if self.gyroscope_angles.len() != NUMBER_OF_ENTRIES_PER_MIN {
            return false;
        }
        let mut i: usize = 0;
        while i < self.accelerations.len()
            invariant
                i <= self.accelerations@.len(),
                forall|k: int| 0 <= k < i ==> (#[trigger] self.accelerations@[k]).valid(),
            decreases self.accelerations@.len() - i,
        {
            let a = self.accelerations[i];
            if !(a.x < FRAC_DENOM && a.y < FRAC_DENOM && a.z < FRAC_DENOM) {
                return false;
            }
            i += 1;
        }
        let mut j: usize = 0;
        while j < self.gyroscope_angles.len()
            invariant
                j <= self.gyroscope_angles@.len(),
                forall|k: int| 0 <= k < j ==> (#[trigger] self.gyroscope_angles@[k]).valid(),
            decreases self.gyroscope_angles@.len() - j,
        {
            let g = self.gyroscope_angles[j];
            if !(g.x < FRAC_DENOM && g.y < FRAC_DENOM && g.z < FRAC_DENOM) {
                return false;
            }
            j += 1;
        }
        true
    }
}

} // verus!
