//! Which sensor is asked next, and for what kind of data.

use vstd::prelude::*;

verus! {

/// Possible telemetry data kinds from a sensor.
#[derive(Clone, Copy, Debug, PartialEq, Eq, Structural)]
pub enum SensorVariants {
    AirQuality,
    Environmental,
}

/// The turn-taking order over a list of sensors: each request goes to the
/// sensor after the one that was asked last, and after the last sensor the
/// first one is asked again.
#[derive(Clone, Copy, Debug, PartialEq, Eq, Structural)]
pub struct SensorRotation {
    /// Number of sensors in the list.
    pub count: usize,
    /// Position of the sensor that is asked next.
    pub idx: usize,
}

impl SensorRotation {
    /// The position that is asked next, if there is a sensor there.
    pub open spec fn current(self) -> Option<usize> {
        if self.idx < self.count {
            Some(self.idx)
        } else {
            None
        }
    }

    /// The rotation after a request: past the last sensor it starts over.
    /// Without a sensor at the position nothing moves.
    pub open spec fn advanced(self) -> SensorRotation {
        if self.idx >= self.count {
            self
        } else if self.idx + 1 == self.count {
            SensorRotation { idx: 0, ..self }
        } else {
            SensorRotation { idx: (self.idx + 1) as usize, ..self }
        }
    }

    /// The rotation over an empty list.
    pub fn new() -> (r: SensorRotation)
        ensures
            r == (SensorRotation { count: 0, idx: 0 }),
    {
        SensorRotation { count: 0, idx: 0 }
    }

    /// Counts one more sensor at the end of the list.
    pub fn add(&mut self)
        requires
            old(self).count < usize::MAX,
        ensures
            *final(self) == (SensorRotation { count: (old(self).count + 1) as usize, ..*old(self) }),
    {
        self.count = self.count + 1;
    }

    /// Picks the sensor for the next request and moves on.
    pub fn next_sensor(&mut self) -> (r: Option<usize>)
        ensures
            r == old(self).current(),
            *final(self) == old(self).advanced(),
    {
        if self.idx >= self.count {
            return None;
        }
        let picked = self.idx;
        if self.idx + 1 == self.count {
            self.idx = 0;
        } else {
            self.idx = self.idx + 1;
        }
        Some(picked)
    }

    /// With `count` sensors, `count` requests in a row ask every sensor once
    /// and leave the rotation where it was.
    pub proof fn lemma_full_round(self, steps: nat)
        requires
            self.idx < self.count,
            steps <= self.count,
        ensures
            rotate(self, steps).count == self.count,
            rotate(self, steps).idx == (self.idx + steps) % (self.count as int),
        decreases steps,
    {
        if steps > 0 {
            self.lemma_full_round((steps - 1) as nat);
            let before = rotate(self, (steps - 1) as nat);
            let n = self.count as int;
            let k = self.idx + steps - 1;
            assert(before.idx == k % n);
            if before.idx + 1 == n {
                assert((k + 1) % n == 0) by (nonlinear_arith)
                    requires
                        k % n + 1 == n,
                        n > 0,
                        k >= 0,
                ;
            } else {
                assert((k + 1) % n == k % n + 1) by (nonlinear_arith)
                    requires
                        k % n + 1 < n,
                        n > 0,
                        k >= 0,
                ;
            }
        } else {
            assert(self.idx % self.count == self.idx) by (nonlinear_arith)
                requires
                    0 <= self.idx < self.count,
            ;
        }
    }
}

/// The rotation after `steps` requests.
pub open spec fn rotate(r: SensorRotation, steps: nat) -> SensorRotation
    decreases steps,
{
    if steps == 0 {
        r
    } else {
        rotate(r, (steps - 1) as nat).advanced()
    }
}

} // verus!
