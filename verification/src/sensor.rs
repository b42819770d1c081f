use vstd::prelude::*;

verus! {

/// One of the addressable sub-devices sharing the physical bus.
#[derive(Clone, Copy, PartialEq, Eq, Structural, Debug)]
pub enum Sensor {
    Accelerometer,
    Gyro,
    Magnetometer,
}

/// The fixed mapping from a logical sensor to its enable line.  The
/// accelerometer and the gyroscope are co-packaged on one silicon die and
/// share one enable line; the magnetometer drives the other.  This mapping
/// reflects physical packaging and is not configurable.
pub open spec fn uses_ag_line(sensor: Sensor) -> bool {
    sensor is Accelerometer || sensor is Gyro
}

/// Accelerometer and gyroscope operations always select the shared
/// inertial enable line, and magnetometer operations never do: the two
/// groups can never pick the same line.
pub proof fn lemma_line_mapping()
    ensures
        uses_ag_line(Sensor::Accelerometer),
        uses_ag_line(Sensor::Gyro),
        !uses_ag_line(Sensor::Magnetometer),
{
}

} // verus!
