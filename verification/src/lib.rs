//! Register transport for a multi-sensor module on one shared serial bus.
//!
//! The module carries an accelerometer, a gyroscope and a magnetometer.
//! All three share the bus, but the inertial pair (accelerometer and
//! gyroscope) is co-packaged behind one chip-enable line while the
//! magnetometer has a line of its own.  The transport frames command
//! bytes, scopes every transaction with the right enable line, and
//! reports bus failures and pin-control failures through one error type.

pub mod bus;
pub mod sensor;
pub mod sim;
pub mod transport;
