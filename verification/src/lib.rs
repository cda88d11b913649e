//! Telemetry ingestion core of a rocket ground station.
//!
//! Bytes from a serial link are reassembled into MAVLink 2 frames, the sensor
//! fields of the decoded packets are converted to physical units, and the
//! results are kept as time series for display. The crate holds the parts with
//! state and rules; opening ports, reading them and drawing are left to the
//! program that uses it.
//!
//! Quantities that a display shows as decimal numbers are held here as
//! integers: timestamps in milliseconds since the device booted, values in
//! millionths of the unit that the series is labelled with.

pub mod counter;
pub mod units;
pub mod packet;
pub mod data;
pub mod serial_connection;
pub mod frame;
pub mod decoder;
pub mod pipeline;
