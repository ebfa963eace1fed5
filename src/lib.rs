//! Controller logic for a single point-to-point encrypted tunnel session:
//! validated parsing of the session parameters, the one-shot token
//! bootstrap, telemetry shaping and the cooperative monitor cadence.
pub mod addr;
pub mod auth;
pub mod telemetry;
pub mod monitor;
pub mod session;
