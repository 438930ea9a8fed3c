//! Typed hardware telemetry and deterministic safety for a GPU relay.
//!
//! ```text
//! RawTelemetry  ->  assess()  ->  TelemetryFrame
//!                                   |- SafetyMachine::evaluate()    ->  BrakeIntent
//!                                   |- to_sensory_mapping()         ->  StimulusBatch
//!                                   `- SensoryPublisher::try_publish()  (never on evaluate)
//! ```
//!
//! The library reads no sensor, sends nothing and runs no command; all it takes
//! from outside is the wall clock. Device queries, the privileged power-limit
//! command, metrics export and the supervisor loop belong to the executable,
//! which hands plain values in and takes plain values out.

pub mod binary32;
pub mod gpu;
pub mod metrics;
pub mod publish;
pub mod safety;
pub mod shutdown;
pub mod supervisor;
pub mod telemetry;
pub mod telemetry_csv;
pub mod text;
pub mod time;
