//! The main loop: clock synchronisation, event processing and telemetry.

pub mod clock_sync;
pub mod main_loop;
pub mod telemetry_injector;
pub mod timing;
