//! Generation of systemd units for compressed swap on zram devices.
//!
//! Given the configured devices, the generator decides which unit files,
//! links and directives are needed to create swap on each device at boot.
//! It does not touch the system itself: it asks its host for one thing at a
//! time and goes by the host's response.
//!
//! - [`device`]: the devices to generate for.
//! - [`path`] and [`text`]: paths and numbers as text.
//! - [`units`]: names and text of the unit files.
//! - [`request`] and [`error`]: what the generator asks for, what it is
//!   told, and how it fails.
//! - [`generator`]: the run, request by request.
//! - [`run`], [`full_run`] and [`files`]: what holds of whole runs.

pub mod device;
pub mod error;
pub mod files;
pub mod full_run;
pub mod generator;
pub mod path;
pub mod request;
pub mod run;
pub mod text;
pub mod units;
