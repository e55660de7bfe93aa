//! Reads the cumulative WAN traffic counter of a router through its web
//! interface: session cookie handling, extraction of the embedded statistics,
//! the login / operation / logout workflow and the metrics line format.

pub mod error;
pub mod json;
pub mod metrics;
pub mod overview;
pub mod router;
pub mod session;
pub mod text;
