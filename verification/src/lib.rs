//! Resource-accounted container lifecycle orchestration.
//!
//! The library ties together credit accounting, exclusive port leasing and a
//! catalog of provisioned containers, and drives an external container
//! runtime through explicit decision functions, so that the accounting
//! invariants hold despite partial failures at any provisioning step.

pub mod auth;
pub mod catalog;
pub mod email;
pub mod errors;
pub mod ledger;
pub mod lifecycle;
pub mod messages;
pub mod ports;
pub mod resources;
pub mod text;

pub use resources::ContainerResources;
