//! What holds of the library as a whole.
pub mod bundles;
pub mod catalog;
pub mod credentials;
pub mod dashboard;
pub mod download;
pub mod inspection;
pub mod jobs;
pub mod keys;
pub mod names;
pub mod packages;
pub mod paths;
pub mod preparation;
pub mod queue;
pub mod readiness;
pub mod requests;
pub mod scheduling;
pub mod screens;
pub mod server;
pub mod setup;
pub mod values;
