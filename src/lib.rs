//! Update engine of a dynamic DNS client: public address detection with
//! fallback and caching, request signing for the DNS vendors, and the
//! per-domain update decisions of the scheduler.

pub mod ambient;
pub mod dns_updater;
pub mod error;
pub mod ip_detector;
pub mod models;
pub mod providers;
pub mod scheduler;
pub mod signing;
pub mod text;
