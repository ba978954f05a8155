//! The credentials a service authenticates with.

pub mod service_account;
