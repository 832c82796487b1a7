//! Circle-of-life rotation protocol, verified.

pub mod center;
pub mod rotation;
pub mod rewards;
pub mod distribution;
pub mod views;
pub mod laws;
pub mod peripheral;
pub mod manager;
pub mod records;
pub mod investment;
pub mod interfaces;
