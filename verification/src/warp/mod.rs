//! Warp terminal integration.
pub mod health;
