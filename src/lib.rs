//! Periodic system-status presence: normalises raw system facts into display
//! strings and decides the cadence of the publishing loop.

pub mod text;
pub mod os_identity;
pub mod infos;
pub mod presence;
pub mod schedule;
