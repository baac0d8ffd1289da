//! Numbers that the protocol fixes.

pub mod event_mask;
pub mod event_type;
