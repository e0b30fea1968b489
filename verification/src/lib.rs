//! Bridge between particulate-matter sensor reports and a publish/subscribe
//! bus that follows the Home Assistant discovery convention.
//!
//! The crate holds the decisions of the bridge: which devices and channels
//! have been announced, whether a discovery message has to precede a state
//! message, and what both messages contain. Delivering a message is left to
//! the caller, who reports back whether the delivery succeeded.

pub mod device;
pub mod json;
pub mod catalog;
pub mod discovery;
pub mod registry;
pub mod message;
pub mod bridge;
pub mod trace;
pub mod laws;
