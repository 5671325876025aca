//! The product features built on the provider core.
pub mod conversation;
pub mod agent_host;
pub mod governor;
pub mod human_browser;
pub mod preview;
