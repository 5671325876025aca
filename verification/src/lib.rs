//! BrainRoot's provider-neutral core: contract types, provider execution and
//! normalization, credentials, and the conversation and agent-host decisions.
#![allow(unused_imports)]

pub mod text;
pub mod provider;
pub mod json;
pub mod time;
pub mod features;
pub mod health;
