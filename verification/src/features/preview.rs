//! The Companion Canvas preview: the owned dev server's lifecycle.
pub mod dev_server;
pub mod view;
