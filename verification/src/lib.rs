//! Webview tab manager: creates, reuses, positions, themes and tears down
//! per-tab rendering surfaces, and reports their state back to the front end.
//!
//! The library is the decision core. It owns the registry of surfaces and the
//! lifecycle state machine; the platform layer performs the native effects the
//! commands return and feeds surface callbacks back in as events.

pub mod errors;
pub mod events;
pub mod geometry;
pub mod laws;
pub mod lifecycle;
pub mod registry;
pub mod theme;
pub mod url_check;
