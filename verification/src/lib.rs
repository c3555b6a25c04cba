//! Client registration and session admission for a tick-based multiplayer
//! server.
//!
//! The crate models the path from an authenticated network connection to a
//! place on the shared player roster: message eligibility checks, the
//! per-tick admission pass that de-duplicates concurrent logins for one
//! account, capacity enforcement, and the roster broadcast that keeps every
//! connected client's player list consistent.

pub mod admission;
pub mod arthropod;
pub mod char_select;
pub mod character;
pub mod laws;
pub mod menu;
pub mod msg;
pub mod roster;
pub mod tick;
pub mod uuid_map;
