//! Verified core of a League of Legends desktop assistant: domain values,
//! input validation, LCU payload mapping, rune and champion-data helpers.

pub mod text;
pub mod domain;
pub mod application;
pub mod lcu;
pub mod champion;
pub mod remote;
pub mod lockfile;
pub mod json;
pub mod runes;
pub mod websocket;
pub mod automation;
pub mod roster;
pub mod gameflow;
pub mod status;
pub mod paths;
pub mod performance;
pub mod overlay;
pub mod hotkey;
