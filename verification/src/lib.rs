//! Verified core of a selection assistant.
pub mod api;
pub mod behaviour;
pub mod capture;
pub mod config;
pub mod conversation;
pub mod dav;
pub mod document;
pub mod font;
pub mod form;
pub mod hotkey;
pub mod http;
pub mod ipc;
pub mod json;
pub mod markdown;
pub mod page;
pub mod path;
pub mod pickle;
pub mod secrets;
pub mod text;
pub mod ui;
pub mod win;

use vstd::prelude::*;

verus! {

/// Sole user event: "state changed, drain your queues".
#[derive(Debug)]
pub enum Ev {
    Wake,
}

} // verus!
