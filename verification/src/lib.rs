//! Request-building, body, auth and display logic of an HTTP API client,
//! with its contracts proved by Verus.
use vstd::prelude::*;

mod outside;
pub mod auth;
pub mod body;
pub mod clipboard;
pub mod code_gen;
pub mod components;
pub mod dialogs;
pub mod display;
pub mod folders;
pub mod headers;
pub mod highlight;
pub mod history;
pub mod json;
pub mod overlay;
pub mod loading;
pub mod percent;
pub mod preview;
pub mod query;
pub mod response_highlight;
pub mod send;
pub mod settings;
pub mod shortcuts;
pub mod tabs;
pub mod text;

verus! {

} // verus!
