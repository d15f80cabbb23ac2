//! Leader schedule service: what it computes and decides.
pub mod background;
pub mod config;
pub mod constants;
pub mod handlers;
pub mod laws;
pub mod models;
pub mod number;
pub mod page;
pub mod responses;
pub mod rows;
pub mod rpc;
pub mod server;
pub mod state;
pub mod stream;
pub mod table;
pub mod template;
pub mod text;
pub mod util;
pub mod wasm_app;
pub mod web_url;

pub use template::{render_docs, render_index, render_map};

use vstd::prelude::*;

verus! {

/// Stands where the browser build has its entry point.
pub fn wasm_placeholder() {
}

} // verus!
