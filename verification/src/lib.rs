//! memo: mount-scoped, policy-controlled file access for humans and agents.
use vstd::prelude::*;

pub mod text;
pub mod errors;
pub mod glob;
pub mod mount;
pub mod path;
pub mod scope;
pub mod token;
pub mod events;
pub mod audit;
pub mod db;
pub mod policy;
pub mod registry;
pub mod auth;
pub mod rows;
pub mod fsops;
pub mod listing;
pub mod search;
pub mod store;
pub mod targets;
pub mod client;
pub mod cli;
pub mod config;
pub mod admin;
pub mod ui;
pub mod present;

verus! {

/// Returns the canonical service name.
pub fn hello_world() -> (name: &'static str)
    ensures
        name@ == "memo"@,
{
    "memo"
}

} // verus!
