//! crew: the verified core of a crew of role-scoped agents.
use vstd::prelude::*;

pub mod approval;
pub mod approvals;
pub mod base;
pub mod budget;
pub mod card;
pub mod channel;
pub mod client;
pub mod cockpit;
pub mod control;
pub mod config;
pub mod cursor;
pub mod error;
pub mod event;
pub mod id;
pub mod inbox;
pub mod integrate;
pub mod json;
pub mod keys;
pub mod lane;
pub mod model;
pub mod notify;
pub mod number;
pub mod order;
pub mod path;
pub mod paths;
pub mod pause;
pub mod pidfile;
pub mod roe;
pub mod rolemap;
pub mod screen;
pub mod server;
pub mod shim;
pub mod signoff;
pub mod snapshot;
pub mod text;
pub mod time;
pub mod tools;
pub mod up;
pub mod usage;
pub mod watch;

verus! {

} // verus!
