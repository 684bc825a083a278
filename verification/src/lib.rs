//! A transaction orchestration client for a pair of tiny contracts: a
//! counter and a caller that forwards additions to it.
//!
//! The library holds everything the client decides and computes, verified:
//! the typed contract proxy that encodes operations and decodes results
//! ([`proxy`]), the wire codecs it rests on ([`hex`], [`numeric`]), the
//! fluent transaction builder ([`builder`]), the durable address book with
//! its persistence format ([`address`]), the dispatcher and the ledger
//! model it is verified against ([`ledger`]), and the orchestration façade
//! that composes them ([`client`]). Process plumbing — the command line,
//! wallet loading, the network — stays outside and hands the library plain
//! values.

use vstd::prelude::*;

pub mod address;
pub mod builder;
pub mod cli;
pub mod client;
pub mod hex;
pub mod ledger;
pub mod numeric;
pub mod proxy;

verus! {

} // verus!
