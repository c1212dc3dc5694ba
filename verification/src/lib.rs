//! Display-ready encoding of relational query results, and the decision core
//! of a cancellable query executor.
//!
//! A backend column type is identified by its wire-level object id and mapped
//! to a coarse display tag; each raw cell becomes a `(name, tag, value)`
//! triple whose value string is pinned down exactly, null and undecodable
//! cells included. The executor model settles the race between a completing
//! query and a single-slot cancellation signal.

pub mod bytestext;
pub mod encode;
pub mod executor;
pub mod jsonout;
pub mod numtext;
pub mod tags;
pub mod textutil;
