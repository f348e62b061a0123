//! Local authoring of Kindroid persona characters: the verified core.
//!
//! The modules below hold the data types, validation rules, wire-format
//! framing and the decisions of the push / sync / automation flows.
//! The keychain is reached through the `keyring` crate from `security`;
//! the network and the database are driven from outside this crate, which
//! hands plain values in and out.

pub mod ai;
pub mod bytes;
pub mod commands;
pub mod domain;
pub mod error;
pub mod kindroid;
pub mod search;
pub mod security;
pub mod storage;
pub mod text;
