//! Shared data types: match records, identities, and the client-facing
//! projection used when listing open matches.
//!
//! Identity ids and match ids are opaque 128-bit tokens, held here as plain
//! `u128` values.

use vstd::prelude::*;

verus! {

/// The authoritative record of a proposed or ongoing pairing.
///
/// `player1` is set at creation and never changes; `player2` starts absent
/// and is set by a successful join.
#[derive(Clone, Copy, Debug, PartialEq)]
pub struct Match {
    pub id: u128,
    pub player1: u128,
    pub player2: Option<u128>,
}

impl Match {
    /// A fresh record with the second slot open.
    pub fn new(id: u128, player1: u128) -> (m: Match)
        ensures
            m.id == id,
            m.player1 == player1,
            m.player2 is None,
    {
        Match { id, player1, player2: None }
    }
}

/// A connected identity as the registry stores it.  The outbound
/// notification handle for the connection lives with the transport layer,
/// keyed by the same id.
#[derive(Clone, Debug, PartialEq)]
pub struct User {
    pub name: String,
}

/// The confirmed `{id, name}` pair returned to a freshly connected client.
#[derive(Clone, Debug, PartialEq)]
pub struct ClientUser {
    pub id: u128,
    pub name: String,
}

/// The projection of an open match for listing: the creator's display name
/// is resolved at read time, never cached on the record.
#[derive(Clone, Debug, PartialEq)]
pub struct ClientMatch {
    pub id: u128,
    pub player1: String,
    pub player2: Option<String>,
}

} // verus!
