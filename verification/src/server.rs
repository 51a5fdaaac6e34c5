//! The match broker: the single sequential owner of the identity and match
//! registries.
//!
//! Every command (`Connect`, `Disconnect`, `CreateMatch`, `JoinMatch`,
//! `ListMatches`) is executed to completion against the registries before the
//! next one starts; the transport layer funnels all commands from concurrent
//! sessions through one queue into a single broker value, so the methods here
//! need no further synchronization.
//!
//! Match ids are never reused: creating a match picks an id that is not
//! present in the registry (a random token when it is free, otherwise the
//! smallest free small integer, which always exists because the registry is
//! finite).
//!
//! Join policy: a join of an already filled match is last-write-wins — the
//! second slot is overwritten.  Listing returns only the open matches whose
//! creator is still connected, in the order the matches were created.

use vstd::prelude::*;
use std::collections::HashMap;
use crate::model::{ClientMatch, ClientUser, Match, User};

verus! {

broadcast use vstd::std_specs::hash::group_hash_axioms;

/// Registers (or re-registers) the identity `id` under `name`.
#[derive(Clone, Debug, PartialEq)]
pub struct Connect {
    pub id: u128,
    pub name: String,
}

/// Removes the identity `id`; a no-op when the id is already gone.
#[derive(Clone, Copy, Debug, PartialEq)]
pub struct Disconnect {
    pub id: u128,
}

/// Asks for the currently open matches.
#[derive(Clone, Copy, Debug, PartialEq)]
pub struct ListMatches;

/// Opens a new match with `user_id` as its creator.
#[derive(Clone, Copy, Debug, PartialEq)]
pub struct CreateMatch {
    pub user_id: u128,
}

/// Fills the second slot of `match_id` with `user_id`.
#[derive(Clone, Copy, Debug, PartialEq)]
pub struct JoinMatch {
    pub match_id: u128,
    pub user_id: u128,
}

/// Why a `CreateMatch` command was rejected.
#[derive(Clone, Copy, Debug, PartialEq, Eq, Structural)]
pub enum CreateMatchError {
    NoSuchUser,
}

/// Why a `JoinMatch` command was rejected.
#[derive(Clone, Copy, Debug, PartialEq, Eq, Structural)]
pub enum JoinMatchError {
    NoSuchMatch,
    NoSuchUser,
}

/// Some record in `s` carries the id `id`.
pub open spec fn has_match_id(s: Seq<Match>, id: u128) -> bool {
    exists|i: int| 0 <= i < s.len() && s[i].id == id
}

/// No two records in `s` share an id.
pub open spec fn unique_match_ids(s: Seq<Match>) -> bool {
    forall|i: int, j: int| 0 <= i < j < s.len() ==> s[i].id != s[j].id
}

/// A record shows up in a listing: its second slot is open and its creator
/// is still connected.
pub open spec fn listed(m: Match, users: Map<u128, User>) -> bool {
    m.player2 is None && users.contains_key(m.player1)
}

/// The client-facing projection of an open match, with the creator's display
/// name resolved at read time.
pub open spec fn project(m: Match, users: Map<u128, User>) -> ClientMatch {
    ClientMatch { id: m.id, player1: users[m.player1].name, player2: None }
}

/// The listing of `s` against `users`: the projections of the listed records,
/// in registry order.
pub open spec fn spec_list_available(s: Seq<Match>, users: Map<u128, User>) -> Seq<ClientMatch>
    decreases s.len(),
{
    if s.len() == 0 {
        Seq::empty()
    } else {
        let prefix = spec_list_available(s.drop_last(), users);
        if listed(s.last(), users) {
            prefix.push(project(s.last(), users))
        } else {
            prefix
        }
    }
}

/// The broker.  `users` is the identity registry; `matches` is the match
/// registry in creation order.
pub struct TicTacToeServer {
    users: HashMap<u128, User>,
    matches: Vec<Match>,
}

impl TicTacToeServer {
    /// The identity registry as a map from id to identity.
    pub closed spec fn spec_users(&self) -> Map<u128, User> {
        self.users@
    }

    /// The match registry in creation order.
    pub closed spec fn spec_matches(&self) -> Seq<Match> {
        self.matches@
    }

    /// The broker's invariant: match ids are pairwise distinct.
    pub open spec fn wf(&self) -> bool {
        unique_match_ids(self.spec_matches())
    }

    /// A broker with both registries empty.
    pub fn new() -> (s: TicTacToeServer)
        ensures
            s.wf(),
            s.spec_users() == Map::<u128, User>::empty(),
            s.spec_matches() == Seq::<Match>::empty(),
    {
        TicTacToeServer { users: HashMap::new(), matches: Vec::new() }
    }

    /// How many identities are currently connected.
    pub fn user_count(&self) -> (n: usize)
        ensures
            n == self.spec_users().len(),
    {
        self.users.len()
    }

    /// How many match records the registry holds, filled ones included.
    pub fn match_count(&self) -> (n: usize)
        ensures
            n == self.spec_matches().len(),
    {
        self.matches.len()
    }

    /// Registers the identity, overwriting any previous entry under the same
    /// id, and returns the confirmed pair.  Never fails.
    pub fn connect(&mut self, msg: Connect) -> (r: ClientUser)
        ensures
            final(self).spec_users() == old(self).spec_users().insert(
                msg.id,
                User { name: msg.name },
            ),
            final(self).spec_matches() == old(self).spec_matches(),
            r.id == msg.id,
            r.name == msg.name,
    {
        let name_copy = msg.name.clone();
        self.users.insert(msg.id, User { name: name_copy });
        ClientUser { id: msg.id, name: msg.name }
    }

    /// Removes the identity.  An id that is not registered is tolerated as a
    /// no-op: the registries are left exactly as they were.
    pub fn disconnect(&mut self, msg: Disconnect)
        ensures
            final(self).spec_users() == old(self).spec_users().remove(msg.id),
            !old(self).spec_users().contains_key(msg.id) ==> final(self).spec_users()
                == old(self).spec_users(),
            final(self).spec_matches() == old(self).spec_matches(),
    {
        self.users.remove(&msg.id);
        proof {
            if !old(self).spec_users().contains_key(msg.id) {
                assert(old(self).spec_users().remove(msg.id) =~= old(self).spec_users());
            }
        }
    }

    /// Opens a new match for `msg.user_id`.
    ///
    /// Fails with `NoSuchUser` exactly when the creator is not connected;
    /// otherwise appends exactly one record with a previously unused id, the
    /// creator as `player1` and the second slot open, and returns the new id.
    pub fn create_match(&mut self, msg: CreateMatch) -> (r: Result<u128, CreateMatchError>)
        requires
            old(self).wf(),
        ensures
            final(self).wf(),
            final(self).spec_users() == old(self).spec_users(),
            r is Err <==> !old(self).spec_users().contains_key(msg.user_id),
            r is Err ==> r == Err::<u128, CreateMatchError>(CreateMatchError::NoSuchUser)
                && final(self).spec_matches() == old(self).spec_matches(),
            r matches Ok(id) ==> !has_match_id(old(self).spec_matches(), id)
                && final(self).spec_matches() == old(self).spec_matches().push(
                Match { id, player1: msg.user_id, player2: None },
            ),
    {
        if !self.users.contains_key(&msg.user_id) {
            return Err(CreateMatchError::NoSuchUser);
        }
        let seed = new_token();
        let id = fresh_match_id(&self.matches, seed);
        let new_match = Match::new(id, msg.user_id);
        self.matches.push(new_match);
        proof {
            assert forall|i: int, j: int|
                0 <= i < j < final(self).spec_matches().len() implies final(self).spec_matches()[i].id
                != final(self).spec_matches()[j].id by {
                if j < final(self).spec_matches().len() - 1 {
                    assert(old(self).spec_matches()[i].id != old(self).spec_matches()[j].id);
                }
            }
        }
        Ok(id)
    }

    /// Fills the second slot of `msg.match_id` with `msg.user_id`.
    ///
    /// Fails with `NoSuchMatch` exactly when the match id is unknown, and
    /// with `NoSuchUser` exactly when the match exists but the joining
    /// identity is not connected.  On success the record's second slot is set
    /// to the joiner — an already filled slot is overwritten (last write
    /// wins) — and nothing else changes.
    pub fn join_match(&mut self, msg: JoinMatch) -> (r: Result<(), JoinMatchError>)
        requires
            old(self).wf(),
        ensures
            final(self).wf(),
            final(self).spec_users() == old(self).spec_users(),
            r == Err::<(), JoinMatchError>(JoinMatchError::NoSuchMatch) <==> !has_match_id(
                old(self).spec_matches(),
                msg.match_id,
            ),
            r == Err::<(), JoinMatchError>(JoinMatchError::NoSuchUser) <==> (has_match_id(
                old(self).spec_matches(),
                msg.match_id,
            ) && !old(self).spec_users().contains_key(msg.user_id)),
            r is Err ==> final(self).spec_matches() == old(self).spec_matches(),
            r is Ok ==> exists|i: int|
                0 <= i < old(self).spec_matches().len()
                    && old(self).spec_matches()[i].id == msg.match_id && final(self).spec_matches()
                    == old(self).spec_matches().update(
                    i,
                    Match {
                        id: msg.match_id,
                        player1: old(self).spec_matches()[i].player1,
                        player2: Some(msg.user_id),
                    },
                ),
    {
        let idx = match find_match_index(&self.matches, msg.match_id) {
            None => {
                return Err(JoinMatchError::NoSuchMatch);
            },
            Some(i) => i,
        };
        if !self.users.contains_key(&msg.user_id) {
            return Err(JoinMatchError::NoSuchUser);
        }
        let player1 = self.matches[idx].player1;
        self.matches.set(
            idx,
            Match { id: msg.match_id, player1, player2: Some(msg.user_id) },
        );
        proof {
            assert forall|i: int, j: int|
                0 <= i < j < final(self).spec_matches().len() implies final(self).spec_matches()[i].id
                != final(self).spec_matches()[j].id by {
                assert(final(self).spec_matches()[i].id == old(self).spec_matches()[i].id);
                assert(final(self).spec_matches()[j].id == old(self).spec_matches()[j].id);
            }
        }
        Ok(())
    }

    /// Lists the open matches: exactly those whose second slot is open and
    /// whose creator is still connected, projected with the creator's current
    /// display name, in creation order.
    pub fn list_available_matches(&self) -> (r: Vec<ClientMatch>)
        ensures
            r@ == spec_list_available(self.spec_matches(), self.spec_users()),
    {
        let mut out: Vec<ClientMatch> = Vec::new();
        let mut i: usize = 0;
        while i < self.matches.len()
            invariant
                i <= self.matches@.len(),
                out@ == spec_list_available(self.matches@.subrange(0, i as int), self.users@),
            decreases self.matches@.len() - i,
        {
            let m = self.matches[i];
            proof {
                assert(self.matches@.subrange(0, i + 1).drop_last() =~= self.matches@.subrange(
                    0,
                    i as int,
                ));
                assert(self.matches@.subrange(0, i + 1).last() == self.matches@[i as int]);
            }
            match m.player2 {
                None => {
                    match self.users.get(&m.player1) {
                        Some(u) => {
                            out.push(
                                ClientMatch { id: m.id, player1: u.name.clone(), player2: None },
                            );
                        },
                        None => {},
                    }
                },
                Some(_) => {},
            }
            i += 1;
        }
        proof {
            assert(self.matches@.subrange(0, self.matches@.len() as int) =~= self.matches@);
        }
        out
    }
}

/// A random 128-bit token.
///
/// Relies on `uuid::Uuid::new_v4` (a random version-4 UUID) read out through
/// `Uuid::as_u128`.  The result is random, so nothing is promised of it;
/// every caller checks what it needs against the registries.
#[verifier::external_body]
pub(crate) fn new_token() -> u128 {
    uuid::Uuid::new_v4().as_u128()
}

/// The position of the record carrying `id`, if any.
fn find_match_index(matches: &Vec<Match>, id: u128) -> (r: Option<usize>)
    ensures
        match r {
            Some(i) => i < matches@.len() && matches@[i as int].id == id,
            None => !has_match_id(matches@, id),
        },
{
    let mut i: usize = 0;
    while i < matches.len()
        invariant
            i <= matches@.len(),
            forall|j: int| 0 <= j < i ==> matches@[j].id != id,
        decreases matches@.len() - i,
    {
        if matches[i].id == id {
            return Some(i);
        }
        i += 1;
    }
    None
}

/// An id that no record in `matches` carries: the seed when it is free,
/// otherwise the smallest free id among `0 ..= matches.len()`, of which at
/// least one must be free because the registry holds only `matches.len()`
/// records.
fn fresh_match_id(matches: &Vec<Match>, seed: u128) -> (id: u128)
    ensures
        !has_match_id(matches@, id),
{
    if find_match_index(matches, seed).is_none() {
        return seed;
    }
    let bound: u128 = matches.len() as u128;
    let mut j: u128 = 0;
    while j <= bound
        invariant
            bound == matches@.len(),
            bound <= usize::MAX as u128,
            j <= bound + 1,
            forall|t: int| 0 <= t < j ==> #[trigger] has_match_id(matches@, t as u128),
        decreases bound + 1 - j,
    {
        if find_match_index(matches, j).is_none() {
            return j;
        }
        proof {
            assert(matches@[find_match_index_witness(matches@, j)].id == j);
        }
        j += 1;
    }
    proof {
        lemma_match_id_pigeonhole(matches@, (bound + 1) as nat);
        assert(false);
    }
    0
}

/// A witness index for `has_match_id`.
spec fn find_match_index_witness(s: Seq<Match>, id: u128) -> int {
    choose|i: int| 0 <= i < s.len() && s[i].id == id
}

/// A registry in which every id below `n` occurs holds at least `n` records.
proof fn lemma_match_id_pigeonhole(s: Seq<Match>, n: nat)
    requires
        n <= u128::MAX as nat + 1,
        forall|j: int| 0 <= j < n ==> #[trigger] has_match_id(s, j as u128),
    ensures
        s.len() >= n,
    decreases n,
{
    if n > 0 {
        assert(has_match_id(s, (n - 1) as u128));
        let i0 = choose|i: int| 0 <= i < s.len() && s[i].id == (n - 1) as u128;
        let s1 = s.remove(i0);
        assert forall|j: int| 0 <= j < n - 1 implies #[trigger] has_match_id(s1, j as u128) by {
            assert(has_match_id(s, j as u128));
            let i = choose|i: int| 0 <= i < s.len() && s[i].id == j as u128;
            assert(j as u128 != (n - 1) as u128);
            if i < i0 {
                assert(s1[i] == s[i]);
            } else {
                assert(s1[i - 1] == s[i]);
            }
        }
        lemma_match_id_pigeonhole(s1, (n - 1) as nat);
    }
}

/// After a successful connect of `id` under `name`, looking `id` up in the
/// identity registry yields `name`; creating, joining and listing matches
/// leave the identity registry untouched (their contracts say so), and a
/// disconnect of any other id keeps the entry, so the lookup keeps yielding
/// `name` until `id` itself is disconnected.
pub proof fn lemma_connect_lookup_persists(
    users: Map<u128, User>,
    id: u128,
    name: String,
    other: u128,
)
    ensures
        users.insert(id, User { name }).contains_key(id),
        users.insert(id, User { name })[id].name == name,
        other != id ==> users.insert(id, User { name }).remove(other).contains_key(id)
            && users.insert(id, User { name }).remove(other)[id].name == name,
{
}

/// Every view in a listing carries, as `player1`, the display name that the
/// identity registry currently associates with that match's creator — the
/// name is resolved at read time, never cached on the record.
pub proof fn lemma_listing_names_current(s: Seq<Match>, users: Map<u128, User>, j: int)
    requires
        0 <= j < spec_list_available(s, users).len(),
    ensures
        exists|i: int|
            0 <= i < s.len() && (#[trigger] s[i]).id == spec_list_available(s, users)[j].id
                && users.contains_key(s[i].player1) && spec_list_available(s, users)[j].player1
                == users[s[i].player1].name,
{
    lemma_list_available_matches_exact(s, users);
    let i = choose|i: int|
        0 <= i < s.len() && listed(#[trigger] s[i], users) && spec_list_available(s, users)[j]
            == project(s[i], users);
    assert(s[i].id == spec_list_available(s, users)[j].id);
}

/// The listing is exactly the set of projections of the listed records: every
/// open match with a connected creator appears, projected with the creator's
/// current display name, and nothing else does.
pub proof fn lemma_list_available_matches_exact(s: Seq<Match>, users: Map<u128, User>)
    ensures
        forall|i: int|
            0 <= i < s.len() && listed(#[trigger] s[i], users) ==> spec_list_available(
                s,
                users,
            ).contains(project(s[i], users)),
        forall|j: int|
            #![trigger spec_list_available(s, users)[j]]
            0 <= j < spec_list_available(s, users).len() ==> exists|i: int|
                0 <= i < s.len() && listed(#[trigger] s[i], users) && spec_list_available(s, users)[j]
                    == project(s[i], users),
    decreases s.len(),
{
    if s.len() > 0 {
        let t = s.drop_last();
        lemma_list_available_matches_exact(t, users);
        assert forall|i: int|
            0 <= i < s.len() && listed(#[trigger] s[i], users) implies spec_list_available(
            s,
            users,
        ).contains(project(s[i], users)) by {
            if i < s.len() - 1 {
                assert(t[i] == s[i]);
                assert(spec_list_available(t, users).contains(project(t[i], users)));
                let j = choose|j: int|
                    0 <= j < spec_list_available(t, users).len() && spec_list_available(t, users)[j]
                        == project(t[i], users);
                assert(spec_list_available(s, users)[j] == project(s[i], users));
            } else {
                assert(s.last() == s[i]);
                assert(spec_list_available(s, users).last() == project(s[i], users));
            }
        }
        assert forall|j: int|
            #![trigger spec_list_available(s, users)[j]]
            0 <= j < spec_list_available(s, users).len() implies exists|i: int|
            0 <= i < s.len() && listed(#[trigger] s[i], users) && spec_list_available(s, users)[j]
                == project(s[i], users) by {
            let pre = spec_list_available(t, users);
            if j < pre.len() {
                let i = choose|i: int|
                    0 <= i < t.len() && listed(#[trigger] t[i], users) && pre[j] == project(
                        t[i],
                        users,
                    );
                assert(s[i] == t[i]);
                assert(spec_list_available(s, users)[j] == pre[j]);
            } else {
                assert(listed(s.last(), users));
                assert(s[s.len() - 1] == s.last());
                assert(spec_list_available(s, users)[j] == project(s[s.len() - 1], users));
            }
        }
    }
}

} // verus!
