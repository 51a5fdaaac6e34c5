use tic_tac_toe_server::server::{
    Connect, CreateMatch, CreateMatchError, Disconnect, JoinMatch, JoinMatchError, TicTacToeServer,
};

const U1: u128 = 0x11;
const U2: u128 = 0x22;

fn broker_with(users: &[(u128, &str)]) -> TicTacToeServer {
    let mut srv = TicTacToeServer::new();
    for (id, name) in users {
        srv.connect(Connect { id: *id, name: (*name).to_string() });
    }
    srv
}

#[test]
fn connect_returns_confirmed_pair() {
    let mut srv = TicTacToeServer::new();
    let confirmed = srv.connect(Connect { id: U1, name: "Alice".to_string() });
    assert_eq!(confirmed.id, U1);
    assert_eq!(confirmed.name, "Alice");
    assert_eq!(srv.user_count(), 1);
}

#[test]
fn create_list_join_scenario() {
    let mut srv = broker_with(&[(U1, "Alice"), (U2, "Bob")]);
    let m1 = srv.create_match(CreateMatch { user_id: U1 }).expect("creator is connected");

    let listing = srv.list_available_matches();
    assert_eq!(listing.len(), 1);
    assert_eq!(listing[0].id, m1);
    assert_eq!(listing[0].player1, "Alice");
    assert!(listing[0].player2.is_none());

    assert_eq!(srv.join_match(JoinMatch { match_id: m1, user_id: U2 }), Ok(()));
    assert_eq!(srv.list_available_matches().len(), 0);
}

#[test]
fn create_match_for_unknown_user_fails_and_changes_nothing() {
    let mut srv = broker_with(&[(U1, "Alice")]);
    let users_before = srv.user_count();
    let matches_before = srv.match_count();
    let r = srv.create_match(CreateMatch { user_id: 0xdead });
    assert_eq!(r, Err(CreateMatchError::NoSuchUser));
    assert_eq!(srv.user_count(), users_before);
    assert_eq!(srv.match_count(), matches_before);
}

#[test]
fn join_unknown_match_fails() {
    let mut srv = broker_with(&[(U1, "Alice"), (U2, "Bob")]);
    let r = srv.join_match(JoinMatch { match_id: 0xdead, user_id: U2 });
    assert_eq!(r, Err(JoinMatchError::NoSuchMatch));
}

#[test]
fn join_by_unknown_user_fails() {
    let mut srv = broker_with(&[(U1, "Alice")]);
    let m1 = srv.create_match(CreateMatch { user_id: U1 }).unwrap();
    let r = srv.join_match(JoinMatch { match_id: m1, user_id: 0xdead });
    assert_eq!(r, Err(JoinMatchError::NoSuchUser));
}

#[test]
fn join_overwrites_second_slot_last_write_wins() {
    let mut srv = broker_with(&[(U1, "Alice"), (U2, "Bob"), (0x33, "Cleo")]);
    let m1 = srv.create_match(CreateMatch { user_id: U1 }).unwrap();
    assert_eq!(srv.join_match(JoinMatch { match_id: m1, user_id: U2 }), Ok(()));
    assert_eq!(srv.join_match(JoinMatch { match_id: m1, user_id: 0x33 }), Ok(()));
    assert_eq!(srv.list_available_matches().len(), 0);
    assert_eq!(srv.match_count(), 1);
}

#[test]
fn disconnect_of_absent_id_is_a_no_op() {
    let mut srv = broker_with(&[(U1, "Alice")]);
    srv.disconnect(Disconnect { id: U1 });
    assert_eq!(srv.user_count(), 0);
    srv.disconnect(Disconnect { id: U1 });
    srv.disconnect(Disconnect { id: 0xdead });
    assert_eq!(srv.user_count(), 0);
}

#[test]
fn listing_drops_matches_of_disconnected_creators() {
    let mut srv = broker_with(&[(U1, "Alice"), (U2, "Bob")]);
    let m1 = srv.create_match(CreateMatch { user_id: U1 }).unwrap();
    let m2 = srv.create_match(CreateMatch { user_id: U2 }).unwrap();
    assert_ne!(m1, m2);
    srv.disconnect(Disconnect { id: U1 });
    let listing = srv.list_available_matches();
    assert_eq!(listing.len(), 1);
    assert_eq!(listing[0].id, m2);
    assert_eq!(listing[0].player1, "Bob");
}

#[test]
fn listing_is_in_creation_order_with_current_names() {
    let mut srv = broker_with(&[(U1, "Alice"), (U2, "Bob")]);
    let m1 = srv.create_match(CreateMatch { user_id: U1 }).unwrap();
    let m2 = srv.create_match(CreateMatch { user_id: U2 }).unwrap();
    // a reconnect under the same id changes the display name
    srv.connect(Connect { id: U1, name: "Alicia".to_string() });
    let listing = srv.list_available_matches();
    assert_eq!(listing.len(), 2);
    assert_eq!(listing[0].id, m1);
    assert_eq!(listing[0].player1, "Alicia");
    assert_eq!(listing[1].id, m2);
    assert_eq!(listing[1].player1, "Bob");
}

#[test]
fn disconnect_removes_identity_for_later_commands() {
    let mut srv = broker_with(&[(U1, "Alice")]);
    srv.disconnect(Disconnect { id: U1 });
    let r = srv.create_match(CreateMatch { user_id: U1 });
    assert_eq!(r, Err(CreateMatchError::NoSuchUser));
}

#[test]
fn created_match_ids_are_pairwise_distinct() {
    let mut srv = broker_with(&[(U1, "Alice")]);
    let mut ids: Vec<u128> = Vec::new();
    for _ in 0..16 {
        ids.push(srv.create_match(CreateMatch { user_id: U1 }).unwrap());
    }
    for a in 0..ids.len() {
        for b in (a + 1)..ids.len() {
            assert_ne!(ids[a], ids[b]);
        }
    }
    assert_eq!(srv.match_count(), 16);
}
