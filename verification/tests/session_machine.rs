use tic_tac_toe_server::model::ClientUser;
use tic_tac_toe_server::server::{
    Connect, CreateMatch, Disconnect, JoinMatch, TicTacToeServer,
};
use tic_tac_toe_server::session::{
    BrokerCommand, FrameAction, HeartbeatAction, InboundFrame, SessionState, WsSession,
    CLIENT_TIMEOUT, HEARTBEAT_INTERVAL,
};
use tic_tac_toe_server::wire::{WsDto, WsMessage};

const SID: u128 = 0xabc;

#[test]
fn session_starts_connecting_and_activates_on_confirmation() {
    let mut s = WsSession::new(SID, 0);
    assert_eq!(s.state, SessionState::Connecting);
    let c = s.connect_command("Alice".to_string());
    assert_eq!(c, Connect { id: SID, name: "Alice".to_string() });
    let login = s.on_login_confirmed(ClientUser { id: SID, name: "Alice".to_string() });
    assert_eq!(s.state, SessionState::Active);
    assert!(login.contains("LoginResponse"));
    assert!(login.contains("Alice"));
}

#[test]
fn heartbeat_pings_while_live_and_disconnects_exactly_once_after_timeout() {
    let mut s = WsSession::new(SID, 0);
    assert_eq!(s.heartbeat_tick(HEARTBEAT_INTERVAL), HeartbeatAction::Ping);

    // a pong refreshes the liveness signal
    assert_eq!(s.handle_frame(InboundFrame::Pong, 7), FrameAction::Ignore);
    assert_eq!(s.hb, 7);

    // gap of CLIENT_TIMEOUT is still within bounds
    assert_eq!(s.heartbeat_tick(7 + CLIENT_TIMEOUT), HeartbeatAction::Ping);
    assert_ne!(s.state, SessionState::Stopped);

    // one more time unit and the connection counts as dead
    let a = s.heartbeat_tick(7 + CLIENT_TIMEOUT + 1);
    assert_eq!(a, HeartbeatAction::TimedOut(Disconnect { id: SID }));
    assert_eq!(s.state, SessionState::Stopped);

    // the timeout already delivered the disconnect: teardown adds nothing
    assert_eq!(s.on_stop(), None);
}

#[test]
fn ping_frames_are_answered_and_refresh_liveness() {
    let mut s = WsSession::new(SID, 0);
    let a = s.handle_frame(InboundFrame::Ping(vec![1, 2, 3]), 4);
    assert_eq!(a, FrameAction::Pong(vec![1, 2, 3]));
    assert_eq!(s.hb, 4);
}

#[test]
fn text_frames_decode_to_commands_or_are_dropped() {
    let mut s = WsSession::new(SID, 0);
    let a = s.handle_frame(InboundFrame::Text("{\"type\":\"CreateMatch\"}".to_string()), 1);
    assert_eq!(a, FrameAction::Command(WsDto::CreateMatch));
    let a = s.handle_frame(InboundFrame::Text("not a frame".to_string()), 2);
    assert_eq!(a, FrameAction::Ignore);
    let a = s.handle_frame(InboundFrame::Binary, 3);
    assert_eq!(a, FrameAction::Ignore);
    // neither text nor binary touches the liveness signal
    assert_eq!(s.hb, 0);
}

#[test]
fn close_and_errors_stop_the_session_with_one_disconnect() {
    for frame in [InboundFrame::Close, InboundFrame::Continuation, InboundFrame::ProtocolError] {
        let mut s = WsSession::new(SID, 0);
        assert_eq!(s.handle_frame(frame, 1), FrameAction::Stop);
        assert_eq!(s.on_stop(), Some(Disconnect { id: SID }));
        assert_eq!(s.state, SessionState::Stopped);
        assert_eq!(s.on_stop(), None);
    }
}

#[test]
fn decoded_commands_carry_the_session_identity() {
    let s = WsSession::new(SID, 0);
    assert_eq!(
        s.handle_ws_dto(WsDto::CreateMatch),
        BrokerCommand::NotifyCreateMatch(CreateMatch { user_id: SID }),
    );
    assert_eq!(
        s.handle_ws_dto(WsDto::JoinMatch(0x99)),
        BrokerCommand::NotifyJoinMatch(JoinMatch { match_id: 0x99, user_id: SID }),
    );
    assert!(matches!(s.handle_ws_dto(WsDto::ListMatches), BrokerCommand::AskListMatches(_)));
}

#[test]
fn outbound_ws_messages_are_encoded_request_frames() {
    let s = WsSession::new(SID, 0);
    let text = s.on_ws_message(WsMessage(WsDto::CreateMatch));
    assert_eq!(text, "{\"type\":\"CreateMatch\"}");
}

#[test]
fn full_loop_from_frames_to_broker_and_back() {
    let mut broker = TicTacToeServer::new();

    // two sessions come up and connect under generated names
    let mut s1 = WsSession::new(1, 0);
    let mut s2 = WsSession::new(2, 0);
    let confirmed1 = broker.connect(s1.connect_command("Alice".to_string()));
    let confirmed2 = broker.connect(s2.connect_command("Bob".to_string()));
    s1.on_login_confirmed(confirmed1);
    s2.on_login_confirmed(confirmed2);

    // session 1 asks for a match to be created
    let a = s1.handle_frame(InboundFrame::Text("{\"type\":\"CreateMatch\"}".to_string()), 1);
    let FrameAction::Command(dto) = a else { panic!("expected a command") };
    let BrokerCommand::NotifyCreateMatch(cmd) = s1.handle_ws_dto(dto) else {
        panic!("expected a notify")
    };
    let m1 = broker.create_match(cmd).expect("session 1 is connected");

    // session 2 lists and joins through the wire
    let listing = broker.list_available_matches();
    let reply = s2.on_list_matches_reply(listing);
    assert!(reply.contains("ListMatchesResponse"));
    assert!(reply.contains("Alice"));

    let join_frame = format!(
        "{{\"type\":\"JoinMatch\",\"data\":\"{:032x}\"}}",
        m1,
    );
    let a = s2.handle_frame(InboundFrame::Text(join_frame), 2);
    let FrameAction::Command(dto) = a else { panic!("expected a command") };
    let BrokerCommand::NotifyJoinMatch(cmd) = s2.handle_ws_dto(dto) else {
        panic!("expected a notify")
    };
    assert_eq!(cmd.match_id, m1);
    assert_eq!(broker.join_match(cmd), Ok(()));

    // the lobby is empty again
    assert_eq!(broker.list_available_matches().len(), 0);

    // session 1 goes away; its match was filled, nothing reappears
    assert_eq!(s1.on_stop(), Some(Disconnect { id: 1 }));
    broker.disconnect(Disconnect { id: 1 });
    assert_eq!(broker.list_available_matches().len(), 0);
}
