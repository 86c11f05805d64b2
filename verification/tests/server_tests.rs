use chatserver::db::DbValue;
use chatserver::connection::{handshake_reply, is_shutdown_command, login_request, HandshakeReply};
use chatserver::protocol::{event_to_packet, packet_to_event, ClientPacket, IpAddress, LoginInfo, ServerEvent, User};
use chatserver::room::{Delivery, Room, RoomStore, Session};
use chatserver::server::{handle_broadcast, handle_pm, Server, UsernameMap};

fn ip() -> IpAddress {
    IpAddress::V4([127, 0, 0, 1])
}

fn user(name: &str, id: usize) -> User {
    User::new(name.to_string(), id)
}

fn server_with_rooms() -> Server {
    let mut server = Server::new();
    server.room_store.add_room_with_id("Global".to_string(), 1);
    server.room_store.add_room_with_id("Private".to_string(), 2);
    server
}

fn message_of(d: &Delivery) -> String {
    match &d.event {
        ServerEvent::Message { contents } => contents.clone(),
        other => panic!("unexpected event {:?}", other),
    }
}

#[test]
fn user_new_starts_in_global() {
    let u = User::new("alice".to_string(), 7);
    assert_eq!(u.username, "alice");
    assert_eq!(u.user_id, 7);
    assert_eq!(u.current_room_name, "Global");
}

#[test]
fn login_info_equality_ignores_password() {
    let a = LoginInfo { username: "bob".to_string(), password: "x".to_string() };
    let b = LoginInfo { username: "bob".to_string(), password: "y".to_string() };
    let c = LoginInfo { username: "carol".to_string(), password: "x".to_string() };
    assert!(a == b);
    assert!(a != c);
}

#[test]
fn packet_to_event_attributes_sender() {
    let u = user("alice", 5);
    match packet_to_event(ClientPacket::PublicMessage { contents: "hi".to_string() }, &u) {
        ServerEvent::ChatMessageReceive { from, contents } => {
            assert_eq!(from, 5);
            assert_eq!(contents, "hi");
        }
        other => panic!("{:?}", other),
    }
    match packet_to_event(ClientPacket::PrivateMessage { to: "bob".to_string(), contents: "yo".to_string() }, &u) {
        ServerEvent::PrivateMessage { to, from, contents } => {
            assert_eq!(to, "bob");
            assert_eq!(from, 5);
            assert_eq!(contents, "yo");
        }
        other => panic!("{:?}", other),
    }
    match packet_to_event(
        ClientPacket::RoomChange { new_room_name: "Private".to_string(), old_room_name: "Global".to_string() },
        &u,
    ) {
        ServerEvent::RoomChange { new_room_name, old_room_name, user_id } => {
            assert_eq!(new_room_name, "Private");
            assert_eq!(old_room_name, "Global");
            assert_eq!(user_id, 5);
        }
        other => panic!("{:?}", other),
    }
    match packet_to_event(ClientPacket::Disconnect, &u) {
        ServerEvent::Error { message } => assert_eq!(message, "Internal server error"),
        other => panic!("{:?}", other),
    }
}

#[test]
fn event_to_packet_converts_messages() {
    match event_to_packet(ServerEvent::Message { contents: "m".to_string() }) {
        ClientPacket::PublicMessage { contents } => assert_eq!(contents, "m"),
        other => panic!("{:?}", other),
    }
    match event_to_packet(ServerEvent::DirectMessageExternal {
        to: "bob".to_string(),
        from: "alice".to_string(),
        contents: "From alice: hi".to_string(),
    }) {
        ClientPacket::PrivateMessage { to, contents } => {
            assert_eq!(to, "bob");
            assert_eq!(contents, "From alice: hi");
        }
        other => panic!("{:?}", other),
    }
    assert!(matches!(event_to_packet(ServerEvent::Shutdown), ClientPacket::Disconnect));
}

#[test]
fn room_sessions_add_and_remove() {
    let mut room = Room::create("Global".to_string(), 3);
    let s = Session::new(ip(), 11, 4);
    assert!(!room.has_session(4));
    assert!(room.add_session(s).is_none());
    assert!(room.has_session(4));
    let again = room.add_session(Session::new(ip(), 12, 4)).unwrap();
    assert_eq!(again.session_info.session_id, 11);
    let removed = room.remove_session(s).unwrap();
    assert_eq!(removed.session_info.session_id, 12);
    assert!(!room.has_session(4));
    assert!(room.remove_session(s).is_none());
}

#[test]
fn room_message_reaches_every_session_once() {
    let mut room = Room::create("Global".to_string(), 3);
    room.add_session(Session::new(ip(), 100, 1));
    room.add_session(Session::new(ip(), 200, 2));
    let deliveries = room.new_message("hello".to_string());
    assert_eq!(room.messages, vec!["hello".to_string()]);
    assert_eq!(deliveries.len(), 2);
    let mut ids: Vec<(usize, usize)> = deliveries.iter().map(|d| (d.user_id, d.session_id)).collect();
    ids.sort();
    assert_eq!(ids, vec![(1, 100), (2, 200)]);
    for d in &deliveries {
        assert_eq!(message_of(d), "hello");
    }
}

#[test]
fn room_store_refuses_duplicates() {
    let mut store = RoomStore::new();
    assert!(store.add_room_with_id("Global".to_string(), 1).is_none());
    assert!(store.add_room_with_id("Global".to_string(), 2).is_none());
    assert!(store.add_room_with_id("Other".to_string(), 1).is_none());
    assert_eq!(store.rooms.len(), 1);
    assert_eq!(store.get_room_from_name(&"Global".to_string()), Some(1));
    assert_eq!(store.get_room_from_name(&"Other".to_string()), None);
    assert!(store.add_room_new("Private".to_string()).is_none());
    assert!(store.get_room_from_name(&"Private".to_string()).is_some());
    let taken = store.take_room(1).unwrap();
    assert_eq!(taken.name, "Global");
    assert_eq!(store.get_room_from_name(&"Global".to_string()), None);
    assert!(store.add_room_existing(taken).is_none());
    let probe = Room::create("anything".to_string(), 1);
    assert_eq!(store.remove_room(probe).unwrap().name, "Global");
}

#[test]
fn random_room_ids_differ() {
    let a = Room::new("a".to_string());
    let b = Room::new("b".to_string());
    let c = Room::new("c".to_string());
    assert!(a.id != b.id || b.id != c.id);
}

#[test]
fn username_map_keeps_latest_id() {
    let mut m = UsernameMap::new();
    assert_eq!(m.insert("alice".to_string(), 1), None);
    assert_eq!(m.insert("bob".to_string(), 2), None);
    assert_eq!(m.insert("alice".to_string(), 3), Some(1));
    assert_eq!(m.get("alice"), Some(3));
    assert_eq!(m.get("bob"), Some(2));
    assert_eq!(m.get("carol"), None);
}

#[test]
fn login_records_session_and_joins_global() {
    let mut server = server_with_rooms();
    let reply = server.login_with_session_id(user("alice", 10), ip(), 77);
    match reply {
        ServerEvent::AuthenticationAccept { user, new_user } => {
            assert_eq!(user.username, "alice");
            assert!(!new_user);
        }
        other => panic!("{:?}", other),
    }
    let s = server.get_session_from_uid(10).unwrap();
    assert_eq!(s.session_info.session_id, 77);
    assert_eq!(s.session_info.uid_connected, 10);
    let s2 = server.get_session_from_username(&"alice".to_string()).unwrap();
    assert_eq!(s2.session_info.session_id, 77);
    assert!(server.get_session_from_username(&"bob".to_string()).is_none());
    assert_eq!(server.user_room_map.get(&10).unwrap(), "Global");
    assert!(server.room_store.rooms.get(&1).unwrap().has_session(10));
}

#[test]
fn login_without_global_room_records_only_session() {
    let mut server = Server::new();
    server.login(user("alice", 10), ip());
    assert!(server.get_session_from_uid(10).is_some());
    assert!(server.user_room_map.get(&10).is_none());
}

#[test]
fn chat_message_broadcast_in_senders_room() {
    let mut server = server_with_rooms();
    server.login_with_session_id(user("alice", 10), ip(), 1);
    server.login_with_session_id(user("bob", 11), ip(), 2);
    let out = server.handle_chat_message(10, "  hello there \n".to_string());
    assert_eq!(out.len(), 2);
    for d in &out {
        assert_eq!(message_of(d), "alice: hello there");
    }
    assert_eq!(server.room_store.rooms.get(&1).unwrap().messages, vec!["alice: hello there".to_string()]);
    assert!(server.handle_chat_message(10, String::new()).is_empty());
    assert!(server.handle_chat_message(99, "x".to_string()).is_empty());
    assert_eq!(server.room_store.rooms.get(&1).unwrap().messages.len(), 1);
}

#[test]
fn broadcast_from_server_identity() {
    let mut room = Room::create("Global".to_string(), 1);
    room.add_session(Session::new(ip(), 5, 2));
    let out = handle_broadcast(&" up ".to_string(), &User::new("Server".to_string(), 0), &mut room);
    assert_eq!(out.len(), 1);
    assert_eq!(message_of(&out[0]), "SERVER: up");
    assert_eq!(room.messages, vec!["SERVER: up".to_string()]);
    assert!(handle_broadcast(&String::new(), &User::new("Server".to_string(), 0), &mut room).is_empty());
    assert_eq!(room.messages.len(), 1);
}

#[test]
fn private_message_reaches_both_parties() {
    let mut server = server_with_rooms();
    server.login_with_session_id(user("alice", 10), ip(), 1);
    server.login_with_session_id(user("bob", 11), ip(), 2);
    let out = server.handle_private_message("bob".to_string(), 10, "psst".to_string());
    assert_eq!(out.len(), 2);
    assert_eq!(out[0].session_id, 2);
    assert_eq!(out[1].session_id, 1);
    match &out[0].event {
        ServerEvent::DirectMessageExternal { to, from, contents } => {
            assert_eq!(to, "bob");
            assert_eq!(from, "alice");
            assert_eq!(contents, "From alice: psst");
        }
        other => panic!("{:?}", other),
    }
    match &out[1].event {
        ServerEvent::DirectMessageExternal { contents, .. } => assert_eq!(contents, "To bob: psst"),
        other => panic!("{:?}", other),
    }
    assert!(server.handle_private_message("nobody".to_string(), 10, "x".to_string()).is_empty());
}

#[test]
fn handle_pm_formats_both_copies() {
    let from = user("ann", 1);
    let out = handle_pm("ben".to_string(), &from, "hey".to_string(), Session::new(ip(), 9, 2), Session::new(ip(), 8, 1));
    assert_eq!(out[0].user_id, 2);
    assert_eq!(out[1].user_id, 1);
}

#[test]
fn room_change_moves_session() {
    let mut server = server_with_rooms();
    server.login_with_session_id(user("alice", 10), ip(), 1);
    server.handle_room_change("Private".to_string(), "Global".to_string(), 10);
    assert!(!server.room_store.rooms.get(&1).unwrap().has_session(10));
    assert!(server.room_store.rooms.get(&2).unwrap().has_session(10));
    assert_eq!(server.user_room_map.get(&10).unwrap(), "Private");
    server.handle_room_change("Global".to_string(), "Global".to_string(), 10);
    assert!(server.room_store.rooms.get(&2).unwrap().has_session(10));
    server.handle_room_change("Nowhere".to_string(), "Private".to_string(), 10);
    assert!(!server.room_store.rooms.get(&2).unwrap().has_session(10));
    assert_eq!(server.user_room_map.get(&10).unwrap(), "Private");
}

#[test]
fn disconnect_tells_the_rest_of_the_room() {
    let mut server = server_with_rooms();
    server.login_with_session_id(user("alice", 10), ip(), 1);
    server.login_with_session_id(user("bob", 11), ip(), 2);
    let out = server.handle_user_disconnected(&user("alice", 10));
    assert_eq!(out.len(), 1);
    assert_eq!(out[0].user_id, 11);
    assert_eq!(message_of(&out[0]), "SERVER: alice has disconnected.");
    assert!(!server.room_store.rooms.get(&1).unwrap().has_session(10));
    assert!(server.get_session_from_uid(10).is_none());
    assert!(server.get_session_from_username(&"alice".to_string()).is_none());
    assert!(server.user_id_map.get(&10).is_none());
    assert!(server.user_room_map.get(&10).is_none());
    assert!(server.get_session_from_uid(11).is_some());
    assert_eq!(
        server.room_store.rooms.get(&1).unwrap().messages,
        vec!["SERVER: alice has disconnected.".to_string()]
    );
}

fn db_row(id: i64, name: &str, password: &str, room: &str) -> Vec<DbValue> {
    vec![
        DbValue::Integer(id),
        DbValue::Text(name.to_string()),
        DbValue::Text(password.to_string()),
        DbValue::Text(room.to_string()),
    ]
}

#[test]
fn login_with_wrong_password_is_refused_and_changes_nothing() {
    let mut server = server_with_rooms();
    let login = LoginInfo { username: "alice".to_string(), password: "wrong".to_string() };
    let rows = vec![db_row(10, "alice", "right", "Global")];
    let reply = server.handle_login_request(&login, &rows, ip(), 5);
    assert!(matches!(reply, Some(ServerEvent::AuthenticationReject { .. })));
    assert!(server.user_id_map.is_empty());
    assert!(server.get_session_from_username(&"alice".to_string()).is_none());
    assert!(!server.room_store.rooms.get(&1).unwrap().has_session(10));
}

#[test]
fn login_with_right_password_is_accepted() {
    let mut server = server_with_rooms();
    let login = LoginInfo { username: "Alice".to_string(), password: "right".to_string() };
    let rows = vec![db_row(12, "alicea", "right", "Global"), db_row(10, "alice", "right", "Global")];
    match server.handle_login_request(&login, &rows, ip(), 5) {
        Some(ServerEvent::AuthenticationAccept { user, new_user }) => {
            assert_eq!(user.user_id, 10);
            assert_eq!(user.username, "alice");
            assert!(!new_user);
        }
        other => panic!("{:?}", other),
    }
    assert_eq!(server.get_session_from_uid(10).unwrap().session_info.session_id, 5);
    assert!(server.room_store.rooms.get(&1).unwrap().has_session(10));
}

#[test]
fn login_of_unknown_user_asks_for_registration() {
    let mut server = server_with_rooms();
    let login = LoginInfo { username: "bob".to_string(), password: "h".to_string() };
    let rows = vec![db_row(1, "bobby", "h", "Global")];
    assert!(server.handle_login_request(&login, &rows, ip(), 5).is_none());
    assert!(server.user_id_map.is_empty());
}

#[test]
fn handle_event_dispatches() {
    let mut server = server_with_rooms();
    server.login_with_session_id(user("alice", 10), ip(), 1);
    let out = server.handle_event(ServerEvent::ChatMessageReceive { from: 10, contents: "x".to_string() });
    assert_eq!(out.deliveries.len(), 1);
    assert!(!out.shutdown);
    let out = server.handle_event(ServerEvent::Shutdown);
    assert!(out.shutdown);
    assert!(out.deliveries.is_empty());
    let out = server.handle_event(ServerEvent::Message { contents: "ignored".to_string() });
    assert!(out.deliveries.is_empty());
    let out = server.handle_event(ServerEvent::RoomChange {
        new_room_name: "Private".to_string(),
        old_room_name: "Global".to_string(),
        user_id: 10,
    });
    assert!(out.deliveries.is_empty());
    assert_eq!(server.user_room_map.get(&10).unwrap(), "Private");
}

#[test]
fn handshake_steps() {
    match login_request(ClientPacket::LoginRequestPacket { username: "u".to_string(), password: "p".to_string() }) {
        Some(l) => {
            assert_eq!(l.username, "u");
            assert_eq!(l.password, "p");
        }
        None => panic!("expected login details"),
    }
    assert!(login_request(ClientPacket::Disconnect).is_none());
    match handshake_reply(ServerEvent::AuthenticationAccept { user: user("u", 1), new_user: true }) {
        HandshakeReply::Accepted { user, reply } => {
            assert_eq!(user.user_id, 1);
            assert!(matches!(reply, ClientPacket::AuthenticationAccepted { new_user: true }));
        }
        other => panic!("{:?}", other),
    }
    match handshake_reply(ServerEvent::AuthenticationReject { reason: "no".to_string() }) {
        HandshakeReply::Rejected { reply } => assert!(matches!(reply, ClientPacket::AuthenticationRejected)),
        other => panic!("{:?}", other),
    }
    assert!(matches!(handshake_reply(ServerEvent::Shutdown), HandshakeReply::Ignored));
}

#[test]
fn shutdown_command_is_trimmed() {
    assert!(is_shutdown_command("/shutdown"));
    assert!(is_shutdown_command("  /shutdown\n"));
    assert!(!is_shutdown_command("/shut down"));
    assert!(!is_shutdown_command("/shutdownnow"));
}
