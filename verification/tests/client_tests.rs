use chatserver::client::{Action, Client, InputTarget, Screen, UiManager};
use chatserver::commands::{chat_line_to_packet, raw_msg_to_packet};
use chatserver::crypto::hash_password;
use chatserver::home::{Area, HomeField, HomeInput, HomePage, PageKey, Position};
use chatserver::input::InputField;
use chatserver::login::{LoginField, LoginPage, LoginState, LoginStatus};
use chatserver::protocol::ClientPacket;

const SHA3_ABC: &str = "3a985da74fe225b2045c172d6bd390bd855f086e3e9d525b46bfe24511431532";
const SHA3_EMPTY: &str = "a7ffc6f8bf1ed76651c14756a061d662f580ff4de43b49fa82d80a4b80f8434a";

#[test]
fn login_field_cycles_between_username_and_password() {
    assert_eq!(LoginField::Username.next(), LoginField::Password);
    assert_eq!(LoginField::Password.next(), LoginField::Username);
    assert_eq!(LoginField::IP.next(), LoginField::IP);
    assert_eq!(LoginField::Username.previous(), LoginField::Password);
    assert_eq!(LoginField::Password.previous(), LoginField::Username);
    assert_eq!(LoginField::IP.previous(), LoginField::IP);
}

#[test]
fn login_state_errors() {
    let mut state = LoginState::default();
    assert_eq!(state.status, LoginStatus::Connecting);
    assert_eq!(state.focused_field, LoginField::IP);
    assert!(!state.has_error(LoginState::SERVER_DOWN));
    state.add_error(LoginState::SERVER_DOWN);
    state.add_error(LoginState::SERVER_DOWN);
    state.add_error(LoginState::USERNAME_EMPTY_ERR);
    assert_eq!(state.errors, vec![LoginState::SERVER_DOWN.to_string(), LoginState::USERNAME_EMPTY_ERR.to_string()]);
    assert!(state.has_error(LoginState::SERVER_DOWN));
    state.remove_error(LoginState::SERVER_DOWN);
    assert!(!state.has_error(LoginState::SERVER_DOWN));
    assert_eq!(state.errors, vec![LoginState::USERNAME_EMPTY_ERR.to_string()]);
    state.remove_error(LoginState::PASSWORD_EMPTY_ERR);
    assert_eq!(state.errors.len(), 1);
}

#[test]
fn login_state_focus_and_status() {
    let mut state = LoginState::default();
    state.set_state(LoginStatus::Idle);
    assert_eq!(state.status, LoginStatus::Idle);
    state.focused_field = LoginField::Username;
    state.set_focus(LoginField::NEXT);
    assert_eq!(state.focused_field, LoginField::Password);
    state.set_focus(LoginField::PREVIOUS);
    assert_eq!(state.focused_field, LoginField::Username);
    state.set_focus(7);
    assert_eq!(state.focused_field, LoginField::Username);
}

#[test]
fn password_hash_is_sha3_hex() {
    assert_eq!(hash_password("abc"), SHA3_ABC);
    assert_eq!(hash_password(""), SHA3_EMPTY);
    assert_eq!(hash_password("hunter2").len(), 64);
}

#[test]
fn input_field_hides_and_hashes() {
    let mut field = InputField::new("Password".to_string()).set_hidden(true);
    field.text = "abc".to_string();
    assert_eq!(field.display(), "***");
    assert_eq!(field.value(), SHA3_ABC);
    field.text = "é".to_string();
    assert_eq!(field.display(), "**");
    let mut plain = InputField::default();
    assert!(plain.is_empty());
    plain.text = "hi".to_string();
    assert_eq!(plain.display(), "hi");
    assert_eq!(plain.value(), "hi");
    assert_eq!(plain.value_and_reset(), "hi");
    assert!(plain.is_empty());
}

#[test]
fn raw_message_commands() {
    match raw_msg_to_packet("hello world".to_string()) {
        ClientPacket::PublicMessage { contents } => assert_eq!(contents, "hello world"),
        other => panic!("{:?}", other),
    }
    match raw_msg_to_packet("/pm bob see you later".to_string()) {
        ClientPacket::PrivateMessage { to, contents } => {
            assert_eq!(to, "bob");
            assert_eq!(contents, "see you later");
        }
        other => panic!("{:?}", other),
    }
    match raw_msg_to_packet("/pm bob".to_string()) {
        ClientPacket::PrivateMessage { to, contents } => {
            assert_eq!(to, "bob");
            assert_eq!(contents, "");
        }
        other => panic!("{:?}", other),
    }
    assert!(matches!(raw_msg_to_packet("/exit".to_string()), ClientPacket::Disconnect));
    assert!(matches!(raw_msg_to_packet("/whatever x".to_string()), ClientPacket::Disconnect));
}

#[test]
fn chat_lines_become_packets() {
    match chat_line_to_packet("/pm carol hi there".to_string()) {
        ClientPacket::PrivateMessage { to, contents } => {
            assert_eq!(to, "carol");
            assert_eq!(contents, "hi there");
        }
        other => panic!("{:?}", other),
    }
    match chat_line_to_packet("just text".to_string()) {
        ClientPacket::PublicMessage { contents } => assert_eq!(contents, "just text"),
        other => panic!("{:?}", other),
    }
}

#[test]
fn login_page_connect_then_login() {
    let mut page = LoginPage::new();
    page.ip_input.text = "127.0.0.1:8080".to_string();
    let out = page.handle_event(PageKey::Enter);
    match out.action {
        Some(Action::SocketMessage { packet: ClientPacket::ConnectRequest { ip } }) => assert_eq!(ip, "127.0.0.1:8080"),
        other => panic!("{:?}", other),
    }
    assert!(page.ip_input.is_empty());
    page.state.status = LoginStatus::Idle;
    page.state.focused_field = LoginField::Username;
    let out = page.handle_event(PageKey::Enter);
    assert!(out.action.is_none());
    assert!(page.state.has_error(LoginState::USERNAME_EMPTY_ERR));
    assert!(page.state.has_error(LoginState::PASSWORD_EMPTY_ERR));
    page.username_input.text = "alice".to_string();
    page.password_input.text = "abc".to_string();
    let out = page.handle_event(PageKey::Enter);
    match out.action {
        Some(Action::LoginAttempt { username, password }) => {
            assert_eq!(username, "alice");
            assert_eq!(password, SHA3_ABC);
        }
        other => panic!("{:?}", other),
    }
    assert!(page.state.errors.is_empty());
}

#[test]
fn login_page_keys_go_to_focused_field() {
    let mut page = LoginPage::new();
    page.state.add_error(LoginState::INCORRECT_INFORMATION);
    let out = page.handle_event(PageKey::Char('x'));
    assert_eq!(out.forward_to, Some(LoginField::IP));
    assert!(!page.state.has_error(LoginState::INCORRECT_INFORMATION));
    page.state.focused_field = LoginField::Username;
    let out = page.handle_event(PageKey::Tab { shift: false });
    assert!(out.forward_to.is_none());
    assert_eq!(page.state.focused_field, LoginField::Password);
    page.handle_event(PageKey::Tab { shift: true });
    assert_eq!(page.state.focused_field, LoginField::Username);
}

#[test]
fn area_is_clamped_and_tested_for_emptiness() {
    let a = Area::new(65530, 3, 10, 10);
    assert_eq!(a.width, 5);
    assert_eq!(a.height, 10);
    assert!(!a.is_empty());
    assert!(Area::empty().is_empty());
}

#[test]
fn home_page_keys() {
    let mut home = HomePage::new(90);
    assert_eq!(home.message_box.width, 30);
    assert_eq!(home.state.current_room_name, "Global");
    let out = home.handle_event(PageKey::Enter);
    assert!(out.event.is_none());
    home.message_input.text = "hi".to_string();
    let out = home.handle_event(PageKey::Enter);
    match out.event {
        Some(Action::SendMessage { contents }) => assert_eq!(contents, "hi"),
        other => panic!("{:?}", other),
    }
    assert!(home.message_input.is_empty());
    assert_eq!(home.handle_event(PageKey::Char('a')).forward_to, Some(HomeInput::Message));
    home.handle_event(PageKey::Tab { shift: false });
    assert_eq!(home.state.current_field, HomeField::Settings);
    home.handle_event(PageKey::Tab { shift: false });
    assert_eq!(home.state.current_field, HomeField::RoomSelection);
    home.rooms = vec!["Global".to_string(), "Private".to_string()];
    home.cursor_position = Position { x: 1, y: 5 };
    home.handle_event(PageKey::Down);
    assert_eq!(home.state.room_index, 1);
    assert_eq!(home.cursor_position.y, 4);
    home.message_box.new_msg(&"old".to_string());
    let out = home.handle_event(PageKey::Enter);
    match out.ui {
        Some(Action::RoomChange { new_room_name, old_room_name }) => {
            assert_eq!(new_room_name, "Private");
            assert_eq!(old_room_name, "Global");
        }
        other => panic!("{:?}", other),
    }
    assert_eq!(home.state.current_room_name, "Private");
    assert!(home.message_box.text.is_empty());
    let out = home.handle_event(PageKey::Enter);
    assert!(out.ui.is_none());
    home.handle_event(PageKey::Up);
    assert_eq!(home.state.room_index, 0);
    assert_eq!(home.cursor_position.x, 2);
    home.handle_event(PageKey::Char('e'));
    assert_eq!(home.modal, Area { x: 15, y: 15, width: 10, height: 10 });
    assert_eq!(home.handle_event(PageKey::Char('z')).forward_to, Some(HomeInput::Misc));
    home.misc_input.text = "Games".to_string();
    let out = home.handle_event(PageKey::Enter);
    match out.ui {
        Some(Action::RoomCreationAttempt { name }) => assert_eq!(name, "Games"),
        other => panic!("{:?}", other),
    }
    assert!(home.modal.is_empty());
}

#[test]
fn home_page_scrolls_within_lines() {
    let mut home = HomePage::new(30);
    home.message_box.lines = 3;
    home.handle_event(PageKey::Down);
    home.handle_event(PageKey::Down);
    home.handle_event(PageKey::Down);
    assert_eq!(home.message_box.scroll_amount, 2);
    home.handle_event(PageKey::Up);
    assert_eq!(home.message_box.scroll_amount, 1);
}

#[test]
fn screen_escape_exits() {
    let mut ui = UiManager::new();
    let out = ui.handle_input(PageKey::Esc);
    assert!(matches!(out.event, Some(Action::Exit)));
    let out = ui.handle_input(PageKey::Char('1'));
    assert_eq!(out.forward_to, Some(InputTarget::LoginIp));
}

#[test]
fn client_actions_become_packets() {
    let mut client = Client::new();
    match client.handle_action(Action::LoginAttempt { username: "a".to_string(), password: "b".to_string() }) {
        Some(ClientPacket::LoginRequestPacket { username, password }) => {
            assert_eq!(username, "a");
            assert_eq!(password, "b");
        }
        other => panic!("{:?}", other),
    }
    match client.handle_action(Action::SendMessage { contents: "/pm bob hey".to_string() }) {
        Some(ClientPacket::PrivateMessage { to, contents }) => {
            assert_eq!(to, "bob");
            assert_eq!(contents, "hey");
        }
        other => panic!("{:?}", other),
    }
    assert!(client.handle_action(Action::ServerConnectionAccepted).is_none());
    assert!(client.connection_state.connected);
    assert!(client.handle_action(Action::Exit).is_none());
    assert!(!client.connection_state.connected);
}

#[test]
fn client_tick_follows_the_server() {
    let mut client = Client::new();
    client.tick(Action::ServerConnectionFailed, 90);
    match &client.ui_manager.current_screen {
        Screen::Login(login) => assert!(login.state.has_error(LoginState::SERVER_DOWN)),
        _ => panic!("expected login screen"),
    }
    client.tick(Action::ServerConnectionAccepted, 90);
    match &client.ui_manager.current_screen {
        Screen::Login(login) => {
            assert_eq!(login.state.status, LoginStatus::Idle);
            assert_eq!(login.state.focused_field, LoginField::Username);
        }
        _ => panic!("expected login screen"),
    }
    client.tick(Action::SocketMessage { packet: ClientPacket::AuthenticationRejected }, 90);
    match &client.ui_manager.current_screen {
        Screen::Login(login) => assert!(login.state.has_error(LoginState::INCORRECT_INFORMATION)),
        _ => panic!("expected login screen"),
    }
    client.tick(Action::SocketMessage { packet: ClientPacket::AuthenticationAccepted { new_user: false } }, 90);
    client.tick(Action::SocketMessage { packet: ClientPacket::PublicMessage { contents: "alice: hi".to_string() } }, 90);
    match &client.ui_manager.current_screen {
        Screen::Home(home) => {
            assert_eq!(home.state.messages, vec!["alice: hi".to_string()]);
            assert_eq!(home.message_box.lines, 1);
        }
        _ => panic!("expected home screen"),
    }
    client.tick(Action::SocketMessage { packet: ClientPacket::RoomUpdate { rooms: vec!["Global".to_string(), "Games".to_string(), "Global".to_string()] } }, 90);
    client.tick(Action::SocketMessage { packet: ClientPacket::RoomUpdate { rooms: vec!["Games".to_string(), "Art".to_string()] } }, 90);
    assert_eq!(client.rooms, vec!["Global".to_string(), "Games".to_string(), "Art".to_string()]);
    match client.tick(Action::RoomChange { new_room_name: "Games".to_string(), old_room_name: "Global".to_string() }, 90) {
        Some(ClientPacket::RoomChange { new_room_name, old_room_name }) => {
            assert_eq!(new_room_name, "Games");
            assert_eq!(old_room_name, "Global");
        }
        other => panic!("{:?}", other),
    }
}

#[test]
fn resize_rewraps_the_pane() {
    let mut ui = UiManager::new();
    ui.switch_screen(Screen::Home(HomePage::new(300)));
    ui.handle_msg("abcdefghij".to_string());
    ui.handle_resize(10, 40);
    match &ui.current_screen {
        Screen::Home(home) => {
            assert_eq!(home.message_box.width, 4);
            assert_eq!(home.message_box.lines, 3);
        }
        _ => panic!("expected home screen"),
    }
}
