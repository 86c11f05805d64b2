//! The client's actions and its screens, and what the client does with the
//! actions from the keyboard, the screens and the server.
use vstd::prelude::*;
use vstd::string::*;
use crate::commands::{chat_line_lacks_user, chat_line_packet, chat_line_to_packet};
use crate::home::{home_key_overflows, home_step, HomeInput, HomePage, PageKey};
use crate::login::{errors_after_add, login_step, LoginField, LoginPage, LoginState, LoginStatus};
use crate::message_box::{message_spans, msgs_countable, spans_countable, wrap_all, wrapped_line, lines_view};
use crate::protocol::{ClientPacket, PacketView};
use crate::text::str_eq;

verus! {

/// Something the client has been asked to do.
#[derive(Debug)]
pub enum Action {
    ServerConnectionAccepted,
    ServerConnectionFailed,
    LoginAttempt { username: String, password: String },
    SendMessage { contents: String },
    SocketMessage { packet: ClientPacket },
    RoomChange { new_room_name: String, old_room_name: String },
    RoomCreationAttempt { name: String },
    Exit,
}

/// An event of the user interface.
#[derive(Debug)]
pub enum UIEvent {
    Quit,
    MessageReceived(ClientPacket),
    PostMessage(String),
    Login(LoginEvent),
}

/// A login detail entered by the user.
#[derive(Debug)]
pub enum LoginEvent {
    Username(String),
    Password(String),
}

/// Whether the client is still running.
#[derive(Clone, Copy, Debug)]
pub struct ConnectionState {
    pub connected: bool,
}

/// The screens of the client.
#[derive(Debug)]
pub enum Screen {
    Connect,
    Login(LoginPage),
    Home(HomePage),
    Settings,
}

/// The text field that receives a key.
#[derive(Clone, Copy, Debug, PartialEq, Eq, Structural)]
pub enum InputTarget {
    LoginIp,
    LoginUsername,
    LoginPassword,
    HomeMessage,
    HomeMisc,
}

/// What a key leads to: an action for the client's event loop, an action
/// for its own queue, and the text field that receives the key.
#[derive(Debug)]
pub struct ScreenOutcome {
    pub event: Option<Action>,
    pub ui: Option<Action>,
    pub forward_to: Option<InputTarget>,
}

/// Whether a message can be added to the pane of `screen` without a byte
/// count or the line count overflowing.
pub open spec fn screen_accepts_message(screen: Screen, message: Seq<char>) -> bool {
    screen matches Screen::Home(home) ==> {
        &&& spans_countable(message_spans(message))
        &&& home.message_box.lines + wrapped_line(home.message_box.width as nat, message_spans(message)).len()
            <= usize::MAX
        &&& home.state.messages@.len() < usize::MAX
    }
}

/// Whether the pane of `screen` can be rewrapped for `columns` columns.
pub open spec fn screen_accepts_resize(screen: Screen, columns: u16) -> bool {
    screen matches Screen::Home(home) ==> {
        let msgs = home.state.messages@.map_values(|m: String| m@);
        &&& msgs_countable(msgs)
        &&& wrap_all(div_ceil3(columns) as nat, msgs).len() <= usize::MAX
    }
}

/// `x / 3`, rounded up.
pub open spec fn div_ceil3(x: u16) -> int {
    if x % 3 == 0 { (x / 3) as int } else { x / 3 + 1 }
}

/// What a key does to a screen (see `Screen::handle_input`).
pub open spec fn screen_input_step(pre: Screen, post: Screen, key: PageKey, res: ScreenOutcome) -> bool {
    &&& key == PageKey::Esc ==> (res.event matches Some(Action::Exit) && res.ui is None
        && res.forward_to is None && post == pre)
    &&& key != PageKey::Esc ==> match pre {
        Screen::Login(login) => post matches Screen::Login(p) && exists|o: crate::login::LoginOutcome|
            #[trigger] login_step(login, p, key, o) && res.event == o.action && res.ui is None
            && res.forward_to == match o.forward_to {
                Some(LoginField::IP) => Some(InputTarget::LoginIp),
                Some(LoginField::Username) => Some(InputTarget::LoginUsername),
                Some(LoginField::Password) => Some(InputTarget::LoginPassword),
                None => None,
            },
        Screen::Home(home) => post matches Screen::Home(p) && exists|o: crate::home::HomeOutcome|
            #[trigger] home_step(home, p, key, o) && res.event == o.event && res.ui == o.ui
            && res.forward_to == match o.forward_to {
                Some(HomeInput::Message) => Some(InputTarget::HomeMessage),
                Some(HomeInput::Misc) => Some(InputTarget::HomeMisc),
                None => None,
            },
        _ => post == pre && res.event is None && res.ui is None && res.forward_to is None,
    }
}

/// See `Screen::handle_successful_connection`.
pub open spec fn screen_connected_step(pre: Screen, post: Screen) -> bool {
    match pre {
        Screen::Login(login) => post matches Screen::Login(post)
            && post.state.status == LoginStatus::Idle
            && post.state.focused_field == LoginField::Username
            && post.state.errors == login.state.errors
            && post.state.new_user == login.state.new_user
            && post.ip_input == login.ip_input
            && post.username_input == login.username_input
            && post.password_input == login.password_input,
        _ => post == pre,
    }
}

/// See `Screen::handle_msg`.
pub open spec fn screen_msg_step(pre: Screen, post: Screen, message: Seq<char>) -> bool {
    match pre {
        Screen::Home(home) => post matches Screen::Home(post)
            && post.state.messages@ == home.state.messages@.push(post.state.messages@.last())
            && post.state.messages@.last()@ == message
            && post.state.current_room_name == home.state.current_room_name
            && post.state.current_field == home.state.current_field
            && post.state.room_index == home.state.room_index
            && lines_view(post.message_box.text@) == lines_view(home.message_box.text@) + wrapped_line(
                home.message_box.width as nat,
                message_spans(message),
            )
            && post.message_box.lines == home.message_box.lines + wrapped_line(
                home.message_box.width as nat,
                message_spans(message),
            ).len()
            && post.message_box.width == home.message_box.width
            && post.message_box.scroll_amount == home.message_box.scroll_amount
            && post.rooms == home.rooms && post.modal == home.modal
            && post.cursor_position == home.cursor_position
            && post.message_input == home.message_input && post.misc_input == home.misc_input
            && post.help_message == home.help_message,
        _ => post == pre,
    }
}

/// See `Screen::add_notification`.
pub open spec fn screen_notify_step(pre: Screen, post: Screen, error: Seq<char>) -> bool {
    match pre {
        Screen::Login(login) => post matches Screen::Login(post)
            && post.state.error_view() == errors_after_add(login.state.error_view(), error)
            && post.state.status == login.state.status
            && post.state.focused_field == login.state.focused_field
            && post.state.new_user == login.state.new_user
            && post.ip_input == login.ip_input
            && post.username_input == login.username_input
            && post.password_input == login.password_input,
        _ => post == pre,
    }
}

/// See `Screen::handle_resize`.
pub open spec fn screen_resize_step(pre: Screen, post: Screen, x: u16) -> bool {
    match pre {
        Screen::Home(home) => post matches Screen::Home(post)
            && lines_view(post.message_box.text@) == wrap_all(
                div_ceil3(x) as nat,
                home.state.messages@.map_values(|m: String| m@),
            )
            && post.message_box.width == div_ceil3(x)
            && post.message_box.lines == post.message_box.text@.len()
            && post.state == home.state,
        _ => post == pre,
    }
}

impl Screen {
    /// Esc asks the client to exit; other keys go to the page shown.
    pub fn handle_input(&mut self, key: PageKey) -> (res: ScreenOutcome)
        requires
            *old(self) matches Screen::Home(home) ==> !home_key_overflows(home, key),
        ensures
            screen_input_step(*old(self), *final(self), key, res),
    {
        if key == PageKey::Esc {
            return ScreenOutcome { event: Some(Action::Exit), ui: None, forward_to: None };
        }
        match self {
            Screen::Login(login) => {
                let o = login.handle_event(key);
                let forward_to = match o.forward_to {
                    Some(LoginField::IP) => Some(InputTarget::LoginIp),
                    Some(LoginField::Username) => Some(InputTarget::LoginUsername),
                    Some(LoginField::Password) => Some(InputTarget::LoginPassword),
                    None => None,
                };
                ScreenOutcome { event: o.action, ui: None, forward_to }
            },
            Screen::Home(home) => {
                let o = home.handle_event(key);
                let forward_to = match o.forward_to {
                    Some(HomeInput::Message) => Some(InputTarget::HomeMessage),
                    Some(HomeInput::Misc) => Some(InputTarget::HomeMisc),
                    None => None,
                };
                ScreenOutcome { event: o.event, ui: o.ui, forward_to }
            },
            _ => ScreenOutcome { event: None, ui: None, forward_to: None },
        }
    }

    /// Once the server is reached, the login screen asks for the username.
    pub fn handle_successful_connection(&mut self)
        ensures
            screen_connected_step(*old(self), *final(self)),
    {
        match self {
            Screen::Login(login) => {
                login.state.status = LoginStatus::Idle;
                login.state.focused_field = LoginField::Username;
            },
            _ => {},
        }
    }

    /// A message received is kept and added to the pane of the home screen.
    pub fn handle_msg(&mut self, message: String)
        requires
            screen_accepts_message(*old(self), message@),
        ensures
            screen_msg_step(*old(self), *final(self), message@),
    {
        match self {
            Screen::Home(home) => {
                home.state.messages.push(message.clone());
                home.message_box.new_msg(&message);
            },
            _ => {},
        }
    }

    /// An error is shown on the login screen.
    pub fn add_notification(&mut self, error: &str)
        ensures
            screen_notify_step(*old(self), *final(self), error@),
    {
        match self {
            Screen::Login(login) => {
                login.state.add_error(error);
            },
            _ => {},
        }
    }

    /// When the terminal is `x` columns wide, the pane of the home screen is
    /// rewrapped to a third of that, rounded up.
    pub fn handle_resize(&mut self, x: u16, y: u16)
        requires
            screen_accepts_resize(*old(self), x),
        ensures
            screen_resize_step(*old(self), *final(self), x),
    {
        match self {
            Screen::Home(home) => {
                let width = if x % 3 == 0 { x / 3 } else { x / 3 + 1 };
                home.message_box.calculate_lines(width as usize, &home.state.messages);
            },
            _ => {},
        }
    }
}

/// The screen manager of the client.
#[derive(Debug)]
pub struct UiManager {
    pub current_screen: Screen,
}

impl UiManager {
    /// Starts on the login screen.
    pub fn new() -> (res: Self)
        ensures
            res.current_screen matches Screen::Login(login) && login.state.status == LoginStatus::Connecting
                && login.state.focused_field == LoginField::IP && login.state.errors@.len() == 0,
    {
        Self { current_screen: Screen::Login(LoginPage::new()) }
    }

    pub fn handle_input(&mut self, key: PageKey) -> (res: ScreenOutcome)
        requires
            old(self).current_screen matches Screen::Home(home) ==> !home_key_overflows(home, key),
        ensures
            screen_input_step(old(self).current_screen, final(self).current_screen, key, res),
    {
        self.current_screen.handle_input(key)
    }

    pub fn handle_resize(&mut self, x: u16, y: u16)
        requires
            screen_accepts_resize(old(self).current_screen, x),
        ensures
            screen_resize_step(old(self).current_screen, final(self).current_screen, x),
    {
        self.current_screen.handle_resize(x, y);
    }

    pub fn switch_screen(&mut self, new_screen: Screen)
        ensures
            final(self).current_screen == new_screen,
    {
        self.current_screen = new_screen;
    }

    pub fn handle_msg(&mut self, message: String)
        requires
            screen_accepts_message(old(self).current_screen, message@),
        ensures
            screen_msg_step(old(self).current_screen, final(self).current_screen, message@),
    {
        self.current_screen.handle_msg(message);
    }

    pub fn signal_connection(&mut self)
        ensures
            screen_connected_step(old(self).current_screen, final(self).current_screen),
    {
        self.current_screen.handle_successful_connection();
    }
}

/// The room list after a room update: each incoming name not listed yet is
/// appended, in the order received.
pub open spec fn merge_rooms(rooms: Seq<Seq<char>>, incoming: Seq<Seq<char>>) -> Seq<Seq<char>>
    decreases incoming.len(),
{
    if incoming.len() == 0 {
        rooms
    } else {
        let prev = merge_rooms(rooms, incoming.drop_last());
        if prev.contains(incoming.last()) {
            prev
        } else {
            prev.push(incoming.last())
        }
    }
}

/// The names in a list of rooms.
pub open spec fn room_names(rooms: Seq<String>) -> Seq<Seq<char>> {
    rooms.map_values(|r: String| r@)
}

/// The client: its screens, whether it is running, and the rooms it knows.
#[derive(Debug)]
pub struct Client {
    pub ui_manager: UiManager,
    pub connection_state: ConnectionState,
    pub rooms: Vec<String>,
}

/// Whether `action` can be carried out by `Client::handle_action`: a chat
/// line starting with "/pm" must have a space in it.
pub open spec fn action_ok(action: Action) -> bool {
    action matches Action::SendMessage { contents } ==> !chat_line_lacks_user(contents@)
}

/// Whether `action` can be carried out by `Client::tick` on `client`: a
/// message received must fit in the pane.
pub open spec fn tick_ok(client: Client, action: Action) -> bool {
    action matches Action::SocketMessage { packet } ==> match packet@ {
        PacketView::PublicMessage { contents } => screen_accepts_message(client.ui_manager.current_screen, contents),
        PacketView::PrivateMessage { contents, .. } => screen_accepts_message(client.ui_manager.current_screen, contents),
        _ => true,
    }
}

impl Client {
    /// A running client on the login screen, knowing no rooms.
    pub fn new() -> (res: Self)
        ensures
            res.connection_state.connected,
            res.rooms@.len() == 0,
            res.ui_manager.current_screen matches Screen::Login(login) && login.state.status == LoginStatus::Connecting
                && login.state.focused_field == LoginField::IP && login.state.errors@.len() == 0,
    {
        Self { ui_manager: UiManager::new(), connection_state: ConnectionState { connected: true }, rooms: Vec::new() }
    }

    /// Carries out an action from the event loop, returning the packet to
    /// send to the server: a login attempt becomes a login request, a chat
    /// line a public or private message, a packet is sent as it is, and Exit
    /// stops the client.
    pub fn handle_action(&mut self, action: Action) -> (res: Option<ClientPacket>)
        requires
            action_ok(action),
        ensures
            final(self).ui_manager == old(self).ui_manager,
            final(self).rooms == old(self).rooms,
            action is Exit ==> !final(self).connection_state.connected && res is None,
            !(action is Exit) ==> final(self).connection_state == old(self).connection_state,
            match action {
                Action::LoginAttempt { username, password } => res matches Some(p) && p@ == (PacketView::LoginRequestPacket {
                    username: username@,
                    password: password@,
                }),
                Action::SendMessage { contents } => res matches Some(p) && p@ == chat_line_packet(contents@),
                Action::SocketMessage { packet } => res == Some(packet),
                _ => res is None,
            },
    {
        match action {
            Action::LoginAttempt { username, password } => Some(ClientPacket::LoginRequestPacket { username, password }),
            Action::Exit => {
                self.connection_state.connected = false;
                None
            },
            Action::SendMessage { contents } => Some(chat_line_to_packet(contents)),
            Action::SocketMessage { packet } => Some(packet),
            _ => None,
        }
    }

    /// Adds the rooms of a room update that are not listed yet.
    pub fn merge_rooms(&mut self, rooms: Vec<String>)
        ensures
            room_names(final(self).rooms@) == merge_rooms(room_names(old(self).rooms@), room_names(rooms@)),
            final(self).ui_manager == old(self).ui_manager,
            final(self).connection_state == old(self).connection_state,
    {
        let n = rooms.len();
        let ghost incoming = room_names(rooms@);
        for i in 0..n
            invariant
                n == rooms@.len(),
                incoming == room_names(rooms@),
                room_names(self.rooms@) == merge_rooms(room_names(old(self).rooms@), incoming.subrange(0, i as int)),
                self.ui_manager == old(self).ui_manager,
                self.connection_state == old(self).connection_state,
        {
            let room = &rooms[i];
            let ghost sub = incoming.subrange(0, i + 1);
            assert(sub.drop_last() =~= incoming.subrange(0, i as int));
            assert(sub.last() == room@);
            if !self.has_room(room) {
                let ghost pre = room_names(self.rooms@);
                self.rooms.push(room.clone());
                assert(room_names(self.rooms@) =~= pre.push(room@));
            }
        }
        assert(incoming.subrange(0, n as int) =~= incoming);
    }

    fn has_room(&self, room: &String) -> (res: bool)
        ensures
            res == room_names(self.rooms@).contains(room@),
    {
        let n = self.rooms.len();
        for i in 0..n
            invariant
                n == self.rooms@.len(),
                forall|j: int| 0 <= j < i ==> #[trigger] self.rooms@[j]@ != room@,
        {
            if str_eq(self.rooms[i].as_str(), room.as_str()) {
                assert(room_names(self.rooms@)[i as int] == room@);
                return true;
            }
        }
        proof {
            if room_names(self.rooms@).contains(room@) {
                let j = choose|j: int| 0 <= j < room_names(self.rooms@).len() && room_names(self.rooms@)[j] == room@;
                assert(self.rooms@[j]@ == room@);
            }
        }
        false
    }

    /// Carries out an action queued by the screens or the connection,
    /// returning the packet to send: a rejected login shows the "incorrect"
    /// error, an accepted one opens the home screen (its pane a third of the
    /// terminal's `columns` wide), messages go to the pane, room updates to
    /// the room list, a connection or its failure is shown on the login
    /// screen, and a room change is sent to the server.
    pub fn tick(&mut self, action: Action, columns: u16) -> (res: Option<ClientPacket>)
        requires
            tick_ok(*old(self), action),
        ensures
            final(self).connection_state == old(self).connection_state,
            match action {
                Action::SocketMessage { packet } => res is None && match packet@ {
                    PacketView::AuthenticationRejected => final(self).rooms == old(self).rooms && screen_notify_step(
                        old(self).ui_manager.current_screen,
                        final(self).ui_manager.current_screen,
                        LoginState::INCORRECT_INFORMATION@,
                    ),
                    PacketView::AuthenticationAccepted { .. } => final(self).rooms == old(self).rooms
                        && (final(self).ui_manager.current_screen matches Screen::Home(home)
                        && home.state.current_room_name@ == "Global"@
                        && home.message_box.width == columns as usize / 3
                        && home.state.messages@.len() == 0 && home.message_box.text@.len() == 0),
                    PacketView::PublicMessage { contents } => final(self).rooms == old(self).rooms && screen_msg_step(
                        old(self).ui_manager.current_screen,
                        final(self).ui_manager.current_screen,
                        contents,
                    ),
                    PacketView::PrivateMessage { contents, .. } => final(self).rooms == old(self).rooms && screen_msg_step(
                        old(self).ui_manager.current_screen,
                        final(self).ui_manager.current_screen,
                        contents,
                    ),
                    PacketView::RoomUpdate { rooms } => final(self).ui_manager == old(self).ui_manager
                        && room_names(final(self).rooms@) == merge_rooms(room_names(old(self).rooms@), rooms),
                    _ => *final(self) == *old(self),
                },
                Action::ServerConnectionAccepted => res is None && final(self).rooms == old(self).rooms
                    && screen_connected_step(old(self).ui_manager.current_screen, final(self).ui_manager.current_screen),
                Action::ServerConnectionFailed => res is None && final(self).rooms == old(self).rooms
                    && screen_notify_step(
                    old(self).ui_manager.current_screen,
                    final(self).ui_manager.current_screen,
                    LoginState::SERVER_DOWN@,
                ),
                Action::RoomChange { new_room_name, old_room_name } => *final(self) == *old(self)
                    && (res matches Some(p) && p@ == (PacketView::RoomChange {
                    new_room_name: new_room_name@,
                    old_room_name: old_room_name@,
                })),
                _ => res is None && *final(self) == *old(self),
            },
    {
        match action {
            Action::SocketMessage { packet } => {
                match packet {
                    ClientPacket::AuthenticationRejected => {
                        self.ui_manager.current_screen.add_notification(LoginState::INCORRECT_INFORMATION);
                    },
                    ClientPacket::AuthenticationAccepted { .. } => {
                        self.ui_manager.switch_screen(Screen::Home(HomePage::new(columns)));
                    },
                    ClientPacket::PublicMessage { contents } => {
                        self.ui_manager.handle_msg(contents);
                    },
                    ClientPacket::PrivateMessage { contents, .. } => {
                        self.ui_manager.handle_msg(contents);
                    },
                    ClientPacket::RoomUpdate { rooms } => {
                        self.merge_rooms(rooms);
                    },
                    _ => {},
                }
                None
            },
            Action::ServerConnectionAccepted => {
                self.ui_manager.signal_connection();
                None
            },
            Action::ServerConnectionFailed => {
                self.ui_manager.current_screen.add_notification(LoginState::SERVER_DOWN);
                None
            },
            Action::RoomChange { new_room_name, old_room_name } => Some(ClientPacket::RoomChange { new_room_name, old_room_name }),
            _ => None,
        }
    }
}

/// A room update lists every room it names, keeps every room listed
/// before, and adds no name twice.
pub proof fn lemma_merge_rooms(rooms: Seq<Seq<char>>, incoming: Seq<Seq<char>>)
    requires
        rooms.no_duplicates(),
    ensures
        merge_rooms(rooms, incoming).no_duplicates(),
        forall|r: Seq<char>| rooms.contains(r) ==> merge_rooms(rooms, incoming).contains(r),
        forall|r: Seq<char>| incoming.contains(r) ==> merge_rooms(rooms, incoming).contains(r),
    decreases incoming.len(),
{
    if incoming.len() > 0 {
        let prev = merge_rooms(rooms, incoming.drop_last());
        lemma_merge_rooms(rooms, incoming.drop_last());
        let res = merge_rooms(rooms, incoming);
        assert forall|r: Seq<char>| prev.contains(r) implies res.contains(r) by {
            if !prev.contains(incoming.last()) {
                let j = choose|j: int| 0 <= j < prev.len() && prev[j] == r;
                assert(res[j] == r);
            }
        }
        assert forall|r: Seq<char>| incoming.contains(r) implies res.contains(r) by {
            let j = choose|j: int| 0 <= j < incoming.len() && incoming[j] == r;
            if j < incoming.len() - 1 {
                assert(incoming.drop_last()[j] == r);
                assert(incoming.drop_last().contains(r));
                assert(prev.contains(r));
            } else if !prev.contains(incoming.last()) {
                assert(res[prev.len() as int] == r);
            } else {
                assert(res == prev);
            }
        }
    }
}

} // verus!
