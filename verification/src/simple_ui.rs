//! A simpler terminal front end of the client: a login screen that sends
//! the username and the password digest as separate steps, and a home
//! screen with one message list.
use vstd::prelude::*;
use vstd::string::*;
use crate::client::{LoginEvent, UIEvent};
use crate::commands::{raw_msg_lacks_user, raw_msg_packet, raw_msg_to_packet};
use crate::crypto::{hash_password, password_hash_spec};
use crate::home::PageKey;
use crate::protocol::{ClientPacket, LoginInfo, PacketView};

verus! {

/// The login screen.
#[derive(Debug)]
pub struct LoginScreen {
    pub username_input: String,
    pub password_input: String,
    pub confirm_password_input: String,
    pub editing_username: bool,
    pub username_sent: bool,
    pub new_user: bool,
    pub password_accepted: bool,
}

/// The home screen.
#[derive(Debug)]
pub struct HomeScreen {
    pub messages: Vec<String>,
    pub input: String,
}

/// The screens.
#[derive(Debug)]
pub enum Screen {
    LoginPage(LoginScreen),
    HomePage(HomeScreen),
}

/// The text field that a key goes to.
#[derive(Clone, Copy, Debug, PartialEq, Eq, Structural)]
pub enum ScreenInput {
    Username,
    Password,
    Message,
}

/// What a key leads to: the events raised, in order, and the field that
/// receives the key.
#[derive(Debug)]
pub struct ScreenKeyOutcome {
    pub events: Vec<UIEvent>,
    pub forward_to: Option<ScreenInput>,
}

impl LoginScreen {
    pub fn new() -> (res: Self)
        ensures
            res.username_input@.len() == 0,
            res.password_input@.len() == 0,
            res.confirm_password_input@.len() == 0,
            res.editing_username,
            !res.username_sent,
            !res.new_user,
            res.password_accepted,
    {
        LoginScreen {
            username_input: String::new(),
            password_input: String::new(),
            confirm_password_input: String::new(),
            editing_username: true,
            username_sent: false,
            new_user: false,
            password_accepted: true,
        }
    }
}

/// Whether `e` is the login event carrying `username`.
pub open spec fn is_username_event(e: UIEvent, username: Seq<char>) -> bool {
    e matches UIEvent::Login(LoginEvent::Username(u)) && u@ == username
}

/// Whether `e` is the login event carrying the digest of `password`.
pub open spec fn is_password_event(e: UIEvent, password: Seq<char>) -> bool {
    e matches UIEvent::Login(LoginEvent::Password(p)) && p@ == password_hash_spec(password)
}

/// What a key does on a screen (see `Screen::handle_input`).
pub open spec fn screen_key_step(pre: Screen, post: Screen, key: PageKey, res: ScreenKeyOutcome) -> bool {
    match pre {
        Screen::LoginPage(login) => post matches Screen::LoginPage(p) && match key {
            PageKey::Esc => p == login && res.events@.len() == 1 && res.events@[0] is Quit && res.forward_to is None,
            PageKey::Tab { .. } => p == (LoginScreen { editing_username: !login.editing_username, ..login })
                && res.events@.len() == 0 && res.forward_to is None,
            PageKey::Enter => {
                let send_name = !login.username_sent && login.username_input@.len() > 0;
                let send_pass = login.password_input@.len() > 0;
                &&& res.forward_to is None
                &&& p == (if send_name {
                    LoginScreen { editing_username: false, username_sent: true, ..login }
                } else {
                    login
                })
                &&& res.events@.len() == (if send_name { 1int } else { 0 }) + (if send_pass { 1int } else { 0 })
                &&& send_name ==> is_username_event(res.events@[0], login.username_input@)
                &&& send_pass ==> is_password_event(res.events@[res.events@.len() - 1], login.password_input@)
            },
            PageKey::Up | PageKey::Down => p == (LoginScreen { new_user: !login.new_user, ..login })
                && res.events@.len() == 0 && res.forward_to is None,
            _ => p == login && res.events@.len() == 0 && res.forward_to == Some(
                if login.editing_username { ScreenInput::Username } else { ScreenInput::Password },
            ),
        },
        Screen::HomePage(home) => post matches Screen::HomePage(h) && match key {
            PageKey::Esc => h == home && res.events@.len() == 1 && res.events@[0] is Quit && res.forward_to is None,
            PageKey::Enter => res.forward_to is None && if home.input@.len() > 0 {
                &&& h.messages == home.messages
                &&& h.input@.len() == 0
                &&& res.events@.len() == 1
                &&& res.events@[0] matches UIEvent::PostMessage(m) && m@ == home.input@
            } else {
                h == home && res.events@.len() == 0
            },
            _ => h == home && res.events@.len() == 0 && res.forward_to == Some(ScreenInput::Message),
        },
    }
}

impl Screen {
    /// Esc quits. On the login screen, Tab switches between the username and
    /// the password, Up and Down switch between logging in and creating a
    /// user, and Enter sends the username once and the password digest
    /// whenever a password is typed. On the home screen, Enter posts the
    /// typed message. Other keys go to the field being edited.
    pub fn handle_input(&mut self, key: PageKey) -> (res: ScreenKeyOutcome)
        ensures
            screen_key_step(*old(self), *final(self), key, res),
    {
        let mut events: Vec<UIEvent> = Vec::new();
        match self {
            Screen::LoginPage(login) => match key {
                PageKey::Esc => {
                    events.push(UIEvent::Quit);
                    ScreenKeyOutcome { events, forward_to: None }
                },
                PageKey::Tab { .. } => {
                    login.editing_username = !login.editing_username;
                    ScreenKeyOutcome { events, forward_to: None }
                },
                PageKey::Enter => {
                    if !login.username_sent && !login.username_input.as_str().is_empty() {
                        events.push(UIEvent::Login(LoginEvent::Username(login.username_input.clone())));
                        login.editing_username = false;
                        login.username_sent = true;
                    }
                    if !login.password_input.as_str().is_empty() {
                        let password_hash = hash_password(login.password_input.as_str());
                        events.push(UIEvent::Login(LoginEvent::Password(password_hash)));
                    }
                    ScreenKeyOutcome { events, forward_to: None }
                },
                PageKey::Up | PageKey::Down => {
                    login.new_user = !login.new_user;
                    ScreenKeyOutcome { events, forward_to: None }
                },
                _ => {
                    let target = if login.editing_username { ScreenInput::Username } else { ScreenInput::Password };
                    ScreenKeyOutcome { events, forward_to: Some(target) }
                },
            },
            Screen::HomePage(home) => match key {
                PageKey::Esc => {
                    events.push(UIEvent::Quit);
                    ScreenKeyOutcome { events, forward_to: None }
                },
                PageKey::Enter => {
                    if !home.input.as_str().is_empty() {
                        let mut contents = String::new();
                        std::mem::swap(&mut contents, &mut home.input);
                        events.push(UIEvent::PostMessage(contents));
                    }
                    ScreenKeyOutcome { events, forward_to: None }
                },
                _ => ScreenKeyOutcome { events, forward_to: Some(ScreenInput::Message) },
            },
        }
    }

    /// The field being edited: the username or the password on the login
    /// screen, the message on the home screen.
    pub fn get_input(&self) -> (res: ScreenInput)
        ensures
            res == match *self {
                Screen::LoginPage(login) => if login.editing_username { ScreenInput::Username } else { ScreenInput::Password },
                Screen::HomePage(_) => ScreenInput::Message,
            },
    {
        match self {
            Screen::LoginPage(login) => if login.editing_username {
                ScreenInput::Username
            } else {
                ScreenInput::Password
            },
            Screen::HomePage(_) => ScreenInput::Message,
        }
    }
}

/// The front end's state.
#[derive(Debug)]
pub struct App {
    pub running: bool,
    pub screen: Screen,
    pub messages: Vec<String>,
    pub login: LoginInfo,
}

/// Whether `event` can be carried out by `App::handle_event`.
pub open spec fn app_event_ok(event: UIEvent) -> bool {
    event matches UIEvent::PostMessage(m) ==> !raw_msg_lacks_user(m@)
}

impl App {
    pub fn new() -> (res: Self)
        ensures
            res.running,
            res.screen matches Screen::LoginPage(l) && l.editing_username && !l.username_sent,
            res.messages@.len() == 0,
            res.login.username@.len() == 0,
            res.login.password@.len() == 0,
    {
        App {
            running: true,
            screen: Screen::LoginPage(LoginScreen::new()),
            messages: Vec::new(),
            login: LoginInfo { username: String::new(), password: String::new() },
        }
    }

    /// Carries out a user-interface event, returning the packet to send.
    /// Quitting stops the front end and disconnects. The username is kept;
    /// the password completes the login, which is sent as a login request.
    /// A posted line is sent as `raw_msg_to_packet` makes it. A public
    /// message received goes to the home screen's list; an accepted
    /// connection opens the home screen with the messages kept so far; a
    /// rejected one marks the password as refused.
    pub fn handle_event(&mut self, event: UIEvent) -> (res: Option<ClientPacket>)
        requires
            app_event_ok(event),
        ensures
            match event {
                UIEvent::Quit => !final(self).running && (res matches Some(p) && p@ == PacketView::Disconnect)
                    && final(self).screen == old(self).screen && final(self).login == old(self).login,
                UIEvent::Login(LoginEvent::Username(u)) => res is None && final(self).login.username@ == u@
                    && final(self).login.password == old(self).login.password
                    && final(self).screen == old(self).screen && final(self).running == old(self).running,
                UIEvent::Login(LoginEvent::Password(p)) => final(self).login.password@ == p@
                    && final(self).login.username == old(self).login.username
                    && final(self).screen == old(self).screen && final(self).running == old(self).running
                    && (res matches Some(pk) && pk@ == (PacketView::LoginRequestPacket {
                        username: old(self).login.username@,
                        password: p@,
                    })),
                UIEvent::PostMessage(m) => (res matches Some(pk) && pk@ == raw_msg_packet(m@))
                    && final(self).screen == old(self).screen && final(self).running == old(self).running
                    && final(self).login == old(self).login,
                UIEvent::MessageReceived(packet) => res is None && final(self).running == old(self).running
                    && final(self).login == old(self).login && match packet@ {
                    PacketView::PublicMessage { contents } => match old(self).screen {
                        Screen::HomePage(h) => final(self).screen matches Screen::HomePage(h2)
                            && h2.input == h.input && h2.messages@.len() == h.messages@.len() + 1
                            && h2.messages@.subrange(0, h.messages@.len() as int) == h.messages@
                            && h2.messages@.last()@ == contents,
                        _ => final(self).screen == old(self).screen,
                    },
                    PacketView::ConnectionAccepted => final(self).screen matches Screen::HomePage(h)
                        && h.messages@.map_values(|m: String| m@) == old(self).messages@.map_values(|m: String| m@)
                        && h.input@.len() == 0,
                    PacketView::ConnectionRejected { .. } => match old(self).screen {
                        Screen::LoginPage(l) => final(self).screen == Screen::LoginPage(LoginScreen { password_accepted: false, ..l }),
                        _ => final(self).screen == old(self).screen,
                    },
                    _ => final(self).screen == old(self).screen,
                },
            },
    {
        match event {
            UIEvent::Quit => {
                self.running = false;
                Some(ClientPacket::Disconnect)
            },
            UIEvent::Login(LoginEvent::Username(username)) => {
                self.login.username = username;
                None
            },
            UIEvent::Login(LoginEvent::Password(password)) => {
                self.login.password = password.clone();
                Some(ClientPacket::LoginRequestPacket { username: self.login.username.clone(), password })
            },
            UIEvent::PostMessage(contents) => Some(raw_msg_to_packet(contents)),
            UIEvent::MessageReceived(packet) => {
                match packet {
                    ClientPacket::PublicMessage { contents } => {
                        match &mut self.screen {
                            Screen::HomePage(home) => {
                                home.messages.push(contents);
                            },
                            _ => {},
                        }
                    },
                    ClientPacket::ConnectionAccepted => {
                        let messages = clone_strings(&self.messages);
                        self.screen = Screen::HomePage(HomeScreen { messages, input: String::new() });
                    },
                    ClientPacket::ConnectionRejected { .. } => {
                        match &mut self.screen {
                            Screen::LoginPage(login) => {
                                login.password_accepted = false;
                            },
                            _ => {},
                        }
                    },
                    _ => {},
                }
                None
            },
        }
    }
}

fn clone_strings(v: &Vec<String>) -> (res: Vec<String>)
    ensures
        res@.map_values(|m: String| m@) == v@.map_values(|m: String| m@),
{
    let mut res: Vec<String> = Vec::new();
    let n = v.len();
    for i in 0..n
        invariant
            n == v@.len(),
            res@.len() == i,
            forall|j: int| 0 <= j < i ==> #[trigger] res@[j]@ == v@[j]@,
    {
        res.push(v[i].clone());
    }
    assert(res@.map_values(|m: String| m@) =~= v@.map_values(|m: String| m@));
    res
}

} // verus!
