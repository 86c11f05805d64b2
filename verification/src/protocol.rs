//! The packets exchanged between client and server, the server's internal
//! events, and the conversions between the two.
use vstd::prelude::*;
use vstd::string::*;

verus! {

/// An IP address as the server records it for a session.
#[derive(Clone, Copy, Debug)]
pub enum IpAddress {
    V4([u8; 4]),
    V6([u16; 8]),
}

/// Information required for a user to log in.
#[derive(Debug)]
pub struct LoginInfo {
    pub username: String,
    pub password: String,
}

impl Clone for LoginInfo {
    fn clone(&self) -> (res: Self)
        ensures
            res.username@ == self.username@,
            res.password@ == self.password@,
    {
        LoginInfo { username: self.username.clone(), password: self.password.clone() }
    }
}

/// Two login records are the same login when they name the same user; the
/// password takes no part in the comparison.
impl PartialEq for LoginInfo {
    fn eq(&self, other: &Self) -> (res: bool) {
        self.username == other.username
    }
}

impl vstd::std_specs::cmp::PartialEqSpecImpl for LoginInfo {
    open spec fn obeys_eq_spec() -> bool {
        true
    }

    open spec fn eq_spec(&self, other: &Self) -> bool {
        self.username@ == other.username@
    }
}

impl Eq for LoginInfo {}

/// Represents a registered user in the system.
#[derive(Debug)]
pub struct User {
    /// The user's unique username.
    pub username: String,
    /// The user's unique database ID.
    pub user_id: usize,
    /// The room the user was last in.
    pub current_room_name: String,
}

impl Clone for User {
    fn clone(&self) -> (res: Self)
        ensures
            res.username@ == self.username@,
            res.user_id == self.user_id,
            res.current_room_name@ == self.current_room_name@,
    {
        User {
            username: self.username.clone(),
            user_id: self.user_id,
            current_room_name: self.current_room_name.clone(),
        }
    }
}

impl User {
    /// A new user starts out in the room "Global".
    pub fn new(username: String, user_id: usize) -> (res: User)
        ensures
            res.username@ == username@,
            res.user_id == user_id,
            res.current_room_name@ == "Global"@,
    {
        User { username, user_id, current_room_name: String::from_str("Global") }
    }
}

/// Packets sent between the client and the server.
#[derive(Debug)]
pub enum ClientPacket {
    /// Request to connect to the server at a given IP.
    ConnectRequest { ip: String },
    /// A public message sent to all users in the current room.
    PublicMessage { contents: String },
    /// A private message sent to a specific user.
    PrivateMessage { to: String, contents: String },
    /// Authentication request with username and password.
    LoginRequestPacket { username: String, password: String },
    /// Sent by the server if a connection attempt is rejected.
    ConnectionRejected { reason: String },
    /// Sent by the server if a connection attempt is accepted.
    ConnectionAccepted,
    /// Sent by the server if authentication fails.
    AuthenticationRejected,
    /// Sent by the server if authentication succeeds.
    AuthenticationAccepted { new_user: bool },
    /// General error packet.
    Error { reason: String },
    /// The names of the rooms that exist.
    RoomUpdate { rooms: Vec<String> },
    /// Move the sender from one room to another.
    RoomChange { new_room_name: String, old_room_name: String },
    /// Notification of client disconnection.
    Disconnect,
}

/// The abstract content of a packet.
pub enum PacketView {
    ConnectRequest { ip: Seq<char> },
    PublicMessage { contents: Seq<char> },
    PrivateMessage { to: Seq<char>, contents: Seq<char> },
    LoginRequestPacket { username: Seq<char>, password: Seq<char> },
    ConnectionRejected { reason: Seq<char> },
    ConnectionAccepted,
    AuthenticationRejected,
    AuthenticationAccepted { new_user: bool },
    Error { reason: Seq<char> },
    RoomUpdate { rooms: Seq<Seq<char>> },
    RoomChange { new_room_name: Seq<char>, old_room_name: Seq<char> },
    Disconnect,
}

impl View for ClientPacket {
    type V = PacketView;

    open spec fn view(&self) -> PacketView {
        match self {
            ClientPacket::ConnectRequest { ip } => PacketView::ConnectRequest { ip: ip@ },
            ClientPacket::PublicMessage { contents } => PacketView::PublicMessage {
                contents: contents@,
            },
            ClientPacket::PrivateMessage { to, contents } => PacketView::PrivateMessage {
                to: to@,
                contents: contents@,
            },
            ClientPacket::LoginRequestPacket { username, password } =>
                PacketView::LoginRequestPacket { username: username@, password: password@ },
            ClientPacket::ConnectionRejected { reason } => PacketView::ConnectionRejected {
                reason: reason@,
            },
            ClientPacket::ConnectionAccepted => PacketView::ConnectionAccepted,
            ClientPacket::AuthenticationRejected => PacketView::AuthenticationRejected,
            ClientPacket::AuthenticationAccepted { new_user } =>
                PacketView::AuthenticationAccepted { new_user: *new_user },
            ClientPacket::Error { reason } => PacketView::Error { reason: reason@ },
            ClientPacket::RoomUpdate { rooms } => PacketView::RoomUpdate {
                rooms: rooms@.map_values(|r: String| r@),
            },
            ClientPacket::RoomChange { new_room_name, old_room_name } => PacketView::RoomChange {
                new_room_name: new_room_name@,
                old_room_name: old_room_name@,
            },
            ClientPacket::Disconnect => PacketView::Disconnect,
        }
    }
}

/// Events processed by the server's main loop and sent to sessions.
#[derive(Debug)]
#[allow(inconsistent_fields)]
pub enum ServerEvent {
    /// Request to log in a user.
    LoginRequest { login_details: LoginInfo, ip_src: IpAddress },
    /// Signal that authentication was successful.
    AuthenticationAccept { user: User, new_user: bool },
    /// Signal that authentication failed.
    AuthenticationReject { reason: String },
    /// Notification of a received chat message.
    ChatMessageReceive { from: usize, contents: String },
    /// A generic message.
    Message { contents: String },
    /// A private message as delivered to one of its two parties.
    DirectMessageExternal { to: String, from: String, contents: String },
    /// A private message as received from its sender.
    PrivateMessage { to: String, from: usize, contents: String },
    /// Signal that a user has disconnected.
    UserDisconnected { user: User },
    /// A server-side error.
    Error { message: String },
    /// A user asks to move from one room to another.
    RoomChange { new_room_name: String, old_room_name: String, user_id: usize },
    /// Signal to shut down the server.
    Shutdown,
}

/// What the server makes of a packet that arrives from a logged-in user.
pub open spec fn packet_event_spec(packet: PacketView, user_id: usize) -> EventSpec {
    match packet {
        PacketView::PublicMessage { contents } => EventSpec::ChatMessageReceive {
            from: user_id,
            contents,
        },
        PacketView::PrivateMessage { to, contents } => EventSpec::PrivateMessage {
            to,
            from: user_id,
            contents,
        },
        PacketView::RoomChange { new_room_name, old_room_name } => EventSpec::RoomChange {
            new_room_name,
            old_room_name,
            user_id,
        },
        _ => EventSpec::Error { message: "Internal server error"@ },
    }
}

/// The events that a packet from a user can become.
pub enum EventSpec {
    ChatMessageReceive { from: usize, contents: Seq<char> },
    PrivateMessage { to: Seq<char>, from: usize, contents: Seq<char> },
    RoomChange { new_room_name: Seq<char>, old_room_name: Seq<char>, user_id: usize },
    Error { message: Seq<char> },
}

/// Whether `event` carries what `spec` describes.
pub open spec fn event_matches(event: ServerEvent, spec: EventSpec) -> bool {
    match spec {
        EventSpec::ChatMessageReceive { from, contents } => event matches ServerEvent::ChatMessageReceive {
            from: f,
            contents: c,
        } && f == from && c@ == contents,
        EventSpec::PrivateMessage { to, from, contents } => event matches ServerEvent::PrivateMessage {
            to: t,
            from: f,
            contents: c,
        } && t@ == to && f == from && c@ == contents,
        EventSpec::RoomChange { new_room_name, old_room_name, user_id } => event matches ServerEvent::RoomChange {
            new_room_name: n,
            old_room_name: o,
            user_id: u,
        } && n@ == new_room_name && o@ == old_room_name && u == user_id,
        EventSpec::Error { message } => event matches ServerEvent::Error { message: m } && m@
            == message,
    }
}

/// Converts a packet received from `user` into the event the server loop
/// processes: chat messages, private messages and room changes are
/// attributed to the user; anything else becomes an error event.
pub fn packet_to_event(packet: ClientPacket, user: &User) -> (res: ServerEvent)
    ensures
        event_matches(res, packet_event_spec(packet@, user.user_id)),
{
    match packet {
        ClientPacket::PublicMessage { contents } => ServerEvent::ChatMessageReceive {
            from: user.user_id,
            contents,
        },
        ClientPacket::PrivateMessage { to, contents } => ServerEvent::PrivateMessage {
            to,
            from: user.user_id,
            contents,
        },
        ClientPacket::RoomChange { new_room_name, old_room_name } => ServerEvent::RoomChange {
            new_room_name,
            old_room_name,
            user_id: user.user_id,
        },
        _ => {
            let message = String::from_str("Internal server error");
            ServerEvent::Error { message }
        },
    }
}

/// The packet written to a client for an event addressed to its session.
pub open spec fn event_packet_spec(event: ServerEvent) -> PacketView {
    match event {
        ServerEvent::Message { contents } => PacketView::PublicMessage { contents: contents@ },
        ServerEvent::DirectMessageExternal { to, contents, .. } => PacketView::PrivateMessage {
            to: to@,
            contents: contents@,
        },
        _ => PacketView::Disconnect,
    }
}

/// Converts an event addressed to a session into the packet written to its
/// client: a room message becomes a public message, a private message keeps
/// its recipient and text, and every other event becomes a disconnect.
pub fn event_to_packet(server_event: ServerEvent) -> (res: ClientPacket)
    ensures
        res@ == event_packet_spec(server_event),
{
    match server_event {
        ServerEvent::Message { contents } => ClientPacket::PublicMessage { contents },
        ServerEvent::DirectMessageExternal { to, contents, .. } => ClientPacket::PrivateMessage {
            to,
            contents,
        },
        _ => ClientPacket::Disconnect,
    }
}

} // verus!
