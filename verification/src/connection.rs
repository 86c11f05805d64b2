//! The decisions of a server-side connection task: the login handshake with
//! a new client, and the administrator's console commands.
use vstd::prelude::*;
use crate::protocol::{ClientPacket, LoginInfo, PacketView, ServerEvent, User};
use crate::text::{trim_ascii, trim_ascii_string, str_eq};

verus! {

/// The login details carried by a login request packet; every other packet
/// is ignored while the client is not logged in.
pub fn login_request(packet: ClientPacket) -> (res: Option<LoginInfo>)
    ensures
        match packet@ {
            PacketView::LoginRequestPacket { username, password } => res matches Some(l)
                && l.username@ == username && l.password@ == password,
            _ => res is None,
        },
{
    match packet {
        ClientPacket::LoginRequestPacket { username, password } => Some(LoginInfo { username, password }),
        _ => None,
    }
}

/// What a connection does with the server's answer to a login request.
#[derive(Debug)]
pub enum HandshakeReply {
    /// Write the packet to the client and go on as `user`.
    Accepted { user: User, reply: ClientPacket },
    /// Write the packet to the client and wait for another login request.
    Rejected { reply: ClientPacket },
    /// Wait for another login request.
    Ignored,
}

/// An acceptance finishes the handshake and tells the client whether it is
/// a new user; a rejection is answered and the handshake goes on; any other
/// event is ignored.
pub fn handshake_reply(event: ServerEvent) -> (res: HandshakeReply)
    ensures
        match event {
            ServerEvent::AuthenticationAccept { user, new_user } => res matches HandshakeReply::Accepted { user: u, reply }
                && u.username@ == user.username@ && u.user_id == user.user_id
                && u.current_room_name@ == user.current_room_name@
                && reply@ == (PacketView::AuthenticationAccepted { new_user }),
            ServerEvent::AuthenticationReject { .. } => res matches HandshakeReply::Rejected { reply }
                && reply@ == PacketView::AuthenticationRejected,
            _ => res is Ignored,
        },
{
    match event {
        ServerEvent::AuthenticationAccept { user, new_user } => HandshakeReply::Accepted {
            user,
            reply: ClientPacket::AuthenticationAccepted { new_user },
        },
        ServerEvent::AuthenticationReject { .. } => HandshakeReply::Rejected {
            reply: ClientPacket::AuthenticationRejected,
        },
        _ => HandshakeReply::Ignored,
    }
}

/// Whether a line typed at the server console, trimmed of ASCII
/// whitespace, is the shutdown command.
pub fn is_shutdown_command(line: &str) -> (res: bool)
    ensures
        res == (trim_ascii(line@) == "/shutdown"@),
{
    let cmd = trim_ascii_string(line);
    str_eq(cmd.as_str(), "/shutdown")
}

} // verus!
