//! A plain TCP exchange between one server and one client: addresses, the
//! messages they trade, and the server's message store.
use vstd::prelude::*;
use vstd::string::*;

verus! {

/// An IPv4 endpoint.
#[derive(Clone, Copy, Debug)]
pub struct Connection {
    pub ip: [u8; 4],
    pub port: u16,
}

/// A message between two endpoints.
#[derive(Debug)]
pub struct Message {
    pub dst: Connection,
    pub src: Connection,
    pub contents: String,
}

/// A client the server has accepted.
#[derive(Clone, Copy, Debug)]
pub struct ServerConnection {
    pub client_ip: [u8; 4],
}

/// The server: its clients and the messages it has stored.
#[derive(Debug)]
pub struct Server {
    pub connections: Vec<ServerConnection>,
    pub message_store: Vec<Message>,
}

/// The client's own endpoint and name.
#[derive(Debug)]
pub struct Client {
    pub ip: [u8; 4],
    pub nickname: String,
    pub port: u16,
}

/// 127.0.0.1:8080, where the server listens.
pub open spec fn server_address() -> Connection {
    Connection { ip: [127, 0, 0, 1], port: 8080 }
}

/// The server's own endpoint.
pub fn server_endpoint() -> (res: Connection)
    ensures
        res == server_address(),
{
    Connection { ip: [127, 0, 0, 1], port: 8080 }
}

impl Server {
    pub fn new() -> (res: Self)
        ensures
            res.connections@.len() == 0,
            res.message_store@.len() == 0,
    {
        Server { connections: Vec::new(), message_store: Vec::new() }
    }

    /// Stores a message after the ones stored before.
    pub fn process_new_msg(&mut self, message: Message)
        ensures
            final(self).message_store@ == old(self).message_store@.push(message),
            final(self).connections == old(self).connections,
    {
        self.message_store.push(message);
    }

    /// The greeting the server sends to a client that connects from
    /// `client`.
    pub fn welcome(client: Connection) -> (res: Message)
        ensures
            res.dst == client,
            res.src == server_address(),
            res.contents@ == "Welcome to the server"@,
    {
        Message { dst: client, src: server_endpoint(), contents: String::from_str("Welcome to the server") }
    }
}

impl Client {
    /// The greeting a client at `this` sends to the server.
    pub fn hello(this: Connection) -> (res: Message)
        ensures
            res.src == this,
            res.dst == server_address(),
            res.contents@ == "Hello from client!"@,
    {
        Message { src: this, dst: server_endpoint(), contents: String::from_str("Hello from client!") }
    }

}

} // verus!
