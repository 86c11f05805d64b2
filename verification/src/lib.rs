//! Verified core of a small chat system: the wire packets, the server's
//! rooms and sessions, and the client's login and home screens.
pub mod text;
pub mod protocol;
pub mod room;
pub mod server;
pub mod validation;
pub mod crypto;
pub mod db;
pub mod connection;
pub mod login;
pub mod input;
pub mod commands;
pub mod message_box;
pub mod client;
pub mod home;
pub mod simple_ui;
pub mod tcp_demo;
