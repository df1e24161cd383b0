//! A client for a line-oriented text protocol over a connection that is
//! kept alive: the connection with its count of failed reconnects, the
//! session that frames lines and performs the handshake, and the stream of
//! received lines, which recovers from a lost connection up to a ceiling of
//! attempts and then gives up.

pub mod connection;
pub mod client;
