//! Session layer for a host/client peer-to-peer transport with an
//! unreliable and a reliable channel: connection state machine, typed
//! message router and login handshake.
//!
//! One tick of a client runs these calls in this order:
//! 1. `IncomingMessages::receive` for each message type, on the frames read
//!    from both channels;
//! 2. `SilkClient::read_socket`, on the transport's id, peer updates and
//!    closed flag;
//! 3. `SilkClient::on_login_responses`;
//! 4. `SilkClient::handle_requests`, on the application's requests;
//! 5. the application's own logic, which reads and queues messages;
//! 6. `OutgoingMessages::drain` for each message type, whose sends go to the
//!    transport.
//!
//! Every `TransportCommand` in the reactions is carried out by the caller.
//!
//! One tick of a host runs:
//! 1. `SilkServer::read_socket`, on the transport's id and peer updates;
//! 2. `IncomingMessages::receive` for each message type, on the frames read
//!    from both channels;
//! 3. the application's own logic;
//! 4. `OutgoingMessages::drain` for each message type, over the connected
//!    peers, whose sends go to the transport.
//!
//! The queues of a message type come from
//! `MessageRegistry::add_network_message`, once per type.

pub mod addr;
pub mod auth;
pub mod client;
pub mod laws;
pub mod peer;
pub mod router;
pub mod server;
pub mod socket;
pub mod wire;
