//! Verified core of an HTTP/1.1, HTTP/2 and WebSocket protocol stack.
//!
//! The modules hold the decisions and byte-level logic of the stack
//! (body framing, compression selection, connection bookkeeping, frame
//! scheduling, proxy handshakes, WebSocket handshakes, the event loops of
//! clients and servers); the sockets, timers and task plumbing live outside
//! the verified crate and drive these functions.

pub mod client;
pub mod compress;
pub mod consts;
pub mod error;
pub mod header_helper;
pub mod helper;
pub mod http1;
pub mod http1_read;
pub mod http2;
pub mod http_helper;
pub mod layer;
pub mod middle;
pub mod priority_queue;
pub mod proxy;
pub mod recv_stream;
pub mod send_stream;
pub mod server;
pub mod ws;

pub use client::{Builder, ClientOption, Http2Settings};
pub use consts::Consts;
pub use error::{Initiator, ProtError, ProtResult, WebFault};
pub use header_helper::{HeaderEdits, HeaderFacts, HeaderHelper, HttpVersion};
pub use http1::SendStatus;
pub use http2::FlowControl;
pub use http_helper::{AcceptEncoding, HttpHelper};
pub use layer::{Rate, TimeoutLayer};
pub use middle::BaseMiddleware;
pub use proxy::ProxyScheme;
pub use recv_stream::RecvStream;
pub use send_stream::SendStream;
pub use ws::{CloseData, WsHandshake, WsState};
