//! One module per communication protocol, plus what they share.
pub mod common;
pub mod graphql;
pub mod sse;
pub mod registry;
pub mod mcp;
pub mod tcp;
pub mod udp;
pub mod cli;
pub mod websocket;
pub mod http;
pub mod http_stream;
pub mod grpc;
pub mod text;
pub mod webrtc;
pub mod stream;
