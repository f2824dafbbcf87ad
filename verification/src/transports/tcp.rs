use vstd::prelude::*;
use crate::chars::{trim, trim_str};
use crate::error::ErrorKind;
use crate::json::{spec_parse_json, JsonView};
use crate::providers::TcpProvider;
use crate::tools::Tool;
use crate::transports::common::{
    error_with, request_bytes, socket_address, spec_address, spec_request_bytes, StreamStep,
    ToolArgs,
};

verus! {

/// Exchanges JSON with a provider over a TCP connection: one request and
/// one reply, or one request and a reply of newline-separated values.
pub struct TcpTransport;

/// What one line of a streamed reply hands on: nothing for a blank line,
/// the value of the trimmed line, or an error that ends the stream.
pub open spec fn spec_line_step(line: Seq<char>) -> (Seq<Result<JsonView, Seq<char>>>, bool) {
    let t = trim(line);
    if t.len() == 0 {
        (seq![], false)
    } else {
        match spec_parse_json(t) {
            Ok(v) => (seq![Ok(v)], false),
            Err(e) => (seq![Err("Failed to parse TCP stream JSON: "@ + e)], true),
        }
    }
}

impl TcpTransport {
    /// A TCP transport.
    pub fn new() -> (r: TcpTransport) {
        TcpTransport
    }

    /// The tools found on registration: a TCP provider declares none.
    pub fn register_tool_provider(&self) -> (r: Vec<Tool>)
        ensures
            r@.len() == 0,
    {
        Vec::new()
    }

    /// The address of the provider.
    pub fn address(prov: &TcpProvider) -> (r: String)
        ensures
            r@ == spec_address(prov.host@, prov.port),
    {
        socket_address(prov.host.as_str(), prov.port)
    }

    /// The request of a streamed call: the request's JSON text and a
    /// newline.
    pub fn stream_request(tool_name: &str, args: &ToolArgs) -> (r: Vec<u8>)
        ensures
            r@ == spec_request_bytes(tool_name@, args@).push(10u8),
    {
        let mut r = request_bytes(tool_name, args);
        r.push(10u8);
        r
    }

    /// What one line of a streamed reply hands on (see `spec_line_step`).
    pub fn stream_line_step(line: &str) -> (r: StreamStep)
        ensures
            r.view() == spec_line_step(line@),
    {
        let t = trim_str(line);
        if t.as_str().is_empty() {
            return StreamStep::empty(false);
        }
        match crate::json::parse_json(t.as_str()) {
            Ok(v) => StreamStep::one(Ok(v), false),
            Err(e) => StreamStep::one(Err(error_with(ErrorKind::Parse, "Failed to parse TCP stream JSON: ", e.as_str())), true),
        }
    }
}

} // verus!
