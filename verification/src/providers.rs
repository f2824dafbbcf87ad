use vstd::prelude::*;
use crate::auth::AuthConfig;

verus! {

/// The protocol a provider is reached over.
#[derive(PartialEq, Eq, Structural, Clone, Copy, Debug)]
pub enum ProviderType {
    Http,
    Cli,
    Websocket,
    Grpc,
    Graphql,
    Tcp,
    Udp,
    Sse,
    Mcp,
    Webrtc,
    HttpStream,
    Text,
}

/// What every provider has: a name, its protocol, optional credentials and
/// an optional allow-list of protocols.
#[derive(Clone, Debug, PartialEq)]
pub struct BaseProvider {
    pub name: String,
    pub provider_type: ProviderType,
    pub auth: Option<AuthConfig>,
    pub allowed_communication_protocols: Option<Vec<String>>,
}

/// A provider whose tools are run as a command line.
#[derive(Clone, Debug, PartialEq)]
pub struct CliProvider {
    pub base: BaseProvider,
    pub command_name: String,
    pub working_dir: Option<String>,
    pub env_vars: Option<Vec<(String, String)>>,
}

/// A provider whose tools are scripts in a directory.
#[derive(Clone, Debug, PartialEq)]
pub struct TextProvider {
    pub base: BaseProvider,
    pub base_path: Option<String>,
}

/// A provider reached over a TCP connection.
#[derive(Clone, Debug, PartialEq)]
pub struct TcpProvider {
    pub base: BaseProvider,
    pub host: String,
    pub port: u16,
    pub timeout_ms: Option<u64>,
}

/// A provider reached with UDP datagrams.
#[derive(Clone, Debug, PartialEq)]
pub struct UdpProvider {
    pub base: BaseProvider,
    pub host: String,
    pub port: u16,
    pub timeout_ms: Option<u64>,
}

/// A provider reached with plain HTTP requests.
#[derive(Clone, Debug, PartialEq)]
pub struct HttpProvider {
    pub base: BaseProvider,
    pub http_method: String,
    pub url: String,
    pub content_type: Option<String>,
    pub headers: Option<Vec<(String, String)>>,
    pub body_field: Option<String>,
    pub header_fields: Option<Vec<String>>,
}

/// A provider whose HTTP responses stream JSON values.
#[derive(Clone, Debug, PartialEq)]
pub struct StreamableHttpProvider {
    pub base: BaseProvider,
    pub url: String,
    pub http_method: String,
    pub headers: Option<Vec<(String, String)>>,
}

/// A provider that answers with server-sent events.
#[derive(Clone, Debug, PartialEq)]
pub struct SseProvider {
    pub base: BaseProvider,
    pub url: String,
    pub headers: Option<Vec<(String, String)>>,
    pub body_field: Option<String>,
    pub header_fields: Option<Vec<String>>,
}

/// A provider reached over WebSocket connections.
impl SseProvider {
    /// A provider at `url` with no extra headers, body field or header fields.
    pub fn new(name: String, url: String, auth: Option<AuthConfig>) -> (r: SseProvider)
        ensures
            r.base.name@ == name@,
            r.base.provider_type == ProviderType::Sse,
            r.base.auth == auth,
            r.base.allowed_communication_protocols is None,
            r.url@ == url@,
            r.headers is None,
            r.body_field is None,
            r.header_fields is None,
    {
        SseProvider {
            base: BaseProvider {
                name,
                provider_type: ProviderType::Sse,
                auth,
                allowed_communication_protocols: None,
            },
            url,
            headers: None,
            body_field: None,
            header_fields: None,
        }
    }
}

#[derive(Clone, Debug, PartialEq)]
pub struct WebSocketProvider {
    pub base: BaseProvider,
    pub url: String,
    pub protocol: Option<String>,
    pub keep_alive: bool,
    pub headers: Option<Vec<(String, String)>>,
}

/// A provider whose tools are GraphQL operations.
#[derive(Clone, Debug, PartialEq)]
pub struct GraphqlProvider {
    pub base: BaseProvider,
    pub url: String,
    pub operation_type: String,
    pub operation_name: Option<String>,
    pub headers: Option<Vec<(String, String)>>,
}

/// A provider reached over gRPC.
#[derive(Clone, Debug, PartialEq)]
pub struct GrpcProvider {
    pub base: BaseProvider,
    pub host: String,
    pub port: u16,
    pub use_ssl: bool,
}

impl GrpcProvider {
    /// A gRPC provider without TLS.
    pub fn new(name: String, host: String, port: u16, auth: Option<AuthConfig>) -> (r: GrpcProvider)
        ensures
            r.base.name@ == name@,
            r.base.provider_type == ProviderType::Grpc,
            r.base.auth == auth,
            r.base.allowed_communication_protocols is None,
            r.host@ == host@,
            r.port == port,
            !r.use_ssl,
    {
        GrpcProvider {
            base: BaseProvider {
                name,
                provider_type: ProviderType::Grpc,
                auth,
                allowed_communication_protocols: None,
            },
            host,
            port,
            use_ssl: false,
        }
    }
}

/// A Model Context Protocol provider, reached over HTTP (`url`) or through a
/// child process speaking on its standard streams (`command`).
#[derive(Clone, Debug, PartialEq)]
pub struct McpProvider {
    pub base: BaseProvider,
    pub url: Option<String>,
    pub command: Option<String>,
    pub args: Option<Vec<String>>,
    pub env_vars: Option<Vec<(String, String)>>,
    pub headers: Option<Vec<(String, String)>>,
}

impl McpProvider {
    /// Whether the provider is reached over HTTP.
    pub fn is_http(&self) -> (r: bool)
        ensures
            r == self.url is Some,
    {
        self.url.is_some()
    }

    /// Whether the provider is reached through a child process.
    pub fn is_stdio(&self) -> (r: bool)
        ensures
            r == self.command is Some,
    {
        self.command.is_some()
    }
}

/// A STUN or TURN server for WebRTC connectivity.
#[derive(Clone, Debug, PartialEq)]
pub struct IceServer {
    pub urls: Vec<String>,
    pub username: Option<String>,
    pub credential: Option<String>,
}

/// A provider reached over a WebRTC data channel.
#[derive(Clone, Debug, PartialEq)]
pub struct WebRtcProvider {
    pub base: BaseProvider,
    pub signaling_server: String,
    pub ice_servers: Vec<IceServer>,
    pub channel_label: String,
    pub ordered: bool,
    pub max_retransmits: Option<u16>,
    pub max_packet_life_time: Option<u16>,
}

} // verus!
