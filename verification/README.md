# utcp_transports

The transport layer of a Universal Tool Calling Protocol client: for each
communication protocol (HTTP, streaming HTTP, server-sent events, WebSocket,
GraphQL, gRPC, MCP, WebRTC, TCP, UDP, command lines and local scripts), how
requests are framed, where credentials go, and how the bytes that come back
become JSON values and tool descriptions.

- `src/` is the library, verified with Verus. Each transport is a set of
  functions from plain values to plain values (request plans, replies,
  stream steps) whose contracts state the result exactly, over spec
  functions on the models of the data (`JsonView`, `ToolView`, header and
  query pair sequences). Calls into the JSON, Base64 and URL libraries, and
  into `std` where `vstd` gives no specification, go through small trusted
  wrappers whose contracts say what the library documents.
- `tests/` runs the library on concrete values.
- `app/` is the asynchronous side: the `ClientTransport` interface and one
  implementation per protocol that opens connections, spawns processes and
  reads files, handing what it reads to the library and doing what the
  library's plans say.
