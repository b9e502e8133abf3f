# web3 transports, verified

The logic of an Ethereum JSON-RPC client's transports, written in Verus and
proved against its contracts.

- `src/rpc.rs`: the JSON-RPC data (calls, requests, responses, notifications)
  and the calls into `serde_json` and `jsonrpc-core` that read and write it.
- `src/dispatch.rs`: request ids, batches, and the routing of answers to the
  requests and subscriptions that wait for them.
- `src/ipc.rs`: finding messages in the bytes read from a socket, the read
  buffer, the writer, and the connection state with its retries.
- `src/ws.rs`: the handling of WebSocket frames and the WebSocket connection state.
- `src/http.rs`: credentials from the URL, request headers, and reading answers.
- `src/api.rs`, `src/types.rs`: the `parity` and `internal` namespaces.
- `src/contract.rs`: results of contract calls and queries.
- `src/text.rs`: decimal and hexadecimal text.

`app/` holds the I/O around the library: the tokio event loop, Unix sockets,
WebSocket and HTTP clients, and the JSON forms of the node kinds.
