# simple_webrtc_channel

WebRTC data channels between two peers, or between clients and a server that
answers their offers over HTTP.

- `src/` is the verified library:
  - `types.rs`: signals, errors and their messages;
  - `config.rs`: the ICE servers, the side each peer plays and the kind of
    data channel;
  - `wire.rs`: the body in which the server returns its answer and ICE
    candidates (each field followed by a NUL), with the proof that the client
    reads back what the server wrote;
  - `negotiation.rs`: the steps of the task that drives a peer connection,
    decided from the step just taken and its outcome, and the error slot in
    which the first failure is kept;
  - `handshake.rs`: the server's handling of one offer request;
  - `pool.rs`, `server.rs`: which pending connections the server keeps, and
    `Server::accept`;
  - `peer.rs`, `client.rs`: the handles that the application polls;
  - `rtc.rs`: building remote session descriptions and announcing gathered
    ICE candidates, with webrtc;
  - `settings.rs`: the STUN server, the kind of data channel, queue sizes;
  - `runtime.rs`, `http.rs`: the channels, clocks and HTTP header that the
    library uses from tokio, std and tiny_http.
- `app/` runs what needs threads, sockets and the network: the task of each
  peer connection (webrtc on a tokio runtime), the client's HTTP request
  (ehttp) and the server's HTTP endpoint (tiny_http).
- `tests/` exercises the library on concrete values.

Only native targets are covered: there is no browser (wasm32) build, so the
peer task, client and server here all run on tokio threads.
