# peek

Self-hosted public URLs for localhost, with a verified core.

```text
localhost:3000 -> your peek server -> public URL
```

A visitor's HTTP request enters the relay, crosses a WebSocket tunnel as a
binary frame, and exits through the client to a local port; the response goes
back the same way.

## Run

```bash
export PEEK_DOMAIN=example.com
export PEEK_AUTH_TOKEN=change-me

peek localhost:3000
```

peek prints the public URL and the visitor password. The password is the one
given with `--password` or `PEEK_PASSWORD`; if none is given, peek makes one up.

## Layout

- `src/` is the library. Everything in it is written in Verus and verified.
  - `proto`: frames and HTTP messages on the wire; `proto_laws`: what is written
    is read back.
  - `relay`: the registry of tunnels, rate limits, registration and sessions,
    the password form and its cookie, routing and forwarding, configuration;
    `relay::laws`, `relay::form_laws`: the address given out leads to its tunnel,
    and the right password lets a visitor in.
  - `client`: the command line, opening a tunnel, and forwarding to the local
    server; `client::laws`: visitors always need a password, the relay takes it,
    and the client tells it.
  - `tunnel_laws`: a visitor's request reaches the local server, and its response
    reaches that visitor.
  - `seqs`, `text`, `html`, `headers`, `environment`, `message`, `close_codes`:
    what these are made of.
  - `outside`: the functions of other crates that the library calls, each with
    the contract that it takes for granted.
- `app/` has the sockets: an HTTP server and a WebSocket client around the
  library. Started as `peek-relay` it is the relay, otherwise the client.
- `tests/` runs the library.

## Limits

- Frames, request bodies and password forms are capped by `PEEK_MAX_BODY_SIZE_MB`.
- Each tunnel has a maximum number of pending requests.
- Tunnel responses time out after 30 seconds.
- The relay enforces a maximum number of tunnels.
