# xyzen_relay

A self-hosted, RustDesk-compatible rendezvous and relay service, with an HTTP
control plane, a video fan-out and screen capturers. What the services decide
and compute is a Verus library: its functions carry contracts, and Verus proves
them.

## Layout

| Path    | What it holds                                                          |
| ------- | ---------------------------------------------------------------------- |
| `src/`  | the verified library                                                   |
| `app/`  | the program: sockets, HTTP, the database, the platforms' capture APIs  |
| `tests/`| tests of the library                                                   |

The library opens no socket, no file and no database; it reads the clock and the
system's randomness, through one call each. A server is a function from its state and one event to
the next state and the actions that the event calls for; `app/` feeds the events
in and performs the actions.

| Module                              | Role                                          |
| ----------------------------------- | --------------------------------------------- |
| `codec`, `message`                  | RustDesk framing and the rendezvous messages  |
| `registry`, `pending`, `server`     | peer registry and punch coordination          |
| `audit`, `config`                   | audit events and settings                     |
| `relay`                             | pairing and forwarding                        |
| `stream`                            | rooms of publishers and viewers               |
| `control`                           | bearer token, peer ids, audit log             |
| `capture`, `capturer`               | what the capturers share, and the publisher   |
| `win_capturer`, `mac_capturer`      | pixel and bitstream formats, live settings    |
| `buffer`, `json`                    | the `bytes` and `serde_json` calls            |

## What is trusted

The contracts of calls into other crates are believed, not proved. They stand in
`buffer` (`bytes`), `json` (`serde_json`), `control::http` (`axum`'s header map),
`control::ids` (`rand`) and `control::audit` (`chrono`), each under a comment that
names the call.

## License

AGPL-3.0-or-later.
