# socks_weather

Two small network programs whose decision logic is a verified library:

- a SOCKS5 proxy (`src/socks.rs`, `src/proxy.rs`): the per-connection state
  machine, the decoding of requests and of the replies the proxy writes, and
  the bookkeeping that pairs each client with the remote server it asked for;
- a Telegram weather bot (`src/weather.rs`, `src/number_text.rs`): the replies
  it sends and the state the conversation moves to, including reading the
  number a user picks and writing the numbered list.

`app/` holds the event loop of the proxy (sockets, `polling`, name resolution)
and the bot's Telegram and HTTP plumbing (`teloxide`, `reqwest`, `serde`). It
performs what the library decides. Run it with `bot` as the first argument for
the bot, without arguments for the proxy.
