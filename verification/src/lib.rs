//! The decision logic of a small SOCKS5 proxy and of a weather chat bot.
//!
//! `socks` holds the per-connection state machine of the proxy, the parsing of
//! SOCKS5 requests and the bookkeeping that pairs a client with the remote
//! server it asked for. `weather` holds the dialogue of the chat bot: which
//! replies it sends and which state the conversation moves to.
pub mod socks;
pub mod proxy;
pub mod number_text;
pub mod weather;
