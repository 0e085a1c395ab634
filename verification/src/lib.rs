//! Core of a terminal chat client that talks to a remote inference server.
//!
//! The library models the client's state and logic: the ordered conversation
//! ([`chat::ChatSession`]), the wire payloads exchanged with the server
//! ([`wire`] for requests, [`decoder`] for the streamed response), the health
//! view ([`health`]), the endpoint configuration ([`client`]), and the
//! single-threaded state reducer that applies tagged update actions
//! ([`reducer`]). Transport itself (HTTP, task spawning, channels) is left to
//! the embedding application, which drives the reducer with [`reducer::Action`]
//! values and carries out the [`reducer::Command`]s it returns.

pub mod chat;
pub mod client;
pub mod decoder;
pub mod device;
pub mod error;
pub mod health;
pub mod reducer;
pub mod settings;
pub mod text;
pub mod wire;
