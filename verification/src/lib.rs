//! A relay between an end-user-facing application and a third-party CAPTCHA
//! verification service.
//!
//! The library holds the protocol core: the register/validate flows and their
//! degraded-mode branch (`server`), the keyed digest transform applied to
//! upstream challenge tokens (`digest`), the fallback challenge generator
//! (`fallback`), the upstream request/response codecs (`client`), and the
//! client-facing wire codecs and routing (`router`). The HTTP transport that
//! carries these messages lives outside the library; it hands in plain values
//! (method, path, body bytes, upstream reply fields) and sends back the
//! replies the library builds.

pub mod client;
pub mod codec;
pub mod digest;
pub mod error;
pub mod fallback;
pub mod models;
pub mod router;
pub mod server;
pub mod text;
