//! AI Pass sign-in and authenticated AI transport: the rules of the native side.
//!
//! Codes, verifiers and tokens stay on this side. The webview learns whether
//! somebody is signed in and who, which models there are, and the bounded bytes of
//! chat responses. Both tokens are kept as one value, so that they change together.

pub mod access;
pub mod authorize;
pub mod chat;
pub mod completion;
pub mod config;
pub mod connect;
pub mod crypto;
pub mod disconnect;
pub mod endpoint;
pub mod forms;
pub mod json;
pub mod metadata;
pub mod models;
pub mod pkce;
pub mod profile;
pub mod registry;
pub mod reply;
pub mod request;
pub mod session;
pub mod stream;
pub mod text;
