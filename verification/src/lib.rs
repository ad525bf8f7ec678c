//! Code once, support every Rust webserver: the verified core of the endpoint
//! adapters, the request model, websocket messages and the websocket handshake.
pub mod cookies;
mod endpoint;
mod error;
pub mod headers;
pub mod laws;
pub mod request;
mod server;
pub mod servers;
pub mod text;
pub mod ws;

pub use endpoint::{Endpoint, GenericEndpoint};
pub use error::Error;
pub use request::{Method, Parts, Request, Version};
pub use server::{server_name, Server};

pub use cookie;
pub use form_urlencoded;
pub use http;
