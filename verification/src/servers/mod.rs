//! The decisions that the server adapters make, apart from their I/O.
mod methods;
mod tauri;

pub use methods::{method_allowed, method_listed, METHOD_NOT_ALLOWED};
pub use tauri::{hex_value, percent_decode, percent_decode_lossy, replace_all, tauri_request_uri, tauri_rewrite, tauri_uri, utf8_lossy};
