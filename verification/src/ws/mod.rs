//! is the module containing code related to handling incoming websockets.
pub(crate) mod accept;
mod message;
mod upgrade;

pub use accept::{accept_key, b64_digit, base64_standard, is_b64_char, sha1, sign, websocket_guid};
pub use message::{
    decimal, decimal_string, digit_char, display_text, frame_len, header_len, message_len, message_payload,
    message_text, CloseFrame, Frame, FrameHeader, Message, OpCode,
};
pub use upgrade::{
    asks_for_websocket, expected_cookies, head_headers, header_has, header_is, upgrade_headers_ok, upgrade_status,
    websocket_key, ResponseHead, WebSocketUpgradeResponse, WebsocketUpgrade,
};
