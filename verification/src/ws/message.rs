use vstd::prelude::*;
use vstd::utf8::{decode_utf8, encode_utf8, valid_utf8};
use crate::error::Error;
use crate::text::{lemma_encode_utf8_empty, str_from_utf8, string_from_utf8, string_into_bytes};
use vstd::string::StringExecFns;

verus! {

/// The opcode of a websocket frame.
#[derive(Debug, Clone, Copy, PartialEq, Eq, Structural)]
pub enum OpCode {
    /// a continuation of a fragmented message
    Continue,
    /// a text frame
    Text,
    /// a binary frame
    Binary,
    /// a reserved data opcode (3 to 7)
    DataReserved(u8),
    /// a close frame
    Close,
    /// a ping frame
    Ping,
    /// a pong frame
    Pong,
    /// a reserved control opcode (11 to 15)
    ControlReserved(u8),
}

/// The header of a websocket frame.
#[derive(Debug, Clone, Copy, PartialEq, Eq)]
pub struct FrameHeader {
    /// Indicates that the frame is the last one of a possibly fragmented message.
    pub is_final: bool,
    /// Reserved for protocol extensions.
    pub rsv1: bool,
    /// Reserved for protocol extensions.
    pub rsv2: bool,
    /// Reserved for protocol extensions.
    pub rsv3: bool,
    /// WebSocket protocol opcode.
    pub opcode: OpCode,
    /// A frame mask, if any.
    pub mask: Option<[u8; 4]>,
}

/// A raw websocket frame: its header and its payload.
#[derive(Debug, Clone, PartialEq, Eq)]
pub struct Frame {
    /// the frame header
    pub header: FrameHeader,
    /// the frame payload
    pub payload: Vec<u8>,
}

/// The content of a close message: a status code and a reason.
#[derive(Debug, Clone, PartialEq, Eq)]
pub struct CloseFrame {
    /// The reason as a code.
    pub code: u16,
    /// The reason as text string.
    pub reason: String,
}

/// An enum representing the various forms of a WebSocket message.
#[derive(Debug, Eq, PartialEq, Clone)]
pub enum Message {
    /// A text WebSocket message
    Text(String),
    /// A binary WebSocket message
    Binary(Vec<u8>),
    /// A ping message with the specified payload
    ///
    /// The payload here must have a length less than 125 bytes
    Ping(Vec<u8>),
    /// A pong message with the specified payload
    ///
    /// The payload here must have a length less than 125 bytes
    Pong(Vec<u8>),
    /// A close message with the optional close frame.
    Close(Option<CloseFrame>),
    /// Raw frame. Note, that you're not going to get this value while reading the message.
    Frame(Frame),
}

/// The length of a frame header for a payload of `payload_len` bytes: two
/// bytes, the extended length (none below 126, two below 65536, eight
/// otherwise) and four bytes of mask where there is one.
pub open spec fn header_len(header: FrameHeader, payload_len: nat) -> nat {
    2 + (if payload_len < 126 {
        0nat
    } else if payload_len < 65536 {
        2nat
    } else {
        8nat
    }) + (if header.mask is Some {
        4nat
    } else {
        0nat
    })
}

/// The length of a frame on the wire: its header and its payload.
pub open spec fn frame_len(frame: Frame) -> nat {
    header_len(frame.header, frame.payload@.len()) + frame.payload@.len()
}

/// The data that a message carries, as bytes.
pub open spec fn message_payload(m: Message) -> Seq<u8> {
    match m {
        Message::Text(s) => encode_utf8(s@),
        Message::Binary(d) => d@,
        Message::Ping(d) => d@,
        Message::Pong(d) => d@,
        Message::Close(None) => Seq::empty(),
        Message::Close(Some(f)) => encode_utf8(f.reason@),
        Message::Frame(f) => f.payload@,
    }
}

/// The length of a message: the bytes of its data, or for a raw frame the
/// length of the whole frame.
pub open spec fn message_len(m: Message) -> nat {
    match m {
        Message::Frame(f) => frame_len(f),
        _ => message_payload(m).len(),
    }
}

/// The message read as text: its text, or its bytes decoded where they are valid UTF-8.
pub open spec fn message_text(m: Message) -> Option<Seq<char>> {
    match m {
        Message::Text(s) => Some(s@),
        Message::Close(None) => Some(Seq::empty()),
        Message::Close(Some(f)) => Some(f.reason@),
        _ => if valid_utf8(message_payload(m)) {
            Some(decode_utf8(message_payload(m)))
        } else {
            None
        },
    }
}

/// The decimal digits of `n`, most significant first.
pub open spec fn decimal(n: nat) -> Seq<char>
    decreases n,
{
    if n < 10 {
        seq![digit_char(n)]
    } else {
        decimal(n / 10) + seq![digit_char(n % 10)]
    }
}

/// The character of a decimal digit.
pub open spec fn digit_char(d: nat) -> char {
    if d == 0 { '0' }
    else if d == 1 { '1' }
    else if d == 2 { '2' }
    else if d == 3 { '3' }
    else if d == 4 { '4' }
    else if d == 5 { '5' }
    else if d == 6 { '6' }
    else if d == 7 { '7' }
    else if d == 8 { '8' }
    else { '9' }
}

/// How a message is displayed: its text where it reads as text, otherwise
/// `Binary Data<length=N>` with its length.
pub open spec fn display_text(m: Message) -> Seq<char> {
    match message_text(m) {
        Some(t) => t,
        None => "Binary Data<length="@ + decimal(message_len(m)) + ">"@,
    }
}


/// `impl<T> From<T> for T` in core: converting a value into its own type hands
/// the value back unchanged. (What `Message::text` and `Message::binary` get
/// from a `String` or a `Vec<u8>` goes through it.)
pub assume_specification<X>[ <X as std::convert::From<X>>::from ](t: X) -> (ret: X)
    ensures
        ret == t,
;

/// `impl From<&str> for String` in alloc: a new `String` holding the slice's text.
/// (What `Message::text` gets from a string slice goes through it.)
pub assume_specification<'a>[ <String as std::convert::From<&'a str>>::from ](s: &str) -> (ret: String)
    ensures
        ret@ == s@,
;

/// `impl<T: Clone> From<&[T]> for Vec<T>` in alloc: a new `Vec` filled by cloning
/// the slice's items in order. (What `Message::binary` gets from a byte slice
/// goes through it.)
pub assume_specification<'a, X: Clone>[ <std::vec::Vec<X> as std::convert::From<&'a [X]>>::from ](s: &[X]) -> (ret: std::vec::Vec<X>)
    ensures
        ret@.len() == s@.len(),
        forall|i: int| 0 <= i < s@.len() ==> vstd::pervasive::cloned(s@[i], #[trigger] ret@[i]),
;

impl FrameHeader {
    /// Get the length of the header for a payload of `length` bytes.
    pub fn len(&self, length: u64) -> (n: usize)
        ensures
            n == header_len(*self, length as nat),
    {
        let extra: usize = if length < 126 {
            0
        } else if length < 65536 {
            2
        } else {
            8
        };
        2 + extra + if self.mask.is_some() { 4 } else { 0 }
    }
}

impl Frame {
    /// Get the length of the frame.
    /// This is the length of the header + the length of the payload.
    pub fn len(&self) -> (n: usize)
        requires
            frame_len(*self) <= usize::MAX,
        ensures
            n == frame_len(*self),
    {
        let length = self.payload.len();
        self.header.len(length as u64) + length
    }

    /// Check if the frame is empty.
    pub fn is_empty(&self) -> (empty: bool)
        ensures
            empty == (frame_len(*self) == 0),
    {
        self.header.len(self.payload.len() as u64) == 0 && self.payload.len() == 0
    }

    /// Consume the frame into its payload.
    pub fn into_data(self) -> (data: Vec<u8>)
        ensures
            data@ == self.payload@,
    {
        self.payload
    }
}

impl Message {
    /// Create a new text WebSocket message from a stringable.
    pub fn text<S>(string: S) -> (m: Message)
        where
            S: Into<String>,
        ensures
            m matches Message::Text(t) && call_ensures(S::into, (string,), t),
    {
        Message::Text(string.into())
    }

    /// Create a new binary WebSocket message by converting to Vec<u8>.
    pub fn binary<B>(bin: B) -> (m: Message)
        where
            B: Into<Vec<u8>>,
        ensures
            m matches Message::Binary(d) && call_ensures(B::into, (bin,), d),
    {
        Message::Binary(bin.into())
    }

    /// Indicates whether a message is a text message.
    pub fn is_text(&self) -> (b: bool)
        ensures
            b == (*self is Text),
    {
        matches!(*self, Message::Text(_))
    }

    /// Indicates whether a message is a binary message.
    pub fn is_binary(&self) -> (b: bool)
        ensures
            b == (*self is Binary),
    {
        matches!(*self, Message::Binary(_))
    }

    /// Indicates whether a message is a ping message.
    pub fn is_ping(&self) -> (b: bool)
        ensures
            b == (*self is Ping),
    {
        matches!(*self, Message::Ping(_))
    }

    /// Indicates whether a message is a pong message.
    pub fn is_pong(&self) -> (b: bool)
        ensures
            b == (*self is Pong),
    {
        matches!(*self, Message::Pong(_))
    }

    /// Indicates whether a message ia s close message.
    pub fn is_close(&self) -> (b: bool)
        ensures
            b == (*self is Close),
    {
        matches!(*self, Message::Close(_))
    }

    /// Get the length of the WebSocket message.
    pub fn len(&self) -> (n: usize)
        requires
            *self matches Message::Frame(f) ==> frame_len(f) <= usize::MAX,
        ensures
            n == message_len(*self),
    {
        match self {
            Message::Text(string) => string.as_str().as_bytes().len(),
            Message::Binary(data) => data.len(),
            Message::Ping(data) => data.len(),
            Message::Pong(data) => data.len(),
            Message::Close(None) => 0,
            Message::Close(Some(frame)) => frame.reason.as_str().as_bytes().len(),
            Message::Frame(frame) => frame.len(),
        }
    }

    /// Returns true if the WebSocket message has no content.
    /// For example, if the other side of the connection sent an empty string.
    pub fn is_empty(&self) -> (empty: bool)
        ensures
            empty == (message_len(*self) == 0),
    {
        match self {
            Message::Text(string) => {
                proof {
                    lemma_encode_utf8_empty(string@);
                }
                string.as_str().is_empty()
            },
            Message::Binary(data) => data.len() == 0,
            Message::Ping(data) => data.len() == 0,
            Message::Pong(data) => data.len() == 0,
            Message::Close(None) => true,
            Message::Close(Some(frame)) => {
                proof {
                    lemma_encode_utf8_empty(frame.reason@);
                }
                frame.reason.as_str().is_empty()
            },
            Message::Frame(frame) => frame.is_empty(),
        }
    }

    /// Consume the WebSocket and return it as binary data.
    pub fn into_data(self) -> (data: Vec<u8>)
        ensures
            data@ == message_payload(self),
    {
        match self {
            Message::Text(string) => string_into_bytes(string),
            Message::Binary(data) => data,
            Message::Ping(data) => data,
            Message::Pong(data) => data,
            Message::Close(None) => Vec::new(),
            Message::Close(Some(frame)) => string_into_bytes(frame.reason),
            Message::Frame(frame) => frame.into_data(),
        }
    }

    /// Attempt to consume the WebSocket message and convert it to a String.
    pub fn into_text(self) -> (text: Result<String, Error>)
        ensures
            text matches Ok(t) ==> message_text(self) == Some(t@),
            text is Err ==> message_text(self) is None && text matches Err(Error::Utf8),
    {
        let ghost m = self;
        match self {
            Message::Text(string) => Ok(string),
            Message::Binary(data) => utf8_text(data),
            Message::Ping(data) => utf8_text(data),
            Message::Pong(data) => utf8_text(data),
            Message::Close(None) => Ok(String::new()),
            Message::Close(Some(frame)) => Ok(frame.reason),
            Message::Frame(frame) => utf8_text(frame.payload),
        }
    }

    /// Attempt to get a &str from the WebSocket message,
    /// this will try to convert binary data to utf8.
    pub fn to_text(&self) -> (text: Result<&str, Error>)
        ensures
            text matches Ok(t) ==> message_text(*self) == Some(t@),
            text is Err ==> message_text(*self) is None && text matches Err(Error::Utf8),
    {
        match self {
            Message::Text(string) => Ok(string.as_str()),
            Message::Binary(data) => utf8_str(data.as_slice()),
            Message::Ping(data) => utf8_str(data.as_slice()),
            Message::Pong(data) => utf8_str(data.as_slice()),
            Message::Close(None) => {
                proof {
                    reveal_strlit("");
                }
                Ok("")
            },
            Message::Close(Some(frame)) => Ok(frame.reason.as_str()),
            Message::Frame(frame) => utf8_str(frame.payload.as_slice()),
        }
    }

    /// How the message is displayed: its text where it reads as text,
    /// otherwise `Binary Data<length=N>`.
    pub fn display(&self) -> (shown: String)
        requires
            *self matches Message::Frame(f) ==> frame_len(f) <= usize::MAX,
        ensures
            shown@ == display_text(*self),
    {
        match self.to_text() {
            Ok(text) => String::from_str(text),
            Err(_) => {
                let mut shown = String::from_str("Binary Data<length=");
                let digits = decimal_string(self.len());
                shown.append(digits.as_str());
                shown.append(">");
                proof {
                    reveal_strlit("Binary Data<length=");
                    reveal_strlit(">");
                }
                shown
            },
        }
    }
}

impl From<String> for Message {
    fn from(string: String) -> (m: Self) {
        Message::Text(string)
    }
}

impl vstd::std_specs::convert::FromSpecImpl<String> for Message {
    open spec fn obeys_from_spec() -> bool {
        true
    }

    open spec fn from_spec(string: String) -> Self {
        Message::Text(string)
    }
}

impl From<Vec<u8>> for Message {
    fn from(data: Vec<u8>) -> (m: Self) {
        Message::Binary(data)
    }
}

impl vstd::std_specs::convert::FromSpecImpl<Vec<u8>> for Message {
    open spec fn obeys_from_spec() -> bool {
        true
    }

    open spec fn from_spec(data: Vec<u8>) -> Self {
        Message::Binary(data)
    }
}

impl<'s> From<&'s str> for Message {
    fn from(string: &'s str) -> (m: Self)
        ensures
            m matches Message::Text(t) && t@ == string@,
    {
        Message::Text(String::from_str(string))
    }
}

/// The message that converting a string slice gives holds a new `String`,
/// which no spec value names: what `from` gives is stated on `from` itself.
impl<'s> vstd::std_specs::convert::FromSpecImpl<&'s str> for Message {
    open spec fn obeys_from_spec() -> bool {
        false
    }

    open spec fn from_spec(string: &'s str) -> Self {
        vstd::pervasive::arbitrary()
    }
}

impl<'b> From<&'b [u8]> for Message {
    fn from(data: &'b [u8]) -> (m: Self)
        ensures
            m matches Message::Binary(d) && d@ == data@,
    {
        Message::Binary(vstd::slice::slice_to_vec(data))
    }
}

/// The message that converting a byte slice gives holds a new `Vec`, which
/// no spec value names: what `from` gives is stated on `from` itself.
impl<'b> vstd::std_specs::convert::FromSpecImpl<&'b [u8]> for Message {
    open spec fn obeys_from_spec() -> bool {
        false
    }

    open spec fn from_spec(data: &'b [u8]) -> Self {
        vstd::pervasive::arbitrary()
    }
}

impl From<Message> for Vec<u8> {
    fn from(message: Message) -> (data: Self)
        ensures
            data@ == message_payload(message),
    {
        message.into_data()
    }
}

/// The bytes of a message are a new `Vec`, which no spec value names: what
/// `from` gives is stated on `from` itself.
impl vstd::std_specs::convert::FromSpecImpl<Message> for Vec<u8> {
    open spec fn obeys_from_spec() -> bool {
        false
    }

    open spec fn from_spec(message: Message) -> Self {
        vstd::pervasive::arbitrary()
    }
}

impl TryFrom<Message> for String {
    type Error = Error;

    fn try_from(value: Message) -> (text: Result<Self, Error>)
        ensures
            text matches Ok(t) ==> message_text(value) == Some(t@),
            text is Err ==> message_text(value) is None && text matches Err(Error::Utf8),
    {
        value.into_text()
    }
}

/// The text of a message is a new `String`, which no spec value names: what
/// `try_from` gives is stated on `try_from` itself.
impl vstd::std_specs::convert::TryFromSpecImpl<Message> for String {
    open spec fn obeys_try_from_spec() -> bool {
        false
    }

    open spec fn try_from_spec(value: Message) -> Result<Self, Error> {
        vstd::pervasive::arbitrary()
    }
}

/// The bytes as text, or `Error::Utf8` where they are not valid UTF-8.
fn utf8_text(data: Vec<u8>) -> (text: Result<String, Error>)
    ensures
        text matches Ok(t) ==> valid_utf8(data@) && t@ == decode_utf8(data@),
        text is Err ==> !valid_utf8(data@) && text matches Err(Error::Utf8),
{
    match string_from_utf8(data) {
        Some(t) => Ok(t),
        None => Err(Error::Utf8),
    }
}

/// The bytes as a string slice, or `Error::Utf8` where they are not valid UTF-8.
fn utf8_str(data: &[u8]) -> (text: Result<&str, Error>)
    ensures
        text matches Ok(t) ==> valid_utf8(data@) && t@ == decode_utf8(data@),
        text is Err ==> !valid_utf8(data@) && text matches Err(Error::Utf8),
{
    match str_from_utf8(data) {
        Some(t) => Ok(t),
        None => Err(Error::Utf8),
    }
}

/// The one-character string of a decimal digit.
fn digit_str(d: usize) -> (s: &'static str)
    requires
        d < 10,
    ensures
        s@ == seq![digit_char(d as nat)],
{
    proof {
        reveal_strlit("0");
        reveal_strlit("1");
        reveal_strlit("2");
        reveal_strlit("3");
        reveal_strlit("4");
        reveal_strlit("5");
        reveal_strlit("6");
        reveal_strlit("7");
        reveal_strlit("8");
        reveal_strlit("9");
    }
    if d == 0 { "0" }
    else if d == 1 { "1" }
    else if d == 2 { "2" }
    else if d == 3 { "3" }
    else if d == 4 { "4" }
    else if d == 5 { "5" }
    else if d == 6 { "6" }
    else if d == 7 { "7" }
    else if d == 8 { "8" }
    else { "9" }
}

/// The decimal form of `n`.
pub fn decimal_string(n: usize) -> (s: String)
    ensures
        s@ == decimal(n as nat),
    decreases n,
{
    if n < 10 {
        String::from_str(digit_str(n))
    } else {
        let mut s = decimal_string(n / 10);
        s.append(digit_str(n % 10));
        s
    }
}

} // verus!
