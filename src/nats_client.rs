//! The events and errors that a client reports.
use vstd::prelude::*;
use vstd::utf8::decode_utf8;
use vstd::utf8::valid_utf8;

pub use crate::connect_option::ConnectOption;
pub use crate::server_info::ServerInfo;

verus! {

#[verifier::external_type_specification]
#[verifier::external_body]
pub struct ExIoError(std::io::Error);

#[verifier::external_type_specification]
#[verifier::external_body]
pub struct ExFromUtf8Error(std::string::FromUtf8Error);

/// Relies on `String::from_utf8`: it succeeds exactly on valid UTF-8, and the
/// string holds the characters that the bytes encode.
pub assume_specification[ std::string::String::from_utf8 ](vec: Vec<u8>) -> (r: Result<
    String,
    std::string::FromUtf8Error,
>)
    ensures
        r is Ok <==> valid_utf8(vec@),
        r matches Ok(s) ==> s@ == decode_utf8(vec@),
;

/// The characters that `b` encodes, where it is valid UTF-8.
pub open spec fn utf8_text(b: Seq<u8>) -> Option<Seq<char>> {
    if valid_utf8(b) {
        Some(decode_utf8(b))
    } else {
        None
    }
}

/// A server's and the connection's errors.
#[derive(Debug)]
pub enum NatsError {
    /// An `-ERR` line from the server.
    ServerError(NatsServerError),
    /// A failed read or write, with the operation it happened in; a read that
    /// times out is one.
    ConnectionError(std::io::Error, String),
    /// A header or text field that is not UTF-8.
    EncodingError(std::string::FromUtf8Error),
    /// A number field of a `MSG` header that does not parse: the field, then
    /// its text.
    MessageParseError(String, String),
    /// A `MSG` header with neither three nor four arguments: the arguments.
    InvalidMessageArgument(Vec<String>),
    /// A line whose first token is no known frame kind: the line.
    UnknownResponse(String),
    /// No complete frame arrived within the read budget of a wait.
    WaitInfiniteLoop,
    /// A message payload did not arrive within its read budget.
    MessageInfiniteLoop,
}

/// The text of an `-ERR` line.
#[derive(Debug)]
pub struct NatsServerError {
    pub error_message: String,
}

/// A message delivered for a subscription.
#[derive(Debug)]
pub struct NatsMessage {
    pub sid: u64,
    pub data: Vec<u8>,
    pub subject: String,
    pub reply: Option<String>,
}

/// An event read from the server.
pub enum NatsResponse {
    /// A message delivered for a subscription.
    Msg(NatsMessage),
    /// An acknowledgement, sent in verbose mode.
    Acknowledged,
    /// A keepalive.
    Ping,
    /// The answer to a keepalive.
    Pong,
    /// The server's metadata.
    Info(ServerInfo),
}

/// What an error says, over plain values.
pub enum ErrorView {
    Server(Seq<char>),
    Connection(Seq<char>),
    Encoding,
    Parse(Seq<char>, Seq<char>),
    InvalidArgument(Seq<Seq<char>>),
    Unknown(Seq<char>),
    WaitLoop,
    MessageLoop,
}

/// The texts of a vector of strings.
pub open spec fn string_views(v: Seq<String>) -> Seq<Seq<char>> {
    v.map_values(|s: String| s@)
}

impl View for NatsError {
    type V = ErrorView;

    open spec fn view(&self) -> ErrorView {
        match self {
            NatsError::ServerError(e) => ErrorView::Server(e.error_message@),
            NatsError::ConnectionError(_, at) => ErrorView::Connection(at@),
            NatsError::EncodingError(_) => ErrorView::Encoding,
            NatsError::MessageParseError(field, text) => ErrorView::Parse(field@, text@),
            NatsError::InvalidMessageArgument(args) => ErrorView::InvalidArgument(
                string_views(args@),
            ),
            NatsError::UnknownResponse(line) => ErrorView::Unknown(line@),
            NatsError::WaitInfiniteLoop => ErrorView::WaitLoop,
            NatsError::MessageInfiniteLoop => ErrorView::MessageLoop,
        }
    }
}

/// A message over plain values.
pub struct MessageView {
    pub subject: Seq<char>,
    pub sid: u64,
    pub reply: Option<Seq<char>>,
    pub data: Seq<u8>,
}

/// The text of an optional string.
pub open spec fn opt_view(s: Option<String>) -> Option<Seq<char>> {
    match s {
        Some(v) => Some(v@),
        None => None,
    }
}

impl View for NatsMessage {
    type V = MessageView;

    open spec fn view(&self) -> MessageView {
        MessageView {
            subject: self.subject@,
            sid: self.sid,
            reply: opt_view(self.reply),
            data: self.data@,
        }
    }
}

/// An event over plain values; the metadata record is left out.
pub enum ResponseView {
    Msg(MessageView),
    Acknowledged,
    Ping,
    Pong,
    Info,
}

impl View for NatsResponse {
    type V = ResponseView;

    open spec fn view(&self) -> ResponseView {
        match self {
            NatsResponse::Msg(m) => ResponseView::Msg(m@),
            NatsResponse::Acknowledged => ResponseView::Acknowledged,
            NatsResponse::Ping => ResponseView::Ping,
            NatsResponse::Pong => ResponseView::Pong,
            NatsResponse::Info(_) => ResponseView::Info,
        }
    }
}


/// The `Debug` text of a list of strings.
pub uninterp spec fn debug_list_text(items: Seq<Seq<char>>) -> Seq<char>;

/// Relies on the `Debug` format of `Vec<String>`, which depends on the strings alone.
#[verifier::external_body]
fn debug_list(v: &Vec<String>) -> (r: String)
    ensures
        r@ == debug_list_text(string_views(v@)),
{
    format!("{:?}", v)
}

/// Relies on the `Display` format of `std::io::Error`; its text may come from
/// the operating system, so nothing is stated of it.
#[verifier::external_body]
fn io_error_text(e: &std::io::Error) -> String {
    format!("{}", e)
}

/// Relies on the `Display` format of `FromUtf8Error`.
#[verifier::external_body]
fn utf8_error_text(e: &std::string::FromUtf8Error) -> String {
    format!("{}", e)
}

/// The text that describes an error, where it does not carry an outside error.
pub open spec fn error_text(e: ErrorView) -> Option<Seq<char>> {
    match e {
        ErrorView::Server(m) => Some("server error:"@ + m),
        ErrorView::Parse(name, v) => Some("parse error("@ + name + "): "@ + v),
        ErrorView::InvalidArgument(a) => Some("invalid message argument:"@ + debug_list_text(a)),
        ErrorView::Unknown(v) => Some("unknown message:"@ + v),
        ErrorView::WaitLoop => Some("infinite wait loop in wait_message"@),
        ErrorView::MessageLoop => Some("infinite wait loop in parse_message"@),
        _ => None,
    }
}

/// The start of the text of an error that carries an outside error.
pub open spec fn error_text_prefix(e: ErrorView) -> Seq<char> {
    match e {
        ErrorView::Connection(at) => "connection error("@ + at + "): "@,
        ErrorView::Encoding => "encoding error:"@,
        _ => Seq::empty(),
    }
}

impl NatsError {
    /// A line of text that describes the error.
    pub fn message(&self) -> (r: String)
        ensures
            match error_text(self@) {
                Some(t) => r@ == t,
                None => r@.subrange(0, error_text_prefix(self@).len() as int) == error_text_prefix(
                    self@,
                ),
            },
    {
        match self {
            NatsError::ServerError(v) => {
                let mut r = String::from_str("server error:");
                r.append(v.error_message.as_str());
                r
            },
            NatsError::ConnectionError(e, loc) => {
                let mut r = String::from_str("connection error(");
                r.append(loc.as_str());
                r.append("): ");
                let ghost head = r@;
                r.append(io_error_text(e).as_str());
                assert(r@.subrange(0, head.len() as int) =~= head);
                r
            },
            NatsError::EncodingError(e) => {
                let mut r = String::from_str("encoding error:");
                let ghost head = r@;
                r.append(utf8_error_text(e).as_str());
                assert(r@.subrange(0, head.len() as int) =~= head);
                r
            },
            NatsError::InvalidMessageArgument(args) => {
                let mut r = String::from_str("invalid message argument:");
                r.append(debug_list(args).as_str());
                r
            },
            NatsError::MessageParseError(name, v) => {
                let mut r = String::from_str("parse error(");
                r.append(name.as_str());
                r.append("): ");
                r.append(v.as_str());
                r
            },
            NatsError::UnknownResponse(v) => {
                let mut r = String::from_str("unknown message:");
                r.append(v.as_str());
                r
            },
            NatsError::WaitInfiniteLoop => String::from_str("infinite wait loop in wait_message"),
            NatsError::MessageInfiniteLoop => String::from_str("infinite wait loop in parse_message"),
        }
    }
}

} // verus!
