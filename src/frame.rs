//! Header lines: what each kind of frame announces.
use vstd::prelude::*;
use vstd::slice::slice_to_vec;
use vstd::utf8::decode_utf8;
use vstd::utf8::valid_utf8;

use crate::grammar::join_spaces;
use crate::grammar::join_tokens;
use crate::grammar::number_value;
use crate::grammar::parse_number;
use crate::grammar::split_spaces;
use crate::grammar::split_tokens;
use crate::grammar::lemma_split_spaces_len;
use crate::grammar::token_views;
use crate::nats_client::opt_view;
use crate::nats_client::string_views;
use crate::nats_client::utf8_text;
use crate::nats_client::ErrorView;
use crate::nats_client::NatsError;
use crate::nats_client::NatsServerError;

verus! {

/// The largest payload size that a `MSG` header may announce.
pub const MAX_PAYLOAD_SIZE: u64 = 9223372036854775807;

/// The tag `+OK`.
pub open spec fn tag_ok() -> Seq<u8> {
    seq![43u8, 79u8, 75u8]
}

/// The tag `-ERR`.
pub open spec fn tag_err() -> Seq<u8> {
    seq![45u8, 69u8, 82u8, 82u8]
}

/// The tag `MSG`.
pub open spec fn tag_msg() -> Seq<u8> {
    seq![77u8, 83u8, 71u8]
}

/// The tag `PING`.
pub open spec fn tag_ping() -> Seq<u8> {
    seq![80u8, 73u8, 78u8, 71u8]
}

/// The tag `PONG`.
pub open spec fn tag_pong() -> Seq<u8> {
    seq![80u8, 79u8, 78u8, 71u8]
}

/// The tag `INFO`.
pub open spec fn tag_info() -> Seq<u8> {
    seq![73u8, 78u8, 70u8, 79u8]
}

/// What a `MSG` header announces.
pub struct MsgHeader {
    pub subject: String,
    pub sid: u64,
    pub reply: Option<String>,
    pub size: u64,
}

/// A `MSG` header over plain values.
pub struct MsgHeaderView {
    pub subject: Seq<char>,
    pub sid: u64,
    pub reply: Option<Seq<char>>,
    pub size: u64,
}

impl View for MsgHeader {
    type V = MsgHeaderView;

    open spec fn view(&self) -> MsgHeaderView {
        MsgHeaderView {
            subject: self.subject@,
            sid: self.sid,
            reply: opt_view(self.reply),
            size: self.size,
        }
    }
}

/// A header line that decoded.
pub enum Header {
    Ack,
    Ping,
    Pong,
    /// The metadata record that follows the tag.
    Info(String),
    /// A message header; the payload follows the line.
    Msg(MsgHeader),
}

/// A decoded header line over plain values.
pub enum HeaderView {
    Ack,
    Ping,
    Pong,
    Info(Seq<char>),
    Msg(MsgHeaderView),
}

impl View for Header {
    type V = HeaderView;

    open spec fn view(&self) -> HeaderView {
        match self {
            Header::Ack => HeaderView::Ack,
            Header::Ping => HeaderView::Ping,
            Header::Pong => HeaderView::Pong,
            Header::Info(s) => HeaderView::Info(s@),
            Header::Msg(h) => HeaderView::Msg(h@),
        }
    }
}

/// The error for a number field that does not parse.
pub open spec fn parse_error(field: Seq<char>, tok: Seq<u8>) -> ErrorView {
    match utf8_text(tok) {
        Some(t) => ErrorView::Parse(field, t),
        None => ErrorView::Encoding,
    }
}

/// The arguments of a `MSG` header: subject, subscription id, an optional
/// reply subject, and the payload size.
pub open spec fn msg_header_model(args: Seq<Seq<u8>>) -> Result<MsgHeaderView, ErrorView> {
    if args.len() != 3 && args.len() != 4 {
        if forall|i: int| 0 <= i < args.len() ==> valid_utf8(#[trigger] args[i]) {
            Err(ErrorView::InvalidArgument(args.map_values(|a: Seq<u8>| decode_utf8(a))))
        } else {
            Err(ErrorView::Encoding)
        }
    } else {
        let size_tok = args[args.len() - 1];
        match number_value(args[1], u64::MAX as nat) {
            None => Err(parse_error("sid"@, args[1])),
            Some(sid) => match number_value(size_tok, MAX_PAYLOAD_SIZE as nat) {
                None => Err(parse_error("msgsize"@, size_tok)),
                Some(size) => match utf8_text(args[0]) {
                    None => Err(ErrorView::Encoding),
                    Some(subject) => if args.len() == 4 {
                        match utf8_text(args[2]) {
                            None => Err(ErrorView::Encoding),
                            Some(reply) => Ok(
                                MsgHeaderView {
                                    subject,
                                    sid: sid as u64,
                                    reply: Some(reply),
                                    size: size as u64,
                                },
                            ),
                        }
                    } else {
                        Ok(MsgHeaderView { subject, sid: sid as u64, reply: None, size: size as u64 })
                    },
                },
            },
        }
    }
}

/// What a header line (without its delimiter) decodes to. A line that is not
/// UTF-8 is an encoding error, whatever its tag. Otherwise the tag is the text
/// before the first space, and the rest are the arguments.
#[verifier::opaque]
pub open spec fn header_model(line: Seq<u8>) -> Result<HeaderView, ErrorView> {
    let toks = split_spaces(line);
    let tag = toks[0];
    let args = toks.drop_first();
    if !valid_utf8(line) {
        Err(ErrorView::Encoding)
    } else if tag == tag_ok() {
        Ok(HeaderView::Ack)
    } else if tag == tag_ping() {
        Ok(HeaderView::Ping)
    } else if tag == tag_pong() {
        Ok(HeaderView::Pong)
    } else if tag == tag_err() {
        match utf8_text(join_spaces(args)) {
            Some(t) => Err(ErrorView::Server(t)),
            None => Err(ErrorView::Encoding),
        }
    } else if tag == tag_info() {
        match utf8_text(join_spaces(args)) {
            Some(t) => Ok(HeaderView::Info(t)),
            None => Err(ErrorView::Encoding),
        }
    } else if tag == tag_msg() {
        match msg_header_model(args) {
            Ok(h) => Ok(HeaderView::Msg(h)),
            Err(e) => Err(e),
        }
    } else {
        Err(ErrorView::Unknown(decode_utf8(line)))
    }
}

/// A header line that decodes, or fails with anything but an encoding
/// error, is UTF-8.
pub proof fn lemma_decoded_header_is_utf8(line: Seq<u8>)
    requires
        header_model(line) != Err::<HeaderView, ErrorView>(ErrorView::Encoding),
    ensures
        valid_utf8(line),
{
    reveal(header_model);
}

/// The text that `b` encodes, or the error for bytes that are not UTF-8.
pub fn text_of(b: &[u8]) -> (r: Result<String, NatsError>)
    ensures
        match utf8_text(b@) {
            Some(t) => r matches Ok(s) && s@ == t,
            None => r matches Err(e) && e@ == ErrorView::Encoding,
        },
{
    match String::from_utf8(slice_to_vec(b)) {
        Ok(s) => Ok(s),
        Err(e) => Err(NatsError::EncodingError(e)),
    }
}

/// The texts of `toks[start..]`, or the error for the first that is not UTF-8.
fn texts_of(toks: &Vec<Vec<u8>>, start: usize) -> (r: Result<Vec<String>, NatsError>)
    requires
        start <= toks.len(),
    ensures
        ({
            let args = token_views(toks@).subrange(start as int, toks.len() as int);
            if forall|i: int| 0 <= i < args.len() ==> valid_utf8(#[trigger] args[i]) {
                r matches Ok(v) && string_views(v@) == args.map_values(|a: Seq<u8>| decode_utf8(a))
            } else {
                r matches Err(e) && e@ == ErrorView::Encoding
            }
        }),
{
    let ghost all = token_views(toks@);
    let ghost args = all.subrange(start as int, toks.len() as int);
    let mut out: Vec<String> = Vec::new();
    let mut i: usize = start;
    while i < toks.len()
        invariant
            start <= i <= toks.len(),
            all == token_views(toks@),
            args == all.subrange(start as int, toks.len() as int),
            forall|k: int| 0 <= k < i - start ==> valid_utf8(#[trigger] args[k]),
            string_views(out@) == args.subrange(0, i - start).map_values(
                |a: Seq<u8>| decode_utf8(a),
            ),
        decreases toks.len() - i,
    {
        assert(args[i - start] == toks[i as int]@);
        match text_of(toks[i].as_slice()) {
            Ok(s) => {
                let ghost prev = string_views(out@);
                out.push(s);
                assert(string_views(out@) =~= prev.push(s@));
                assert(string_views(out@) =~= args.subrange(0, i + 1 - start).map_values(
                    |a: Seq<u8>| decode_utf8(a),
                ));
            },
            Err(e) => {
                return Err(e);
            },
        }
        i += 1;
    }
    assert(args.subrange(0, i - start) =~= args);
    Ok(out)
}


/// Whether `t` and `tag` hold the same bytes.
fn same_bytes(t: &[u8], tag: &[u8]) -> (r: bool)
    ensures
        r == (t@ == tag@),
{
    if t.len() != tag.len() {
        return false;
    }
    let mut i: usize = 0;
    while i < t.len()
        invariant
            t.len() == tag.len(),
            i <= t.len(),
            forall|k: int| 0 <= k < i ==> t@[k] == tag@[k],
        decreases t.len() - i,
    {
        if t[i] != tag[i] {
            return false;
        }
        i += 1;
    }
    assert(t@ =~= tag@);
    true
}

/// Decodes the arguments of a `MSG` header, `toks[1..]`.
fn parse_msg_header(toks: &Vec<Vec<u8>>) -> (r: Result<MsgHeader, NatsError>)
    requires
        toks.len() >= 1,
    ensures
        ({
            let m = msg_header_model(token_views(toks@).drop_first());
            match r {
                Ok(h) => m == Ok::<MsgHeaderView, ErrorView>(h@),
                Err(e) => m == Err::<MsgHeaderView, ErrorView>(e@),
            }
        }),
{
    let ghost args = token_views(toks@).drop_first();
    assert(args =~= token_views(toks@).subrange(1, toks.len() as int));
    let n = toks.len() - 1;
    if n != 3 && n != 4 {
        return match texts_of(toks, 1) {
            Ok(v) => Err(NatsError::InvalidMessageArgument(v)),
            Err(e) => Err(e),
        };
    }
    assert(args[1] == toks[2]@);
    assert(args[args.len() - 1] == toks[toks.len() - 1]@);
    assert(args[0] == toks[1]@);
    let sid = match parse_number(toks[2].as_slice(), u64::MAX) {
        Some(v) => v,
        None => {
            let field = "sid".to_owned();
            return match text_of(toks[2].as_slice()) {
                Ok(t) => Err(NatsError::MessageParseError(field, t)),
                Err(e) => Err(e),
            };
        },
    };
    let size = match parse_number(toks[toks.len() - 1].as_slice(), MAX_PAYLOAD_SIZE) {
        Some(v) => v,
        None => {
            let field = "msgsize".to_owned();
            return match text_of(toks[toks.len() - 1].as_slice()) {
                Ok(t) => Err(NatsError::MessageParseError(field, t)),
                Err(e) => Err(e),
            };
        },
    };
    let subject = text_of(toks[1].as_slice())?;
    let reply = if n == 4 {
        assert(args[2] == toks[3]@);
        Some(text_of(toks[3].as_slice())?)
    } else {
        None
    };
    Ok(MsgHeader { subject, sid, reply, size })
}

/// Decodes a header line, given without its delimiter, as `header_model` says.
pub fn parse_header(line: &[u8]) -> (r: Result<Header, NatsError>)
    ensures
        match r {
            Ok(h) => header_model(line@) == Ok::<HeaderView, ErrorView>(h@),
            Err(e) => header_model(line@) == Err::<HeaderView, ErrorView>(e@),
        },
        r matches Ok(Header::Msg(h)) ==> h.size <= MAX_PAYLOAD_SIZE,
{
    proof {
        reveal(header_model);
    }
    let text = match text_of(line) {
        Ok(t) => t,
        Err(e) => {
            return Err(e);
        },
    };
    let toks = split_tokens(line);
    proof {
        lemma_split_spaces_len(line@);
    }
    let ghost tv = token_views(toks@);
    assert(tv[0] == toks[0]@);
    assert(tv.drop_first() =~= tv.subrange(1, tv.len() as int));
    let tag = toks[0].as_slice();
    if same_bytes(tag, &[43u8, 79u8, 75u8]) {
        Ok(Header::Ack)
    } else if same_bytes(tag, &[80u8, 73u8, 78u8, 71u8]) {
        Ok(Header::Ping)
    } else if same_bytes(tag, &[80u8, 79u8, 78u8, 71u8]) {
        Ok(Header::Pong)
    } else if same_bytes(tag, &[45u8, 69u8, 82u8, 82u8]) {
        let text = join_tokens(&toks, 1);
        let message = text_of(text.as_slice())?;
        Err(NatsError::ServerError(NatsServerError { error_message: message }))
    } else if same_bytes(tag, &[73u8, 78u8, 70u8, 79u8]) {
        let text = join_tokens(&toks, 1);
        let record = text_of(text.as_slice())?;
        Ok(Header::Info(record))
    } else if same_bytes(tag, &[77u8, 83u8, 71u8]) {
        let h = parse_msg_header(&toks)?;
        Ok(Header::Msg(h))
    } else {
        Err(NatsError::UnknownResponse(text))
    }
}

} // verus!
