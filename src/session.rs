//! A session's decisions: commands to write, subscription ids, and the steps
//! of waiting for the next event. The caller owns the socket: it writes what
//! a command returns, and performs the reads that a step asks for.
use vstd::prelude::*;
use vstd::utf8::decode_utf8;
use vstd::utf8::encode_utf8;
use vstd::utf8::valid_utf8;

use crate::frame::text_of;
use crate::grammar::append_bytes;
use crate::grammar::decimal;
use crate::grammar::push_decimal;
use crate::grammar::push_signed_decimal;
use crate::grammar::signed_decimal;
use crate::nats_client::ErrorView;
use crate::nats_client::NatsError;
use crate::nats_client::NatsResponse;
use crate::nats_client::ResponseView;
use crate::nats_client::ConnectOption;
use crate::nats_client::ServerInfo;
use crate::receive_buffer::buffer_ok;
use crate::receive_buffer::take;
use crate::receive_buffer::BufferView;
use crate::receive_buffer::ReceiveBuffer;
use crate::receive_buffer::Taken;
use crate::receive_buffer::TakenView;

verus! {

/// The line delimiter.
pub open spec fn crlf() -> Seq<u8> {
    seq![13u8, 10u8]
}

/// A space and the text, or nothing.
pub open spec fn optional_word(s: Option<Seq<char>>) -> Seq<u8> {
    match s {
        Some(t) => seq![32u8] + encode_utf8(t),
        None => Seq::empty(),
    }
}

/// `PUB <subject> [<reply-to>] <length>\r\n<payload>\r\n`
pub open spec fn pub_command(subject: Seq<char>, reply: Option<Seq<char>>, data: Seq<u8>) -> Seq<u8> {
    seq![80u8, 85u8, 66u8, 32u8] + encode_utf8(subject) + optional_word(reply) + seq![32u8]
        + decimal(data.len()) + crlf() + data + crlf()
}

/// `SUB <subject> [<queue>] <sid>\r\n`
pub open spec fn sub_command(subject: Seq<char>, queue: Option<Seq<char>>, sid: u64) -> Seq<u8> {
    seq![83u8, 85u8, 66u8, 32u8] + encode_utf8(subject) + optional_word(queue) + seq![32u8]
        + decimal(sid as nat) + crlf()
}

/// `UNSUB <sid> [<max-msgs>]\r\n`
pub open spec fn unsub_command(sid: u64, after: Option<i32>) -> Seq<u8> {
    seq![85u8, 78u8, 83u8, 85u8, 66u8, 32u8] + decimal(sid as nat) + match after {
        Some(n) => seq![32u8] + signed_decimal(n as int),
        None => Seq::empty(),
    } + crlf()
}

/// `CONNECT <record>\r\n`
pub open spec fn connect_command(record: Seq<char>) -> Seq<u8> {
    seq![67u8, 79u8, 78u8, 78u8, 69u8, 67u8, 84u8, 32u8] + encode_utf8(record) + crlf()
}

/// The text of an optional string slice.
pub open spec fn opt_str(s: Option<&str>) -> Option<Seq<char>> {
    match s {
        Some(t) => Some(t@),
        None => None,
    }
}

fn push_crlf(out: &mut Vec<u8>)
    ensures
        final(out)@ == old(out)@ + crlf(),
{
    out.push(13u8);
    out.push(10u8);
    assert(final(out)@ =~= old(out)@ + crlf());
}

fn push_optional_word(out: &mut Vec<u8>, s: Option<&str>)
    ensures
        final(out)@ == old(out)@ + optional_word(opt_str(s)),
{
    match s {
        Some(t) => {
            out.push(32u8);
            append_bytes(out, t.as_bytes());
            assert(final(out)@ =~= old(out)@ + optional_word(opt_str(s)));
        },
        None => {
            assert(final(out)@ =~= old(out)@ + optional_word(opt_str(s)));
        },
    }
}

/// The bytes that publish `data` to `subject`, with an optional reply subject.
pub fn publish_command(subject: &str, reply_to: Option<&str>, data: &[u8]) -> (r: Vec<u8>)
    ensures
        r@ == pub_command(subject@, opt_str(reply_to), data@),
{
    let mut out: Vec<u8> = Vec::new();
    out.push(80u8);
    out.push(85u8);
    out.push(66u8);
    out.push(32u8);
    append_bytes(&mut out, subject.as_bytes());
    push_optional_word(&mut out, reply_to);
    out.push(32u8);
    push_decimal(&mut out, data.len() as u64);
    push_crlf(&mut out);
    append_bytes(&mut out, data);
    push_crlf(&mut out);
    assert(out@ =~= pub_command(subject@, opt_str(reply_to), data@));
    out
}

/// The bytes that subscribe to `subject` under `sid`, with an optional queue group.
pub fn subscribe_command(subject: &str, queue: Option<&str>, sid: u64) -> (r: Vec<u8>)
    ensures
        r@ == sub_command(subject@, opt_str(queue), sid),
{
    let mut out: Vec<u8> = Vec::new();
    out.push(83u8);
    out.push(85u8);
    out.push(66u8);
    out.push(32u8);
    append_bytes(&mut out, subject.as_bytes());
    push_optional_word(&mut out, queue);
    out.push(32u8);
    push_decimal(&mut out, sid);
    push_crlf(&mut out);
    assert(out@ =~= sub_command(subject@, opt_str(queue), sid));
    out
}

/// The bytes that end subscription `sid`, at once or after `after` more messages.
pub fn unsubscribe_command(sid: u64, after: Option<i32>) -> (r: Vec<u8>)
    ensures
        r@ == unsub_command(sid, after),
{
    let mut out: Vec<u8> = Vec::new();
    out.push(85u8);
    out.push(78u8);
    out.push(83u8);
    out.push(85u8);
    out.push(66u8);
    out.push(32u8);
    push_decimal(&mut out, sid);
    match after {
        Some(n) => {
            out.push(32u8);
            push_signed_decimal(&mut out, n);
        },
        None => {},
    }
    push_crlf(&mut out);
    assert(out@ =~= unsub_command(sid, after));
    out
}

/// The bytes that send the client's options, given as their encoded record.
pub fn connect_command_bytes(record: &str) -> (r: Vec<u8>)
    ensures
        r@ == connect_command(record@),
{
    let mut out: Vec<u8> = Vec::new();
    out.push(67u8);
    out.push(79u8);
    out.push(78u8);
    out.push(78u8);
    out.push(69u8);
    out.push(67u8);
    out.push(84u8);
    out.push(32u8);
    append_bytes(&mut out, record.as_bytes());
    push_crlf(&mut out);
    assert(out@ =~= connect_command(record@));
    out
}


/// How many reads one wait may make while no frame is complete.
pub const WAIT_READ_LIMIT: u64 = 1000;

/// How many bytes to ask for while waiting for a header line.
pub const READ_CHUNK: usize = 512;

/// The most bytes to ask for in one read of a payload.
pub const PAYLOAD_READ_CHUNK: u64 = 65536;

/// How many reads one wait may make for the payload of a message of `size`
/// bytes.
pub open spec fn payload_read_limit(size: u64) -> int {
    (size + 1) * 100
}

/// The reads made so far by one wait for an event.
pub struct WaitBudget {
    /// Reads made while no message payload was arriving.
    pub header_reads: u64,
    /// Reads made for the payload of a message.
    pub payload_reads: u64,
}

impl WaitBudget {
    /// The budget of a wait that has not read yet.
    pub fn new() -> (r: WaitBudget)
        ensures
            r.header_reads == 0,
            r.payload_reads == 0,
    {
        WaitBudget { header_reads: 0, payload_reads: 0 }
    }
}

/// What a wait does next.
pub enum WaitStep {
    /// Read at most this many bytes from the socket and hand them to
    /// `Session::received`.
    Read(usize),
    /// The wait is over.
    Ready(Result<NatsResponse, NatsError>),
    /// The server's metadata arrived: decode this record; that ends the wait.
    DecodeInfo(String),
}

/// A wait's next step over plain values.
pub enum WaitStepView {
    Read(nat),
    Ready(Result<ResponseView, ErrorView>),
    DecodeInfo(Seq<char>),
}

impl View for WaitStep {
    type V = WaitStepView;

    open spec fn view(&self) -> WaitStepView {
        match self {
            WaitStep::Read(n) => WaitStepView::Read(*n as nat),
            WaitStep::Ready(Ok(r)) => WaitStepView::Ready(Ok(r@)),
            WaitStep::Ready(Err(e)) => WaitStepView::Ready(Err(e@)),
            WaitStep::DecodeInfo(t) => WaitStepView::DecodeInfo(t@),
        }
    }
}

/// The step that an attempt to take a frame leads to.
pub open spec fn step_of(t: TakenView) -> WaitStepView {
    match t {
        TakenView::Event(r) => WaitStepView::Ready(Ok(r)),
        TakenView::Info(s) => WaitStepView::DecodeInfo(s),
        TakenView::Failed(e) => WaitStepView::Ready(Err(e)),
        TakenView::NeedHeader => WaitStepView::Read(READ_CHUNK as nat),
        TakenView::NeedPayload(n) => WaitStepView::Read(
            if n < PAYLOAD_READ_CHUNK {
                n
            } else {
                PAYLOAD_READ_CHUNK as nat
            },
        ),
    }
}

/// The next step of a wait, and the buffer after it: once its budget is spent
/// the wait fails; until then it takes a frame if one is complete, and asks
/// for a read if not.
pub open spec fn wait_step_model(v: BufferView, b: WaitBudget) -> (BufferView, WaitStepView) {
    match v.pending {
        Some(p) => if b.payload_reads >= payload_read_limit(p.header.size) {
            (v, WaitStepView::Ready(Err(ErrorView::MessageLoop)))
        } else {
            (take(v).0, step_of(take(v).1))
        },
        None => if b.header_reads >= WAIT_READ_LIMIT {
            (v, WaitStepView::Ready(Err(ErrorView::WaitLoop)))
        } else {
            (take(v).0, step_of(take(v).1))
        },
    }
}

/// One more read, counted where it belongs.
pub open spec fn count_read(v: BufferView, b: WaitBudget) -> WaitBudget {
    if v.pending is Some {
        WaitBudget {
            header_reads: b.header_reads,
            payload_reads: if b.payload_reads < u64::MAX {
                (b.payload_reads + 1) as u64
            } else {
                b.payload_reads
            },
        }
    } else {
        WaitBudget {
            header_reads: if b.header_reads < u64::MAX {
                (b.header_reads + 1) as u64
            } else {
                b.header_reads
            },
            payload_reads: b.payload_reads,
        }
    }
}

/// A session over plain values.
pub struct SessionView {
    pub buffer: BufferView,
    pub next_sid: u64,
    pub verbose: bool,
}

/// The state of one connection: its receive buffer, the next subscription
/// id, whether the server acknowledges commands, and the server's metadata.
pub struct Session {
    buffer: ReceiveBuffer,
    next_sid: u64,
    verbose: bool,
    server_info: ServerInfo,
}

impl View for Session {
    type V = SessionView;

    closed spec fn view(&self) -> SessionView {
        SessionView { buffer: self.buffer@, next_sid: self.next_sid, verbose: self.verbose }
    }
}

impl Session {
    /// The server's metadata that the session was made with.
    pub closed spec fn info(&self) -> ServerInfo {
        self.server_info
    }
}

/// The session after a subscription, and the id that the subscription gets.
pub open spec fn subscribe_model(v: SessionView) -> (SessionView, u64) {
    (SessionView { next_sid: (v.next_sid + 1) as u64, ..v }, v.next_sid)
}

/// The session after `n` subscriptions.
pub open spec fn after_subscriptions(v: SessionView, n: nat) -> SessionView
    decreases n,
{
    if n == 0 {
        v
    } else {
        subscribe_model(after_subscriptions(v, (n - 1) as nat)).0
    }
}

/// The id that the subscription after `n` others gets.
pub open spec fn nth_sid(v: SessionView, n: nat) -> u64 {
    subscribe_model(after_subscriptions(v, n)).1
}

proof fn lemma_after_subscriptions(v: SessionView, n: nat)
    requires
        v.next_sid + n <= u64::MAX,
    ensures
        after_subscriptions(v, n).next_sid == v.next_sid + n,
    decreases n,
{
    if n > 0 {
        lemma_after_subscriptions(v, (n - 1) as nat);
    }
}

/// The `n`-th subscription of a session, counting from zero, gets the id
/// that the session started from plus `n`: a new session hands out 0, 1, 2, ...
pub proof fn lemma_nth_sid(v: SessionView, n: nat)
    requires
        v.next_sid + n < u64::MAX,
    ensures
        nth_sid(v, n) == v.next_sid + n,
        after_subscriptions(v, n + 1).next_sid == v.next_sid + n + 1,
{
    lemma_after_subscriptions(v, n);
    lemma_after_subscriptions(v, n + 1);
}

/// The ids that one session hands out grow strictly with each subscription,
/// so no two of its subscriptions share one.
pub proof fn lemma_sids_strictly_increase(v: SessionView, i: nat, j: nat)
    requires
        i < j,
        v.next_sid + j < u64::MAX,
    ensures
        nth_sid(v, i) < nth_sid(v, j),
{
    lemma_after_subscriptions(v, i);
    lemma_after_subscriptions(v, j);
}

/// What opening a connection involves besides reading the server's metadata.
pub struct Handshake {
    /// Whether the server acknowledges commands, so that each publish and
    /// subscription is followed by one read.
    pub verbose: bool,
    /// Whether a `CONNECT` command with the options is sent.
    pub send_connect: bool,
    /// Whether one read, the acknowledgement of `CONNECT`, follows it.
    pub read_connect_ack: bool,
}

/// The handshake for the given options: without options no `CONNECT` is
/// sent, and acknowledgements are expected.
pub fn handshake_plan(opt: Option<&ConnectOption>) -> (r: Handshake)
    ensures
        match opt {
            Some(o) => r.verbose == o.verbose && r.send_connect && r.read_connect_ack == o.verbose,
            None => r.verbose && !r.send_connect && !r.read_connect_ack,
        },
{
    match opt {
        Some(o) => Handshake { verbose: o.verbose, send_connect: true, read_connect_ack: o.verbose },
        None => Handshake { verbose: true, send_connect: false, read_connect_ack: false },
    }
}

impl Session {
    /// A session on a new connection, with an empty buffer and ids from 0.
    pub fn new(verbose: bool, server_info: ServerInfo) -> (r: Session)
        ensures
            r@ == (SessionView {
                buffer: BufferView { bytes: Seq::empty(), pending: None },
                next_sid: 0,
                verbose,
            }),
            buffer_ok(r@.buffer),
            r.info() == server_info,
    {
        Session { buffer: ReceiveBuffer::new(), next_sid: 0, verbose, server_info }
    }

    /// Whether the server acknowledges each command, so that a publish or a
    /// subscription is followed by one read.
    pub fn verbose(&self) -> (r: bool)
        ensures
            r == self@.verbose,
    {
        self.verbose
    }

    /// The server's metadata.
    pub fn server_info(&self) -> (r: &ServerInfo)
        ensures
            *r == self.info(),
    {
        &self.server_info
    }

    /// Whether a publish or a subscription is followed by one read, for the
    /// server's acknowledgement; unsubscribing is followed by none.
    pub fn ack_read_follows_command(&self) -> (r: bool)
        ensures
            r == self@.verbose,
    {
        self.verbose
    }

    /// Whether the payload of a message is arriving.
    pub fn awaiting_payload(&self) -> (r: bool)
        ensures
            r == self@.buffer.pending is Some,
    {
        self.buffer.pending_size().is_some()
    }

    /// Whether another subscription id is left.
    pub fn can_subscribe(&self) -> (r: bool)
        ensures
            r == (self@.next_sid < u64::MAX),
    {
        self.next_sid < u64::MAX
    }

    /// Hands out the next subscription id, with the bytes that subscribe
    /// `subject` under it.
    pub fn subscribe(&mut self, subject: &str, queue: Option<&str>) -> (r: (u64, Vec<u8>))
        requires
            old(self)@.next_sid < u64::MAX,
        ensures
            (final(self)@, r.0) == subscribe_model(old(self)@),
            r.1@ == sub_command(subject@, opt_str(queue), r.0),
            final(self).info() == old(self).info(),
    {
        let sid = self.next_sid;
        self.next_sid = self.next_sid + 1;
        (sid, subscribe_command(subject, queue, sid))
    }

    /// Adds bytes read from the server to the buffer.
    pub fn receive(&mut self, bytes: &[u8])
        requires
            buffer_ok(old(self)@.buffer),
        ensures
            final(self)@ == (SessionView {
                buffer: crate::receive_buffer::feed(old(self)@.buffer, bytes@),
                ..old(self)@
            }),
            buffer_ok(final(self)@.buffer),
            final(self).info() == old(self).info(),
    {
        self.buffer.append(bytes);
    }

    /// The next step of a wait that has made the reads that `budget` counts.
    pub fn wait_step(&mut self, budget: &WaitBudget) -> (r: WaitStep)
        requires
            buffer_ok(old(self)@.buffer),
        ensures
            (final(self)@.buffer, r@) == wait_step_model(old(self)@.buffer, *budget),
            final(self)@.next_sid == old(self)@.next_sid,
            final(self)@.verbose == old(self)@.verbose,
            buffer_ok(final(self)@.buffer),
            final(self).info() == old(self).info(),
    {
        let over = match self.buffer.pending_size() {
            Some(size) => (budget.payload_reads as u128) >= (size as u128 + 1) * 100,
            None => budget.header_reads >= WAIT_READ_LIMIT,
        };
        if over {
            return match self.buffer.pending_size() {
                Some(_) => WaitStep::Ready(Err(NatsError::MessageInfiniteLoop)),
                None => WaitStep::Ready(Err(NatsError::WaitInfiniteLoop)),
            };
        }
        match self.buffer.try_take_frame() {
            Taken::Event(r) => WaitStep::Ready(Ok(r)),
            Taken::Info(t) => WaitStep::DecodeInfo(t),
            Taken::Failed(e) => WaitStep::Ready(Err(e)),
            Taken::NeedHeader => WaitStep::Read(READ_CHUNK),
            Taken::NeedPayload(n) => WaitStep::Read(
                if n < PAYLOAD_READ_CHUNK {
                    n as usize
                } else {
                    PAYLOAD_READ_CHUNK as usize
                },
            ),
        }
    }

    /// Hands the bytes of a read that a step asked for to the buffer, and
    /// counts the read.
    pub fn received(&mut self, budget: &mut WaitBudget, bytes: &[u8])
        requires
            buffer_ok(old(self)@.buffer),
        ensures
            final(self)@ == (SessionView {
                buffer: crate::receive_buffer::feed(old(self)@.buffer, bytes@),
                ..old(self)@
            }),
            *final(budget) == count_read(old(self)@.buffer, *old(budget)),
            buffer_ok(final(self)@.buffer),
            final(self).info() == old(self).info(),
    {
        if self.buffer.pending_size().is_some() {
            if budget.payload_reads < u64::MAX {
                budget.payload_reads = budget.payload_reads + 1;
            }
        } else {
            if budget.header_reads < u64::MAX {
                budget.header_reads = budget.header_reads + 1;
            }
        }
        self.buffer.append(bytes);
    }
}

/// The metadata record of the first line a server sends, which must be an
/// `INFO` line; anything else is an unknown response carrying the bytes read.
/// A first read that is not UTF-8 as a whole is an encoding error.
pub open spec fn info_record_model(first: Seq<u8>) -> Result<Seq<char>, ErrorView> {
    if !valid_utf8(first) {
        Err(ErrorView::Encoding)
    } else {
        match take(BufferView { bytes: first, pending: None }).1 {
        TakenView::Info(t) => Ok(t),
        TakenView::Failed(e) => Err(e),
            _ => Err(ErrorView::Unknown(decode_utf8(first))),
        }
    }
}

/// Reads the metadata record from the first bytes that a server sends.
pub fn server_info_record(first: &[u8]) -> (r: Result<String, NatsError>)
    ensures
        match r {
            Ok(s) => info_record_model(first@) == Ok::<Seq<char>, ErrorView>(s@),
            Err(e) => info_record_model(first@) == Err::<Seq<char>, ErrorView>(e@),
        },
{
    let text = match text_of(first) {
        Ok(t) => t,
        Err(e) => {
            return Err(e);
        },
    };
    let mut buffer = ReceiveBuffer::new();
    buffer.append(first);
    assert(buffer@.bytes =~= first@);
    match buffer.try_take_frame() {
        Taken::Info(t) => Ok(t),
        Taken::Failed(e) => Err(e),
        _ => Err(NatsError::UnknownResponse(text)),
    }
}

} // verus!
