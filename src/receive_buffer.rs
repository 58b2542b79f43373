//! The receive buffer: bytes read from the socket, reassembled into frames.
use vstd::prelude::*;
use vstd::slice::slice_subrange;
use vstd::utf8::valid_utf8;

use crate::frame::header_model;
use crate::frame::lemma_decoded_header_is_utf8;
use crate::frame::text_of;
use crate::frame::parse_header;
use crate::frame::Header;
use crate::frame::HeaderView;
use crate::frame::MsgHeader;
use crate::frame::MsgHeaderView;
use crate::frame::MAX_PAYLOAD_SIZE;
use crate::grammar::append_bytes;
use crate::grammar::crlf_at;
use crate::grammar::find_crlf;
use crate::grammar::first_crlf;
use crate::nats_client::ErrorView;
use crate::nats_client::MessageView;
use crate::nats_client::NatsError;
use crate::nats_client::NatsMessage;
use crate::nats_client::NatsResponse;
use crate::nats_client::ResponseView;

verus! {

/// The most bytes reserved up front for a payload; a larger one grows as it
/// arrives, so that a header cannot make the buffer reserve more than that.
pub const PAYLOAD_PREALLOCATION: u64 = 1048576;

/// A message whose header has been read and whose payload is still arriving.
struct Pending {
    header: MsgHeader,
    data: Vec<u8>,
}

/// A message in progress, over plain values: `data` holds what has arrived of
/// the payload and its trailing delimiter.
pub struct PendingView {
    pub header: MsgHeaderView,
    pub data: Seq<u8>,
}

/// The buffer over plain values: the bytes not yet decoded, and the message
/// whose payload is arriving, if any.
pub struct BufferView {
    pub bytes: Seq<u8>,
    pub pending: Option<PendingView>,
}

/// Bytes received from the server that do not yet form a complete frame.
pub struct ReceiveBuffer {
    bytes: Vec<u8>,
    pending: Option<Pending>,
}

impl View for ReceiveBuffer {
    type V = BufferView;

    closed spec fn view(&self) -> BufferView {
        BufferView {
            bytes: self.bytes@,
            pending: match self.pending {
                Some(p) => Some(PendingView { header: p.header@, data: p.data@ }),
                None => None,
            },
        }
    }
}

/// A message in progress never holds more than its payload and delimiter,
/// and announces a size that the grammar admits.
pub open spec fn buffer_ok(v: BufferView) -> bool {
    match v.pending {
        Some(p) => p.header.size <= MAX_PAYLOAD_SIZE && p.data.len() <= p.header.size + 2,
        None => true,
    }
}

/// How many more bytes the message in progress takes: its payload and the
/// trailing delimiter, less what has arrived.
pub open spec fn still_needed(p: PendingView) -> nat {
    if p.data.len() <= p.header.size + 2 {
        (p.header.size + 2 - p.data.len()) as nat
    } else {
        0
    }
}

/// The buffer after `b` arrives: the message in progress takes what it still
/// needs, and the rest is kept, in order, for the frames that follow.
pub open spec fn feed(v: BufferView, b: Seq<u8>) -> BufferView {
    match v.pending {
        Some(p) => {
            let k = if still_needed(p) < b.len() {
                still_needed(p) as int
            } else {
                b.len() as int
            };
            BufferView {
                bytes: v.bytes + b.subrange(k, b.len() as int),
                pending: Some(PendingView { header: p.header, data: p.data + b.subrange(0, k) }),
            }
        },
        None => BufferView { bytes: v.bytes + b, pending: None },
    }
}

/// What an attempt to take a frame gives.
pub enum Taken {
    /// A complete frame.
    Event(NatsResponse),
    /// A metadata line, with its record still to be decoded.
    Info(String),
    /// A frame that does not decode; its bytes have been removed.
    Failed(NatsError),
    /// No complete header line yet.
    NeedHeader,
    /// A message header has been read; this many bytes of its payload and
    /// delimiter are still to come.
    NeedPayload(u64),
}

/// What an attempt to take a frame gives, over plain values.
pub enum TakenView {
    Event(ResponseView),
    Info(Seq<char>),
    Failed(ErrorView),
    NeedHeader,
    NeedPayload(nat),
}

impl View for Taken {
    type V = TakenView;

    open spec fn view(&self) -> TakenView {
        match self {
            Taken::Event(r) => TakenView::Event(r@),
            Taken::Info(t) => TakenView::Info(t@),
            Taken::Failed(e) => TakenView::Failed(e@),
            Taken::NeedHeader => TakenView::NeedHeader,
            Taken::NeedPayload(n) => TakenView::NeedPayload(*n as nat),
        }
    }
}

/// Whether more bytes must arrive before a frame can be taken.
pub open spec fn needs_bytes(t: TakenView) -> bool {
    t is NeedHeader || t is NeedPayload
}

/// The message that a complete payload makes: the delimiter is dropped.
pub open spec fn message_of(p: PendingView) -> MessageView {
    MessageView {
        subject: p.header.subject,
        sid: p.header.sid,
        reply: p.header.reply,
        data: p.data.subrange(0, p.header.size as int),
    }
}

/// Hands out the message in progress once its payload and delimiter are all there.
pub open spec fn settle(v: BufferView) -> (BufferView, TakenView) {
    match v.pending {
        Some(p) => if p.data.len() == p.header.size + 2 {
            (
                BufferView { bytes: v.bytes, pending: None },
                TakenView::Event(ResponseView::Msg(message_of(p))),
            )
        } else {
            (v, TakenView::NeedPayload(still_needed(p)))
        },
        None => (v, TakenView::NeedHeader),
    }
}

/// The buffer that a message header starts: no bytes, and an empty payload.
pub open spec fn start_message(h: MsgHeaderView) -> BufferView {
    BufferView {
        bytes: Seq::empty(),
        pending: Some(PendingView { header: h, data: Seq::empty() }),
    }
}

/// What a UTF-8 header line and the bytes after it give: the line is decoded
/// and removed, and a message header takes its payload from the bytes that
/// follow. A line that is UTF-8 but does not decode (an unknown tag, `-ERR`,
/// bad `MSG` arguments) is removed all the same.
pub open spec fn take_line(line: Seq<u8>, rest: Seq<u8>) -> (BufferView, TakenView) {
    let after = BufferView { bytes: rest, pending: None };
    match header_model(line) {
        Err(e) => (after, TakenView::Failed(e)),
        Ok(HeaderView::Ack) => (after, TakenView::Event(ResponseView::Acknowledged)),
        Ok(HeaderView::Ping) => (after, TakenView::Event(ResponseView::Ping)),
        Ok(HeaderView::Pong) => (after, TakenView::Event(ResponseView::Pong)),
        Ok(HeaderView::Info(t)) => (after, TakenView::Info(t)),
        Ok(HeaderView::Msg(h)) => settle(feed(start_message(h), rest)),
    }
}

/// One attempt to take a frame: a message in progress is handed out once
/// complete; otherwise the header line up to the first delimiter is taken.
/// A header line that is not UTF-8 is an encoding error that leaves the
/// buffer as it was.
pub open spec fn take(v: BufferView) -> (BufferView, TakenView) {
    match v.pending {
        Some(_) => settle(v),
        None => match first_crlf(v.bytes) {
            None => (v, TakenView::NeedHeader),
            Some(i) => if !valid_utf8(v.bytes.subrange(0, i)) {
                (v, TakenView::Failed(ErrorView::Encoding))
            } else {
                take_line(v.bytes.subrange(0, i), v.bytes.subrange(i + 2, v.bytes.len() as int))
            },
        },
    }
}

impl ReceiveBuffer {
    /// An empty buffer.
    pub fn new() -> (r: ReceiveBuffer)
        ensures
            r@ == (BufferView { bytes: Seq::empty(), pending: None }),
    {
        ReceiveBuffer { bytes: Vec::new(), pending: None }
    }

    /// Adds bytes that arrived from the server.
    pub fn append(&mut self, b: &[u8])
        requires
            buffer_ok(old(self)@),
        ensures
            final(self)@ == feed(old(self)@, b@),
            buffer_ok(final(self)@),
    {
        match self.pending.take() {
            None => {
                append_bytes(&mut self.bytes, b);
            },
            Some(p) => {
                let mut p = p;
                let need: u64 = p.header.size + 2 - p.data.len() as u64;
                let k: usize = if (b.len() as u64) > need {
                    need as usize
                } else {
                    b.len()
                };
                append_bytes(&mut p.data, slice_subrange(b, 0, k));
                append_bytes(&mut self.bytes, slice_subrange(b, k, b.len()));
                self.pending = Some(p);
            },
        }
    }

    /// The payload size of the message in progress, if there is one.
    pub fn pending_size(&self) -> (r: Option<u64>)
        ensures
            match self@.pending {
                Some(p) => r == Some(p.header.size),
                None => r is None,
            },
    {
        match &self.pending {
            Some(p) => Some(p.header.size),
            None => None,
        }
    }

    fn settle(&mut self) -> (r: Taken)
        requires
            buffer_ok(old(self)@),
            old(self)@.pending is Some,
        ensures
            (final(self)@, r@) == settle(old(self)@),
            buffer_ok(final(self)@),
    {
        let p = match self.pending.take() {
            Some(p) => p,
            None => {
                return Taken::NeedHeader;
            },
        };
        if p.data.len() as u64 == p.header.size + 2 {
            let mut data = p.data;
            data.truncate(p.header.size as usize);
            Taken::Event(
                NatsResponse::Msg(
                    NatsMessage {
                        sid: p.header.sid,
                        data,
                        subject: p.header.subject,
                        reply: p.header.reply,
                    },
                ),
            )
        } else {
            let remaining = p.header.size + 2 - p.data.len() as u64;
            self.pending = Some(p);
            Taken::NeedPayload(remaining)
        }
    }

    /// Takes the next complete frame, as `take` describes.
    pub fn try_take_frame(&mut self) -> (r: Taken)
        requires
            buffer_ok(old(self)@),
        ensures
            (final(self)@, r@) == take(old(self)@),
            buffer_ok(final(self)@),
    {
        if self.pending.is_some() {
            return self.settle();
        }
        let i = match find_crlf(self.bytes.as_slice()) {
            Some(i) => i,
            None => {
                return Taken::NeedHeader;
            },
        };
        assert(crlf_at(self.bytes@, i as int));
        assert(i + 1 < self.bytes.len());
        if let Err(e) = text_of(slice_subrange(self.bytes.as_slice(), 0, i)) {
            return Taken::Failed(e);
        }
        let mut head = self.bytes.split_off(i + 2);
        std::mem::swap(&mut self.bytes, &mut head);
        let parsed = parse_header(slice_subrange(head.as_slice(), 0, i));
        assert(head@.subrange(0, i as int) =~= old(self)@.bytes.subrange(0, i as int));
        match parsed {
            Err(e) => Taken::Failed(e),
            Ok(Header::Ack) => Taken::Event(NatsResponse::Acknowledged),
            Ok(Header::Ping) => Taken::Event(NatsResponse::Ping),
            Ok(Header::Pong) => Taken::Event(NatsResponse::Pong),
            Ok(Header::Info(t)) => Taken::Info(t),
            Ok(Header::Msg(h)) => {
                let mut rest: Vec<u8> = Vec::new();
                std::mem::swap(&mut self.bytes, &mut rest);
                let capacity: u64 = if h.size < PAYLOAD_PREALLOCATION - 2 {
                    h.size + 2
                } else {
                    PAYLOAD_PREALLOCATION
                };
                self.pending = Some(
                    Pending { header: h, data: Vec::with_capacity(capacity as usize) },
                );
                self.append(rest.as_slice());
                self.settle()
            },
        }
    }
}


/// All the bytes of a sequence of reads, in order.
pub open spec fn flatten(chunks: Seq<Seq<u8>>) -> Seq<u8>
    decreases chunks.len(),
{
    if chunks.len() == 0 {
        Seq::empty()
    } else {
        flatten(chunks.drop_last()) + chunks.last()
    }
}

/// A sequence of reads as the session handles them: after each read the
/// bytes are added and one frame is asked for.
pub open spec fn deliver(v: BufferView, chunks: Seq<Seq<u8>>) -> (BufferView, TakenView)
    decreases chunks.len(),
{
    if chunks.len() == 0 {
        take(v)
    } else {
        take(feed(deliver(v, chunks.drop_last()).0, chunks.last()))
    }
}

/// Bytes that arrive in two parts fill the buffer as they would in one.
pub proof fn lemma_feed_concat(v: BufferView, a: Seq<u8>, b: Seq<u8>)
    ensures
        feed(feed(v, a), b) == feed(v, a + b),
{
    match v.pending {
        Some(p) => {
            let n = still_needed(p) as int;
            let ka = if n < a.len() {
                n
            } else {
                a.len() as int
            };
            let v1 = feed(v, a);
            let p_after = v1.pending.unwrap();
            assert(p_after.data.len() == p.data.len() + ka);
            let n_after = still_needed(p_after) as int;
            assert(n_after == n - ka);
            let kb = if n_after < b.len() {
                n_after
            } else {
                b.len() as int
            };
            let k = if n < a.len() + b.len() {
                n
            } else {
                (a + b).len() as int
            };
            assert(k == ka + kb);
            assert(p.data + a.subrange(0, ka) + b.subrange(0, kb) =~= p.data + (a + b).subrange(0, k));
            if ka < a.len() {
                assert(kb == 0);
            }
            assert(v.bytes + a.subrange(ka, a.len() as int) + b.subrange(kb, b.len() as int)
                =~= v.bytes + (a + b).subrange(k, (a + b).len() as int));
        },
        None => {
            assert(v.bytes + a + b =~= v.bytes + (a + b));
        },
    }
}

proof fn lemma_first_crlf_is(s: Seq<u8>, i: int)
    requires
        crlf_at(s, i),
        forall|j: int| 0 <= j < i ==> !crlf_at(s, j),
    ensures
        first_crlf(s) == Some(i),
{
    let k = choose|k: int| crlf_at(s, k) && forall|j: int| 0 <= j < k ==> !crlf_at(s, j);
    assert(crlf_at(s, i));
    if k < i {
    } else if k > i {
        assert(!crlf_at(s, i));
    }
}

/// Where one attempt to take a frame comes back wanting more bytes, the
/// bytes that then arrive give what they would have given without it.
pub proof fn lemma_take_needs_nothing_lost(v: BufferView, b: Seq<u8>)
    requires
        needs_bytes(take(v).1),
    ensures
        take(feed(take(v).0, b)) == take(feed(v, b)),
{
    if v.pending is None {
        if let Some(i) = first_crlf(v.bytes) {
            lemma_line_kept(v.bytes, b, i);
            let line = v.bytes.subrange(0, i);
            let rest = v.bytes.subrange(i + 2, v.bytes.len() as int);
            lemma_take_line_extends(line, rest, b);
        }
    }
}

proof fn lemma_take_line_extends(line: Seq<u8>, rest: Seq<u8>, b: Seq<u8>)
    requires
        needs_bytes(take_line(line, rest).1),
    ensures
        take(feed(take_line(line, rest).0, b)) == take_line(line, rest + b),
{
    let hm = header_model(line);
    if hm is Ok && hm->Ok_0 is Msg {
        let h = hm->Ok_0->Msg_0;
        lemma_feed_concat(start_message(h), rest, b);
    }
}

proof fn lemma_line_kept(s: Seq<u8>, b: Seq<u8>, i: int)
    requires
        first_crlf(s) == Some(i),
    ensures
        first_crlf(s + b) == Some(i),
        (s + b).subrange(0, i) == s.subrange(0, i),
        (s + b).subrange(i + 2, (s + b).len() as int) == s.subrange(i + 2, s.len() as int) + b,
{
    let k = choose|k: int| crlf_at(s, k) && forall|j: int| 0 <= j < k ==> !crlf_at(s, j);
    assert(k == i);
    let s2 = s + b;
    assert(crlf_at(s2, i));
    assert forall|j: int| 0 <= j < i implies !crlf_at(s2, j) by {
        assert(!crlf_at(s, j));
    }
    lemma_first_crlf_is(s2, i);
    assert(s2.subrange(0, i) =~= s.subrange(0, i));
    assert(s2.subrange(i + 2, s2.len() as int) =~= s.subrange(i + 2, s.len() as int) + b);
}

/// However the bytes after a buffer's state are cut into reads, so long as no
/// read before the last completes a frame, the frame that the last one
/// completes, and the buffer left behind, are those that one read of all the
/// bytes gives.
pub proof fn lemma_fragmented_delivery(v: BufferView, chunks: Seq<Seq<u8>>)
    requires
        chunks.len() >= 1,
        forall|k: int| 0 <= k < chunks.len() ==> needs_bytes(#[trigger] deliver(v, chunks.subrange(0, k)).1),
    ensures
        deliver(v, chunks) == take(feed(v, flatten(chunks))),
    decreases chunks.len(),
{
    let prev = chunks.drop_last();
    if chunks.len() == 1 {
        assert(prev =~= chunks.subrange(0, 0));
        assert(needs_bytes(deliver(v, prev).1));
        assert(flatten(chunks) =~= chunks.last()) by {
            assert(flatten(prev) =~= Seq::<u8>::empty());
        }
        lemma_take_needs_nothing_lost(v, chunks.last());
    } else {
        assert forall|k: int| 0 <= k < prev.len() implies needs_bytes(
            #[trigger] deliver(v, prev.subrange(0, k)).1,
        ) by {
            assert(prev.subrange(0, k) =~= chunks.subrange(0, k));
        }
        lemma_fragmented_delivery(v, prev);
        assert(prev =~= chunks.subrange(0, prev.len() as int));
        let u = feed(v, flatten(prev));
        assert(needs_bytes(take(u).1));
        lemma_take_needs_nothing_lost(u, chunks.last());
        lemma_feed_concat(v, flatten(prev), chunks.last());
    }
}


proof fn lemma_line_then_crlf(line: Seq<u8>, tail: Seq<u8>)
    requires
        forall|j: int| !crlf_at(line, j),
    ensures
        first_crlf(line + seq![13u8, 10u8] + tail) == Some(line.len() as int),
        (line + seq![13u8, 10u8] + tail).subrange(0, line.len() as int) == line,
        (line + seq![13u8, 10u8] + tail).subrange(
            line.len() as int + 2,
            (line + seq![13u8, 10u8] + tail).len() as int,
        ) == tail,
{
    let all = line + seq![13u8, 10u8] + tail;
    let n = line.len() as int;
    assert(crlf_at(all, n));
    assert forall|j: int| 0 <= j < n implies !crlf_at(all, j) by {
        if j + 1 < n {
            assert(!crlf_at(line, j));
        }
    }
    lemma_first_crlf_is(all, n);
    assert(all.subrange(0, n) =~= line);
    assert(all.subrange(n + 2, all.len() as int) =~= tail);
}

/// One read of a whole message frame and the bytes after it.
proof fn lemma_message_frame_whole(line: Seq<u8>, h: MsgHeaderView, p: Seq<u8>, rest: Seq<u8>)
    requires
        forall|j: int| !crlf_at(line, j),
        header_model(line) == Ok::<HeaderView, ErrorView>(HeaderView::Msg(h)),
        p.len() == h.size,
    ensures
        take(BufferView { bytes: line + seq![13u8, 10u8] + (p + seq![13u8, 10u8] + rest), pending: None }) == (
            BufferView { bytes: rest, pending: None },
            TakenView::Event(
                ResponseView::Msg(MessageView { subject: h.subject, sid: h.sid, reply: h.reply, data: p }),
            ),
        ),
{
    let tail = p + seq![13u8, 10u8] + rest;
    lemma_line_then_crlf(line, tail);
    lemma_decoded_header_is_utf8(line);
    let fed = feed(start_message(h), tail);
    assert(fed.pending.unwrap().data =~= p + seq![13u8, 10u8]);
    assert(fed.bytes =~= rest);
    assert((p + seq![13u8, 10u8]).subrange(0, h.size as int) =~= p);
}

/// A whole message frame, however it is cut into reads, gives the message
/// that its header announces with exactly the payload sent, and leaves the
/// bytes after the frame in the buffer: `line` is a `MSG` header line that
/// announces `p.len()` bytes, and no read before the last completes a frame.
pub proof fn lemma_message_frame_in_pieces(
    line: Seq<u8>,
    h: MsgHeaderView,
    p: Seq<u8>,
    rest: Seq<u8>,
    chunks: Seq<Seq<u8>>,
)
    requires
        forall|j: int| !crlf_at(line, j),
        header_model(line) == Ok::<HeaderView, ErrorView>(HeaderView::Msg(h)),
        p.len() == h.size,
        flatten(chunks) == line + seq![13u8, 10u8] + (p + seq![13u8, 10u8] + rest),
        chunks.len() >= 1,
        forall|k: int|
            0 <= k < chunks.len() ==> needs_bytes(
                #[trigger] deliver(BufferView { bytes: Seq::empty(), pending: None }, chunks.subrange(0, k)).1,
            ),
    ensures
        deliver(BufferView { bytes: Seq::empty(), pending: None }, chunks) == (
            BufferView { bytes: rest, pending: None },
            TakenView::Event(
                ResponseView::Msg(MessageView { subject: h.subject, sid: h.sid, reply: h.reply, data: p }),
            ),
        ),
{
    let v = BufferView { bytes: Seq::<u8>::empty(), pending: None };
    lemma_fragmented_delivery(v, chunks);
    assert(feed(v, flatten(chunks)).bytes =~= flatten(chunks));
    lemma_message_frame_whole(line, h, p, rest);
}

} // verus!
