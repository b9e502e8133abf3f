//! The IPC transport's logic: finding messages in the bytes read from the
//! socket, the read buffer, the write progress and the connection state.
use vstd::prelude::*;
use crate::error::Error;
use crate::rpc::{RpcOutput, RpcNotification, RpcResponse, json_rpc_response, json_rpc_notification, parse_response, parse_notification};

verus! {

/// The id of the first request on an IPC transport.
pub const FIRST_REQUEST_ID: usize = 0;

/// Milliseconds to wait before connecting again after a failure.
pub const RETRY_INTERVAL_MS: u64 = 200;

/// The read size that a poll of the socket starts from; it doubles before the
/// first read.
pub const INITIAL_WRITE_SIZE: usize = 128;

/// The error that creating an IPC transport gives where Unix domain sockets
/// are not available.
pub fn unsupported_platform() -> (e: Error)
    ensures
        e matches Error::Transport(m) && m@ == "IPC transport is only supported on Unix"@,
{
    proof {
        reveal_strlit("IPC transport is only supported on Unix");
    }
    Error::Transport(String::from_str("IPC transport is only supported on Unix"))
}

/// A message read from the socket: the outputs of a response, or a notification.
#[derive(Debug)]
pub enum Message {
    Rpc(Vec<RpcOutput>),
    Notification(RpcNotification),
}

/// A message as the contracts speak of it.
pub enum MessageView {
    Rpc(Seq<RpcOutput>),
    Notification(RpcNotification),
}

impl View for Message {
    type V = MessageView;

    open spec fn view(&self) -> MessageView {
        match self {
            Message::Rpc(v) => MessageView::Rpc(v@),
            Message::Notification(n) => MessageView::Notification(*n),
        }
    }
}

/// `]` or `}`: a byte on which a JSON-RPC message can end.
pub open spec fn is_frame_end(b: u8) -> bool {
    b == 93u8 || b == 125u8
}

/// The message that some bytes hold: a response if they parse as one, else a
/// notification if they parse as one.
pub open spec fn frame_message(bytes: Seq<u8>) -> Option<MessageView> {
    match json_rpc_response(bytes) {
        Ok(RpcResponse::Single(o)) => Some(MessageView::Rpc(seq![o])),
        Ok(RpcResponse::Batch(v)) => Some(MessageView::Rpc(v@)),
        Err(_) => match json_rpc_notification(bytes) {
            Some(n) => Some(MessageView::Notification(n)),
            None => None,
        },
    }
}

/// Scans the candidate end positions below `pos` and at or above `min`, from the
/// highest down, for the first prefix of `buf` that ends on `]` or `}` and holds a
/// message; gives the message and the prefix's length.
pub open spec fn extract_below(buf: Seq<u8>, min: int, pos: int) -> Option<(MessageView, int)>
    decreases pos - min,
{
    if pos <= min || pos > buf.len() {
        None
    } else if is_frame_end(buf[pos - 1]) && frame_message(buf.take(pos)) is Some {
        Some((frame_message(buf.take(pos)).unwrap(), pos))
    } else {
        extract_below(buf, min, pos - 1)
    }
}

/// The longest prefix of `buf` that ends past `min` and holds a message.
pub open spec fn spec_extract(buf: Seq<u8>, min: int) -> Option<(MessageView, int)> {
    extract_below(buf, min, buf.len() as int)
}

/// A prefix found by the scan ends past `min` and inside the buffer.
pub proof fn lemma_extract_bounds(buf: Seq<u8>, min: int, pos: int)
    requires
        0 <= min,
    ensures
        extract_below(buf, min, pos) matches Some((_, len)) ==> min < len <= pos && len <= buf.len(),
    decreases pos - min,
{
    if pos <= min || pos > buf.len() {
    } else if is_frame_end(buf[pos - 1]) && frame_message(buf.take(pos)) is Some {
    } else {
        lemma_extract_bounds(buf, min, pos - 1);
    }
}

/// Finds the longest prefix of `buf` that ends past `min` on `]` or `}` and parses
/// as a JSON-RPC response or, failing that, as a notification.
pub fn extract_response(buf: &[u8], min: usize) -> (r: Option<(Message, usize)>)
    ensures
        match (r, spec_extract(buf@, min as int)) {
            (None, None) => true,
            (Some((m, len)), Some((mv, l))) => m@ == mv && len == l,
            _ => false,
        },
{
    let mut pos = buf.len();
    while pos > min
        invariant
            pos <= buf@.len(),
            spec_extract(buf@, min as int) == extract_below(buf@, min as int, pos as int),
        decreases pos,
    {
        let end = pos;
        pos = pos - 1;
        if buf[pos] == 93u8 || buf[pos] == 125u8 {
            let prefix = &buf[0..end];
            assert(prefix@ == buf@.take(end as int));
            match parse_response(prefix) {
                Ok(RpcResponse::Single(o)) => {
                    let ghost go = o;
                    let v = vec![o];
                    assert(v@ =~= seq![go]);
                    return Some((Message::Rpc(v), end));
                },
                Ok(RpcResponse::Batch(v)) => {
                    return Some((Message::Rpc(v), end));
                },
                Err(_) => {},
            }
            match parse_notification(prefix) {
                Some(n) => {
                    return Some((Message::Notification(n), end));
                },
                None => {},
            }
        }
    }
    None
}

/// The messages that a buffer holds, read from the front one by one as
/// `extract_response` finds them (the first search starting past `min`), with
/// what remains unread and the buffer length left after each message is cut off
/// (the buffer is shortened to the remaining bytes plus `write_size` when that
/// is shorter).
pub open spec fn drain(buf: Seq<u8>, min: int, cap: int, write_size: int) -> (Seq<MessageView>, Seq<u8>, int)
    decreases buf.len(),
{
    match spec_extract(buf, min) {
        Some((m, len)) => if 0 < len <= buf.len() {
            let rest = buf.skip(len);
            let cap2 = if rest.len() + write_size < cap { rest.len() + write_size } else { cap };
            let (ms, r, c) = drain(rest, 0, cap2, write_size);
            (seq![m] + ms, r, c)
        } else {
            (seq![], buf, cap)
        },
        None => (seq![], buf, cap),
    }
}

/// The growth of the read size when the buffer is full: it doubles while below 4096.
pub open spec fn next_write_size(write_size: int) -> int {
    if write_size < 4096 { write_size * 2 } else { write_size }
}

/// What the read buffer holds: the bytes read and not yet consumed, and the
/// buffer's length, which bounds the next read.
pub struct ReadBufferView {
    pub data: Seq<u8>,
    pub len: nat,
}

/// The bytes read from the socket that do not form a whole message yet.
pub struct ReadBuffer {
    buffer: Vec<u8>,
    current_pos: usize,
}

impl View for ReadBuffer {
    type V = ReadBufferView;

    closed spec fn view(&self) -> ReadBufferView {
        ReadBufferView { data: self.buffer@.take(self.current_pos as int), len: self.buffer@.len() }
    }
}

/// Moves `buf[len..end]` to the front by swapping each byte with the one `len` before it.
fn shift_left(buf: &mut Vec<u8>, len: usize, end: usize)
    requires
        len <= end <= old(buf)@.len(),
    ensures
        final(buf)@.len() == old(buf)@.len(),
        final(buf)@.take(end - len) == old(buf)@.subrange(len as int, end as int),
{
    let ghost orig = buf@;
    let mut i = len;
    while i < end
        invariant
            len <= i <= end <= orig.len(),
            buf@.len() == orig.len(),
            forall|k: int| 0 <= k < i - len ==> #[trigger] buf@[k] == orig[k + len],
            forall|k: int| i <= k < orig.len() ==> #[trigger] buf@[k] == orig[k],
        decreases end - i,
    {
        let a = buf[i];
        let b = buf[i - len];
        buf[i] = b;
        buf[i - len] = a;
        i = i + 1;
    }
    assert(buf@.take(end - len) =~= orig.subrange(len as int, end as int));
}

impl ReadBuffer {
    /// The buffer's well-formedness: the read position lies inside it.
    pub closed spec fn wf(&self) -> bool {
        self.current_pos <= self.buffer@.len()
    }

    /// An empty buffer.
    pub fn new() -> (r: Self)
        ensures
            r.wf(),
            r@.data == Seq::<u8>::empty(),
            r@.len == 0,
            holds_no_message(r@.data),
    {
        let r = ReadBuffer { buffer: Vec::new(), current_pos: 0 };
        assert(r@.data =~= Seq::<u8>::empty());
        r
    }

    /// The buffer's length.
    pub fn len(&self) -> (n: usize)
        ensures
            n == self@.len,
    {
        self.buffer.len()
    }

    /// Room left for the next read.
    pub fn free_space(&self) -> (n: usize)
        requires
            self.wf(),
        ensures
            n == self@.len - self@.data.len(),
    {
        self.buffer.len() - self.current_pos
    }

    /// Before a read: when the buffer is full, grows the read size (doubling
    /// below 4096) and lengthens the buffer by it with zero bytes. Returns the
    /// read size to use from now on.
    pub fn reserve(&mut self, write_size: usize) -> (size: usize)
        requires
            old(self).wf(),
            write_size <= 4096,
            old(self)@.len + 8192 <= usize::MAX,
        ensures
            final(self).wf(),
            final(self)@.data == old(self)@.data,
            old(self)@.data.len() == old(self)@.len ==> {
                &&& size == next_write_size(write_size as int)
                &&& final(self)@.len == old(self)@.len + size
            },
            old(self)@.data.len() < old(self)@.len ==> {
                &&& size == write_size
                &&& final(self)@.len == old(self)@.len
            },
    {
        let mut size = write_size;
        if self.current_pos == self.buffer.len() {
            if size < 4096 {
                size = size * 2;
            }
            let ghost before = self.buffer@;
            self.buffer.resize(self.current_pos + size, 0u8);
            assert(self.buffer@.take(self.current_pos as int) =~= before.take(self.current_pos as int));
        }
        size
    }

    /// After a read of `data`: appends it, then cuts every whole message off the
    /// front (the first search starting at the new bytes) and returns the
    /// messages in order. An empty read gives `None` and changes nothing.
    pub fn receive(&mut self, data: &[u8], write_size: usize) -> (r: Option<Vec<Message>>)
        requires
            old(self).wf(),
            data@.len() <= old(self)@.len - old(self)@.data.len(),
            old(self)@.len + write_size <= usize::MAX,
        ensures
            final(self).wf(),
            data@.len() == 0 ==> r is None && final(self)@ == old(self)@,
            holds_no_message(old(self)@.data) ==> holds_no_message(final(self)@.data),
            data@.len() > 0 ==> (r matches Some(msgs) && {
                let (ms, rest, cap) = drain(old(self)@.data + data@, old(self)@.data.len() as int,
                    old(self)@.len as int, write_size as int);
                &&& msgs@.map_values(|m: Message| m@) == ms
                &&& final(self)@.data == rest
                &&& final(self)@.len == cap
            }),
    {
        if data.len() == 0 {
            return None;
        }
        let ghost old_data = self@.data;
        let ghost full = self@.data + data@;
        let ghost old_len = self@.len;
        let start = self.current_pos;
        let mut i: usize = 0;
        while i < data.len()
            invariant
                start + data.len() <= self.buffer.len(),
                self.buffer@.len() == old_len,
                i <= data@.len(),
                self.current_pos == start,
                self.buffer@.take(start as int) == old_data,
                forall|k: int| 0 <= k < i ==> #[trigger] self.buffer@[start + k] == data@[k],
            decreases data@.len() - i,
        {
            let ghost before = self.buffer@;
            self.buffer.set(start + i, data[i]);
            assert(self.buffer@.take(start as int) =~= before.take(start as int));
            i = i + 1;
        }
        self.current_pos = start + data.len();
        assert forall|j: int| 0 <= j < start + data@.len() implies #[trigger] self.buffer@[j] == full[j] by {
            if j < start {
                assert(self.buffer@.take(start as int)[j] == old_data[j]);
            } else {
                assert(self.buffer@[start + (j - start)] == data@[j - start]);
            }
        }
        assert(self.buffer@.take(self.current_pos as int) =~= full);
        let mut min = start;
        let mut msgs: Vec<Message> = Vec::new();
        loop
            invariant
                self.wf(),
                min <= self.current_pos,
                self@.len <= old_len,
                old_len + write_size <= usize::MAX,
                old_len == old(self)@.len,
                full == old(self)@.data + data@,
                data@.len() > 0,
                start == old(self)@.data.len(),
                ({
                    let (ms0, rest0, cap0) = drain(full, start as int, old_len as int, write_size as int);
                    let (ms1, rest1, cap1) = drain(self@.data, min as int, self@.len as int, write_size as int);
                    &&& ms0 == msgs@.map_values(|m: Message| m@) + ms1
                    &&& rest0 == rest1
                    &&& cap0 == cap1
                }),
            decreases self.current_pos,
        {
            let ghost cur = self@.data;
            let ghost cur_len = self@.len;
            let found = extract_response(&self.buffer.as_slice()[0..self.current_pos], min);
            assert(self.buffer@.subrange(0, self.current_pos as int) == cur);
            match found {
                Some((m, len)) => {
                    proof {
                        lemma_extract_bounds(cur, min as int, cur.len() as int);
                    }
                    let ghost mv = m@;
                    let ghost old_msgs = msgs@;
                    msgs.push(m);
                    shift_left(&mut self.buffer, len, self.current_pos);
                    let new_len = self.current_pos - len;
                    self.current_pos = new_len;
                    let ghost before = self.buffer@;
                    self.buffer.truncate(new_len + write_size);
                    assert(self.buffer@.take(new_len as int) =~= before.take(new_len as int));
                    min = 0;
                    assert(self@.data =~= cur.skip(len as int));
                    assert(msgs@.map_values(|m: Message| m@) =~= old_msgs.map_values(|m: Message| m@).push(mv));
                },
                None => {
                    assert(msgs@.map_values(|m: Message| m@) =~= msgs@.map_values(|m: Message| m@) + Seq::<MessageView>::empty());
                    proof {
                        if holds_no_message(old(self)@.data) {
                            law_receive_leaves_no_message(old(self)@.data, data@, old_len as int, write_size as int);
                        }
                    }
                    return Some(msgs);
                },
            }
        }
    }
}

/// The writer's state: waiting for the next request, or part way through
/// writing one.
#[derive(Debug)]
pub enum WriteState {
    WaitingForRequest,
    Writing { buffer: Vec<u8>, current_pos: usize },
}

/// The writer's state as the contracts speak of it: the request being written
/// and how many of its bytes the socket has taken.
pub enum WriteView {
    Waiting,
    Writing { bytes: Seq<u8>, sent: nat },
}

/// What the writer asks for next.
#[derive(Debug, Clone, Copy, PartialEq, Eq, Structural)]
pub enum WriteAction {
    /// Take the next request from the queue.
    AwaitRequest,
    /// Write the unsent bytes to the socket.
    Write,
}

/// A step of the writer: it finishes a request whose bytes were all sent, takes
/// the next request from the queue, or records that the socket took some bytes.
pub enum WriteEvent {
    Finish,
    Request(Seq<u8>),
    Wrote(nat),
}

/// The writer's state after a step, or `None` where the step cannot come: a
/// request is finished once all its bytes are sent, a new one is taken only
/// while waiting, and a write takes at least one and at most the unsent bytes.
pub open spec fn write_step(v: WriteView, e: WriteEvent) -> Option<WriteView> {
    match (v, e) {
        (WriteView::Writing { bytes, sent }, WriteEvent::Finish) =>
            if sent >= bytes.len() { Some(WriteView::Waiting) } else { None },
        (WriteView::Waiting, WriteEvent::Request(bytes)) => Some(WriteView::Writing { bytes, sent: 0 }),
        (WriteView::Writing { bytes, sent }, WriteEvent::Wrote(n)) =>
            if 0 < n && sent + n <= bytes.len() { Some(WriteView::Writing { bytes, sent: sent + n }) } else { None },
        _ => None,
    }
}

/// The bytes that a step hands to the socket.
pub open spec fn step_output(v: WriteView, e: WriteEvent) -> Seq<u8> {
    match (v, e) {
        (WriteView::Writing { bytes, sent }, WriteEvent::Wrote(n)) => bytes.subrange(sent as int, (sent + n) as int),
        _ => seq![],
    }
}

/// The writer's state after a run of steps from `v`, with the bytes handed to
/// the socket along the way, or `None` where a step cannot come.
pub open spec fn run_writes(v: WriteView, events: Seq<WriteEvent>) -> Option<(WriteView, Seq<u8>)>
    decreases events.len(),
{
    if events.len() == 0 {
        Some((v, seq![]))
    } else {
        match run_writes(v, events.drop_last()) {
            Some((w, out)) => match write_step(w, events.last()) {
                Some(w2) => Some((w2, out + step_output(w, events.last()))),
                None => None,
            },
            None => None,
        }
    }
}

/// The requests that a run of steps takes from the queue, in order.
pub open spec fn requests_taken(events: Seq<WriteEvent>) -> Seq<Seq<u8>>
    decreases events.len(),
{
    if events.len() == 0 {
        seq![]
    } else {
        match events.last() {
            WriteEvent::Request(bytes) => requests_taken(events.drop_last()).push(bytes),
            _ => requests_taken(events.drop_last()),
        }
    }
}

/// Requests laid end to end, in order.
pub open spec fn concat(requests: Seq<Seq<u8>>) -> Seq<u8>
    decreases requests.len(),
{
    if requests.len() == 0 {
        seq![]
    } else {
        concat(requests.drop_last()) + requests.last()
    }
}

/// The writing half of the IPC transport: takes requests from a queue and
/// writes each one whole before the next.
#[derive(Debug)]
pub struct WriteStream {
    state: WriteState,
}

impl View for WriteStream {
    type V = WriteView;

    closed spec fn view(&self) -> WriteView {
        match self.state {
            WriteState::WaitingForRequest => WriteView::Waiting,
            WriteState::Writing { buffer, current_pos } => WriteView::Writing {
                bytes: buffer@,
                sent: current_pos as nat,
            },
        }
    }
}

impl WriteStream {
    /// The writer's well-formedness: it has not written past the request's end.
    pub closed spec fn wf(&self) -> bool {
        match self.state {
            WriteState::WaitingForRequest => true,
            WriteState::Writing { buffer, current_pos } => current_pos <= buffer@.len(),
        }
    }

    /// A writer in the given state.
    pub fn new(state: WriteState) -> (w: Self)
        requires
            state matches WriteState::Writing { buffer, current_pos } ==> current_pos <= buffer@.len(),
        ensures
            w.wf(),
            w.state() == state,
    {
        WriteStream { state }
    }

    /// The writer's state.
    pub closed spec fn state(&self) -> WriteState {
        self.state
    }

    /// Decides the next step: a finished request returns the writer to waiting.
    pub fn next_action(&mut self) -> (a: WriteAction)
        requires
            old(self).wf(),
        ensures
            final(self).wf(),
            match old(self)@ {
                WriteView::Waiting => a == WriteAction::AwaitRequest && final(self)@ == old(self)@,
                WriteView::Writing { bytes, sent } => if sent < bytes.len() {
                    a == WriteAction::Write && final(self)@ == old(self)@
                } else {
                    a == WriteAction::AwaitRequest && final(self)@ == WriteView::Waiting
                        && write_step(old(self)@, WriteEvent::Finish) == Some(final(self)@)
                },
            },
    {
        let done = match &self.state {
            WriteState::WaitingForRequest => true,
            WriteState::Writing { buffer, current_pos } => *current_pos >= buffer.len(),
        };
        if done {
            self.state = WriteState::WaitingForRequest;
            WriteAction::AwaitRequest
        } else {
            WriteAction::Write
        }
    }

    /// Takes what the queue gave while waiting: a request to write, or its end,
    /// on which the writer stays waiting and gives `false`.
    pub fn on_request(&mut self, request: Option<Vec<u8>>) -> (more: bool)
        requires
            old(self).wf(),
            old(self)@ is Waiting,
        ensures
            final(self).wf(),
            match request {
                Some(bytes) => more && final(self)@ == (WriteView::Writing { bytes: bytes@, sent: 0 })
                    && write_step(old(self)@, WriteEvent::Request(bytes@)) == Some(final(self)@),
                None => !more && final(self)@ == old(self)@,
            },
    {
        match request {
            Some(buffer) => {
                self.state = WriteState::Writing { buffer, current_pos: 0 };
                true
            },
            None => false,
        }
    }

    /// The bytes of the current request that the socket has not taken yet.
    pub fn unsent(&self) -> (b: &[u8])
        requires
            self.wf(),
            self@ is Writing,
        ensures
            self@ matches WriteView::Writing { bytes, sent } && b@ == bytes.skip(sent as int),
    {
        match &self.state {
            WriteState::Writing { buffer, current_pos } => {
                let b = &buffer.as_slice()[*current_pos..buffer.len()];
                assert(b@ =~= buffer@.skip(*current_pos as int));
                b
            },
            WriteState::WaitingForRequest => {
                proof {
                    assert(false);
                }
                &[]
            },
        }
    }

    /// Records that the socket took `n` more bytes; a write of zero bytes is a
    /// failure and gives `false`.
    pub fn on_written(&mut self, n: usize) -> (ok: bool)
        requires
            old(self).wf(),
            old(self)@ matches WriteView::Writing { bytes, sent } && sent + n <= bytes.len(),
        ensures
            final(self).wf(),
            ok == (n != 0),
            old(self)@ matches WriteView::Writing { bytes, sent }
                && final(self)@ == (WriteView::Writing { bytes, sent: (sent + n) as nat }),
            n != 0 ==> write_step(old(self)@, WriteEvent::Wrote(n as nat)) == Some(final(self)@),
    {
        match &mut self.state {
            WriteState::Writing { buffer, current_pos } => {
                let len = buffer.len();
                assert(*current_pos + n <= len);
                *current_pos = *current_pos + n;
            },
            WriteState::WaitingForRequest => {},
        }
        n != 0
    }
}

/// The bytes that a run of writes hands to the socket, starting `sent` bytes
/// into the request, each write taking the next `ns[i]` unsent bytes.
pub open spec fn written(bytes: Seq<u8>, sent: int, ns: Seq<nat>) -> Seq<u8>
    decreases ns.len(),
{
    if ns.len() == 0 {
        seq![]
    } else {
        bytes.subrange(sent, sent + ns[0]) + written(bytes, sent + ns[0], ns.drop_first())
    }
}

/// The total of some write sizes.
pub open spec fn total(ns: Seq<nat>) -> nat
    decreases ns.len(),
{
    if ns.len() == 0 { 0 } else { ns[0] + total(ns.drop_first()) }
}

/// A request is written whole and in order: writes that together take all its
/// unsent bytes hand the socket exactly those bytes, each once.
pub proof fn law_writes_send_the_request_in_order(bytes: Seq<u8>, sent: int, ns: Seq<nat>)
    requires
        0 <= sent <= bytes.len(),
        sent + total(ns) == bytes.len(),
    ensures
        written(bytes, sent, ns) == bytes.skip(sent),
    decreases ns.len(),
{
    if ns.len() == 0 {
        assert(bytes.skip(sent) =~= Seq::<u8>::empty());
    } else {
        law_writes_send_the_request_in_order(bytes, sent + ns[0], ns.drop_first());
        assert(bytes.subrange(sent, sent + ns[0]) + bytes.skip(sent + ns[0]) =~= bytes.skip(sent));
    }
}

/// Requests are written one after another, each whole and in order: along any
/// run of the writer's steps from waiting, the socket is handed the requests
/// taken so far, laid end to end in the order they were taken, the last one up
/// to how far it has been sent; a request is taken only after the one before it
/// was sent in full and finished.
pub proof fn law_requests_are_written_in_order(events: Seq<WriteEvent>)
    requires
        run_writes(WriteView::Waiting, events) is Some,
    ensures
        run_writes(WriteView::Waiting, events) matches Some((v, out)) && match v {
            WriteView::Waiting => out == concat(requests_taken(events)),
            WriteView::Writing { bytes, sent } => {
                &&& requests_taken(events).len() > 0
                &&& requests_taken(events).last() == bytes
                &&& sent <= bytes.len()
                &&& out == concat(requests_taken(events).drop_last()) + bytes.take(sent as int)
            },
        },
    decreases events.len(),
{
    if events.len() > 0 {
        let init = events.drop_last();
        law_requests_are_written_in_order(init);
        let (w, out) = run_writes(WriteView::Waiting, init).unwrap();
        let reqs = requests_taken(init);
        let e = events.last();
        match (w, e) {
            (WriteView::Writing { bytes, sent }, WriteEvent::Finish) => {
                assert(bytes.take(sent as int) =~= bytes);
                assert(out + step_output(w, e) =~= out);
            },
            (WriteView::Waiting, WriteEvent::Request(b)) => {
                assert(reqs.push(b).drop_last() =~= reqs);
                assert(out + step_output(w, e) =~= out + b.take(0));
            },
            (WriteView::Writing { bytes, sent }, WriteEvent::Wrote(n)) => {
                assert(bytes.take(sent as int) + bytes.subrange(sent as int, (sent + n) as int) =~= bytes.take((sent + n) as int));
                assert(out + step_output(w, e) =~= concat(reqs.drop_last()) + bytes.take((sent + n) as int));
            },
            _ => {},
        }
    }
}

/// The state of a connection: closed, waiting to retry, connecting, or connected.
#[derive(Debug, Clone, Copy, PartialEq, Eq, Structural)]
pub enum ConnState {
    Empty,
    WaitForConnect,
    Connecting,
    Connected,
}

/// What polling the current task (the retry delay, the connect, or the
/// connected client) gave.
#[derive(Debug, Clone, Copy, PartialEq, Eq, Structural)]
pub enum TaskPoll {
    Ready,
    Pending,
    Failed,
}

/// What the transport does next: finish, wait to be woken, or start a new task
/// and poll again.
#[derive(Debug, Clone, Copy, PartialEq, Eq, Structural)]
pub enum ConnAction {
    /// The transport is closed: its future completes.
    Ready,
    /// Nothing to do until woken.
    NotReady,
    /// Start connecting.
    Connect,
    /// Start the retry delay.
    Wait,
    /// Start reading and writing on the new stream.
    Stream,
    /// Poll the current task again.
    Poll,
}

/// The state after a shutdown check: a received shutdown closes the connection.
pub open spec fn after_shutdown(state: ConnState, shutdown: bool) -> ConnState {
    if shutdown { ConnState::Empty } else { state }
}

/// The IPC transport's next state and action after polling the current task.
pub open spec fn ipc_step(state: ConnState, poll: TaskPoll) -> (ConnState, ConnAction) {
    match state {
        ConnState::Empty => (ConnState::Empty, ConnAction::Ready),
        ConnState::WaitForConnect => match poll {
            TaskPoll::Ready => (ConnState::Connecting, ConnAction::Connect),
            _ => (state, ConnAction::NotReady),
        },
        ConnState::Connecting => match poll {
            TaskPoll::Ready => (ConnState::Connected, ConnAction::Stream),
            TaskPoll::Failed => (ConnState::WaitForConnect, ConnAction::Wait),
            TaskPoll::Pending => (state, ConnAction::NotReady),
        },
        ConnState::Connected => match poll {
            TaskPoll::Failed => (ConnState::WaitForConnect, ConnAction::Wait),
            _ => (state, ConnAction::NotReady),
        },
    }
}

/// The IPC transport's connection: connects to the socket, retries after a
/// delay when connecting or the connection fails, and closes on shutdown.
#[derive(Debug)]
pub struct IpcConnection {
    state: ConnState,
}

impl IpcConnection {
    /// The connection's state.
    pub closed spec fn spec_state(&self) -> ConnState {
        self.state
    }

    /// A connection in the given state: connecting for a new transport, connected
    /// for one made from a stream, empty for a clone.
    pub fn new(state: ConnState) -> (c: Self)
        ensures
            c.spec_state() == state,
    {
        IpcConnection { state }
    }

    /// The connection's state.
    pub fn state(&self) -> (s: ConnState)
        ensures
            s == self.spec_state(),
    {
        self.state
    }

    /// Applies the result of polling the shutdown queue; gives `Ready` when the
    /// connection is closed, else `None` and the current task is to be polled.
    pub fn on_shutdown_poll(&mut self, shutdown: bool) -> (r: Option<ConnAction>)
        ensures
            final(self).spec_state() == after_shutdown(old(self).spec_state(), shutdown),
            r == (if final(self).spec_state() == ConnState::Empty { Some(ConnAction::Ready) } else { None::<ConnAction> }),
    {
        if shutdown {
            self.state = ConnState::Empty;
        }
        if self.state == ConnState::Empty {
            Some(ConnAction::Ready)
        } else {
            None
        }
    }

    /// Applies the result of polling the current task.
    pub fn on_task_poll(&mut self, poll: TaskPoll) -> (a: ConnAction)
        ensures
            (final(self).spec_state(), a) == ipc_step(old(self).spec_state(), poll),
    {
        let (state, action) = match self.state {
            ConnState::Empty => (ConnState::Empty, ConnAction::Ready),
            ConnState::WaitForConnect => match poll {
                TaskPoll::Ready => (ConnState::Connecting, ConnAction::Connect),
                _ => (ConnState::WaitForConnect, ConnAction::NotReady),
            },
            ConnState::Connecting => match poll {
                TaskPoll::Ready => (ConnState::Connected, ConnAction::Stream),
                TaskPoll::Failed => (ConnState::WaitForConnect, ConnAction::Wait),
                TaskPoll::Pending => (ConnState::Connecting, ConnAction::NotReady),
            },
            ConnState::Connected => match poll {
                TaskPoll::Failed => (ConnState::WaitForConnect, ConnAction::Wait),
                _ => (ConnState::Connected, ConnAction::NotReady),
            },
        };
        self.state = state;
        action
    }
}

/// Reading messages off a buffer only ever cuts bytes off its front: what
/// remains is a suffix of what was there, no byte is reordered, the buffer
/// never grows, and when no message is found nothing changes.
pub proof fn law_drain_keeps_a_suffix(buf: Seq<u8>, min: int, cap: int, write_size: int)
    requires
        0 <= min,
    ensures
        ({
            let (ms, rest, c) = drain(buf, min, cap, write_size);
            &&& rest.len() <= buf.len()
            &&& rest == buf.skip(buf.len() - rest.len())
            &&& c <= cap
            &&& ms.len() == 0 ==> rest == buf && c == cap
        }),
    decreases buf.len(),
{
    lemma_extract_bounds(buf, min, buf.len() as int);
    match spec_extract(buf, min) {
        Some((m, len)) => {
            if 0 < len <= buf.len() {
                let rest = buf.skip(len);
                let cap2 = if rest.len() + write_size < cap { rest.len() + write_size } else { cap };
                law_drain_keeps_a_suffix(rest, 0, cap2, write_size);
                let (ms, r, c) = drain(rest, 0, cap2, write_size);
                assert(r == rest.skip(rest.len() - r.len()));
                assert(buf.skip(buf.len() - r.len()) =~= rest.skip(rest.len() - r.len()));
            }
        },
        None => {
            assert(buf.skip(0) =~= buf);
        },
    }
}

/// Bytes that hold no whole message: no prefix of them that ends on `]` or `}`
/// parses as a JSON-RPC response or as a notification.
pub open spec fn holds_no_message(bytes: Seq<u8>) -> bool {
    forall|k: int| 0 < k <= bytes.len() && is_frame_end(bytes[k - 1])
        ==> (#[trigger] json_rpc_response(bytes.take(k))) is Err && json_rpc_notification(bytes.take(k)) is None
}

/// A scan that finds nothing saw no message: no prefix ending past `min` and at
/// or below `pos` on `]` or `}` holds one.
proof fn lemma_extract_none(buf: Seq<u8>, min: int, pos: int)
    requires
        extract_below(buf, min, pos) is None,
        pos <= buf.len(),
    ensures
        forall|k: int| min < k <= pos && is_frame_end(buf[k - 1]) ==> #[trigger] frame_message(buf.take(k)) is None,
    decreases pos - min,
{
    if pos > min {
        lemma_extract_none(buf, min, pos - 1);
    }
}

/// Reading messages off a buffer whose prefixes up to `min` hold no message
/// leaves bytes that hold no whole message.
proof fn lemma_drain_leaves_no_message(buf: Seq<u8>, min: int, cap: int, write_size: int)
    requires
        0 <= min,
        forall|k: int| 0 < k <= min && k <= buf.len() && is_frame_end(buf[k - 1])
            ==> #[trigger] frame_message(buf.take(k)) is None,
    ensures
        holds_no_message(drain(buf, min, cap, write_size).1),
    decreases buf.len(),
{
    lemma_extract_bounds(buf, min, buf.len() as int);
    match spec_extract(buf, min) {
        Some((m, len)) => {
            let rest = buf.skip(len);
            let cap2 = if rest.len() + write_size < cap { rest.len() + write_size } else { cap };
            lemma_drain_leaves_no_message(rest, 0, cap2, write_size);
        },
        None => {
            lemma_extract_none(buf, min, buf.len() as int);
            assert forall|k: int| 0 < k <= buf.len() && is_frame_end(buf[k - 1])
                implies (#[trigger] json_rpc_response(buf.take(k))) is Err && json_rpc_notification(buf.take(k)) is None by {
                assert(frame_message(buf.take(k)) is None);
            }
        },
    }
}

/// Receiving never leaves a whole message behind: when the unread bytes hold
/// no whole message, then after a read of any bytes the bytes that remain hold
/// none either. So every message that a read completes comes out of that one
/// receive, however many follow one another in it.
pub proof fn law_receive_leaves_no_message(unread: Seq<u8>, data: Seq<u8>, cap: int, write_size: int)
    requires
        holds_no_message(unread),
    ensures
        holds_no_message(drain(unread + data, unread.len() as int, cap, write_size).1),
{
    let full = unread + data;
    assert forall|k: int| 0 < k <= unread.len() && k <= full.len() && is_frame_end(full[k - 1])
        implies #[trigger] frame_message(full.take(k)) is None by {
        assert(full.take(k) =~= unread.take(k));
        assert(full[k - 1] == unread[k - 1]);
        assert(json_rpc_response(unread.take(k)) is Err);
    }
    lemma_drain_leaves_no_message(full, unread.len() as int, cap, write_size);
}

/// A working IPC connection is kept: from `Connected`, only a failed poll of the
/// client leaves it (to wait and connect again); a pending or finished poll
/// keeps the connection and waits to be woken.
pub proof fn law_connection_is_kept_until_it_fails(poll: TaskPoll)
    ensures
        (ipc_step(ConnState::Connected, poll).0 == ConnState::Connected) == (poll != TaskPoll::Failed),
        poll != TaskPoll::Failed ==> ipc_step(ConnState::Connected, poll).1 == ConnAction::NotReady,
{
}

/// A closed connection stays closed: whatever the shutdown queue and the
/// tasks give, it stays empty and its future completes.
pub proof fn law_closed_stays_closed(shutdown: bool, poll: TaskPoll)
    ensures
        after_shutdown(ConnState::Empty, shutdown) == ConnState::Empty,
        ipc_step(ConnState::Empty, poll) == (ConnState::Empty, ConnAction::Ready),
        after_shutdown(ConnState::Connected, true) == ConnState::Empty,
{
}

/// A connection that fails is retried: a failed connect or a failed
/// connection waits for the retry delay, and the elapsed delay connects again.
pub proof fn law_failures_are_retried()
    ensures
        ipc_step(ConnState::Connecting, TaskPoll::Failed) == (ConnState::WaitForConnect, ConnAction::Wait),
        ipc_step(ConnState::Connected, TaskPoll::Failed) == (ConnState::WaitForConnect, ConnAction::Wait),
        ipc_step(ConnState::WaitForConnect, TaskPoll::Ready) == (ConnState::Connecting, ConnAction::Connect),
{
}

} // verus!
