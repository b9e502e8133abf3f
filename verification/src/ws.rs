//! The WebSocket transport's logic: what to do with each frame from the server,
//! and the connection state.
use vstd::prelude::*;
use vstd::utf8::encode_utf8;
use crate::dispatch::{Dispatcher, NotificationRoute, ResponseRoute};
use crate::error::Error;
use crate::http::{parse_user_info, url_user_info};
use crate::ipc::{ConnAction, ConnState, TaskPoll, after_shutdown};
use crate::rpc::{
    RpcOutput, RpcResponse, json_rpc_notification, json_rpc_response, parse_notification, parse_response,
};

verus! {

/// The id of the first request on a WebSocket transport.
pub const FIRST_REQUEST_ID: usize = 1;

/// Milliseconds to wait before connecting again after a failure.
pub const RETRY_INTERVAL_MS: u64 = 200;

/// Checks the URL of a WebSocket transport: a URL that does not parse is a
/// transport error holding the parse error's debug text.
pub fn check_url(url: &str) -> (r: Result<(), Error>)
    ensures
        match url_user_info(url@) {
            Ok(_) => r is Ok,
            Err(t) => r matches Err(Error::Transport(m)) && m@ == t,
        },
{
    match parse_user_info(url) {
        Ok(_) => Ok(()),
        Err(e) => Err(Error::Transport(e)),
    }
}

/// A WebSocket frame, as the transport sees it.
#[derive(Debug)]
pub enum WsMessage {
    Text(String),
    Binary(Vec<u8>),
    /// A close frame, with its status code and reason when it has them.
    Close(Option<(u16, String)>),
    Ping(Vec<u8>),
    Pong(Vec<u8>),
}

/// What the transport does with a frame from the server.
#[derive(Debug)]
pub enum WsIncoming<P> {
    /// Send this frame back: a close frame is echoed, a ping is answered by a pong.
    Reply(WsMessage),
    /// The text was a notification.
    Notification(NotificationRoute),
    /// The text was taken as a response.
    Response(ResponseRoute<P>),
    /// Nothing to do.
    Ignore,
}

/// The outputs that a text frame holds when taken as a response: one for a
/// single response, all of a batch, none when it does not parse.
pub open spec fn response_outputs(bytes: Seq<u8>) -> Seq<RpcOutput> {
    match json_rpc_response(bytes) {
        Ok(RpcResponse::Single(o)) => seq![o],
        Ok(RpcResponse::Batch(v)) => v@,
        Err(_) => seq![],
    }
}

impl<P, S> Dispatcher<P, S> {
    /// Handles a frame from the server. A text frame that parses as a
    /// notification is routed as one; any other text frame is taken as a
    /// response (with no outputs when it does not parse) and routed to the
    /// waiting request.
    pub fn on_ws_message(&mut self, message: WsMessage) -> (r: WsIncoming<P>)
        requires
            old(self).wf(),
        ensures
            final(self).wf(),
            final(self).subscription_list() == old(self).subscription_list(),
            match message {
                WsMessage::Close(e) => r == WsIncoming::<P>::Reply(WsMessage::Close(e))
                    && final(self).pending() == old(self).pending(),
                WsMessage::Ping(d) => r == WsIncoming::<P>::Reply(WsMessage::Pong(d))
                    && final(self).pending() == old(self).pending(),
                WsMessage::Text(t) => match json_rpc_notification(encode_utf8(t@)) {
                    Some(n) => (r matches WsIncoming::Notification(route)
                        && old(self).spec_route_notification(n, route))
                        && final(self).pending() == old(self).pending(),
                    None => r matches WsIncoming::Response(route)
                        && old(self).spec_respond(response_outputs(encode_utf8(t@)), route, *final(self)),
                },
                _ => r is Ignore && final(self).pending() == old(self).pending(),
            },
    {
        match message {
            WsMessage::Close(e) => WsIncoming::Reply(WsMessage::Close(e)),
            WsMessage::Ping(d) => WsIncoming::Reply(WsMessage::Pong(d)),
            WsMessage::Text(t) => {
                let bytes = t.as_str().as_bytes();
                match parse_notification(bytes) {
                    Some(n) => WsIncoming::Notification(self.route_notification(n)),
                    None => {
                        let outputs = match parse_response(bytes) {
                            Ok(RpcResponse::Single(o)) => {
                                let ghost go = o;
                                let v = vec![o];
                                assert(v@ =~= seq![go]);
                                v
                            },
                            Ok(RpcResponse::Batch(v)) => v,
                            Err(_) => {
                                let v: Vec<RpcOutput> = Vec::new();
                                assert(v@ =~= Seq::<RpcOutput>::empty());
                                v
                            },
                        };
                        WsIncoming::Response(self.respond(outputs))
                    },
                }
            },
            _ => WsIncoming::Ignore,
        }
    }
}

/// The WebSocket transport's next state, action and keeping of the write queue
/// after polling the current task. A connect that completes hands the write
/// queue to the new client; a client that finishes hands it back, and the
/// transport reconnects after the delay. A client that fails is polled again.
pub open spec fn ws_step(state: ConnState, has_queue: bool, poll: TaskPoll) -> (ConnState, bool, ConnAction) {
    match state {
        ConnState::Empty => (ConnState::Empty, has_queue, ConnAction::Ready),
        ConnState::WaitForConnect => match poll {
            TaskPoll::Ready => (ConnState::Connecting, has_queue, ConnAction::Connect),
            _ => (state, has_queue, ConnAction::NotReady),
        },
        ConnState::Connecting => match poll {
            TaskPoll::Ready => (ConnState::Connected, false, ConnAction::Stream),
            TaskPoll::Failed => (ConnState::WaitForConnect, has_queue, ConnAction::Wait),
            TaskPoll::Pending => (state, has_queue, ConnAction::NotReady),
        },
        ConnState::Connected => match poll {
            TaskPoll::Ready => (ConnState::WaitForConnect, true, ConnAction::Wait),
            TaskPoll::Pending => (state, has_queue, ConnAction::NotReady),
            TaskPoll::Failed => (state, has_queue, ConnAction::Poll),
        },
    }
}

/// The WebSocket transport's connection, and whether it holds the queue of
/// frames to write (the connected client holds it while it runs).
#[derive(Debug)]
pub struct WsConnection {
    state: ConnState,
    has_queue: bool,
}

impl WsConnection {
    /// The connection's state.
    pub closed spec fn spec_state(&self) -> ConnState {
        self.state
    }

    /// Whether the transport holds the write queue.
    pub closed spec fn holds_queue(&self) -> bool {
        self.has_queue
    }

    /// While the transport waits to connect or connects, it holds the write
    /// queue, so a completed connect always has a queue to hand over.
    pub closed spec fn wf(&self) -> bool {
        (self.state == ConnState::WaitForConnect || self.state == ConnState::Connecting) ==> self.has_queue
    }

    /// A new transport: connecting, holding the queue.
    pub fn new() -> (c: Self)
        ensures
            c.wf(),
            c.spec_state() == ConnState::Connecting,
            c.holds_queue(),
    {
        WsConnection { state: ConnState::Connecting, has_queue: true }
    }

    /// A clone of a transport: closed, without a queue.
    pub fn detached() -> (c: Self)
        ensures
            c.wf(),
            c.spec_state() == ConnState::Empty,
            !c.holds_queue(),
    {
        WsConnection { state: ConnState::Empty, has_queue: false }
    }

    /// The connection's state.
    pub fn state(&self) -> (s: ConnState)
        ensures
            s == self.spec_state(),
    {
        self.state
    }

    /// Applies the result of polling the shutdown queue; gives `Ready` when the
    /// connection is closed, else `None` and the current task is to be polled.
    pub fn on_shutdown_poll(&mut self, shutdown: bool) -> (r: Option<ConnAction>)
        requires
            old(self).wf(),
        ensures
            final(self).wf(),
            final(self).spec_state() == after_shutdown(old(self).spec_state(), shutdown),
            final(self).holds_queue() == old(self).holds_queue(),
            r == (if final(self).spec_state() == ConnState::Empty { Some(ConnAction::Ready) } else { None::<ConnAction> }),
    {
        if shutdown {
            self.state = ConnState::Empty;
        }
        if self.state == ConnState::Empty {
            Some(ConnAction::Ready)
        } else {
            None
        }
    }

    /// Applies the result of polling the current task.
    pub fn on_task_poll(&mut self, poll: TaskPoll) -> (a: ConnAction)
        requires
            old(self).wf(),
        ensures
            final(self).wf(),
            (final(self).spec_state(), final(self).holds_queue(), a)
                == ws_step(old(self).spec_state(), old(self).holds_queue(), poll),
            a == ConnAction::Stream ==> old(self).holds_queue(),
    {
        let (state, has_queue, action) = match self.state {
            ConnState::Empty => (ConnState::Empty, self.has_queue, ConnAction::Ready),
            ConnState::WaitForConnect => match poll {
                TaskPoll::Ready => (ConnState::Connecting, self.has_queue, ConnAction::Connect),
                _ => (ConnState::WaitForConnect, self.has_queue, ConnAction::NotReady),
            },
            ConnState::Connecting => match poll {
                TaskPoll::Ready => (ConnState::Connected, false, ConnAction::Stream),
                TaskPoll::Failed => (ConnState::WaitForConnect, self.has_queue, ConnAction::Wait),
                TaskPoll::Pending => (ConnState::Connecting, self.has_queue, ConnAction::NotReady),
            },
            ConnState::Connected => match poll {
                TaskPoll::Ready => (ConnState::WaitForConnect, true, ConnAction::Wait),
                TaskPoll::Pending => (ConnState::Connected, self.has_queue, ConnAction::NotReady),
                TaskPoll::Failed => (ConnState::Connected, self.has_queue, ConnAction::Poll),
            },
        };
        self.state = state;
        self.has_queue = has_queue;
        action
    }
}

/// A closed WebSocket connection stays closed, and a completed connect always
/// finds the write queue to hand to the new client.
pub proof fn law_ws_closed_stays_closed_and_queue_is_there(shutdown: bool, poll: TaskPoll, c: WsConnection)
    requires
        c.wf(),
        c.spec_state() == ConnState::Connecting,
    ensures
        after_shutdown(ConnState::Empty, shutdown) == ConnState::Empty,
        ws_step(ConnState::Empty, false, poll).0 == ConnState::Empty,
        ws_step(ConnState::Empty, false, poll).2 == ConnAction::Ready,
        c.holds_queue(),
{
}

} // verus!
