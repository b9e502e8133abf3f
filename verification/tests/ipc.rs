use serde_json::Value;
use web3::dispatch::{Dispatcher, RequestIds, ResponseRoute, single_response};
use web3::ipc::{
    extract_response, ConnAction, ConnState, IpcConnection, Message, ReadBuffer, TaskPoll, WriteAction,
    WriteState, WriteStream, FIRST_REQUEST_ID, INITIAL_WRITE_SIZE,
};
use web3::rpc::{Request, RpcId};

fn x() -> Value {
    Value::String("x".into())
}

/// Feeds `data` to a fresh buffer in reads of the size the buffer asks for.
fn read_all(buffer: &mut ReadBuffer, data: &[u8]) -> Vec<Message> {
    let mut out = Vec::new();
    let mut size = INITIAL_WRITE_SIZE;
    let mut rest = data;
    while !rest.is_empty() {
        size = buffer.reserve(size);
        let n = std::cmp::min(buffer.free_space(), rest.len());
        if let Some(msgs) = buffer.receive(&rest[..n], size) {
            out.extend(msgs);
        }
        rest = &rest[n..];
    }
    out
}

#[test]
fn ipc_should_send_a_request() {
    let mut ids = RequestIds::new(FIRST_REQUEST_ID);
    let mut dispatcher: Dispatcher<u32, ()> = Dispatcher::new();
    let (id, call) = ids.prepare("eth_accounts", vec![Value::String("1".into())]);
    assert_eq!(id, 0);
    let request = dispatcher.send_request(id, &Request::Single(call), 7);
    assert_eq!(request, r#"{"jsonrpc":"2.0","method":"eth_accounts","params":["1"],"id":0}"#);

    let mut buffer = ReadBuffer::new();
    let msgs = read_all(&mut buffer, br#"{"jsonrpc":"2.0","id":0,"result":"x"}"#);
    assert_eq!(msgs.len(), 1);
    let outputs = match msgs.into_iter().next().unwrap() {
        Message::Rpc(outputs) => outputs,
        other => panic!("unexpected {:?}", other),
    };
    match dispatcher.respond(outputs) {
        ResponseRoute::Deliver { request, results } => {
            assert_eq!(request, 7);
            assert_eq!(single_response(results).unwrap(), x());
        }
        other => panic!("unexpected {:?}", other),
    }
}

#[test]
fn should_handle_double_response() {
    let mut ids = RequestIds::new(FIRST_REQUEST_ID);
    let mut dispatcher: Dispatcher<u32, ()> = Dispatcher::new();
    let (id0, call0) = ids.prepare("eth_accounts", vec![Value::String("1".into())]);
    let (id1, call1) = ids.prepare("eth_accounts", vec![Value::String("1".into())]);
    let mut written = dispatcher.send_request(id0, &Request::Single(call0), 10);
    written.push_str(&dispatcher.send_request(id1, &Request::Single(call1), 11));
    assert_eq!(
        written,
        r#"{"jsonrpc":"2.0","method":"eth_accounts","params":["1"],"id":0}{"jsonrpc":"2.0","method":"eth_accounts","params":["1"],"id":1}"#
    );

    let mut buffer = ReadBuffer::new();
    let response = r#"{"jsonrpc":"2.0","id":0,"result":"x"}{"jsonrpc":"2.0","id":1,"result":"x"}"#;
    let size = buffer.reserve(INITIAL_WRITE_SIZE);
    assert_eq!(size, 256);
    let msgs = buffer.receive(response.as_bytes(), size).unwrap();
    assert_eq!(msgs.len(), 2);
    let mut delivered = Vec::new();
    for msg in msgs {
        match msg {
            Message::Rpc(outputs) => match dispatcher.respond(outputs) {
                ResponseRoute::Deliver { request, results } => {
                    assert_eq!(single_response(results).unwrap(), x());
                    delivered.push(request);
                }
                other => panic!("unexpected {:?}", other),
            },
            other => panic!("unexpected {:?}", other),
        }
    }
    assert_eq!(delivered, vec![10, 11]);
    assert_eq!(buffer.free_space(), 256);
}

#[test]
fn extract_response_waits_for_a_whole_message() {
    let whole = br#"{"jsonrpc":"2.0","id":3,"result":[1,2]}"#;
    assert!(extract_response(&whole[..20], 0).is_none());
    match extract_response(whole, 0) {
        Some((Message::Rpc(outputs), len)) => {
            assert_eq!(len, whole.len());
            assert_eq!(outputs.len(), 1);
            assert!(matches!(outputs[0].id, RpcId::Num(3)));
        }
        other => panic!("unexpected {:?}", other),
    }
}

#[test]
fn extract_response_searches_only_past_min() {
    let whole = br#"{"jsonrpc":"2.0","id":3,"result":1}"#;
    assert!(extract_response(whole, whole.len()).is_none());
    assert!(extract_response(whole, whole.len() - 1).is_some());
}

#[test]
fn extract_response_reads_batches_and_notifications() {
    let batch = br#"[{"jsonrpc":"2.0","id":1,"result":1},{"jsonrpc":"2.0","id":2,"error":{"code":-32601,"message":"no"}}]"#;
    match extract_response(batch, 0) {
        Some((Message::Rpc(outputs), len)) => {
            assert_eq!(len, batch.len());
            assert_eq!(outputs.len(), 2);
            assert_eq!(outputs[1].result.as_ref().unwrap_err().code, -32601);
        }
        other => panic!("unexpected {:?}", other),
    }
    let note = br#"{"jsonrpc":"2.0","method":"eth_subscription","params":{"subscription":"0x1","result":5}}"#;
    match extract_response(note, 0) {
        Some((Message::Notification(n), len)) => {
            assert_eq!(len, note.len());
            assert_eq!(n.method, "eth_subscription");
        }
        other => panic!("unexpected {:?}", other),
    }
}

#[test]
fn read_buffer_keeps_a_partial_message() {
    let mut buffer = ReadBuffer::new();
    let first = br#"{"jsonrpc":"2.0","id":0,"result":"x"}{"jsonrpc":"2.0","#;
    let size = buffer.reserve(INITIAL_WRITE_SIZE);
    let msgs = buffer.receive(first, size).unwrap();
    assert_eq!(msgs.len(), 1);
    let rest = br#""id":1,"result":"x"}"#;
    let msgs = buffer.receive(rest, size).unwrap();
    assert_eq!(msgs.len(), 1);
    match &msgs[0] {
        Message::Rpc(outputs) => assert!(matches!(outputs[0].id, RpcId::Num(1))),
        other => panic!("unexpected {:?}", other),
    }
}

#[test]
fn read_buffer_empty_read_changes_nothing() {
    let mut buffer = ReadBuffer::new();
    let size = buffer.reserve(INITIAL_WRITE_SIZE);
    assert!(buffer.receive(&[], size).is_none());
    assert_eq!(buffer.free_space(), 256);
}

#[test]
fn read_buffer_read_size_doubles_up_to_4096() {
    let mut buffer = ReadBuffer::new();
    let mut size = INITIAL_WRITE_SIZE;
    let mut sizes = Vec::new();
    for _ in 0..7 {
        size = buffer.reserve(size);
        sizes.push(size);
        let fill = vec![b' '; buffer.free_space()];
        let msgs = buffer.receive(&fill, size).unwrap();
        assert!(msgs.is_empty());
    }
    assert_eq!(sizes, vec![256, 512, 1024, 2048, 4096, 4096, 4096]);
}

#[test]
fn read_buffer_does_not_grow_while_room_is_left() {
    let mut buffer = ReadBuffer::new();
    let size = buffer.reserve(INITIAL_WRITE_SIZE);
    buffer.receive(b"ab", size).unwrap();
    assert_eq!(buffer.reserve(size), 256);
    assert_eq!(buffer.free_space(), 254);
}

#[test]
fn write_stream_writes_a_request_whole() {
    let mut w = WriteStream::new(WriteState::WaitingForRequest);
    assert_eq!(w.next_action(), WriteAction::AwaitRequest);
    assert!(w.on_request(Some(b"hello".to_vec())));
    assert_eq!(w.next_action(), WriteAction::Write);
    assert_eq!(w.unsent(), b"hello");
    assert!(w.on_written(2));
    assert_eq!(w.unsent(), b"llo");
    assert!(w.on_written(3));
    assert_eq!(w.next_action(), WriteAction::AwaitRequest);
}

#[test]
fn write_stream_zero_write_fails_and_closed_queue_stops() {
    let mut w = WriteStream::new(WriteState::WaitingForRequest);
    assert!(!w.on_request(None));
    assert_eq!(w.next_action(), WriteAction::AwaitRequest);
    assert!(w.on_request(Some(vec![1, 2])));
    assert!(!w.on_written(0));
    assert_eq!(w.unsent(), &[1, 2]);
}

#[test]
fn ipc_connection_retries_and_closes() {
    let mut c = IpcConnection::new(ConnState::Connecting);
    assert_eq!(c.on_shutdown_poll(false), None);
    assert_eq!(c.on_task_poll(TaskPoll::Pending), ConnAction::NotReady);
    assert_eq!(c.on_task_poll(TaskPoll::Failed), ConnAction::Wait);
    assert_eq!(c.state(), ConnState::WaitForConnect);
    assert_eq!(c.on_task_poll(TaskPoll::Failed), ConnAction::NotReady);
    assert_eq!(c.on_task_poll(TaskPoll::Ready), ConnAction::Connect);
    assert_eq!(c.on_task_poll(TaskPoll::Ready), ConnAction::Stream);
    assert_eq!(c.state(), ConnState::Connected);
    assert_eq!(c.on_task_poll(TaskPoll::Ready), ConnAction::NotReady);
    assert_eq!(c.on_task_poll(TaskPoll::Failed), ConnAction::Wait);
    assert_eq!(c.on_shutdown_poll(true), Some(ConnAction::Ready));
    assert_eq!(c.on_shutdown_poll(false), Some(ConnAction::Ready));
    assert_eq!(c.on_task_poll(TaskPoll::Ready), ConnAction::Ready);
    assert_eq!(c.state(), ConnState::Empty);
}

#[test]
fn write_stream_writes_requests_one_after_another() {
    let mut w = WriteStream::new(WriteState::WaitingForRequest);
    let mut socket: Vec<u8> = Vec::new();
    for request in [b"first".to_vec(), b"second".to_vec()].iter() {
        assert_eq!(w.next_action(), WriteAction::AwaitRequest);
        assert!(w.on_request(Some(request.clone())));
        while w.next_action() == WriteAction::Write {
            let chunk: Vec<u8> = w.unsent().iter().take(4).cloned().collect();
            socket.extend_from_slice(&chunk);
            assert!(w.on_written(chunk.len()));
        }
    }
    assert_eq!(socket, b"firstsecond".to_vec());
}

#[test]
fn ipc_is_refused_without_unix_sockets() {
    match web3::ipc::unsupported_platform() {
        web3::error::Error::Transport(m) => assert_eq!(m, "IPC transport is only supported on Unix"),
        other => panic!("unexpected {:?}", other),
    }
}
