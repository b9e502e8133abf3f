use serde_json::Value;
use web3::dispatch::{
    send_batch, single_response, Dispatcher, NotificationRoute, RequestIds, ResponseRoute, SubscriptionId,
};
use web3::error::Error;
use web3::ipc::{extract_response, Message};
use web3::rpc::{Request, RpcId, RpcNotification};
use web3::ws::{WsIncoming, WsMessage, FIRST_REQUEST_ID};

fn notification(text: &str) -> RpcNotification {
    match extract_response(text.as_bytes(), 0) {
        Some((Message::Notification(n), _)) => n,
        other => panic!("not a notification: {:?}", other),
    }
}

fn outputs(text: &str) -> Vec<web3::rpc::RpcOutput> {
    match extract_response(text.as_bytes(), 0) {
        Some((Message::Rpc(o), _)) => o,
        other => panic!("not a response: {:?}", other),
    }
}

#[test]
fn ws_should_send_a_request() {
    let mut ids = RequestIds::new(FIRST_REQUEST_ID);
    let mut dispatcher: Dispatcher<&str, ()> = Dispatcher::new();
    let (id, call) = ids.prepare("eth_accounts", vec![Value::String("1".into())]);
    let text = dispatcher.send_request(id, &Request::Single(call), "first");
    assert_eq!(text, r#"{"jsonrpc":"2.0","method":"eth_accounts","params":["1"],"id":1}"#);
    let reply = WsMessage::Text(r#"{"jsonrpc":"2.0","id":1,"result":"x"}"#.to_owned());
    match dispatcher.on_ws_message(reply) {
        WsIncoming::Response(ResponseRoute::Deliver { request, results }) => {
            assert_eq!(request, "first");
            assert_eq!(single_response(results).unwrap(), Value::String("x".into()));
        }
        other => panic!("unexpected {:?}", other),
    }
}

#[test]
fn ws_answers_pings_and_echoes_close() {
    let mut d: Dispatcher<(), ()> = Dispatcher::new();
    match d.on_ws_message(WsMessage::Ping(vec![1, 2])) {
        WsIncoming::Reply(WsMessage::Pong(p)) => assert_eq!(p, vec![1, 2]),
        other => panic!("unexpected {:?}", other),
    }
    match d.on_ws_message(WsMessage::Close(Some((1000, "bye".into())))) {
        WsIncoming::Reply(WsMessage::Close(Some((code, reason)))) => {
            assert_eq!(code, 1000);
            assert_eq!(reason, "bye");
        }
        other => panic!("unexpected {:?}", other),
    }
    assert!(matches!(d.on_ws_message(WsMessage::Binary(vec![1])), WsIncoming::Ignore));
    assert!(matches!(d.on_ws_message(WsMessage::Pong(vec![])), WsIncoming::Ignore));
}

#[test]
fn ws_unreadable_text_answers_request_zero() {
    let mut d: Dispatcher<u8, ()> = Dispatcher::new();
    let mut ids = RequestIds::new(0);
    let (id, call) = ids.prepare("m", vec![]);
    d.send_request(id, &Request::Single(call), 5);
    match d.on_ws_message(WsMessage::Text("garbage".into())) {
        WsIncoming::Response(ResponseRoute::Deliver { request, results }) => {
            assert_eq!(request, 5);
            assert!(results.is_empty());
        }
        other => panic!("unexpected {:?}", other),
    }
}

#[test]
fn ws_notification_reaches_subscriber() {
    let mut d: Dispatcher<(), &str> = Dispatcher::new();
    assert!(!d.subscribe(&SubscriptionId("0xab".into()), "heads"));
    let text = r#"{"jsonrpc":"2.0","method":"eth_subscription","params":{"subscription":"0xab","result":{"number":"0x1"}}}"#;
    match d.on_ws_message(WsMessage::Text(text.into())) {
        WsIncoming::Notification(NotificationRoute::Deliver { index, value }) => {
            assert_eq!(*d.subscriber(index), "heads");
            let mut m = serde_json::Map::new();
            m.insert("number".into(), Value::String("0x1".into()));
            assert_eq!(value, Value::Object(m));
        }
        other => panic!("unexpected {:?}", other),
    }
}

#[test]
fn answer_is_delivered_once() {
    let mut d: Dispatcher<u8, ()> = Dispatcher::new();
    let mut ids = RequestIds::new(0);
    let (id, call) = ids.prepare("m", vec![]);
    d.send_request(id, &Request::Single(call), 1);
    let answer = r#"{"jsonrpc":"2.0","id":0,"result":true}"#;
    assert!(matches!(d.respond(outputs(answer)), ResponseRoute::Deliver { request: 1, .. }));
    assert!(matches!(d.respond(outputs(answer)), ResponseRoute::UnknownRequest(0)));
}

#[test]
fn string_ids_are_unsupported() {
    let mut d: Dispatcher<u8, ()> = Dispatcher::new();
    match d.respond(outputs(r#"{"jsonrpc":"2.0","id":"a","result":true}"#)) {
        ResponseRoute::UnsupportedId(RpcId::Str(s)) => assert_eq!(s, "a"),
        other => panic!("unexpected {:?}", other),
    }
}

#[test]
fn failure_output_becomes_rpc_error() {
    let mut d: Dispatcher<u8, ()> = Dispatcher::new();
    let (id, call) = RequestIds::new(4).prepare("m", vec![]);
    d.send_request(id, &Request::Single(call), 9);
    let answer = r#"{"jsonrpc":"2.0","id":4,"error":{"code":-32000,"message":"boom"}}"#;
    match d.respond(outputs(answer)) {
        ResponseRoute::Deliver { request: 9, results } => match single_response(results) {
            Err(Error::Rpc(e)) => {
                assert_eq!(e.code, -32000);
                assert_eq!(e.message, "boom");
            }
            other => panic!("unexpected {:?}", other),
        },
        other => panic!("unexpected {:?}", other),
    }
}

#[test]
fn notification_routes() {
    let mut d: Dispatcher<(), u8> = Dispatcher::new();
    d.subscribe(&SubscriptionId("0x1".into()), 1);
    assert!(d.subscribe(&SubscriptionId("0x1".into()), 2));
    let hit = notification(r#"{"jsonrpc":"2.0","method":"s","params":{"result":7,"subscription":"0x1"}}"#);
    match d.route_notification(hit) {
        NotificationRoute::Deliver { index, value } => {
            assert_eq!(*d.subscriber(index), 2);
            assert_eq!(value, Value::from(7));
        }
        other => panic!("unexpected {:?}", other),
    }
    let unknown = notification(r#"{"jsonrpc":"2.0","method":"s","params":{"subscription":"0x2","result":7}}"#);
    match d.route_notification(unknown) {
        NotificationRoute::UnknownSubscription(id) => assert_eq!(id, "0x2"),
        other => panic!("unexpected {:?}", other),
    }
    let numeric = notification(r#"{"jsonrpc":"2.0","method":"s","params":{"subscription":1,"result":7}}"#);
    assert!(matches!(d.route_notification(numeric), NotificationRoute::Unsupported));
    let no_result = notification(r#"{"jsonrpc":"2.0","method":"s","params":{"subscription":"0x1"}}"#);
    assert!(matches!(d.route_notification(no_result), NotificationRoute::Unsupported));
    let array = notification(r#"{"jsonrpc":"2.0","method":"s","params":[1]}"#);
    assert!(matches!(d.route_notification(array), NotificationRoute::Ignored));
}

#[test]
fn unsubscribe_stops_notifications() {
    let mut d: Dispatcher<(), u8> = Dispatcher::new();
    d.subscribe(&SubscriptionId("0x1".into()), 1);
    d.subscribe(&SubscriptionId("0x2".into()), 2);
    d.unsubscribe(&SubscriptionId("0x1".into()));
    let text = r#"{"jsonrpc":"2.0","method":"s","params":{"subscription":"0x1","result":7}}"#;
    assert!(matches!(d.route_notification(notification(text)), NotificationRoute::UnknownSubscription(_)));
    let text = r#"{"jsonrpc":"2.0","method":"s","params":{"subscription":"0x2","result":7}}"#;
    match d.route_notification(notification(text)) {
        NotificationRoute::Deliver { index, .. } => assert_eq!(*d.subscriber(index), 2),
        other => panic!("unexpected {:?}", other),
    }
}

#[test]
fn ids_count_up_and_wrap() {
    let mut ids = RequestIds::new(usize::MAX - 1);
    assert_eq!(ids.prepare("a", vec![]).0, usize::MAX - 1);
    assert_eq!(ids.prepare("a", vec![]).0, usize::MAX);
    assert_eq!(ids.prepare("a", vec![]).0, 0);
    assert_eq!(ids.prepare("a", vec![]).0, 1);
}

#[test]
fn batch_takes_first_id() {
    let mut ids = RequestIds::new(5);
    let a = ids.prepare("a", vec![]);
    let b = ids.prepare("b", vec![]);
    let (id, request) = send_batch(vec![a, b]);
    assert_eq!(id, 5);
    let mut d: Dispatcher<(), ()> = Dispatcher::new();
    let text = d.send_request(id, &request, ());
    assert_eq!(
        text,
        r#"[{"jsonrpc":"2.0","method":"a","params":[],"id":5},{"jsonrpc":"2.0","method":"b","params":[],"id":6}]"#
    );
    let (id, request) = send_batch(vec![]);
    assert_eq!(id, 0);
    assert!(matches!(request, Request::Batch(ref v) if v.is_empty()));
}

#[test]
fn single_response_of_nothing_is_an_error() {
    match single_response(vec![]) {
        Err(Error::InvalidResponse(m)) => assert_eq!(m, "Expected single, got batch."),
        other => panic!("unexpected {:?}", other),
    }
    let first = single_response(vec![Ok(Value::from(1)), Ok(Value::from(2))]).unwrap();
    assert_eq!(first, Value::from(1));
}
