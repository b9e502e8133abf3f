use web3::error::Error;
use web3::ipc::{ConnAction, ConnState, TaskPoll};
use web3::ws::{check_url, WsConnection};

#[test]
fn ws_connection_hands_the_queue_over_and_back() {
    let mut c = WsConnection::new();
    assert_eq!(c.on_shutdown_poll(false), None);
    assert_eq!(c.on_task_poll(TaskPoll::Pending), ConnAction::NotReady);
    assert_eq!(c.on_task_poll(TaskPoll::Ready), ConnAction::Stream);
    assert_eq!(c.state(), ConnState::Connected);
    assert_eq!(c.on_task_poll(TaskPoll::Failed), ConnAction::Poll);
    assert_eq!(c.on_task_poll(TaskPoll::Ready), ConnAction::Wait);
    assert_eq!(c.on_task_poll(TaskPoll::Failed), ConnAction::NotReady);
    assert_eq!(c.on_task_poll(TaskPoll::Ready), ConnAction::Connect);
    assert_eq!(c.on_task_poll(TaskPoll::Failed), ConnAction::Wait);
    assert_eq!(c.on_shutdown_poll(true), Some(ConnAction::Ready));
    assert_eq!(c.state(), ConnState::Empty);
}

#[test]
fn ws_clone_is_closed() {
    let mut c = WsConnection::detached();
    assert_eq!(c.on_shutdown_poll(false), Some(ConnAction::Ready));
}

#[test]
fn ws_url_must_parse() {
    assert!(check_url("ws://localhost:3000").is_ok());
    match check_url("localhost") {
        Err(Error::Transport(m)) => assert_eq!(m, "RelativeUrlWithoutBase"),
        other => panic!("unexpected {:?}", other),
    }
}
