use protocol_handlers::tcp_client::{SendAction, SendEvent, SendPlan};

fn kind(action: &SendAction) -> &'static str {
    match action {
        SendAction::Connect => "connect",
        SendAction::Write => "write",
        SendAction::Read => "read",
        SendAction::Finish { .. } => "finish",
    }
}

fn finish(action: SendAction) -> (Vec<u8>, bool) {
    match action {
        SendAction::Finish { response, disconnect } => (response, disconnect),
        other => panic!("not finished: {:?}", other),
    }
}

#[test]
fn send_on_a_standing_connection_writes_then_reads() {
    let (mut plan, action) = SendPlan::start(true, true);
    assert_eq!(kind(&action), "write");
    assert!(!plan.is_done());
    assert_eq!(kind(&plan.next(SendEvent::Written)), "read");
    let action = plan.next(SendEvent::Received(vec![1, 2, 3]));
    assert_eq!(finish(action), (vec![1, 2, 3], false));
    assert!(plan.is_done());
}

#[test]
fn response_does_not_close_the_connection() {
    let (mut plan, _) = SendPlan::start(true, false);
    plan.next(SendEvent::Written);
    assert_eq!(finish(plan.next(SendEvent::Received(vec![9]))), (vec![9], false));
}

#[test]
fn missing_connection_is_tried_twice() {
    let (mut plan, action) = SendPlan::start(false, true);
    assert_eq!(kind(&action), "connect");
    assert_eq!(kind(&plan.next(SendEvent::ConnectFailed)), "connect");
    assert_eq!(finish(plan.next(SendEvent::ConnectFailed)), (vec![], false));
    assert!(plan.is_done());
    let (mut plan, _) = SendPlan::start(false, false);
    assert_eq!(kind(&plan.next(SendEvent::Connected)), "write");
    let (mut plan, _) = SendPlan::start(false, false);
    plan.next(SendEvent::ConnectFailed);
    assert_eq!(kind(&plan.next(SendEvent::Connected)), "write");
    let (mut plan, _) = SendPlan::start(false, false);
    plan.next(SendEvent::ConnectFailed);
    assert_eq!(finish(plan.next(SendEvent::ConnectFailed)), (vec![], true));
}

#[test]
fn failed_write_reconnects_and_retries_once() {
    let (mut plan, _) = SendPlan::start(true, false);
    assert_eq!(kind(&plan.next(SendEvent::WriteFailed)), "connect");
    for _ in 0..5 {
        assert_eq!(kind(&plan.next(SendEvent::ConnectFailed)), "connect");
    }
    assert_eq!(kind(&plan.next(SendEvent::Connected)), "write");
    assert_eq!(kind(&plan.next(SendEvent::Written)), "read");
    assert_eq!(finish(plan.next(SendEvent::Received(vec![7]))), (vec![7], false));

    let (mut plan, _) = SendPlan::start(true, false);
    plan.next(SendEvent::WriteFailed);
    plan.next(SendEvent::Connected);
    assert_eq!(finish(plan.next(SendEvent::WriteFailed)), (vec![], true));
    assert!(plan.is_done());
}

#[test]
fn failed_read_reconnects_and_gives_up() {
    let (mut plan, _) = SendPlan::start(true, true);
    plan.next(SendEvent::Written);
    assert_eq!(kind(&plan.next(SendEvent::ReadFailed)), "connect");
    assert_eq!(kind(&plan.next(SendEvent::ConnectFailed)), "connect");
    assert_eq!(finish(plan.next(SendEvent::Connected)), (vec![], false));
    assert!(plan.is_done());
}

#[test]
fn empty_response_is_a_response() {
    let (mut plan, _) = SendPlan::start(true, false);
    plan.next(SendEvent::Written);
    assert_eq!(finish(plan.next(SendEvent::Received(vec![]))), (vec![], false));
}

#[test]
fn unexpected_event_ends_the_send() {
    let (mut plan, _) = SendPlan::start(true, false);
    assert_eq!(finish(plan.next(SendEvent::Received(vec![1]))), (vec![], true));
    assert!(plan.is_done());
    assert_eq!(finish(plan.next(SendEvent::Written)), (vec![], true));
    let (mut plan, _) = SendPlan::start(false, true);
    assert_eq!(finish(plan.next(SendEvent::Written)), (vec![], false));
}
