use holdfast::forward::{
    ack_overdue, Downstream, FlowInput, Forward, ForwardAction, ForwardEvent, ForwardService,
};
use holdfast::protocol::{Envelope, Message};

fn bare(message: Message) -> Envelope {
    Envelope { request_id: 0, server_id: vec![], shell_id: vec![], message: Some(message) }
}

#[test]
fn user_and_global_limits_release_on_drop() {
    let mut service = ForwardService::new(vec!["alice".to_string()]).ok().unwrap();
    assert!(service.permits("alice"));
    assert!(!service.permits("bob"));
    let mut permits: Vec<_> = (0..64).map(|_| service.acquire("alice").unwrap()).collect();
    assert!(service.acquire("alice").is_none());
    let last = permits.pop().unwrap();
    service.release(last);
    let again = service.acquire("alice");
    assert!(again.is_some());
    service.release(again.unwrap());
    for permit in permits {
        service.release(permit);
    }
    assert_eq!(service.active_users(), 0);
    let permits: Vec<_> =
        (0..256).map(|i| service.acquire(&format!("user-{}", i / 64)).unwrap()).collect();
    assert!(service.acquire("next-user").is_none());
    for permit in permits {
        service.release(permit);
    }
    assert!(service.acquire("next-user").is_some());
}

#[test]
fn names_and_numbers_of_users_are_bounded() {
    assert!(ForwardService::new(vec!["".to_string()]).is_err());
    assert!(ForwardService::new(vec!["x".repeat(129)]).is_err());
    assert!(ForwardService::new(vec!["x".repeat(128)]).is_ok());
    let users: Vec<String> = (0..256).map(|i| format!("user-{i}")).collect();
    assert!(ForwardService::new(users.clone()).is_ok());
    let mut more = users;
    more.push("one-more".to_string());
    assert!(ForwardService::new(more).is_err());
    assert!(!ForwardService::new(vec![]).ok().unwrap().enabled());
}

#[test]
fn one_frame_moves_at_a_time() {
    let mut flow = Forward::opening(9, 1_000);
    assert!(!flow.input_ready);
    assert_eq!(flow.message(bare(Message::TcpForwardData { data: vec![1] })), None);
    let opened = flow.step(
        ForwardEvent::Connected { bound_ip: "127.0.0.1".to_string(), bound_port: 4000 },
        1_001,
    );
    assert_eq!(opened.len(), 1);
    assert!(matches!(
        &opened[0],
        ForwardAction::Send(Envelope {
            request_id: 9,
            message: Some(Message::TcpForwardOpened { bound_port: 4000, .. }),
            ..
        })
    ));
    assert!(flow.input_ready);
    assert_eq!(flow.downstream, Downstream::Reading);
    assert_eq!(
        flow.clone().message(bare(Message::TcpForwardData { data: vec![1] })),
        Some(FlowInput::Data(vec![1]))
    );
    let written = flow.step(ForwardEvent::Frame(bare(Message::TcpForwardData { data: vec![1, 2] })), 1_002);
    assert_eq!(written, vec![ForwardAction::Write(vec![1, 2])]);
    assert!(!flow.input_ready, "the next frame waits for the acknowledgement");
    let acknowledged = flow.step(ForwardEvent::Written, 1_003);
    assert!(acknowledged.contains(&ForwardAction::Send(bare(Message::TcpForwardAck))));
    assert!(flow.input_ready);
    let sent = flow.step(ForwardEvent::Read(vec![5]), 1_004);
    assert!(sent.contains(&ForwardAction::Send(bare(Message::TcpForwardData { data: vec![5] }))));
    assert!(flow.ack_expected);
}

#[test]
fn oversized_and_scoped_frames_are_refused() {
    let mut flow = Forward::opening(1, 0);
    let _ = flow.step(ForwardEvent::Connected { bound_ip: String::new(), bound_port: 1 }, 0);
    assert_eq!(flow.clone().message(bare(Message::TcpForwardData { data: vec![] })), None);
    let mut scoped = bare(Message::TcpForwardData { data: vec![1] });
    scoped.request_id = 3;
    assert_eq!(flow.clone().message(scoped.clone()), None);
    assert!(flow.step(ForwardEvent::Frame(scoped), 1).contains(&ForwardAction::End));
}

#[test]
fn an_acknowledgement_is_not_waited_for_longer_than_thirty_seconds() {
    assert!(!ack_overdue(1_000, 30_999));
    assert!(ack_overdue(1_000, 31_000));
    assert!(!ack_overdue(1_000, 0));
    assert!(!ack_overdue(u64::MAX, u64::MAX));
    let mut flow = Forward::opening(7, 0);
    let _ = flow.step(ForwardEvent::Connected { bound_ip: String::new(), bound_port: 1 }, 0);
    let _ = flow.step(ForwardEvent::Read(vec![5]), 1_000);
    assert_eq!(flow.downstream, Downstream::AwaitingAck { eof: false, sent_ms: 1_000 });
    // Bytes that the peer sends meanwhile do not make up for it.
    let _ = flow.step(ForwardEvent::Frame(bare(Message::TcpForwardData { data: vec![1] })), 30_000);
    let _ = flow.step(ForwardEvent::Written, 30_000);
    assert!(flow.step(ForwardEvent::Tick, 30_999).is_empty());
    let late = flow.clone().step(ForwardEvent::Tick, 31_000);
    let failed = flow.clone().step(ForwardEvent::Failed, 31_000);
    assert!(late.contains(&ForwardAction::End));
    assert_eq!(late, failed, "what went wrong is not told");
    let _ = flow.step(ForwardEvent::Frame(bare(Message::TcpForwardAck)), 30_999);
    assert!(flow.step(ForwardEvent::Tick, 31_000).is_empty());
}
