use communication::channel::TrySendError;
use communication::listener::{Action, Listener, Notice, Session, PORT};
use communication::packets::{ClientInfo, FromMain, Level, Log, RobotInfo, ToClient, ToMain, ToRobot};
use communication::plot::{Buffer, Point, Shape};

const MS: u64 = 1_000_000;

fn record(msg: &str, n: u64) -> Log {
    Log { source: String::from("robot::arm"), level: Level::Info, msg: String::from(msg), timestamp: n }
}

/// Writes the unsent backlog as the loop that owns the socket does, but to
/// a list, and stops after `limit` packets as if the socket had failed.
fn send_backlog(listener: &mut Listener, wire: &mut Vec<ToClient>, limit: usize) -> bool {
    let mut written = 0;
    while let Some(packet) = listener.next_unsent() {
        if written == limit {
            return false;
        }
        wire.push(packet);
        listener.mark_sent();
        written += 1;
    }
    true
}

#[test]
fn default_port() {
    assert_eq!(PORT, 8733);
}

#[test]
fn listener_begins_disconnected_and_empty() {
    let listener = Listener::new(RobotInfo::new("robot"));
    assert_eq!(listener.session(), Session::Disconnected);
    assert_eq!(listener.backlog_len(), 0);
    assert_eq!(listener.last_sent_index(), 0);
    assert_eq!(listener.plots().len(), 0);
    assert_eq!(listener.next_unsent(), None);
}

#[test]
fn every_session_begins_with_the_robot_info() {
    let mut listener = Listener::new(RobotInfo::new("rover"));
    assert_eq!(listener.greeting(), ToClient::RobotInfo(RobotInfo { name: String::from("rover") }));
    listener.on_accept();
    listener.on_io_error();
    listener.on_accept();
    assert_eq!(listener.greeting(), ToClient::RobotInfo(RobotInfo::new("rover")));
    assert_eq!(listener.greeting().tag(), 5);
}

#[test]
fn client_connected_is_reported_once() {
    let mut listener = Listener::new(RobotInfo::new("robot"));
    assert_eq!(listener.on_accept(), Some(Notice::ClientConnected));
    assert_eq!(listener.session(), Session::Connected);
    assert_eq!(listener.on_accept(), None);
    assert_eq!(listener.session(), Session::Connected);
}

#[test]
fn client_disconnected_is_reported_once() {
    let mut listener = Listener::new(RobotInfo::new("robot"));
    assert_eq!(listener.on_io_error(), None);
    listener.on_accept();
    assert_eq!(listener.on_io_error(), Some(Notice::ClientDisconnected));
    assert_eq!(listener.session(), Session::Disconnected);
    assert_eq!(listener.on_io_error(), None);
    assert_eq!(listener.on_accept(), Some(Notice::ClientConnected));
}

#[test]
fn backlog_resend_semantics() {
    let mut listener = Listener::new(RobotInfo::new("robot"));
    for (i, msg) in ["first", "second", "third"].iter().enumerate() {
        assert_eq!(listener.on_message(FromMain::Log(record(msg, i as u64)), 0), Action::Idle);
    }
    assert_eq!(listener.backlog_len(), 3);
    assert_eq!(listener.last_sent_index(), 0);

    assert_eq!(listener.on_accept(), Some(Notice::ClientConnected));
    let mut wire = Vec::new();
    assert_eq!(listener.on_packet(ToRobot::RequestLogs), Action::SendBacklog);
    assert!(send_backlog(&mut listener, &mut wire, usize::MAX));
    assert_eq!(
        wire,
        vec![
            ToClient::Log(record("first", 0)),
            ToClient::Log(record("second", 1)),
            ToClient::Log(record("third", 2)),
        ]
    );
    assert_eq!(listener.last_sent_index(), 3);

    assert_eq!(listener.on_packet(ToRobot::RequestLogs), Action::SendBacklog);
    assert!(send_backlog(&mut listener, &mut wire, usize::MAX));
    assert_eq!(wire.len(), 3);
    assert_eq!(listener.next_unsent(), None);
}

#[test]
fn reconnect() {
    let mut listener = Listener::new(RobotInfo::new("robot"));
    listener.on_accept();
    let mut wire = Vec::new();
    listener.on_message(FromMain::Log(record("one", 1)), 0);
    listener.on_message(FromMain::Log(record("two", 2)), 0);
    assert_eq!(listener.on_message(FromMain::Log(record("three", 3)), 0), Action::SendBacklog);
    assert!(!send_backlog(&mut listener, &mut wire, 2));
    assert_eq!(listener.on_io_error(), Some(Notice::ClientDisconnected));
    assert_eq!(wire, vec![ToClient::Log(record("one", 1)), ToClient::Log(record("two", 2))]);
    assert_eq!(listener.last_sent_index(), 2);
    assert_eq!(listener.backlog_len(), 3);

    assert_eq!(listener.on_accept(), Some(Notice::ClientConnected));
    let mut second_wire = Vec::new();
    assert_eq!(listener.on_packet(ToRobot::RequestLogs), Action::SendBacklog);
    assert!(send_backlog(&mut listener, &mut second_wire, usize::MAX));
    assert_eq!(second_wire, vec![ToClient::Log(record("three", 3))]);
    assert_eq!(listener.last_sent_index(), 3);
}

#[test]
fn log_while_connected_asks_for_the_backlog() {
    let mut listener = Listener::new(RobotInfo::new("robot"));
    listener.on_accept();
    assert_eq!(listener.on_message(FromMain::Log(record("a", 1)), 0), Action::SendBacklog);
    assert_eq!(listener.next_unsent(), Some(ToClient::Log(record("a", 1))));
    assert_eq!(listener.next_unsent(), Some(ToClient::Log(record("a", 1))));
    listener.mark_sent();
    assert_eq!(listener.next_unsent(), None);
    listener.mark_sent();
    assert_eq!(listener.last_sent_index(), 1);
}

#[test]
fn pong_and_path_are_sent_at_once() {
    let mut listener = Listener::new(RobotInfo::new("robot"));
    assert_eq!(listener.on_message(FromMain::Pong, 0), Action::Idle);
    assert_eq!(listener.on_message(FromMain::Path(vec![1, 2]), 0), Action::Idle);
    listener.on_accept();
    assert_eq!(listener.on_message(FromMain::Pong, 0), Action::Send(ToClient::Pong));
    assert_eq!(
        listener.on_message(FromMain::Path(vec![1, 2]), 0),
        Action::Send(ToClient::Path(vec![1, 2]))
    );
    assert_eq!(listener.backlog_len(), 0);
}

#[test]
fn poll_events_asks_for_the_socket() {
    let mut listener = Listener::new(RobotInfo::new("robot"));
    assert_eq!(listener.on_message(FromMain::PollEvents, 0), Action::Idle);
    listener.on_accept();
    assert_eq!(listener.on_message(FromMain::PollEvents, 0), Action::PollSocket);
}

#[test]
fn packets_from_the_client() {
    let mut listener = Listener::new(RobotInfo::new("robot"));
    assert_eq!(listener.on_packet(ToRobot::Ping), Action::Idle);
    assert_eq!(listener.on_packet(ToRobot::RequestLogs), Action::Idle);
    listener.on_accept();
    assert_eq!(listener.on_packet(ToRobot::Ping), Action::Forward(ToMain::Ping));
    assert_eq!(
        listener.on_packet(ToRobot::Path(vec![7, 7])),
        Action::Forward(ToMain::Path(vec![7, 7]))
    );
    assert_eq!(listener.on_packet(ToRobot::RequestLogs), Action::SendBacklog);
    assert_eq!(
        listener.on_packet(ToRobot::ClientInfo(ClientInfo::new("viewer"))),
        Action::Report(Notice::ClientIdentified(ClientInfo { name: String::from("viewer") }))
    );
}

#[test]
fn samples_are_kept_and_handed_out_when_due() {
    let mut listener = Listener::new(RobotInfo::new("robot"));
    listener.on_accept();
    let p = |at: u64, v: f64| Point::Scalar((at, v.to_bits()));
    for i in 0..3u64 {
        let msg = FromMain::Point(String::from("speed"), String::from("left"), p(i * MS, i as f64));
        assert_eq!(listener.on_message(msg, i * MS), Action::Idle);
    }
    assert!(listener.ready_buffers(99 * MS).is_empty());
    let out = listener.ready_buffers(100 * MS);
    assert_eq!(
        out,
        vec![ToClient::PointBuffer(
            String::from("speed"),
            String::from("left"),
            Buffer::Scalar(vec![
                (0, 0.0f64.to_bits()),
                (MS, 1.0f64.to_bits()),
                (2 * MS, 2.0f64.to_bits()),
            ])
        )]
    );
    assert!(listener.ready_buffers(100 * MS).is_empty());
    assert_eq!(listener.plots().get(0).unwrap().len(), 0);
}

#[test]
fn buffers_wait_for_a_client() {
    let mut listener = Listener::new(RobotInfo::new("robot"));
    let msg = FromMain::Point(String::from("a"), String::from("b"), Point::Scalar((0, 0)));
    assert_eq!(listener.on_message(msg, 0), Action::Idle);
    assert!(listener.ready_buffers(1_000 * MS).is_empty());
    assert_eq!(listener.plots().get(0).unwrap().len(), 1);
    listener.on_accept();
    assert_eq!(listener.ready_buffers(1_000 * MS).len(), 1);
}

#[test]
fn wrong_shape_is_reported_with_names_and_shapes() {
    let mut listener = Listener::new(RobotInfo::new("robot"));
    let first = FromMain::Point(String::from("a"), String::from("b"), Point::Scalar((0, 1)));
    assert_eq!(listener.on_message(first, 0), Action::Idle);
    let second = FromMain::Point(String::from("a"), String::from("b"), Point::Vec3((1, [1, 2, 3])));
    assert_eq!(
        listener.on_message(second, 1),
        Action::Report(Notice::WrongShape {
            series: String::from("a"),
            subseries: String::from("b"),
            expected: Shape::Scalar,
            found: Shape::Vec3,
        })
    );
    assert_eq!(listener.plots().len(), 1);
    assert_eq!(listener.plots().get(0).unwrap().buffer(), &Buffer::Scalar(vec![(0, 1)]));
}

#[test]
fn closed_queue_ends_everything() {
    let mut listener = Listener::new(RobotInfo::new("robot"));
    listener.on_accept();
    listener.on_message(FromMain::Log(record("kept", 0)), 0);
    assert_eq!(listener.on_queue_closed(), Notice::QueueClosed);
    assert_eq!(listener.session(), Session::Terminated);
    assert_eq!(listener.on_accept(), None);
    assert_eq!(listener.on_io_error(), None);
    assert_eq!(listener.session(), Session::Terminated);
    assert_eq!(listener.on_message(FromMain::Log(record("late", 1)), 0), Action::Idle);
    assert_eq!(listener.on_message(FromMain::Pong, 0), Action::Idle);
    assert_eq!(listener.on_message(FromMain::PollEvents, 0), Action::Idle);
    let msg = FromMain::Point(String::from("a"), String::from("b"), Point::Scalar((0, 1)));
    assert_eq!(listener.on_message(msg, 0), Action::Idle);
    assert_eq!(listener.on_packet(ToRobot::Ping), Action::Idle);
    assert_eq!(listener.backlog_len(), 1);
    assert_eq!(listener.plots().len(), 0);
    assert!(listener.ready_buffers(u64::MAX).is_empty());
}

#[test]
fn infos_are_made_from_any_string() {
    assert_eq!(ClientInfo::new("a").name, "a");
    assert_eq!(ClientInfo::new(String::from("b")).name, "b");
    assert_eq!(RobotInfo::new("r2").name, "r2");
    assert_eq!(RobotInfo::new("r2").clone(), RobotInfo { name: String::from("r2") });
    assert_eq!(ClientInfo::new("c").clone(), ClientInfo::new("c"));
    let log = record("x", 9);
    assert_eq!(log.clone(), log);
}

#[test]
fn full_queue_to_the_application_loses_the_message_and_no_more() {
    let mut listener = Listener::new(RobotInfo::new("robot"));
    listener.on_accept();
    assert_eq!(listener.on_forwarded(Ok(())), None);
    assert_eq!(listener.on_forwarded(Err(TrySendError::Full(ToMain::Ping))), None);
    assert_eq!(listener.session(), Session::Connected);
    assert_eq!(
        listener.on_forwarded(Err(TrySendError::Closed(ToMain::Ping))),
        Some(Notice::QueueClosed)
    );
    assert_eq!(listener.session(), Session::Terminated);
}

#[test]
fn forward_puts_the_message_on_the_queue() {
    let (to_main, main_rx) = async_channel::bounded::<ToMain>(1);
    let mut listener = Listener::new(RobotInfo::new("robot"));
    listener.on_accept();
    assert_eq!(listener.forward(&to_main, ToMain::Ping), None);
    assert_eq!(listener.forward(&to_main, ToMain::Path(vec![1])), None);
    assert_eq!(main_rx.try_recv().unwrap(), ToMain::Ping);
    assert!(main_rx.try_recv().is_err());
    assert_eq!(listener.session(), Session::Connected);
    drop(main_rx);
    assert_eq!(listener.forward(&to_main, ToMain::Ping), Some(Notice::QueueClosed));
    assert_eq!(listener.session(), Session::Terminated);
}
