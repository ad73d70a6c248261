use single_page_web_server_rs::lifecycle::{Acceptor, Action, Event, ListenerMode, Phase};

#[test]
fn a_plain_listener_serves_what_it_accepts() {
    let mut acceptor = Acceptor::new(ListenerMode::Plain);
    assert_eq!(acceptor.phase, Phase::Accepting);
    assert_eq!(acceptor.step(Event::Accepted), Action::Serve);
    assert_eq!(acceptor.step(Event::Accepted), Action::Serve);
    assert_eq!((acceptor.serving, acceptor.handshaking), (2, 0));
    assert_eq!(acceptor.step(Event::ConnectionClosed), Action::Idle);
    assert_eq!(acceptor.serving, 1);
}

#[test]
fn a_tls_listener_serves_after_the_handshake() {
    let mut acceptor = Acceptor::new(ListenerMode::Tls);
    assert_eq!(acceptor.step(Event::Accepted), Action::Handshake);
    assert_eq!((acceptor.serving, acceptor.handshaking), (0, 1));
    assert_eq!(acceptor.step(Event::HandshakeDone), Action::Serve);
    assert_eq!((acceptor.serving, acceptor.handshaking), (1, 0));
}

#[test]
fn a_failed_handshake_costs_one_connection_only() {
    let mut acceptor = Acceptor::new(ListenerMode::Tls);
    assert_eq!(acceptor.step(Event::Accepted), Action::Handshake);
    assert_eq!(acceptor.step(Event::HandshakeDone), Action::Serve);
    assert_eq!(acceptor.step(Event::Accepted), Action::Handshake);
    assert_eq!(acceptor.step(Event::HandshakeFailed), Action::Discard);
    assert_eq!(acceptor.phase, Phase::Accepting);
    assert_eq!((acceptor.serving, acceptor.handshaking), (1, 0));
    assert_eq!(acceptor.step(Event::Accepted), Action::Handshake);
    assert_eq!(acceptor.step(Event::HandshakeDone), Action::Serve);
    assert_eq!(acceptor.serving, 2);
}

#[test]
fn a_failed_accept_changes_nothing() {
    let mut acceptor = Acceptor::new(ListenerMode::Plain);
    acceptor.step(Event::Accepted);
    let before = acceptor;
    assert_eq!(acceptor.step(Event::AcceptFailed), Action::Idle);
    assert_eq!(acceptor, before);
}

#[test]
fn shutdown_with_nothing_served_finishes_at_once() {
    let mut acceptor = Acceptor::new(ListenerMode::Plain);
    assert_eq!(acceptor.step(Event::Shutdown), Action::Finish);
    assert_eq!(acceptor.phase, Phase::Stopped);
    assert_eq!(acceptor.step(Event::Accepted), Action::Discard);
    assert_eq!(acceptor.step(Event::Shutdown), Action::Idle);
    assert_eq!(acceptor.phase, Phase::Stopped);
}

#[test]
fn shutdown_drains_what_is_served() {
    let mut acceptor = Acceptor::new(ListenerMode::Plain);
    for _ in 0..3 {
        assert_eq!(acceptor.step(Event::Accepted), Action::Serve);
    }
    assert_eq!(acceptor.step(Event::Shutdown), Action::StopAccepting);
    assert_eq!(acceptor.phase, Phase::Draining);
    assert_eq!(acceptor.step(Event::Accepted), Action::Discard);
    assert_eq!(acceptor.serving, 3);
    assert_eq!(acceptor.step(Event::Shutdown), Action::Idle);
    assert_eq!(acceptor.step(Event::ConnectionClosed), Action::Idle);
    assert_eq!(acceptor.step(Event::ConnectionClosed), Action::Idle);
    assert_eq!(acceptor.phase, Phase::Draining);
    assert_eq!(acceptor.step(Event::ConnectionClosed), Action::Finish);
    assert_eq!(acceptor.phase, Phase::Stopped);
    assert_eq!(acceptor.serving, 0);
}

#[test]
fn shutdown_drops_the_handshakes_under_way() {
    let mut acceptor = Acceptor::new(ListenerMode::Tls);
    acceptor.step(Event::Accepted);
    acceptor.step(Event::HandshakeDone);
    acceptor.step(Event::Accepted);
    assert_eq!((acceptor.serving, acceptor.handshaking), (1, 1));
    assert_eq!(acceptor.step(Event::Shutdown), Action::StopAccepting);
    assert_eq!((acceptor.serving, acceptor.handshaking), (1, 0));
    assert_eq!(acceptor.step(Event::HandshakeDone), Action::Discard);
    assert_eq!(acceptor.step(Event::HandshakeFailed), Action::Discard);
    assert_eq!(acceptor.serving, 1);
    assert_eq!(acceptor.step(Event::ConnectionClosed), Action::Finish);
}

#[test]
fn two_listeners_do_not_touch_each_other() {
    let mut content = Acceptor::new(ListenerMode::Tls);
    let mut metrics = Acceptor::new(ListenerMode::Plain);
    content.step(Event::Accepted);
    content.step(Event::HandshakeFailed);
    metrics.step(Event::Accepted);
    assert_eq!(content.step(Event::Shutdown), Action::Finish);
    assert_eq!(metrics.phase, Phase::Accepting);
    assert_eq!(metrics.step(Event::Shutdown), Action::StopAccepting);
    assert_eq!(metrics.step(Event::ConnectionClosed), Action::Finish);
}

#[test]
fn a_listener_that_cannot_count_further_turns_connections_away() {
    let mut plain = Acceptor {
        mode: ListenerMode::Plain,
        phase: Phase::Accepting,
        handshaking: 0,
        serving: u64::MAX,
    };
    assert_eq!(plain.step(Event::Accepted), Action::Discard);
    assert_eq!(plain.serving, u64::MAX);

    let mut tls = Acceptor {
        mode: ListenerMode::Tls,
        phase: Phase::Accepting,
        handshaking: 1,
        serving: u64::MAX,
    };
    assert_eq!(tls.step(Event::HandshakeDone), Action::Discard);
    assert_eq!((tls.serving, tls.handshaking), (u64::MAX, 0));
}

#[test]
fn events_without_a_connection_are_harmless() {
    let mut acceptor = Acceptor::new(ListenerMode::Plain);
    assert_eq!(acceptor.step(Event::ConnectionClosed), Action::Idle);
    assert_eq!(acceptor.step(Event::HandshakeDone), Action::Discard);
    assert_eq!(acceptor.step(Event::HandshakeFailed), Action::Discard);
    assert_eq!(acceptor, Acceptor::new(ListenerMode::Plain));
}
