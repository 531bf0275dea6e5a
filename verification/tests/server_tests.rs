use command_server::server::{
    record_step, session_step, ConnectionInfo, ConnectionRegistry, ConnectionStatus,
    SessionAction, SessionEvent,
};

fn info(address: &str, now: u64) -> ConnectionInfo {
    ConnectionInfo {
        status: ConnectionStatus::Active,
        address: address.to_string(),
        connected_at: now,
        last_activity: now,
    }
}

#[test]
fn ids_are_handed_out_in_sequence() {
    let mut registry = ConnectionRegistry::new();
    assert_eq!(registry.next_id(), 0);
    assert_eq!(registry.len(), 0);
    assert_eq!(registry.accept("127.0.0.1:1".to_string(), 10), Some(0));
    assert_eq!(registry.accept("127.0.0.1:2".to_string(), 11), Some(1));
    assert_eq!(registry.next_id(), 2);
    assert_eq!(registry.len(), 2);
    assert!(registry.contains(0));
    assert!(registry.contains(1));
    assert!(!registry.contains(2));
    assert_eq!(registry.status(1), Some(ConnectionStatus::Active));
    assert_eq!(registry.last_activity(1), Some(11));
}

#[test]
fn removed_ids_are_absent_and_not_reused() {
    let mut registry = ConnectionRegistry::new();
    let first = registry.accept("a".to_string(), 1).unwrap();
    assert!(registry.remove(first));
    assert!(!registry.contains(first));
    assert!(!registry.remove(first));
    let second = registry.accept("b".to_string(), 2).unwrap();
    assert_eq!(second, first + 1);
    assert!(!registry.contains(first));
    assert_eq!(registry.len(), 1);
}

#[test]
fn insert_takes_only_the_next_id() {
    let mut registry = ConnectionRegistry::new();
    assert!(!registry.insert(5, info("a", 1)));
    assert_eq!(registry.len(), 0);
    assert!(registry.insert(0, info("a", 1)));
    assert!(!registry.insert(0, info("b", 2)));
    assert_eq!(registry.len(), 1);
    assert_eq!(registry.last_activity(0), Some(1));
    assert!(registry.insert(1, info("b", 2)));
    assert_eq!(registry.next_id(), 2);
}

#[test]
fn activity_and_disconnect_touch_one_record() {
    let mut registry = ConnectionRegistry::new();
    let a = registry.accept("a".to_string(), 1).unwrap();
    let b = registry.accept("b".to_string(), 2).unwrap();
    assert!(registry.update_activity(a, 9));
    assert_eq!(registry.last_activity(a), Some(9));
    assert_eq!(registry.last_activity(b), Some(2));
    assert_eq!(registry.status(a), Some(ConnectionStatus::Active));
    assert!(registry.mark_disconnected(b));
    assert_eq!(registry.status(b), Some(ConnectionStatus::Disconnected));
    assert_eq!(registry.status(a), Some(ConnectionStatus::Active));
    assert_eq!(registry.last_activity(b), Some(2));
    assert!(!registry.update_activity(7, 3));
    assert!(!registry.mark_disconnected(7));
    assert_eq!(registry.status(7), None);
    assert_eq!(registry.len(), 2);
}

fn reply(registry: &mut ConnectionRegistry, id: u64, line: &str, now: u64) -> String {
    let action = session_step(&SessionEvent::Read(line.as_bytes().to_vec()));
    record_step(registry, id, &action, now);
    match action {
        SessionAction::Reply(text) => text,
        other => panic!("unexpected: {:?}", other),
    }
}

#[test]
fn a_session_from_connect_to_disconnect() {
    let mut registry = ConnectionRegistry::new();
    let other = registry.accept("127.0.0.1:8".to_string(), 1).unwrap();
    let id = registry.accept("127.0.0.1:9".to_string(), 1).unwrap();

    assert_eq!(reply(&mut registry, id, "PING\n", 2), "PONG\n");
    assert_eq!(registry.last_activity(id), Some(2));
    assert_eq!(reply(&mut registry, id, "PING abc\n", 3), "abc\n");
    assert_eq!(reply(&mut registry, id, "GET x\n", 4), "Error: Get handler not implemented\n");
    assert_eq!(reply(&mut registry, id, "GET x\n", 4), "Error: Get handler not implemented\n");
    assert_eq!(reply(&mut registry, id, "FOO\n", 4), "Error: Unknown command: FOO\n");
    assert_eq!(reply(&mut registry, id, "PING still here\n", 5), "still here\n");
    assert_eq!(registry.status(id), Some(ConnectionStatus::Active));
    assert_eq!(registry.last_activity(id), Some(5));

    let action = session_step(&SessionEvent::Read(Vec::new()));
    assert!(matches!(action, SessionAction::Finish));
    record_step(&mut registry, id, &action, 6);
    assert_eq!(registry.status(id), Some(ConnectionStatus::Disconnected));
    assert_eq!(registry.last_activity(id), Some(5));
    assert!(registry.remove(id));
    assert!(!registry.contains(id));
    assert_eq!(registry.status(other), Some(ConnectionStatus::Active));
    assert_eq!(registry.last_activity(other), Some(1));
    assert_eq!(registry.len(), 1);
}

#[test]
fn an_unknown_command_leaves_the_session_open() {
    let mut registry = ConnectionRegistry::new();
    let id = registry.accept("a".to_string(), 1).unwrap();
    assert_eq!(reply(&mut registry, id, "FOO\n", 2), "Error: Unknown command: FOO\n");
    assert_eq!(registry.status(id), Some(ConnectionStatus::Active));
    assert_eq!(reply(&mut registry, id, "PING\n", 3), "PONG\n");
    assert_eq!(registry.status(id), Some(ConnectionStatus::Active));
}

#[test]
fn a_read_failure_aborts_and_leaves_the_table() {
    let mut registry = ConnectionRegistry::new();
    let id = registry.accept("a".to_string(), 1).unwrap();
    let action = session_step(&SessionEvent::Failed);
    assert!(matches!(action, SessionAction::Abort));
    record_step(&mut registry, id, &action, 9);
    assert_eq!(registry.status(id), Some(ConnectionStatus::Active));
    assert_eq!(registry.last_activity(id), Some(1));
    assert!(registry.remove(id));
    assert_eq!(registry.len(), 0);
}

#[test]
fn many_connections_get_ids_in_order_and_leave_nothing() {
    let mut registry = ConnectionRegistry::new();
    let mut live: Vec<u64> = Vec::new();
    for k in 0..50u64 {
        let id = registry.accept(format!("peer{}", k), k).unwrap();
        assert_eq!(id, k);
        live.push(id);
        if k % 3 == 2 {
            let gone = live.remove(0);
            assert!(registry.remove(gone));
            assert!(!registry.contains(gone));
        }
        assert_eq!(registry.len(), live.len());
    }
    for id in live {
        assert!(registry.remove(id));
    }
    assert_eq!(registry.len(), 0);
    assert_eq!(registry.next_id(), 50);
}

#[test]
fn bytes_that_are_no_text_are_decoded_with_replacements() {
    let mut registry = ConnectionRegistry::new();
    let id = registry.accept("a".to_string(), 1).unwrap();
    let bytes = vec![b'P', b'I', b'N', b'G', b' ', 0xff, b'\n'];
    match session_step(&SessionEvent::Read(bytes)) {
        SessionAction::Reply(text) => assert_eq!(text, "\u{fffd}\n"),
        other => panic!("unexpected: {:?}", other),
    }
    let bytes = "ping gr\u{fc}\u{df}e\n".as_bytes().to_vec();
    match session_step(&SessionEvent::Read(bytes)) {
        SessionAction::Reply(text) => assert_eq!(text, "gr\u{fc}\u{df}e\n"),
        other => panic!("unexpected: {:?}", other),
    }
}
