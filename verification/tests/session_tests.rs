use ws_echo::registry::ConnectionRegistry;
use ws_echo::session::{finish_session, handle_message, CloseInfo, Msg};

fn open_connection(reg: &mut ConnectionRegistry) -> u64 {
    let id = reg.allocate_id();
    reg.insert(id);
    id
}

#[test]
fn text_is_echoed_byte_for_byte() {
    let mut reg = ConnectionRegistry::new();
    let id = open_connection(&mut reg);
    let out = handle_message(&mut reg, id, Msg::Text(String::from("hello there")));
    match out.reply {
        Some(Msg::Text(t)) => assert_eq!(t, "hello there"),
        _ => panic!("expected a Text echo"),
    }
    assert!(!out.done);
    assert!(out.stats_log.is_none());
    assert!(out.final_stats.is_none());
}

#[test]
fn binary_is_echoed_byte_for_byte() {
    let mut reg = ConnectionRegistry::new();
    let id = open_connection(&mut reg);
    let payload = vec![0u8, 255, 7, 42];
    let out = handle_message(&mut reg, id, Msg::Binary(payload.clone()));
    match out.reply {
        Some(Msg::Binary(b)) => assert_eq!(b, payload),
        _ => panic!("expected a Binary echo"),
    }
    assert!(!out.done);
}

#[test]
fn ping_yields_exactly_one_pong_with_identical_payload() {
    let mut reg = ConnectionRegistry::new();
    let id = open_connection(&mut reg);
    let payload = vec![1u8, 2, 3];
    let out = handle_message(&mut reg, id, Msg::Ping(payload.clone()));
    match out.reply {
        Some(Msg::Pong(p)) => assert_eq!(p, payload),
        _ => panic!("expected exactly a Pong"),
    }
    assert!(out.stats_log.is_none());
    assert!(out.final_stats.is_none());
    assert!(!out.done);
}

#[test]
fn pong_is_consumed_without_response() {
    let mut reg = ConnectionRegistry::new();
    let id = open_connection(&mut reg);
    let out = handle_message(&mut reg, id, Msg::Pong(vec![9u8]));
    assert!(out.reply.is_none());
    assert!(!out.done);
}

#[test]
fn raw_frame_is_ignored() {
    let mut reg = ConnectionRegistry::new();
    let id = open_connection(&mut reg);
    let out = handle_message(&mut reg, id, Msg::Raw);
    assert!(out.reply.is_none());
    assert!(!out.done);
}

#[test]
fn probe_text_updates_the_tracker_and_echoes() {
    let mut reg = ConnectionRegistry::new();
    let id = open_connection(&mut reg);
    handle_message(&mut reg, id, Msg::Text(String::from("{\"seq\":1,\"ts\":111}")));
    let out = handle_message(&mut reg, id, Msg::Text(String::from("{\"seq\":5,\"ts\":222}")));
    match out.reply {
        Some(Msg::Text(t)) => assert_eq!(t, "{\"seq\":5,\"ts\":222}"),
        _ => panic!("expected a Text echo"),
    }
    let t = reg.read(id).expect("entry exists");
    assert_eq!(t.messages_received, 2);
    assert_eq!(t.total_missed, 3);
    assert_eq!(t.last_sequence, 5);
}

#[test]
fn unparseable_text_is_echoed_but_untracked() {
    let mut reg = ConnectionRegistry::new();
    let id = open_connection(&mut reg);
    let out = handle_message(&mut reg, id, Msg::Text(String::from("not a probe")));
    match out.reply {
        Some(Msg::Text(t)) => assert_eq!(t, "not a probe"),
        _ => panic!("expected a Text echo"),
    }
    let t = reg.read(id).expect("entry exists");
    assert_eq!(t.messages_received, 0);
}

#[test]
fn close_echoes_frame_removes_entry_and_reports_stats_once() {
    let mut reg = ConnectionRegistry::new();
    let id = open_connection(&mut reg);
    handle_message(&mut reg, id, Msg::Text(String::from("{\"seq\":1,\"ts\":1}")));
    handle_message(&mut reg, id, Msg::Text(String::from("{\"seq\":5,\"ts\":2}")));
    let frame = CloseInfo { code: 1000, reason: String::from("bye") };
    let out = handle_message(&mut reg, id, Msg::Close(Some(frame)));
    match out.reply {
        Some(Msg::Close(Some(g))) => {
            assert_eq!(g.code, 1000);
            assert_eq!(g.reason, "bye");
        },
        _ => panic!("expected a Close echo carrying the same frame"),
    }
    assert!(out.done);
    let stats = out.final_stats.expect("final stats reported on close");
    assert!(stats.contains("Packet Loss Percentage: 60.00%"));
    assert!(reg.read(id).is_none());
    // the cleanup that runs on loop exit finds nothing left to report
    assert!(finish_session(&mut reg, id).is_none());
}

#[test]
fn close_without_a_frame_is_echoed_without_one() {
    let mut reg = ConnectionRegistry::new();
    let id = open_connection(&mut reg);
    let out = handle_message(&mut reg, id, Msg::Close(None));
    match out.reply {
        Some(Msg::Close(None)) => {},
        _ => panic!("expected an empty Close echo"),
    }
    assert!(out.done);
}

#[test]
fn error_path_cleanup_reports_stats_exactly_once() {
    let mut reg = ConnectionRegistry::new();
    let id = open_connection(&mut reg);
    handle_message(&mut reg, id, Msg::Text(String::from("{\"seq\":3,\"ts\":9}")));
    let first = finish_session(&mut reg, id);
    assert!(first.expect("entry existed").contains("Last Sequence Number: 3"));
    let second = finish_session(&mut reg, id);
    assert!(second.is_none());
}
