use dns::dns::{
    parse_command, Command, CommandAction, DNSServer, HandleRecord, HandleType, ResolveStep,
};
use dns::utils::clean_io;

fn test_server() -> DNSServer {
    DNSServer::new(
        "Local DNS".to_string(),
        5353,
        "https://dns.google/resolve".to_string(),
        "config.json".to_string(),
        1,
        vec![("static.example".to_string(), "10.0.0.8".to_string())],
    )
}

#[test]
fn clean_io_strips_whitespace_and_nonprintable() {
    assert_eq!(clean_io(" a b\n"), "ab");
    assert_eq!(clean_io("\tfoo.com \r\n"), "foo.com");
    assert_eq!(clean_io("h\u{e9}llo"), "hllo");
    assert_eq!(clean_io(""), "");
    assert_eq!(clean_io("plain"), "plain");
}

#[test]
fn parse_command_variants() {
    assert_eq!(parse_command("stop"), Command::Stop);
    assert_eq!(parse_command(" start\n"), Command::Start);
    assert_eq!(parse_command("  exit  \n"), Command::Exit);
    assert_eq!(parse_command("listen"), Command::Listen);
    assert_eq!(parse_command(" \r\n"), Command::Empty);
    assert_eq!(parse_command("bogus"), Command::Unknown);
}

#[test]
fn control_state_machine_sequence() {
    // stop, start, exit: idle, serving again, then terminal.
    let mut server = test_server();
    assert!(server.is_accepting());
    assert!(!server.is_exited());

    assert_eq!(server.processing_command("stop\n"), CommandAction::NoAction);
    assert!(!server.is_accepting());

    assert_eq!(server.processing_command("start\n"), CommandAction::NoAction);
    assert!(server.is_accepting());

    assert_eq!(server.processing_command("exit\n"), CommandAction::NoAction);
    assert!(server.is_exited());
    assert!(server.is_accepting());

    // Exited is terminal: no later command has any effect.
    assert_eq!(server.processing_command("stop\n"), CommandAction::NoAction);
    assert!(server.is_accepting());
    assert_eq!(server.processing_command("listen\n"), CommandAction::NoAction);
    assert!(server.is_exited());
}

#[test]
fn unknown_and_empty_commands_do_nothing() {
    let mut server = test_server();
    assert_eq!(server.processing_command("frobnicate"), CommandAction::NoAction);
    assert_eq!(server.processing_command("\n"), CommandAction::NoAction);
    assert!(server.is_accepting());
    assert!(!server.is_exited());
}

#[test]
fn listen_spawns_or_reasserts() {
    let mut server = test_server();
    server.stop();
    // No request worker registered: listen asks for one to be spawned.
    assert_eq!(
        server.processing_command("listen\n"),
        CommandAction::SpawnRequestWorker
    );
    assert!(!server.is_accepting());

    server.add_handle_record(HandleRecord {
        handle_type: HandleType::ProcessingRequest,
        logged: false,
        handle_id: 0,
    });
    // A request worker exists: listen only re-asserts accepting.
    assert_eq!(server.processing_command("listen\n"), CommandAction::NoAction);
    assert!(server.is_accepting());
}

#[test]
fn tier_precedence_cache_wins() {
    // The key is cached with value "A" while the static table holds "B":
    // resolution answers "A".
    let mut server = DNSServer::new(
        "Local DNS".to_string(),
        5353,
        "remote".to_string(),
        "config.json".to_string(),
        1,
        vec![("k.example".to_string(), "B".to_string())],
    );
    match server.absorb_remote("k.example".to_string(), Some("A".to_string()), 0) {
        ResolveStep::Resolved(ip) => assert_eq!(ip, "A"),
        _ => panic!("an answer must be final"),
    }
    match server.resolve_local("k.example", 100) {
        ResolveStep::Resolved(ip) => assert_eq!(ip, "A"),
        _ => panic!("cached key must resolve locally"),
    }
}

#[test]
fn write_through_from_static_table() {
    let mut server = test_server();
    match server.resolve_local("static.example\n", 0) {
        ResolveStep::Resolved(ip) => assert_eq!(ip, "10.0.0.8"),
        _ => panic!("static table must answer"),
    }
    // The answer was written through to the cache.
    assert_eq!(
        server.cache_lookup("static.example", 100),
        Some("10.0.0.8".to_string())
    );
    assert_eq!(server.cache_record_num(), 1);
}

#[test]
fn no_negative_caching_on_total_failure() {
    let mut server = test_server();
    let step = server.resolve_local("missing.example", 0);
    let cleaned = match step {
        ResolveStep::TryRemote(d) => d,
        _ => panic!("a miss must go to the remote tier"),
    };
    assert_eq!(cleaned, "missing.example");
    let step = server.absorb_remote(cleaned, None, 0);
    let cleaned = match step {
        ResolveStep::TrySystem(d) => d,
        _ => panic!("a remote failure must fall through to the system tier"),
    };
    let answer = server.absorb_system(cleaned, None, 0);
    assert_eq!(answer, "");
    // Nothing was cached for the failed domain.
    assert_eq!(server.cache_record_num(), 0);
    assert_eq!(server.cache_lookup("missing.example", 0), None);
    // A later query walks the full chain again.
    match server.resolve_local("missing.example", 1) {
        ResolveStep::TryRemote(d) => assert_eq!(d, "missing.example"),
        _ => panic!("the failure must not have been cached"),
    }
}

#[test]
fn remote_and_system_answers_are_cached() {
    let mut server = test_server();
    match server.absorb_remote("r.example".to_string(), Some("9.9.9.9".to_string()), 0) {
        ResolveStep::Resolved(ip) => assert_eq!(ip, "9.9.9.9"),
        _ => panic!("a remote answer must be final"),
    }
    assert_eq!(server.cache_lookup("r.example", 1), Some("9.9.9.9".to_string()));

    let answer = server.absorb_system("s.example".to_string(), Some("8.8.8.8".to_string()), 0);
    assert_eq!(answer, "8.8.8.8");
    assert_eq!(server.cache_lookup("s.example", 1), Some("8.8.8.8".to_string()));
}

#[test]
fn cached_answer_expires_like_any_entry() {
    let mut server = test_server();
    server.resolve_local("static.example", 0);
    assert_eq!(
        server.cache_lookup("static.example", 500),
        Some("10.0.0.8".to_string())
    );
    // Past the TTL the cache misses and the static table answers again.
    assert_eq!(server.cache_lookup("static.example", 2000), None);
    match server.resolve_local("static.example", 2000) {
        ResolveStep::Resolved(ip) => assert_eq!(ip, "10.0.0.8"),
        _ => panic!("static table must still answer"),
    }
}

#[test]
fn supervisor_marks_and_drains_handles() {
    let mut server = test_server();
    server.add_handle_record(HandleRecord {
        handle_type: HandleType::ProcessingCommand,
        logged: false,
        handle_id: 0,
    });
    server.add_handle_record(HandleRecord {
        handle_type: HandleType::ProcessingRequest,
        logged: false,
        handle_id: 1,
    });

    // Each handle is announced exactly once.
    let newly = server.mark_handles_waiting();
    assert_eq!(
        newly,
        vec![HandleType::ProcessingCommand, HandleType::ProcessingRequest]
    );
    let again = server.mark_handles_waiting();
    assert_eq!(again, Vec::<HandleType>::new());

    // Once exited, the registry is drained in registration order.
    server.exit();
    let drained = server.drain_handles();
    assert_eq!(drained.len(), 2);
    assert_eq!(drained[0].handle_type, HandleType::ProcessingCommand);
    assert_eq!(drained[0].handle_id, 0);
    assert!(drained[0].logged);
    assert_eq!(drained[1].handle_type, HandleType::ProcessingRequest);
    assert_eq!(drained[1].handle_id, 1);
    let empty = server.drain_handles();
    assert_eq!(empty.len(), 0);
}

#[test]
fn server_identity_getters() {
    let server = test_server();
    assert_eq!(server.get_name(), "Local DNS");
    assert_eq!(server.get_port(), 5353);
    assert_eq!(server.get_remote_addr(), "https://dns.google/resolve");
    assert_eq!(server.get_config_file_path(), "config.json");
}
