use edex_core::event::{handle_event, EventAction, ProcessEvent};
use edex_core::file::DirectoryWatcherEvent;
use edex_core::session::{PtySession, PtySessionCommand, PtySessionManager, SessionError};

fn watch_pids(requests: Vec<DirectoryWatcherEvent>) -> Vec<Option<i32>> {
    requests
        .into_iter()
        .map(|request| match request {
            DirectoryWatcherEvent::Watch { initial } => initial.map(|payload| payload.pid()),
        })
        .collect()
}

#[test]
fn spawn_registers_and_focuses() {
    let mut manager = PtySessionManager::new();
    assert!(!manager.contains_session(1));
    assert_eq!(manager.spawn_pty(1, 4242), Ok(()));
    assert!(manager.contains_session(1));
    assert_eq!(manager.pid_of(1), Some(4242));
    assert_eq!(watch_pids(manager.take_watch_requests()), vec![Some(4242)]);
    assert!(manager.take_events().is_empty());
}

#[test]
fn duplicate_spawn_rejected() {
    let mut manager = PtySessionManager::new();
    assert_eq!(manager.spawn_pty(1, 100), Ok(()));
    assert_eq!(manager.spawn_pty(1, 200), Err(SessionError::DuplicateSession));
    // the first registration is undisturbed
    assert_eq!(manager.pid_of(1), Some(100));
}

#[test]
fn write_after_terminate_is_not_found() {
    let mut manager = PtySessionManager::new();
    assert_eq!(manager.spawn_pty(1, 100), Ok(()));
    assert_eq!(manager.terminate(1), Ok(()));
    assert_eq!(manager.write(1, b"ls\n"), Err(SessionError::SessionNotFound));
}

#[test]
fn write_on_empty_registry_queues_nothing() {
    let manager_events = {
        let mut manager = PtySessionManager::new();
        assert_eq!(manager.write(99, b"x"), Err(SessionError::SessionNotFound));
        manager.take_events()
    };
    assert!(manager_events.is_empty());
}

#[test]
fn echo_output_arrives_before_exit() {
    let mut manager = PtySessionManager::new();
    assert_eq!(manager.spawn_pty(1, 100), Ok(()));
    assert_eq!(manager.write(1, b"echo hi\n"), Ok(()));
    // the scripted child answers, then exits
    manager.reader_chunk(1, b"hi\n".to_vec());
    assert!(manager.session_exited(1, Some(0)));
    let events = manager.take_events();
    assert_eq!(events.len(), 2);
    match &events[0] {
        ProcessEvent::Forward { id, data } => {
            assert_eq!(*id, 1);
            assert_eq!(data.as_slice(), b"hi\n");
        }
        other => panic!("expected output first, got {:?}", event_kind(other)),
    }
    match &events[1] {
        ProcessEvent::ProcessExit { id, exit_code } => {
            assert_eq!(*id, 1);
            assert_eq!(*exit_code, Some(0));
        }
        other => panic!("expected exit second, got {:?}", event_kind(other)),
    }
}

fn event_kind(event: &ProcessEvent) -> &'static str {
    match event {
        ProcessEvent::Forward { .. } => "forward",
        ProcessEvent::ProcessExit { .. } => "process-exit",
        ProcessEvent::Closed { .. } => "closed",
    }
}

#[test]
fn output_preserves_byte_order() {
    let mut manager = PtySessionManager::new();
    assert_eq!(manager.spawn_pty(1, 100), Ok(()));
    manager.reader_chunk(1, b"first ".to_vec());
    manager.reader_chunk(1, b"".to_vec());
    manager.reader_chunk(1, b"second".to_vec());
    let mut stream: Vec<u8> = Vec::new();
    for event in manager.take_events() {
        if let ProcessEvent::Forward { id: 1, data } = event {
            stream.extend_from_slice(&data);
        }
    }
    assert_eq!(stream.as_slice(), b"first second");
}

#[test]
fn switches_notify_watcher_in_order() {
    let mut manager = PtySessionManager::new();
    assert_eq!(manager.spawn_pty(1, 111), Ok(()));
    assert_eq!(manager.spawn_pty(2, 222), Ok(()));
    // drop the spawn-time notifications, watch the switches alone
    manager.take_watch_requests();
    assert_eq!(manager.switch_session(2), Ok(()));
    assert_eq!(manager.switch_session(1), Ok(()));
    assert_eq!(watch_pids(manager.take_watch_requests()), vec![Some(222), Some(111)]);
}

#[test]
fn switch_unknown_session_fails() {
    let mut manager = PtySessionManager::new();
    assert_eq!(manager.switch_session(7), Err(SessionError::SessionNotFound));
}

#[test]
fn exit_reported_exactly_once() {
    let mut manager = PtySessionManager::new();
    assert_eq!(manager.spawn_pty(3, 300), Ok(()));
    assert!(manager.session_exited(3, Some(1)));
    assert!(!manager.contains_session(3));
    // a late duplicate report and a late terminate add nothing
    assert!(!manager.session_exited(3, Some(1)));
    assert_eq!(manager.terminate(3), Err(SessionError::SessionNotFound));
    let closing: Vec<ProcessEvent> = manager
        .take_events()
        .into_iter()
        .filter(|event| !matches!(event, ProcessEvent::Forward { .. }))
        .collect();
    assert_eq!(closing.len(), 1);
    assert!(matches!(closing[0], ProcessEvent::ProcessExit { id: 3, exit_code: Some(1) }));
}

#[test]
fn terminate_clears_focus_and_resets_watcher() {
    let mut manager = PtySessionManager::new();
    assert_eq!(manager.spawn_pty(1, 100), Ok(()));
    manager.take_watch_requests();
    assert_eq!(manager.terminate(1), Ok(()));
    assert_eq!(watch_pids(manager.take_watch_requests()), vec![None]);
    let events = manager.take_events();
    assert_eq!(events.len(), 1);
    assert!(matches!(events[0], ProcessEvent::Closed { id: 1 }));
}

#[test]
fn terminating_unfocused_session_keeps_watcher() {
    let mut manager = PtySessionManager::new();
    assert_eq!(manager.spawn_pty(1, 100), Ok(()));
    assert_eq!(manager.spawn_pty(2, 200), Ok(()));
    manager.take_watch_requests();
    // session 2 is focused; closing session 1 must not reset the watcher
    assert_eq!(manager.terminate(1), Ok(()));
    assert!(watch_pids(manager.take_watch_requests()).is_empty());
}

#[test]
fn primary_close_exits_process() {
    assert!(matches!(
        handle_event(ProcessEvent::Closed { id: 0 }),
        EventAction::ExitProcess { code: 0 }
    ));
    assert!(matches!(
        handle_event(ProcessEvent::ProcessExit { id: 0, exit_code: Some(7) }),
        EventAction::ExitProcess { code: 7 }
    ));
    assert!(matches!(
        handle_event(ProcessEvent::ProcessExit { id: 0, exit_code: None }),
        EventAction::ExitProcess { code: 0 }
    ));
}

#[test]
fn non_primary_close_destroys_terminal() {
    assert!(matches!(
        handle_event(ProcessEvent::Closed { id: 5 }),
        EventAction::DestroyTerminal { id: 5 }
    ));
    assert!(matches!(
        handle_event(ProcessEvent::ProcessExit { id: 9, exit_code: Some(1) }),
        EventAction::DestroyTerminal { id: 9 }
    ));
}

#[test]
fn forward_decision_skips_empty_chunks() {
    assert!(matches!(
        handle_event(ProcessEvent::Forward { id: 4, data: Vec::new() }),
        EventAction::Ignore
    ));
    match handle_event(ProcessEvent::Forward { id: 4, data: b"ok".to_vec() }) {
        EventAction::EmitOutput { id, data } => {
            assert_eq!(id, 4);
            assert_eq!(data.as_slice(), b"ok");
        }
        _ => panic!("expected output to be forwarded"),
    }
}

#[test]
fn apply_command_routes_by_registration() {
    let mut manager = PtySessionManager::new();
    assert_eq!(manager.spawn_pty(1, 100), Ok(()));
    let write = PtySessionCommand::Write { data: "ls\n".to_string() };
    let resize = PtySessionCommand::Resize { cols: 120, rows: 40 };
    assert_eq!(manager.apply_command(1, &write), Ok(()));
    assert_eq!(manager.apply_command(1, &resize), Ok(()));
    assert_eq!(manager.apply_command(2, &write), Err(SessionError::SessionNotFound));
    assert_eq!(manager.resize(1, 40, 120), Ok(()));
    assert_eq!(manager.resize(9, 40, 120), Err(SessionError::SessionNotFound));
}

#[test]
fn session_record_keeps_pid() {
    let session = PtySession::new(777);
    assert_eq!(session.pid(), 777);
}

#[test]
fn shell_command_configuration() {
    let cmd = edex_core::session::construct_cmd();
    assert_eq!(cmd.program, "bash");
    let env: Vec<(String, String)> = cmd.env;
    assert_eq!(env.len(), 4);
    assert_eq!(env[0], ("TERM".to_string(), "xterm-256color".to_string()));
    assert_eq!(env[1], ("COLORTERM".to_string(), "truecolor".to_string()));
    assert_eq!(env[2], ("TERM_PROGRAM".to_string(), "eDEX-UI".to_string()));
    assert_eq!(env[3], ("TERM_PROGRAM_VERSION".to_string(), "1.0.0".to_string()));
}
