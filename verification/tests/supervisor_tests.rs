use sidecar_host::supervisor::{PortRegistry, StreamEvent, Supervisor};

#[test]
fn registry_reads_zero_before_any_handshake() {
    let reg = PortRegistry::new();
    assert_eq!(reg.read(), 0);
    let sup = Supervisor::new();
    assert_eq!(sup.registry.read(), 0);
    assert!(sup.child_present);
}

#[test]
fn registry_write_then_read() {
    let mut reg = PortRegistry::new();
    reg.write(54321);
    assert_eq!(reg.read(), 54321);
}

#[test]
fn handshake_line_updates_registry_and_emits_once() {
    let mut sup = Supervisor::new();
    let emitted = sup.handle_event(StreamEvent::Stdout(b"SERVER_PORT=54321".to_vec()));
    assert_eq!(emitted, Some(54321));
    assert_eq!(sup.registry.read(), 54321);
    assert!(sup.child_present);
}

#[test]
fn non_marker_lines_leave_state_unchanged() {
    let mut sup = Supervisor::new();
    assert_eq!(sup.handle_event(StreamEvent::Stdout(b"booting".to_vec())), None);
    assert_eq!(sup.handle_event(StreamEvent::Stdout(b"ready on :8080".to_vec())), None);
    assert_eq!(sup.registry.read(), 0);
    assert!(sup.child_present);
}

#[test]
fn unparsable_port_is_swallowed() {
    let mut sup = Supervisor::new();
    let emitted = sup.handle_event(StreamEvent::Stdout(b"SERVER_PORT=notanumber".to_vec()));
    assert_eq!(emitted, None);
    assert_eq!(sup.registry.read(), 0);
}

#[test]
fn stderr_lines_are_never_parsed() {
    let mut sup = Supervisor::new();
    let emitted = sup.handle_event(StreamEvent::Stderr(b"SERVER_PORT=9999".to_vec()));
    assert_eq!(emitted, None);
    assert_eq!(sup.registry.read(), 0);
}

#[test]
fn stream_error_is_only_logged() {
    let mut sup = Supervisor::new();
    let emitted = sup.handle_event(StreamEvent::StreamError(b"decode hiccup".to_vec()));
    assert_eq!(emitted, None);
    assert_eq!(sup.registry.read(), 0);
    assert!(sup.child_present);
}

#[test]
fn termination_clears_child_handle_idempotently() {
    let mut sup = Supervisor::new();
    sup.handle_event(StreamEvent::Stdout(b"SERVER_PORT=8080".to_vec()));
    assert_eq!(sup.handle_event(StreamEvent::Terminated(Some(0))), None);
    assert!(!sup.child_present);
    assert_eq!(sup.registry.read(), 8080);
    // Observing termination a second time changes nothing.
    assert_eq!(sup.handle_event(StreamEvent::Terminated(None)), None);
    assert!(!sup.child_present);
    assert_eq!(sup.registry.read(), 8080);
}

#[test]
fn port_zero_line_is_ignored() {
    // 0 is the registry's "not yet known" sentinel: a line announcing it
    // is swallowed, and a nonzero registry is never reset to 0.
    let mut sup = Supervisor::new();
    assert_eq!(sup.handle_event(StreamEvent::Stdout(b"SERVER_PORT=0".to_vec())), None);
    assert_eq!(sup.registry.read(), 0);
    sup.handle_event(StreamEvent::Stdout(b"SERVER_PORT=8080".to_vec()));
    assert_eq!(sup.handle_event(StreamEvent::Stdout(b"SERVER_PORT=0".to_vec())), None);
    assert_eq!(sup.registry.read(), 8080);
}

#[test]
fn later_handshake_overwrites_earlier_port() {
    let mut sup = Supervisor::new();
    sup.handle_event(StreamEvent::Stdout(b"SERVER_PORT=8080".to_vec()));
    let emitted = sup.handle_event(StreamEvent::Stdout(b"SERVER_PORT=9090".to_vec()));
    assert_eq!(emitted, Some(9090));
    assert_eq!(sup.registry.read(), 9090);
}
