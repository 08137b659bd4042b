use portal_shortcuts::controller::{BindOutcome, Controller, PumpEvent};
use portal_shortcuts::tracker::BoundShortcut;

fn bound(id: &str, trigger: &str) -> BoundShortcut {
    BoundShortcut { id: id.to_string(), trigger_description: trigger.to_string() }
}

#[test]
fn fresh_controller_is_idle() {
    let controller = Controller::new();
    assert!(controller.start_enabled());
    assert!(!controller.stop_enabled());
    assert!(controller.input_editable());
    assert!(!controller.has_session());
    assert_eq!(controller.status_text(), "");
    assert_eq!(controller.display_text(), "");
}

#[test]
fn end_to_end_partial_grant() {
    // The backend grants only one of the two requested shortcuts; the
    // display follows the backend's list, and only its entries.
    let mut controller = Controller::new();
    let requests = controller.begin_start("a:desc1,b:desc2:<Primary>t").expect("valid input");
    assert_eq!(requests.len(), 2);
    assert_eq!(requests[0].id, "a");
    assert_eq!(requests[0].description, "desc1");
    assert_eq!(requests[0].preferred_trigger, None);
    assert_eq!(requests[1].id, "b");
    assert_eq!(requests[1].description, "desc2");
    assert_eq!(requests[1].preferred_trigger, Some("<Primary>t".to_string()));

    controller.on_bind_result(BindOutcome::Bound(vec![bound("a", "Ctrl+T")]));
    assert_eq!(controller.status_text(), "OK");
    assert!(controller.has_session());
    assert!(!controller.start_enabled());
    assert!(controller.stop_enabled());
    assert!(!controller.input_editable());

    let (anomaly, display) = controller.handle_event(PumpEvent::Activated("a".to_string()));
    assert!(!anomaly);
    assert_eq!(display, "<b>a: Ctrl+T</b>");
}

#[test]
fn invalid_input_blocks_start() {
    // A single malformed entry (no colon) rejects the whole attempt:
    // no session is created and stop stays disabled.
    let mut controller = Controller::new();
    assert!(controller.begin_start("a").is_none());
    assert_eq!(controller.status_text(), "Shortcut list invalid");
    assert!(!controller.has_session());
    assert!(!controller.stop_enabled());
    assert!(controller.start_enabled());
    assert!(!controller.stop());
}

#[test]
fn displayed_set_is_the_backends_not_the_request() {
    let mut controller = Controller::new();
    controller.begin_start("a:one,b:two").expect("valid input");
    controller.on_bind_result(BindOutcome::Bound(vec![bound("b", "Ctrl+B"), bound("c", "Ctrl+C")]));
    assert_eq!(controller.display_text(), "b: Ctrl+B, c: Ctrl+C");
}

#[test]
fn bind_cancelled_returns_to_idle() {
    let mut controller = Controller::new();
    controller.begin_start("a:one").expect("valid input");
    controller.on_bind_result(BindOutcome::Cancelled);
    assert_eq!(controller.status_text(), "Cancelled");
    assert!(!controller.has_session());
    assert!(controller.start_enabled());
    assert!(!controller.stop_enabled());
}

#[test]
fn bind_declined_returns_to_idle() {
    let mut controller = Controller::new();
    controller.begin_start("a:one").expect("valid input");
    controller.on_bind_result(BindOutcome::OtherError);
    assert_eq!(controller.status_text(), "Other response error");
    assert!(!controller.has_session());
}

#[test]
fn bind_transport_failure_reports_message() {
    let mut controller = Controller::new();
    controller.begin_start("a:one").expect("valid input");
    controller.on_bind_result(BindOutcome::TransportError("connection lost".to_string()));
    assert_eq!(controller.status_text(), "connection lost");
    assert!(!controller.has_session());
    assert!(controller.start_enabled());
}

#[test]
fn stop_without_session_requests_no_close() {
    let mut controller = Controller::new();
    assert!(!controller.stop());
    assert!(controller.start_enabled());
    assert!(!controller.stop_enabled());
}

#[test]
fn stop_closes_once_then_is_a_no_op() {
    let mut controller = Controller::new();
    controller.begin_start("a:one").expect("valid input");
    controller.on_bind_result(BindOutcome::Bound(vec![bound("a", "Ctrl+A")]));
    assert!(controller.stop());
    assert!(!controller.has_session());
    assert_eq!(controller.display_text(), "");
    assert!(controller.input_editable());
    // The session is gone; a second stop owes the backend nothing.
    assert!(!controller.stop());
}

#[test]
fn pump_restarts_only_while_session_held() {
    let mut controller = Controller::new();
    controller.begin_start("a:one").expect("valid input");
    controller.on_bind_result(BindOutcome::Bound(vec![bound("a", "Ctrl+A")]));
    assert!(controller.pump_exited());
    controller.stop();
    assert!(!controller.pump_exited());
}

#[test]
fn activation_events_converge() {
    let mut controller = Controller::new();
    controller.begin_start("x:one").expect("valid input");
    controller.on_bind_result(BindOutcome::Bound(vec![bound("x", "Ctrl+X")]));
    let (_, first) = controller.handle_event(PumpEvent::Activated("x".to_string()));
    let (anomaly, second) = controller.handle_event(PumpEvent::Activated("x".to_string()));
    assert!(!anomaly);
    assert_eq!(first, "<b>x: Ctrl+X</b>");
    assert_eq!(first, second);
}

#[test]
fn deactivation_event_restores_display() {
    let mut controller = Controller::new();
    controller.begin_start("x:one").expect("valid input");
    controller.on_bind_result(BindOutcome::Bound(vec![bound("x", "Ctrl+X")]));
    let before = controller.display_text();
    controller.handle_event(PumpEvent::Activated("x".to_string()));
    let (anomaly, after) = controller.handle_event(PumpEvent::Deactivated("x".to_string()));
    assert!(!anomaly);
    assert_eq!(after, before);
}

#[test]
fn unknown_deactivation_is_an_anomaly() {
    let mut controller = Controller::new();
    controller.begin_start("x:one").expect("valid input");
    controller.on_bind_result(BindOutcome::Bound(vec![bound("x", "Ctrl+X")]));
    let (anomaly, display) = controller.handle_event(PumpEvent::Deactivated("y".to_string()));
    assert!(anomaly);
    assert_eq!(display, "x: Ctrl+X");
}

#[test]
fn shortcuts_changed_is_log_only() {
    let mut controller = Controller::new();
    controller.begin_start("x:one").expect("valid input");
    controller.on_bind_result(BindOutcome::Bound(vec![bound("x", "Ctrl+X")]));
    let before = controller.display_text();
    let (anomaly, after) = controller.handle_event(PumpEvent::ShortcutsChanged);
    assert!(!anomaly);
    assert_eq!(after, before);
    assert!(controller.has_session());
}
