use portal_shortcuts::tracker::{ActivationTracker, BoundShortcut};

fn bound(id: &str, trigger: &str) -> BoundShortcut {
    BoundShortcut { id: id.to_string(), trigger_description: trigger.to_string() }
}

#[test]
fn render_empty_is_empty() {
    let tracker = ActivationTracker::new();
    assert_eq!(tracker.render(), "");
}

#[test]
fn render_inactive_entries() {
    let mut tracker = ActivationTracker::new();
    tracker.set_bound(vec![bound("a", "Ctrl+T"), bound("b", "Ctrl+B")]);
    assert_eq!(tracker.render(), "a: Ctrl+T, b: Ctrl+B");
}

#[test]
fn render_emphasizes_active_entries() {
    let mut tracker = ActivationTracker::new();
    tracker.set_bound(vec![bound("a", "Ctrl+T"), bound("b", "Ctrl+B")]);
    tracker.activate("a".to_string());
    assert_eq!(tracker.render(), "<b>a: Ctrl+T</b>, b: Ctrl+B");
}

#[test]
fn activation_is_idempotent() {
    let mut tracker = ActivationTracker::new();
    tracker.set_bound(vec![bound("x", "Ctrl+X")]);
    tracker.activate("x".to_string());
    let once = tracker.render();
    tracker.activate("x".to_string());
    let twice = tracker.render();
    assert_eq!(once, "<b>x: Ctrl+X</b>");
    assert_eq!(once, twice);
    assert!(tracker.is_active(&"x".to_string()));
}

#[test]
fn deactivation_restores_previous_state() {
    let mut tracker = ActivationTracker::new();
    tracker.set_bound(vec![bound("x", "Ctrl+X")]);
    let before = tracker.render();
    tracker.activate("x".to_string());
    let anomaly = tracker.deactivate(&"x".to_string());
    assert!(!anomaly);
    assert!(!tracker.is_active(&"x".to_string()));
    assert_eq!(tracker.render(), before);
}

#[test]
fn deactivating_unknown_id_is_one_anomaly() {
    let mut tracker = ActivationTracker::new();
    tracker.set_bound(vec![bound("x", "Ctrl+X")]);
    let before = tracker.render();
    let anomaly = tracker.deactivate(&"y".to_string());
    assert!(anomaly);
    assert_eq!(tracker.render(), before);
    // A repeat of the same stray deactivation is again a single anomaly.
    assert!(tracker.deactivate(&"y".to_string()));
}

#[test]
fn activations_of_unbound_ids_are_kept_but_not_displayed() {
    let mut tracker = ActivationTracker::new();
    tracker.set_bound(vec![bound("a", "Ctrl+T")]);
    tracker.activate("ghost".to_string());
    assert!(tracker.is_active(&"ghost".to_string()));
    assert_eq!(tracker.render(), "a: Ctrl+T");
}

#[test]
fn clear_forgets_everything() {
    let mut tracker = ActivationTracker::new();
    tracker.set_bound(vec![bound("a", "Ctrl+T")]);
    tracker.activate("a".to_string());
    tracker.clear();
    assert_eq!(tracker.render(), "");
    assert!(!tracker.is_active(&"a".to_string()));
}
