//! The leaf components: position resolution, the registry, the theme
//! injector, the event notifier and the error taxonomy.

use tab_manager::errors::TabError;
use tab_manager::geometry::{resolve, HostFrame, LogicalArea, Placement, DEFAULT_CHROME_OFFSET};
use tab_manager::lifecycle::{label_for, LifecycleController};
use tab_manager::registry::{SurfaceHandle, SurfaceRegistry, Visibility};
use tab_manager::theme;

fn sample_handle(label: &str, url: &str) -> SurfaceHandle {
    SurfaceHandle {
        label: label.to_string(),
        url: url.to_string(),
        title: String::new(),
        visibility: Visibility::Visible,
        placement: Placement { x: 0, y: 0, width: 10, height: 10 },
    }
}

#[test]
fn resolve_adds_chrome_offset_to_y_only() {
    let p = resolve(
        HostFrame { x: 100, y: 200 },
        28,
        LogicalArea { x: 10, y: 5, width: 300, height: 400 },
    );
    assert_eq!(p, Placement { x: 110, y: 233, width: 300, height: 400 });
}

#[test]
fn resolve_keeps_the_logical_size() {
    let p = resolve(
        HostFrame { x: -50, y: -10 },
        DEFAULT_CHROME_OFFSET,
        LogicalArea { x: 0, y: 0, width: 1920, height: 1080 },
    );
    assert_eq!(p, Placement { x: -50, y: 18, width: 1920, height: 1080 });
}

#[test]
fn label_is_the_identifier_behind_the_prefix() {
    assert_eq!(label_for(&"42".to_string()), "browse-42");
    assert_eq!(label_for(&String::new()), "browse-");
}

#[test]
fn registry_insert_rejects_a_duplicate() {
    let mut reg = SurfaceRegistry::new();
    assert!(reg.insert("1".to_string(), sample_handle("browse-1", "https://a.example")).is_ok());
    let r = reg.insert("1".to_string(), sample_handle("browse-1", "https://b.example"));
    assert!(matches!(r, Err(TabError::DuplicateTab)));
    // The failed insert changed nothing.
    assert_eq!(reg.lookup(&"1".to_string()).unwrap().url, "https://a.example");
}

#[test]
fn registry_remove_hands_the_record_back_once() {
    let mut reg = SurfaceRegistry::new();
    reg.insert("1".to_string(), sample_handle("browse-1", "https://a.example")).unwrap();
    let h = reg.remove(&"1".to_string()).expect("first remove returns the record");
    assert_eq!(h.label, "browse-1");
    assert!(reg.remove(&"1".to_string()).is_none());
    assert!(reg.lookup(&"1".to_string()).is_none());
}

#[test]
fn registry_tab_ids_lists_each_tab_once() {
    let mut reg = SurfaceRegistry::new();
    for id in ["x", "y", "z"] {
        reg.insert(id.to_string(), sample_handle("browse-", "https://a.example")).unwrap();
    }
    let mut ids = reg.tab_ids();
    ids.sort();
    assert_eq!(ids, vec!["x".to_string(), "y".to_string(), "z".to_string()]);
}

#[test]
fn theme_payload_is_constant_and_marked() {
    assert_eq!(theme::payload(), theme::payload());
    assert_eq!(theme::marker_id(), "od");
    // The payload checks its marker before inserting anything, which is what
    // makes repeated application safe.
    assert!(theme::payload().contains("getElementById('od')"));
    assert!(theme::payload().contains("s.id='od'"));
}

#[test]
fn theme_plan_prefers_a_standing_init_script() {
    let plan = theme::injection_plan(true);
    assert!(plan.at_creation);
    assert!(!plan.at_load_started);
    assert!(!plan.at_load_finished);
}

#[test]
fn theme_plan_falls_back_to_both_load_phases() {
    let plan = theme::injection_plan(false);
    assert!(!plan.at_creation);
    assert!(plan.at_load_started);
    assert!(plan.at_load_finished);
}

#[test]
fn load_finished_event_carries_the_url() {
    let mut c = LifecycleController::new(28);
    let t = "1".to_string();
    let u = "https://example.com".to_string();
    c.navigate(
        &t,
        u.clone(),
        LogicalArea { x: 0, y: 0, width: 10, height: 10 },
        Some(HostFrame { x: 0, y: 0 }),
    )
    .unwrap();
    let ev = c.on_load_finished(&t, &u).expect("a matching load-finished is delivered");
    assert_eq!(ev.tab_id, "1");
    assert_eq!(ev.url, Some(u));
    assert_eq!(ev.title, None);
}

#[test]
fn stale_load_finished_is_discarded() {
    let mut c = LifecycleController::new(28);
    let t = "1".to_string();
    c.navigate(
        &t,
        "https://example.com/new".to_string(),
        LogicalArea { x: 0, y: 0, width: 10, height: 10 },
        Some(HostFrame { x: 0, y: 0 }),
    )
    .unwrap();
    // A load of the superseded URL completes late: the mismatch is dropped.
    assert!(c.on_load_finished(&t, &"https://example.com/old".to_string()).is_none());
}

#[test]
fn callback_for_a_closed_tab_is_discarded() {
    let mut c = LifecycleController::new(28);
    let t = "1".to_string();
    let u = "https://example.com".to_string();
    c.navigate(
        &t,
        u.clone(),
        LogicalArea { x: 0, y: 0, width: 10, height: 10 },
        Some(HostFrame { x: 0, y: 0 }),
    )
    .unwrap();
    c.close(&t);
    assert!(c.on_load_finished(&t, &u).is_none());
    assert!(c.on_title_changed(&t, "Late".to_string()).is_none());
    assert!(c.lookup(&t).is_none());
}

#[test]
fn title_change_updates_the_cached_title() {
    let mut c = LifecycleController::new(28);
    let t = "1".to_string();
    c.navigate(
        &t,
        "https://example.com".to_string(),
        LogicalArea { x: 0, y: 0, width: 10, height: 10 },
        Some(HostFrame { x: 0, y: 0 }),
    )
    .unwrap();
    let ev = c.on_title_changed(&t, "Example Domain".to_string()).unwrap();
    assert_eq!(ev.tab_id, "1");
    assert_eq!(ev.url, None);
    assert_eq!(ev.title, Some("Example Domain".to_string()));
    assert_eq!(c.lookup(&t).unwrap().title, "Example Domain");
}

#[test]
fn errors_describe_themselves() {
    assert_eq!(TabError::InvalidUrl.describe(), "invalid URL");
    assert_eq!(TabError::NoMainWindow.describe(), "No main window");
    assert_eq!(TabError::DuplicateTab.describe(), "duplicate tab");
    assert_eq!(
        TabError::SurfaceOperationFailed("window vanished".to_string()).describe(),
        "window vanished"
    );
}
