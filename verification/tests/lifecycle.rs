//! Command-level behaviour of the lifecycle controller.

use tab_manager::errors::TabError;
use tab_manager::geometry::{HostFrame, LogicalArea, Placement, DEFAULT_CHROME_OFFSET};
use tab_manager::lifecycle::{LifecycleController, NavigateEffect};
use tab_manager::registry::Visibility;

fn area(x: i64, y: i64, w: i64, h: i64) -> LogicalArea {
    LogicalArea { x, y, width: w, height: h }
}

fn host(x: i64, y: i64) -> Option<HostFrame> {
    Some(HostFrame { x, y })
}

#[test]
fn navigate_creates_then_reuses_then_closes() {
    // An empty registry: the first navigate creates exactly one surface.
    let mut c = LifecycleController::new(DEFAULT_CHROME_OFFSET);
    let t = "1".to_string();
    let u = "https://example.com".to_string();

    let r = c.navigate(&t, u.clone(), area(0, 0, 800, 600), host(0, 0));
    match r {
        Ok(NavigateEffect::Created { label, url, placement }) => {
            assert_eq!(label, "browse-1");
            assert_eq!(url, u);
            assert_eq!(placement, Placement { x: 0, y: 28, width: 800, height: 600 });
        }
        _ => panic!("first navigate must create a surface"),
    }
    assert_eq!(c.tab_ids(), vec!["1".to_string()]);
    let h = c.lookup(&t).expect("surface must be registered");
    assert_eq!(h.label, "browse-1");
    assert_eq!(h.url, u);
    assert_eq!(h.visibility, Visibility::Visible);

    // Same URL again: the same surface is repositioned, no new navigation.
    let r = c.navigate(&t, u.clone(), area(0, 0, 400, 300), host(0, 0));
    match r {
        Ok(NavigateEffect::Repositioned { label, placement }) => {
            assert_eq!(label, "browse-1");
            assert_eq!(placement, Placement { x: 0, y: 28, width: 400, height: 300 });
        }
        _ => panic!("same-URL navigate must only reposition"),
    }
    assert_eq!(c.tab_ids().len(), 1);
    assert_eq!(
        c.lookup(&t).unwrap().placement,
        Placement { x: 0, y: 28, width: 400, height: 300 }
    );

    // Close removes the entry; a fresh navigate creates a fresh surface.
    assert!(c.close(&t).is_some());
    assert!(c.lookup(&t).is_none());
    assert!(c.tab_ids().is_empty());
    let r = c.navigate(&t, u.clone(), area(0, 0, 800, 600), host(0, 0));
    assert!(matches!(r, Ok(NavigateEffect::Created { .. })));
}

#[test]
fn navigate_same_url_repositions_after_move() {
    // The host window moved between the two calls: the placement is
    // recomputed from the frame read at call time, never cached.
    let mut c = LifecycleController::new(28);
    let t = "a".to_string();
    let u = "https://example.com/page".to_string();
    c.navigate(&t, u.clone(), area(10, 5, 300, 400), host(100, 200)).unwrap();
    assert_eq!(
        c.lookup(&t).unwrap().placement,
        Placement { x: 110, y: 233, width: 300, height: 400 }
    );
    let r = c.navigate(&t, u.clone(), area(10, 5, 300, 400), host(500, 700));
    assert!(matches!(r, Ok(NavigateEffect::Repositioned { .. })));
    assert_eq!(
        c.lookup(&t).unwrap().placement,
        Placement { x: 510, y: 733, width: 300, height: 400 }
    );
}

#[test]
fn navigate_new_url_navigates() {
    let mut c = LifecycleController::new(28);
    let t = "a".to_string();
    c.navigate(&t, "https://example.com/one".to_string(), area(0, 0, 10, 10), host(0, 0))
        .unwrap();
    let r = c.navigate(&t, "https://example.com/two".to_string(), area(0, 0, 10, 10), host(0, 0));
    match r {
        Ok(NavigateEffect::Navigated { label, url, .. }) => {
            assert_eq!(label, "browse-a");
            assert_eq!(url, "https://example.com/two");
        }
        _ => panic!("a differing URL must trigger a real navigation"),
    }
    assert_eq!(c.lookup(&t).unwrap().url, "https://example.com/two");
}

#[test]
fn navigate_rejects_malformed_url() {
    let mut c = LifecycleController::new(28);
    let t = "1".to_string();
    let r = c.navigate(&t, "not a url".to_string(), area(0, 0, 10, 10), host(0, 0));
    assert!(matches!(r, Err(TabError::InvalidUrl)));
    // The failed command changed nothing.
    assert!(c.lookup(&t).is_none());
    // A well-formed URL on the same controller succeeds.
    let r = c.navigate(&t, "https://example.com".to_string(), area(0, 0, 10, 10), host(0, 0));
    assert!(r.is_ok());
}

#[test]
fn navigate_without_host_window_fails() {
    let mut c = LifecycleController::new(28);
    let t = "1".to_string();
    let r = c.navigate(&t, "https://example.com".to_string(), area(0, 0, 10, 10), None);
    assert!(matches!(r, Err(TabError::NoMainWindow)));
    assert!(c.lookup(&t).is_none());
}

#[test]
fn creating_checks_the_host_window_before_the_url() {
    // With no surface for the tab, a missing main window is reported first,
    // whatever the URL: creating needs the host window before anything else.
    let mut c = LifecycleController::new(28);
    let t = "1".to_string();
    let r = c.navigate(&t, "not a url".to_string(), area(0, 0, 10, 10), None);
    assert!(matches!(r, Err(TabError::NoMainWindow)));
    assert!(c.lookup(&t).is_none());
}

#[test]
fn navigating_a_live_surface_checks_the_url_first() {
    // With a registered surface, the URL is validated before the host frame
    // is read: a malformed URL is reported even with no main window.
    let mut c = LifecycleController::new(28);
    let t = "1".to_string();
    c.navigate(&t, "https://example.com".to_string(), area(0, 0, 10, 10), host(0, 0))
        .unwrap();
    let r = c.navigate(&t, "not a url".to_string(), area(0, 0, 10, 10), None);
    assert!(matches!(r, Err(TabError::InvalidUrl)));
    // The failed command changed nothing.
    assert_eq!(c.lookup(&t).unwrap().url, "https://example.com");
}

#[test]
fn resize_repositions_without_navigating() {
    let mut c = LifecycleController::new(28);
    let t = "1".to_string();
    let u = "https://example.com".to_string();
    c.navigate(&t, u.clone(), area(0, 0, 800, 600), host(100, 200)).unwrap();
    let r = c.resize(&t, area(20, 30, 640, 480), host(100, 200));
    assert_eq!(r, Ok(Some(Placement { x: 120, y: 258, width: 640, height: 480 })));
    let h = c.lookup(&t).unwrap();
    assert_eq!(h.placement, Placement { x: 120, y: 258, width: 640, height: 480 });
    assert_eq!(h.url, u);
    assert_eq!(h.visibility, Visibility::Visible);
}

#[test]
fn resize_of_absent_tab_is_a_successful_no_op() {
    let mut c = LifecycleController::new(28);
    let r = c.resize(&"ghost".to_string(), area(0, 0, 10, 10), host(0, 0));
    assert_eq!(r, Ok(None));
}

#[test]
fn resize_without_host_window_fails() {
    let mut c = LifecycleController::new(28);
    let t = "1".to_string();
    c.navigate(&t, "https://example.com".to_string(), area(0, 0, 10, 10), host(0, 0))
        .unwrap();
    let r = c.resize(&t, area(0, 0, 20, 20), None);
    assert_eq!(r, Err(TabError::NoMainWindow));
}

#[test]
fn hide_all_hides_every_tab() {
    let mut c = LifecycleController::new(28);
    for id in ["1", "2", "3"] {
        c.navigate(
            &id.to_string(),
            format!("https://example.com/{}", id),
            area(0, 0, 10, 10),
            host(0, 0),
        )
        .unwrap();
    }
    let mut hidden = c.hide_all();
    hidden.sort();
    assert_eq!(hidden, vec!["1".to_string(), "2".to_string(), "3".to_string()]);
    for id in ["1", "2", "3"] {
        assert_eq!(c.lookup(&id.to_string()).unwrap().visibility, Visibility::Hidden);
    }
}

#[test]
fn show_hides_every_other_tab() {
    let mut c = LifecycleController::new(28);
    for id in ["1", "2", "3"] {
        c.navigate(
            &id.to_string(),
            format!("https://example.com/{}", id),
            area(0, 0, 10, 10),
            host(0, 0),
        )
        .unwrap();
    }
    let t = "2".to_string();
    let eff = c.show(&t, area(5, 5, 100, 100), host(10, 10)).unwrap();
    assert_eq!(eff.label, "browse-2");
    assert_eq!(eff.placement, Placement { x: 15, y: 43, width: 100, height: 100 });
    let mut others = eff.hidden.clone();
    others.sort();
    assert_eq!(others, vec!["1".to_string(), "3".to_string()]);
    assert_eq!(c.lookup(&t).unwrap().visibility, Visibility::Visible);
    assert_eq!(c.lookup(&"1".to_string()).unwrap().visibility, Visibility::Hidden);
    assert_eq!(c.lookup(&"3".to_string()).unwrap().visibility, Visibility::Hidden);
}

#[test]
fn show_without_host_window_fails() {
    let mut c = LifecycleController::new(28);
    let t = "1".to_string();
    c.navigate(&t, "https://example.com".to_string(), area(0, 0, 10, 10), host(0, 0))
        .unwrap();
    let r = c.show(&t, area(0, 0, 10, 10), None);
    assert!(matches!(r, Err(TabError::NoMainWindow)));
    assert_eq!(c.lookup(&t).unwrap().visibility, Visibility::Visible);
}

#[test]
fn close_twice_is_a_no_op_second_time() {
    let mut c = LifecycleController::new(28);
    let t = "1".to_string();
    c.navigate(&t, "https://example.com".to_string(), area(0, 0, 10, 10), host(0, 0))
        .unwrap();
    let first = c.close(&t);
    assert!(first.is_some());
    assert_eq!(first.unwrap().label, "browse-1");
    assert!(c.lookup(&t).is_none());
    let second = c.close(&t);
    assert!(second.is_none());
    assert!(c.lookup(&t).is_none());
}
