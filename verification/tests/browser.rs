use snow_devil::browser::{
    current_time_ms, navigation_proceeds, normalize_tab_url, BrowserState, BrowserWebviewManager,
    BrowserWebviewRecord, NavigationDecision,
};

fn record(tab: &str, at: i64) -> BrowserWebviewRecord {
    BrowserWebviewRecord::new(
        tab.to_string(),
        format!("browser-{tab}"),
        format!("https://github.com/{tab}"),
        at,
    )
}

fn pool(max: usize, tabs: &[(&str, i64)]) -> BrowserWebviewManager {
    let mut mgr = BrowserWebviewManager::new(max);
    for (tab, at) in tabs {
        mgr.insert_record(record(tab, *at));
    }
    mgr
}

#[test]
fn no_eviction_within_capacity() {
    let mut mgr = pool(2, &[("a", 1), ("b", 2)]);
    assert!(mgr.evict_for_capacity().is_none());
    assert_eq!(mgr.resident_count(), 2);
}

#[test]
fn evicts_least_recently_activated_inactive_tab() {
    let mut mgr = pool(2, &[("a", 30), ("b", 10), ("c", 20)]);
    mgr.complete_activation("b", 40);
    let evicted = mgr.evict_for_capacity().unwrap();
    assert_eq!(evicted.tab_id, "c");
    assert_eq!(mgr.resident_count(), 2);
    assert!(mgr.contains_tab("a"));
    assert!(mgr.contains_tab("b"));
}

#[test]
fn prefers_unpinned_tabs_and_never_evicts_the_active_one() {
    let mut mgr = BrowserWebviewManager::new(1);
    let mut pinned = record("old", 1);
    pinned.pinned = true;
    mgr.insert_record(pinned);
    mgr.insert_record(record("newer", 5));
    mgr.insert_record(record("active", 0));
    mgr.complete_activation("active", 0);
    assert_eq!(mgr.evict_for_capacity().unwrap().tab_id, "newer");
    // Only the pinned tab is left as a candidate now.
    assert_eq!(mgr.evict_for_capacity().unwrap().tab_id, "old");
    // The active tab is never a candidate.
    assert!(mgr.evict_for_capacity().is_none());
    assert_eq!(mgr.resident_count(), 1);
}

#[test]
fn earliest_record_wins_ties() {
    let mut mgr = pool(1, &[("x", 7), ("y", 7)]);
    assert_eq!(mgr.evict_for_capacity().unwrap().tab_id, "x");
}

#[test]
fn activation_leaves_only_the_activated_tab_visible() {
    let mut mgr = pool(5, &[("a", 1), ("b", 2), ("c", 3)]);
    let generation = mgr.begin_activation();
    assert_eq!(generation, 1);
    assert!(mgr.is_current_activation(generation));
    assert_eq!(mgr.labels_except("b"), vec!["browser-a".to_string(), "browser-c".to_string()]);
    mgr.complete_activation("b", 99);
    assert_eq!(mgr.visible_count(), 1);
    assert_eq!(mgr.active_tab_id().map(|t| t.as_str()), Some("b"));
    mgr.complete_activation("c", 100);
    assert_eq!(mgr.visible_count(), 1);
    // A later activation makes an earlier generation stale.
    let second = mgr.begin_activation();
    assert!(!mgr.is_current_activation(generation));
    assert!(mgr.is_current_activation(second));
}

#[test]
fn hide_all_clears_visibility_and_the_active_tab() {
    let mut mgr = pool(5, &[("a", 1), ("b", 2)]);
    mgr.complete_activation("a", 3);
    let labels = mgr.hide_all();
    assert_eq!(labels, vec!["browser-a".to_string(), "browser-b".to_string()]);
    assert_eq!(mgr.visible_count(), 0);
    assert!(mgr.active_tab_id().is_none());
}

#[test]
fn removing_a_tab_returns_its_label_and_clears_it_when_active() {
    let mut mgr = pool(5, &[("a", 1), ("b", 2)]);
    mgr.complete_activation("a", 3);
    assert_eq!(mgr.remove_tab("b"), Some("browser-b".to_string()));
    assert_eq!(mgr.active_tab_id().map(|t| t.as_str()), Some("a"));
    assert_eq!(mgr.remove_tab("a"), Some("browser-a".to_string()));
    assert!(mgr.active_tab_id().is_none());
    assert_eq!(mgr.remove_tab("a"), None);
    assert_eq!(mgr.resident_count(), 0);
}

#[test]
fn navigation_updates_the_recorded_url() {
    let mut mgr = pool(5, &[("a", 1)]);
    assert_eq!(
        mgr.set_current_url("a", "https://github.com/next".to_string()),
        Some("browser-a".to_string())
    );
    assert_eq!(
        mgr.tab_location("a"),
        Some(("browser-a".to_string(), "https://github.com/next".to_string()))
    );
    assert_eq!(mgr.set_current_url("zz", "https://x".to_string()), None);
    assert_eq!(mgr.webview_label("zz"), None);
}

#[test]
fn inserting_an_existing_tab_replaces_its_record() {
    let mut mgr = pool(5, &[("a", 1)]);
    mgr.insert_record(record("a", 9));
    assert_eq!(mgr.resident_count(), 1);
}

#[test]
fn only_allowed_urls_navigate_in_app() {
    assert!(navigation_proceeds(NavigationDecision::Allow));
    assert!(!navigation_proceeds(NavigationDecision::OpenExternal));
    assert!(!navigation_proceeds(NavigationDecision::Block));
}

#[test]
fn resident_state_reports_unknown_history() {
    let state = BrowserState::resident("a".to_string(), "https://github.com".to_string());
    assert_eq!(state.tab_id, "a");
    assert_eq!(state.current_url, "https://github.com");
    assert_eq!(state.can_go_back, None);
    assert_eq!(state.can_go_forward, None);
    assert!(!state.loading);
    assert!(current_time_ms().unwrap() > 1_600_000_000_000);
}

#[test]
fn tab_urls_are_normalized_or_refused() {
    assert_eq!(normalize_tab_url("https://GitHub.com"), Ok("https://github.com/".to_string()));
    assert_eq!(
        normalize_tab_url("https://github.com/octo/repo/pull/1?tab=files"),
        Ok("https://github.com/octo/repo/pull/1?tab=files".to_string())
    );
    assert_eq!(
        normalize_tab_url("not a url"),
        Err("Invalid URL: relative URL without a base".to_string())
    );
}

#[test]
fn creating_tabs_keeps_the_pool_bounded() {
    let mut mgr = pool(2, &[]);
    for (i, tab) in ["a", "b", "c", "d", "e"].iter().enumerate() {
        mgr.evict_for_capacity();
        mgr.insert_record(record(tab, i as i64));
        mgr.complete_activation(tab, 10 + i as i64);
        assert!(mgr.resident_count() <= 3);
        assert!(mgr.contains_tab(tab));
        assert_eq!(mgr.visible_count(), 1);
    }
    assert!(mgr.contains_tab("e"));
    assert!(!mgr.contains_tab("a"));
}
