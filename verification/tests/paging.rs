use serde_json::Value;
use snow_devil::organizations::{Membership, MAX_ORGANIZATION_PAGES, MAX_REPOSITORY_PAGES, PAGE_SIZE};
use snow_devil::paging::{CursorPages, NumberedPages};

fn membership(state: &str, n: usize) -> Membership {
    Membership { state: Some(state.to_string()), role: Value::from(n), organization: None }
}

fn roles(items: &[Membership]) -> Vec<u64> {
    items.iter().map(|m| m.role.as_u64().unwrap()).collect()
}

#[test]
fn membership_pages_keep_active_ones_and_stop_at_a_short_page() {
    let mut paging = NumberedPages::new();
    assert_eq!(paging.next_page(), Some(1));
    let full: Vec<Membership> = (0..PAGE_SIZE)
        .map(|i| membership(if i % 2 == 0 { "active" } else { "pending" }, i))
        .collect();
    paging.accept_memberships(full);
    assert_eq!(paging.next_page(), Some(2));
    paging.accept_memberships(vec![membership("active", 1000), membership("pending", 1001)]);
    assert_eq!(paging.next_page(), None);
    let items = paging.into_items();
    assert_eq!(items.len(), PAGE_SIZE / 2 + 1);
    assert_eq!(roles(&items)[0..3], [0, 2, 4]);
    assert_eq!(*roles(&items).last().unwrap(), 1000);
}

#[test]
fn numbered_pages_stop_at_the_page_cap() {
    let mut paging: NumberedPages<u32> = NumberedPages::new();
    let mut asked = Vec::new();
    while let Some(page) = paging.next_page() {
        asked.push(page);
        paging.accept_page(vec![page], PAGE_SIZE);
    }
    assert_eq!(asked, (1..=MAX_ORGANIZATION_PAGES).collect::<Vec<u32>>());
    assert_eq!(paging.into_items(), (1..=MAX_ORGANIZATION_PAGES).collect::<Vec<u32>>());
}

#[test]
fn cursor_pages_follow_the_reported_cursor() {
    let mut paging: CursorPages<&str> = CursorPages::new();
    assert_eq!(paging.cursor(), None);
    assert!(!paging.is_finished());
    paging.accept_page(vec!["a", "b"], Some(true), Some("c1".to_string()));
    assert_eq!(paging.cursor(), Some(&"c1".to_string()));
    assert!(!paging.is_finished());
    paging.accept_page(vec!["c"], Some(true), None);
    assert!(paging.is_finished());
    assert_eq!(paging.cursor(), None);
    assert_eq!(paging.into_items(), vec!["a", "b", "c"]);

    let mut last: CursorPages<u32> = CursorPages::new();
    last.accept_page(vec![1], Some(false), Some("ignored".to_string()));
    assert!(last.is_finished());
    assert_eq!(last.cursor(), None);
}

#[test]
fn cursor_pages_stop_at_the_page_cap() {
    let mut paging: CursorPages<u32> = CursorPages::new();
    let mut pages = 0u32;
    while !paging.is_finished() {
        paging.accept_page(vec![pages], Some(true), Some(format!("c{pages}")));
        pages += 1;
    }
    assert_eq!(pages, MAX_REPOSITORY_PAGES);
    assert_eq!(paging.into_items().len(), MAX_REPOSITORY_PAGES as usize);
}
