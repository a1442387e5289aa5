use snow_devil::flow::{
    plan_source_page, recently_merged_cutoff, recently_merged_search, RepositorySource, SourcePagePlan,
    SourcePageRequest,
};
use snow_devil::viewer::{RepoInfo, ViewerInfo};

fn request(scope: &str, source_type: &str) -> SourcePageRequest {
    SourcePageRequest {
        scope: scope.to_string(),
        source_type: source_type.to_string(),
        repository_owner: Some("octo".to_string()),
        repository_name: None,
        cursor: Some("c9".to_string()),
        page_size: 25,
    }
}

#[test]
fn releases_always_read_the_repository() {
    match plan_source_page(request("account", "releases")) {
        SourcePagePlan::Repository { source, owner, name, first, cursor } => {
            assert_eq!(source, RepositorySource::Releases);
            assert_eq!(owner, "octo");
            assert_eq!(name, "");
            assert_eq!(first, 25);
            assert_eq!(cursor.as_deref(), Some("c9"));
        }
        _ => panic!("expected a repository page"),
    }
}

#[test]
fn repository_sources_select_their_connection() {
    for (source_type, expected) in [
        ("open_prs", RepositorySource::OpenPullRequests),
        ("merged_prs", RepositorySource::MergedPullRequests),
        ("open_issues", RepositorySource::OpenIssues),
    ] {
        match plan_source_page(request("repository", source_type)) {
            SourcePagePlan::Repository { source, .. } => assert_eq!(source, expected),
            _ => panic!("expected a repository page"),
        }
    }
    assert!(matches!(
        plan_source_page(request("repository", "authored_prs")),
        SourcePagePlan::EmptyRepositoryPage
    ));
}

#[test]
fn account_sources_run_issue_searches() {
    for (source_type, expected) in [
        ("authored_prs", "is:pr is:open author:@me"),
        ("review_requested_prs", "is:pr is:open user-review-requested:@me"),
        ("reviewed_prs", "is:pr is:open reviewed-by:@me"),
        ("authored_issues", "is:issue is:open author:@me"),
        ("assigned_issues", "is:issue is:open assignee:@me"),
        ("merged_prs", "is:pr is:merged author:@me sort:updated-desc"),
    ] {
        match plan_source_page(request("account", source_type)) {
            SourcePagePlan::Search { search, first, cursor } => {
                assert_eq!(search, expected);
                assert_eq!(first, 25);
                assert_eq!(cursor.as_deref(), Some("c9"));
            }
            _ => panic!("expected a search page"),
        }
    }
    assert!(matches!(
        plan_source_page(request("account", "open_prs")),
        SourcePagePlan::EmptySearchPage
    ));
}

#[test]
fn merged_search_starts_at_the_cutoff() {
    assert_eq!(
        recently_merged_search("2024-05-01"),
        "is:pr is:merged author:@me merged:>=2024-05-01 sort:updated-desc"
    );
}

#[test]
fn viewer_and_repository_fields_default_to_blank() {
    let viewer = ViewerInfo::from_fields(None, Some("me".to_string()), None, None, Some("u".to_string()));
    assert_eq!(viewer.id, "");
    assert_eq!(viewer.login, "me");
    assert_eq!(viewer.name, None);
    assert_eq!(viewer.avatar_url, "");
    assert_eq!(viewer.url, "u");
    let repo = RepoInfo::from_fields(
        Some("R1".to_string()),
        None,
        Some("octo".to_string()),
        None,
        None,
        None,
        Some("Rust".to_string()),
        None,
    );
    assert_eq!(repo.id, "R1");
    assert_eq!(repo.name_with_owner, "");
    assert!(!repo.is_private);
    assert_eq!(repo.primary_language.as_deref(), Some("Rust"));
}

#[test]
fn recently_merged_cutoff_is_a_week_before_now() {
    assert_eq!(recently_merged_cutoff(1_431_648_000 + 7 * 86_400), Some("2015-05-15".to_string()));
    assert_eq!(recently_merged_cutoff(1_431_648_000 + 7 * 86_400 + 86_399), Some("2015-05-15".to_string()));
    assert_eq!(recently_merged_cutoff(0), Some("1969-12-25".to_string()));
    assert_eq!(recently_merged_cutoff(u64::MAX), None);
}
