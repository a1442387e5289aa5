use serde_json::Value;
use snow_devil::organizations::{
    check_membership_page, classify_repository, is_last_page, lowercase_logins,
    next_repository_cursor, organization_restricted_summary, organization_summary,
    organization_unavailable_summary, profile_organizations, retain_active_memberships,
    AccessKind, Membership, MembershipFetchError, OrganizationErrorCode, OrganizationInfo,
    OrganizationRole, Ownership, SummarySource, SummaryStatus, Visibility,
    VIEWER_REPOSITORIES_QUERY,
};

fn text(s: &str) -> Value {
    Value::String(s.to_string())
}

fn org(id: u64, login: &str, avatar_url: Value, html_url: Value) -> OrganizationInfo {
    OrganizationInfo {
        id: Value::from(id),
        login: Some(login.to_string()),
        avatar_url,
        html_url,
    }
}

fn membership(state: &str, organization: OrganizationInfo) -> Membership {
    Membership {
        state: Some(state.to_string()),
        role: text("member"),
        organization: Some(organization),
    }
}

fn public_login(login: &str) -> OrganizationInfo {
    OrganizationInfo {
        id: Value::Null,
        login: Some(login.to_string()),
        avatar_url: Value::Null,
        html_url: Value::Null,
    }
}

#[test]
fn active_authenticated_memberships_include_private_organizations() {
    let memberships = vec![
        membership("active", org(1, "public-org", text(""), text("https://github.com/public-org"))),
        membership("active", org(2, "private-org", text(""), text("https://github.com/private-org"))),
        membership("pending", org(3, "pending-org", Value::Null, Value::Null)),
    ];
    let summary = organization_summary(memberships, &vec![public_login("public-org")]);
    assert_eq!(summary.total_count, 2);
    assert_eq!(summary.public_count, 1);
    assert_eq!(summary.private_count, 1);
}

#[test]
fn organization_scope_and_sso_failures_remain_explicit_without_breaking_auth() {
    assert_eq!(
        organization_unavailable_summary("organization_membership_scope_missing")
            .error_code
            .map(|code| code.as_str()),
        Some("missing_read_org")
    );
    assert_eq!(
        organization_unavailable_summary("organization_sso_required")
            .error_code
            .map(|code| code.as_str()),
        Some("sso_required")
    );
}

#[test]
fn restricted_oauth_memberships_fall_back_to_disclosed_public_organizations() {
    let summary = organization_restricted_summary(vec![org(
        1,
        "public-org",
        text(""),
        text("https://github.com/public-org"),
    )]);
    assert_eq!(summary.status.as_str(), "partial");
    assert_eq!(summary.total_count, 1);
    assert_eq!(summary.nodes[0].login, "public-org");
    assert_eq!(
        summary.error_code.map(|code| code.as_str()),
        Some("organization_access_restricted")
    );
}

#[test]
fn repository_access_classification_distinguishes_org_maintain_and_read_only() {
    let organizations = vec!["acme".to_string()];
    let maintained = classify_repository(
        Some("acme"),
        Some("Organization"),
        Some("MAINTAIN"),
        "viewer",
        &organizations,
    );
    assert_eq!(maintained.ownership.as_str(), "organization");
    assert_eq!(maintained.access_kind.as_str(), "maintained");
    assert_eq!(maintained.maintained_by_viewer, true);

    let read_only = classify_repository(
        Some("acme"),
        Some("Organization"),
        Some("READ"),
        "viewer",
        &organizations,
    );
    assert_eq!(read_only.access_kind.as_str(), "read_only");
    assert_eq!(read_only.maintained_by_viewer, false);
}

#[test]
fn repository_discovery_requests_org_affiliation_and_cursor_pagination() {
    assert!(VIEWER_REPOSITORIES_QUERY.contains("ORGANIZATION_MEMBER"));
    assert!(VIEWER_REPOSITORIES_QUERY.contains("after: $cursor"));
    assert!(VIEWER_REPOSITORIES_QUERY.contains("pageInfo { hasNextPage endCursor }"));
}

#[test]
fn summary_nodes_carry_organization_fields_and_case_insensitive_visibility() {
    let memberships = vec![
        membership("active", org(7, "Acme", text("a.png"), text("https://github.com/Acme"))),
        Membership { state: Some("active".to_string()), role: text("admin"), organization: None },
        Membership { state: None, role: text("admin"), organization: Some(public_login("x")) },
    ];
    let summary = organization_summary(memberships, &vec![public_login("ACME")]);
    assert_eq!(summary.total_count, 1);
    let node = &summary.nodes[0];
    assert_eq!(node.id, Value::from(7u64));
    assert_eq!(node.login, "Acme");
    assert_eq!(node.avatar_url, text("a.png"));
    assert_eq!(node.url, text("https://github.com/Acme"));
    assert!(matches!(&node.role, OrganizationRole::Reported(role) if *role == text("member")));
    assert_eq!(node.state, "active");
    assert_eq!(node.visibility, Visibility::Public);
    assert_eq!(summary.status, SummaryStatus::Ready);
    assert_eq!(summary.source, SummarySource::AuthenticatedActiveMemberships);
    assert_eq!(summary.error_code, None);
    assert_eq!(summary.message(), None);
}

#[test]
fn unknown_membership_failures_are_reported_unavailable() {
    let summary = organization_unavailable_summary("GitHub organization memberships failed with status 500");
    assert_eq!(summary.error_code, Some(OrganizationErrorCode::Unavailable));
    assert_eq!(summary.status, SummaryStatus::Unavailable);
    assert_eq!(summary.total_count, 0);
    assert!(summary.nodes.is_empty());
    assert_eq!(
        summary.message(),
        Some("GitHub organization memberships are temporarily unavailable.")
    );
    // SSO wins when both markers appear.
    assert_eq!(
        organization_unavailable_summary("organization_membership_scope_missing organization_sso_required").error_code,
        Some(OrganizationErrorCode::SsoRequired)
    );
}

#[test]
fn restricted_summary_skips_organizations_without_a_login() {
    let unnamed = OrganizationInfo { id: Value::Null, login: None, avatar_url: Value::Null, html_url: Value::Null };
    let summary = organization_restricted_summary(vec![unnamed, public_login("b")]);
    assert_eq!(summary.total_count, 1);
    assert_eq!(summary.public_count, 1);
    assert_eq!(summary.private_count, 0);
    assert!(matches!(summary.nodes[0].role, OrganizationRole::Member));
    assert_eq!(summary.nodes[0].visibility.as_str(), "public");
    assert_eq!(summary.source.as_str(), "public_profile_fallback");
}

#[test]
fn profile_falls_back_only_when_memberships_are_empty() {
    let fallback = profile_organizations(Ok(vec![]), vec![public_login("a")]);
    assert_eq!(fallback.status, SummaryStatus::Partial);
    assert_eq!(fallback.source, SummarySource::PublicProfileFallback);
    assert_eq!(fallback.error_code, Some(OrganizationErrorCode::AccessRestricted));
    assert_eq!(fallback.total_count, 1);
    assert_eq!(fallback.public_count, 1);
    assert_eq!(fallback.private_count, 0);
    let ready = profile_organizations(Ok(vec![]), vec![]);
    assert_eq!(ready.status, SummaryStatus::Ready);
    assert_eq!(ready.error_code, None);
    assert_eq!(ready.total_count, 0);
    let mixed = profile_organizations(
        Ok(vec![membership("active", public_login("A")), membership("active", public_login("b"))]),
        vec![public_login("a")],
    );
    assert_eq!(mixed.status, SummaryStatus::Ready);
    assert_eq!(mixed.error_code, None);
    assert_eq!(mixed.public_count, 1);
    assert_eq!(mixed.private_count, 1);
    let failed = profile_organizations(Err("organization_sso_required".to_string()), vec![public_login("a")]);
    assert_eq!(failed.error_code, Some(OrganizationErrorCode::SsoRequired));
    assert_eq!(failed.source, SummarySource::AuthenticatedActiveMemberships);
    assert_eq!(failed.public_count, 0);
    assert_eq!(failed.private_count, 0);
}

#[test]
fn only_active_memberships_are_kept_from_a_page() {
    let page = vec![
        membership("active", public_login("a")),
        membership("pending", public_login("b")),
        Membership { state: None, role: Value::Null, organization: None },
        membership("active", public_login("c")),
    ];
    let kept = retain_active_memberships(page);
    let logins: Vec<_> = kept
        .iter()
        .map(|m| m.organization.as_ref().unwrap().login.clone().unwrap())
        .collect();
    assert_eq!(logins, vec!["a".to_string(), "c".to_string()]);
}

#[test]
fn membership_pages_name_their_failures() {
    assert_eq!(check_membership_page(403, true), Err(MembershipFetchError::SsoRequired));
    assert_eq!(check_membership_page(403, false), Err(MembershipFetchError::ScopeMissing));
    assert_eq!(check_membership_page(500, false), Err(MembershipFetchError::Status(500)));
    assert_eq!(check_membership_page(200, true), Ok(()));
    assert_eq!(MembershipFetchError::SsoRequired.marker(), Some("organization_sso_required"));
    assert!(is_last_page(99));
    assert!(!is_last_page(100));
}

#[test]
fn repository_listing_follows_end_cursors() {
    assert_eq!(next_repository_cursor(Some(true), Some("c1".to_string())), Some("c1".to_string()));
    assert_eq!(next_repository_cursor(Some(true), None), None);
    assert_eq!(next_repository_cursor(Some(false), Some("c1".to_string())), None);
    assert_eq!(next_repository_cursor(None, Some("c1".to_string())), None);
}

#[test]
fn personal_triage_and_collaborator_repositories() {
    let organizations = lowercase_logins(&vec![Some("Team".to_string()), None]);
    assert_eq!(organizations, vec!["team".to_string()]);
    let personal = classify_repository(Some("Viewer"), Some("User"), Some("ADMIN"), "viewer", &organizations);
    assert_eq!(personal.ownership, Ownership::Personal);
    assert_eq!(personal.access_kind, AccessKind::Maintained);
    let member = classify_repository(Some("TEAM"), Some("User"), Some("TRIAGE"), "viewer", &organizations);
    assert_eq!(member.ownership, Ownership::Organization);
    assert_eq!(member.access_kind, AccessKind::Triage);
    assert!(!member.maintained_by_viewer);
    let other = classify_repository(Some("someone"), None, None, "viewer", &organizations);
    assert_eq!(other.ownership, Ownership::Collaborator);
    assert_eq!(other.access_kind, AccessKind::ReadOnly);
    assert_eq!(other.owner_type, "");
    let unknown = classify_repository(None, None, Some("WRITE"), "viewer", &organizations);
    assert_eq!(unknown.owner_login, "");
    assert_eq!(unknown.ownership, Ownership::Collaborator);
    assert!(unknown.maintained_by_viewer);
}
