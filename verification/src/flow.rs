//! Planning of paged source requests for the Flow and History views.

use crate::text::str_equal;
use vstd::prelude::*;
use vstd::string::StringExecFns;

verus! {

/// A request for one page of a work source.
pub struct SourcePageRequest {
    pub scope: String,
    pub source_type: String,
    pub repository_owner: Option<String>,
    pub repository_name: Option<String>,
    pub cursor: Option<String>,
    pub page_size: i32,
}

/// The repository connections a repository-scoped source reads.
#[derive(Clone, Copy, Debug, PartialEq, Eq, Structural)]
pub enum RepositorySource {
    Releases,
    OpenPullRequests,
    MergedPullRequests,
    OpenIssues,
}

/// What answering a source page request takes.
pub enum SourcePagePlan {
    /// An unknown repository source: the answer is an empty object.
    EmptyRepositoryPage,
    /// An unknown account source: the answer is an empty search page.
    EmptySearchPage,
    /// A page of a repository connection.
    Repository {
        source: RepositorySource,
        owner: String,
        name: String,
        first: i32,
        cursor: Option<String>,
    },
    /// A page of an issue search.
    Search { search: String, first: i32, cursor: Option<String> },
}

/// The characters of an optional string; empty when absent.
pub open spec fn text_or_empty(s: Option<String>) -> Seq<char> {
    match s {
        Some(t) => t@,
        None => Seq::empty(),
    }
}

/// An optional string by its characters.
pub open spec fn option_view(s: Option<String>) -> Option<Seq<char>> {
    match s {
        Some(t) => Some(t@),
        None => None,
    }
}

/// The repository connection a repository-scoped source type reads.
pub open spec fn repository_source_spec(source_type: Seq<char>) -> Option<RepositorySource> {
    if source_type == "open_prs"@ {
        Some(RepositorySource::OpenPullRequests)
    } else if source_type == "merged_prs"@ {
        Some(RepositorySource::MergedPullRequests)
    } else if source_type == "open_issues"@ {
        Some(RepositorySource::OpenIssues)
    } else {
        None
    }
}

/// The issue search an account-scoped source type runs.
pub open spec fn search_query_spec(source_type: Seq<char>) -> Option<Seq<char>> {
    if source_type == "authored_prs"@ {
        Some("is:pr is:open author:@me"@)
    } else if source_type == "review_requested_prs"@ {
        Some("is:pr is:open user-review-requested:@me"@)
    } else if source_type == "reviewed_prs"@ {
        Some("is:pr is:open reviewed-by:@me"@)
    } else if source_type == "authored_issues"@ {
        Some("is:issue is:open author:@me"@)
    } else if source_type == "assigned_issues"@ {
        Some("is:issue is:open assignee:@me"@)
    } else if source_type == "merged_prs"@ {
        Some("is:pr is:merged author:@me sort:updated-desc"@)
    } else {
        None
    }
}

/// The plan for a repository page of `source`.
pub open spec fn is_repository_plan(
    plan: SourcePagePlan,
    source: RepositorySource,
    request: SourcePageRequest,
) -> bool {
    plan matches SourcePagePlan::Repository { source: s, owner, name, first, cursor } && s == source
        && owner@ == text_or_empty(request.repository_owner) && name@ == text_or_empty(
        request.repository_name,
    ) && first == request.page_size && option_view(cursor) == option_view(request.cursor)
}

fn search_query_for(source_type: &str) -> (res: Option<String>)
    ensures
        match res {
            Some(q) => search_query_spec(source_type@) == Some(q@),
            None => search_query_spec(source_type@) is None,
        },
{
    if str_equal(source_type, "authored_prs") {
        Some(String::from_str("is:pr is:open author:@me"))
    } else if str_equal(source_type, "review_requested_prs") {
        Some(String::from_str("is:pr is:open user-review-requested:@me"))
    } else if str_equal(source_type, "reviewed_prs") {
        Some(String::from_str("is:pr is:open reviewed-by:@me"))
    } else if str_equal(source_type, "authored_issues") {
        Some(String::from_str("is:issue is:open author:@me"))
    } else if str_equal(source_type, "assigned_issues") {
        Some(String::from_str("is:issue is:open assignee:@me"))
    } else if str_equal(source_type, "merged_prs") {
        Some(String::from_str("is:pr is:merged author:@me sort:updated-desc"))
    } else {
        None
    }
}

/// Decides how a source page is fetched. Releases are always read from the
/// repository; other repository-scoped sources read open pull requests,
/// merged pull requests or open issues; account-scoped sources run an issue
/// search. Unknown source types get an empty page.
pub fn plan_source_page(request: SourcePageRequest) -> (res: SourcePagePlan)
    ensures
        if request.source_type@ == "releases"@ {
            is_repository_plan(res, RepositorySource::Releases, request)
        } else if request.scope@ == "repository"@ {
            match repository_source_spec(request.source_type@) {
                Some(source) => is_repository_plan(res, source, request),
                None => res is EmptyRepositoryPage,
            }
        } else {
            match search_query_spec(request.source_type@) {
                Some(q) => res matches SourcePagePlan::Search { search, first, cursor } && search@ == q
                    && first == request.page_size && option_view(cursor) == option_view(
                    request.cursor,
                ),
                None => res is EmptySearchPage,
            }
        },
{
    let ghost req = request;
    let source = if str_equal(request.source_type.as_str(), "releases") {
        Some(RepositorySource::Releases)
    } else if str_equal(request.scope.as_str(), "repository") {
        if str_equal(request.source_type.as_str(), "open_prs") {
            Some(RepositorySource::OpenPullRequests)
        } else if str_equal(request.source_type.as_str(), "merged_prs") {
            Some(RepositorySource::MergedPullRequests)
        } else if str_equal(request.source_type.as_str(), "open_issues") {
            Some(RepositorySource::OpenIssues)
        } else {
            return SourcePagePlan::EmptyRepositoryPage;
        }
    } else {
        None
    };
    match source {
        Some(source) => {
            let owner = match request.repository_owner {
                Some(o) => o,
                None => String::new(),
            };
            let name = match request.repository_name {
                Some(n) => n,
                None => String::new(),
            };
            SourcePagePlan::Repository {
                source,
                owner,
                name,
                first: request.page_size,
                cursor: request.cursor,
            }
        },
        None => match search_query_for(request.source_type.as_str()) {
            Some(search) => SourcePagePlan::Search {
                search,
                first: request.page_size,
                cursor: request.cursor,
            },
            None => SourcePagePlan::EmptySearchPage,
        },
    }
}

/// The search for the viewer's pull requests merged since `cutoff`
/// (a `YYYY-MM-DD` date).
pub fn recently_merged_search(cutoff: &str) -> (res: String)
    ensures
        res@ == "is:pr is:merged author:@me merged:>="@ + cutoff@ + " sort:updated-desc"@,
{
    let mut q = String::from_str("is:pr is:merged author:@me merged:>=");
    q.append(cutoff);
    q.append(" sort:updated-desc");
    q
}

/// The search for open pull requests to the viewer's repositories by others.
pub const INCOMING_PULL_REQUESTS_SEARCH: &'static str = "is:open is:pr user:@me -author:@me sort:updated-desc";

/// Number of days the recently merged search looks back.
pub const RECENTLY_MERGED_DAYS: i64 = 7;

/// Seconds in a day.
pub const SECONDS_PER_DAY: i64 = 86400;

/// The UTC calendar date, as `YYYY-MM-DD`, of a Unix time in whole seconds:
/// what chrono's `DateTime::from_timestamp(secs, 0)` formatted with
/// `%Y-%m-%d` gives; `None` when the time lies outside chrono's range.
pub uninterp spec fn utc_date_text(secs: i64) -> Option<Seq<char>>;

/// `chrono::DateTime::<Utc>::from_timestamp(secs, 0)`, its date written out
/// with `format("%Y-%m-%d")`; `None` when the time lies outside chrono's
/// range.
#[verifier::external_body]
fn utc_date(secs: i64) -> (res: Option<String>)
    ensures
        match res {
            Some(t) => utc_date_text(secs) == Some(t@),
            None => utc_date_text(secs) is None,
        },
{
    match chrono::DateTime::from_timestamp(secs, 0) {
        Some(time) => Some(time.format("%Y-%m-%d").to_string()),
        None => None,
    }
}

/// The first day the recently merged search covers: the UTC date
/// `RECENTLY_MERGED_DAYS` days before the Unix time `now_unix`. `None` when
/// `now_unix` does not fit in `i64` or the date lies outside the calendar's
/// range.
pub fn recently_merged_cutoff(now_unix: u64) -> (res: Option<String>)
    ensures
        now_unix > i64::MAX ==> res is None,
        now_unix <= i64::MAX ==> match utc_date_text(
            (now_unix - RECENTLY_MERGED_DAYS * SECONDS_PER_DAY) as i64,
        ) {
            Some(d) => res matches Some(t) && t@ == d,
            None => res is None,
        },
{
    if now_unix > 9223372036854775807u64 {
        return None;
    }
    let now = now_unix as i64;
    let cutoff = now - RECENTLY_MERGED_DAYS * SECONDS_PER_DAY;
    utc_date(cutoff)
}

} // verus!
