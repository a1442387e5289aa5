//! Verified core of the Snow Devil desktop workspace: the GitHub retry policy,
//! the resident browser webview pool, organization and repository access
//! classification, repository content requests, source-page planning and
//! privacy-safe diagnostics.

pub mod text;
pub mod retry;
pub mod browser;
pub mod organizations;
pub mod repo;
pub mod flow;
pub mod diagnostics;
pub mod update;
pub mod viewer;
pub mod paging;
