//! Organization membership summaries and repository access classification
//! for the viewer's account.

use crate::text::{ascii_lower, contains_str, eq_ignore_ascii_case, occurs_in, str_equal, to_ascii_lowercase};
use serde_json::Value;
use vstd::prelude::*;

verus! {

#[verifier::external_type_specification]
#[verifier::external_body]
pub struct ExJsonValue(Value);

/// An organization as GitHub reports it. `id`, `avatar_url` and `html_url`
/// are carried through unchanged, whatever JSON they hold.
pub struct OrganizationInfo {
    pub id: Value,
    /// The `login` field when it is a string.
    pub login: Option<String>,
    pub avatar_url: Value,
    pub html_url: Value,
}

/// An authenticated organization membership.
pub struct Membership {
    /// The `state` field when it is a string.
    pub state: Option<String>,
    /// The `role` field, carried through unchanged.
    pub role: Value,
    /// The `organization` field, when present.
    pub organization: Option<OrganizationInfo>,
}

/// The role shown for an organization.
pub enum OrganizationRole {
    /// A plain member (memberships known only from the public profile).
    Member,
    /// The role GitHub reported for an authenticated membership.
    Reported(Value),
}

#[derive(Clone, Copy, Debug, PartialEq, Eq, Structural)]
pub enum Visibility {
    Public,
    Private,
}

impl Visibility {
    /// The name under which the value is reported.
    pub fn as_str(&self) -> (res: &'static str)
        ensures
            res@ == match *self {
                Visibility::Public => "public"@,
                Visibility::Private => "private"@,
            },
    {
        match self {
            Visibility::Public => "public",
            Visibility::Private => "private",
        }
    }
}

/// One organization in a summary.
pub struct OrganizationNode {
    pub id: Value,
    pub login: String,
    pub avatar_url: Value,
    pub url: Value,
    pub role: OrganizationRole,
    pub state: String,
    pub visibility: Visibility,
}

#[derive(Clone, Copy, Debug, PartialEq, Eq, Structural)]
pub enum SummarySource {
    PublicProfileFallback,
    AuthenticatedActiveMemberships,
}

impl SummarySource {
    /// The name under which the value is reported.
    pub fn as_str(&self) -> (res: &'static str)
        ensures
            res@ == match *self {
                SummarySource::PublicProfileFallback => "public_profile_fallback"@,
                SummarySource::AuthenticatedActiveMemberships => "authenticated_active_memberships"@,
            },
    {
        match self {
            SummarySource::PublicProfileFallback => "public_profile_fallback",
            SummarySource::AuthenticatedActiveMemberships => "authenticated_active_memberships",
        }
    }
}

#[derive(Clone, Copy, Debug, PartialEq, Eq, Structural)]
pub enum SummaryStatus {
    Ready,
    Partial,
    Unavailable,
}

impl SummaryStatus {
    /// The name under which the value is reported.
    pub fn as_str(&self) -> (res: &'static str)
        ensures
            res@ == match *self {
                SummaryStatus::Ready => "ready"@,
                SummaryStatus::Partial => "partial"@,
                SummaryStatus::Unavailable => "unavailable"@,
            },
    {
        match self {
            SummaryStatus::Ready => "ready",
            SummaryStatus::Partial => "partial",
            SummaryStatus::Unavailable => "unavailable",
        }
    }
}

#[derive(Clone, Copy, Debug, PartialEq, Eq, Structural)]
pub enum OrganizationErrorCode {
    AccessRestricted,
    SsoRequired,
    MissingReadOrg,
    Unavailable,
}

impl OrganizationErrorCode {
    /// The name under which the value is reported.
    pub fn as_str(&self) -> (res: &'static str)
        ensures
            res@ == match *self {
                OrganizationErrorCode::AccessRestricted => "organization_access_restricted"@,
                OrganizationErrorCode::SsoRequired => "sso_required"@,
                OrganizationErrorCode::MissingReadOrg => "missing_read_org"@,
                OrganizationErrorCode::Unavailable => "unavailable"@,
            },
    {
        match self {
            OrganizationErrorCode::AccessRestricted => "organization_access_restricted",
            OrganizationErrorCode::SsoRequired => "sso_required",
            OrganizationErrorCode::MissingReadOrg => "missing_read_org",
            OrganizationErrorCode::Unavailable => "unavailable",
        }
    }

    /// The explanation shown with the error.
    pub fn message(&self) -> (res: &'static str)
        ensures
            res@ == match *self {
                OrganizationErrorCode::AccessRestricted =>
                    "GitHub returned no authenticated memberships for this OAuth app. Public memberships are shown; authorize the OAuth app for your organizations to include private memberships."@,
                OrganizationErrorCode::SsoRequired =>
                    "GitHub organization access requires SSO authorization for this token."@,
                OrganizationErrorCode::MissingReadOrg =>
                    "GitHub organization memberships require the read:org scope. Reconnect GitHub to grant it."@,
                OrganizationErrorCode::Unavailable =>
                    "GitHub organization memberships are temporarily unavailable."@,
            },
    {
        match self {
            OrganizationErrorCode::AccessRestricted => "GitHub returned no authenticated memberships for this OAuth app. Public memberships are shown; authorize the OAuth app for your organizations to include private memberships.",
            OrganizationErrorCode::SsoRequired => "GitHub organization access requires SSO authorization for this token.",
            OrganizationErrorCode::MissingReadOrg => "GitHub organization memberships require the read:org scope. Reconnect GitHub to grant it.",
            OrganizationErrorCode::Unavailable => "GitHub organization memberships are temporarily unavailable.",
        }
    }
}

/// The organizations field of the viewer's profile.
pub struct OrganizationSummary {
    pub total_count: usize,
    pub public_count: usize,
    pub private_count: usize,
    pub nodes: Vec<OrganizationNode>,
    pub source: SummarySource,
    pub status: SummaryStatus,
    /// `None` is reported as `null`.
    pub error_code: Option<OrganizationErrorCode>,
}

impl OrganizationSummary {
    /// The message shown with the summary: present whenever an error code is.
    pub fn message(&self) -> (res: Option<&'static str>)
        ensures
            match self.error_code {
                Some(code) => res matches Some(m) && (m@ == match code {
                    OrganizationErrorCode::AccessRestricted =>
                        "GitHub returned no authenticated memberships for this OAuth app. Public memberships are shown; authorize the OAuth app for your organizations to include private memberships."@,
                    OrganizationErrorCode::SsoRequired =>
                        "GitHub organization access requires SSO authorization for this token."@,
                    OrganizationErrorCode::MissingReadOrg =>
                        "GitHub organization memberships require the read:org scope. Reconnect GitHub to grant it."@,
                    OrganizationErrorCode::Unavailable =>
                        "GitHub organization memberships are temporarily unavailable."@,
                }),
                None => res is None,
            },
    {
        match &self.error_code {
            Some(code) => Some(code.message()),
            None => None,
        }
    }
}

// ---------------------------------------------------------------------------
// Specifications
// ---------------------------------------------------------------------------

/// The characters of an optional login; empty when absent.
pub open spec fn login_text(login: Option<String>) -> Seq<char> {
    match login {
        Some(l) => l@,
        None => Seq::empty(),
    }
}

/// The lower-cased logins among `logins`, skipping missing ones.
pub open spec fn lowered_logins(logins: Seq<Option<String>>) -> Seq<Seq<char>>
    decreases logins.len(),
{
    if logins.len() == 0 {
        Seq::empty()
    } else {
        let rest = lowered_logins(logins.drop_last());
        match logins.last() {
            Some(l) => rest.push(ascii_lower(l@)),
            None => rest,
        }
    }
}

/// The characters of each string, in order.
pub open spec fn string_views(v: Seq<String>) -> Seq<Seq<char>> {
    Seq::new(v.len(), |i: int| v[i]@)
}

/// The `login` fields of the organizations, in order.
pub open spec fn organization_logins(public: Seq<OrganizationInfo>) -> Seq<Option<String>> {
    Seq::new(public.len(), |i: int| public[i].login)
}

/// Some public organization's login equals `login` up to ASCII case.
pub open spec fn is_public_login(public: Seq<OrganizationInfo>, login: Seq<char>) -> bool {
    lowered_logins(organization_logins(public)).contains(ascii_lower(login))
}

/// A membership whose state is `active`.
pub open spec fn is_active_state(state: Option<String>) -> bool {
    state matches Some(s) && s@ == "active"@
}

/// The memberships a summary lists: active ones with an organization.
pub open spec fn listed_memberships(ms: Seq<Membership>) -> Seq<Membership>
    decreases ms.len(),
{
    if ms.len() == 0 {
        Seq::empty()
    } else {
        let rest = listed_memberships(ms.drop_last());
        let m = ms.last();
        if is_active_state(m.state) && m.organization is Some {
            rest.push(m)
        } else {
            rest
        }
    }
}

/// The node a listed membership becomes.
pub open spec fn membership_node(n: OrganizationNode, m: Membership, public: Seq<OrganizationInfo>) -> bool {
    let org = m.organization->0;
    &&& n.id == org.id
    &&& n.login@ == login_text(org.login)
    &&& n.avatar_url == org.avatar_url
    &&& n.url == org.html_url
    &&& n.role == OrganizationRole::Reported(m.role)
    &&& n.state@ == m.state->0@
    &&& n.visibility == if is_public_login(public, login_text(org.login)) {
        Visibility::Public
    } else {
        Visibility::Private
    }
}

/// The public organizations a fallback summary lists: those with a login.
pub open spec fn named_organizations(public: Seq<OrganizationInfo>) -> Seq<OrganizationInfo>
    decreases public.len(),
{
    if public.len() == 0 {
        Seq::empty()
    } else {
        let rest = named_organizations(public.drop_last());
        if public.last().login is Some {
            rest.push(public.last())
        } else {
            rest
        }
    }
}

/// The node a public organization becomes in the fallback summary.
pub open spec fn public_node(n: OrganizationNode, org: OrganizationInfo) -> bool {
    &&& n.id == org.id
    &&& n.login@ == org.login->0@
    &&& n.avatar_url == org.avatar_url
    &&& n.url == org.html_url
    &&& n.role == OrganizationRole::Member
    &&& n.state@ == "active"@
    &&& n.visibility == Visibility::Public
}

/// The number of public nodes.
pub open spec fn public_node_count(nodes: Seq<OrganizationNode>) -> nat
    decreases nodes.len(),
{
    if nodes.len() == 0 {
        0
    } else {
        public_node_count(nodes.drop_last()) + if nodes.last().visibility == Visibility::Public {
            1nat
        } else {
            0nat
        }
    }
}

proof fn lemma_public_count_le(nodes: Seq<OrganizationNode>)
    ensures
        public_node_count(nodes) <= nodes.len(),
    decreases nodes.len(),
{
    if nodes.len() > 0 {
        lemma_public_count_le(nodes.drop_last());
    }
}

proof fn lemma_all_public_count(nodes: Seq<OrganizationNode>)
    requires
        forall|i: int| 0 <= i < nodes.len() ==> #[trigger] nodes[i].visibility == Visibility::Public,
    ensures
        public_node_count(nodes) == nodes.len(),
    decreases nodes.len(),
{
    if nodes.len() > 0 {
        assert forall|i: int| 0 <= i < nodes.drop_last().len() implies #[trigger] nodes.drop_last()[i].visibility
            == Visibility::Public by {
            assert(nodes.drop_last()[i] == nodes[i]);
        }
        lemma_all_public_count(nodes.drop_last());
    }
}

/// The error code an unavailable membership listing is reported with.
pub open spec fn unavailable_code(error: Seq<char>) -> OrganizationErrorCode {
    if occurs_in(error, "organization_sso_required"@) {
        OrganizationErrorCode::SsoRequired
    } else if occurs_in(error, "organization_membership_scope_missing"@) {
        OrganizationErrorCode::MissingReadOrg
    } else {
        OrganizationErrorCode::Unavailable
    }
}

// ---------------------------------------------------------------------------
// Summaries
// ---------------------------------------------------------------------------

/// The summary shown when the authenticated membership listing failed with
/// `error`: no organizations, and an error code naming the cause.
pub fn organization_unavailable_summary(error: &str) -> (res: OrganizationSummary)
    ensures
        res.total_count == 0,
        res.public_count == 0,
        res.private_count == 0,
        res.nodes@.len() == 0,
        res.source == SummarySource::AuthenticatedActiveMemberships,
        res.status == SummaryStatus::Unavailable,
        res.error_code == Some(unavailable_code(error@)),
{
    let error_code = if contains_str(error, "organization_sso_required") {
        OrganizationErrorCode::SsoRequired
    } else if contains_str(error, "organization_membership_scope_missing") {
        OrganizationErrorCode::MissingReadOrg
    } else {
        OrganizationErrorCode::Unavailable
    };
    OrganizationSummary {
        total_count: 0,
        public_count: 0,
        private_count: 0,
        nodes: Vec::new(),
        source: SummarySource::AuthenticatedActiveMemberships,
        status: SummaryStatus::Unavailable,
        error_code: Some(error_code),
    }
}

/// The summary shown when GitHub returned no authenticated memberships but
/// the public profile discloses some: every named public organization, as a
/// public membership, marked partial.
pub fn organization_restricted_summary(public: Vec<OrganizationInfo>) -> (res: OrganizationSummary)
    ensures
        res.nodes@.len() == named_organizations(public@).len(),
        forall|i: int|
            0 <= i < res.nodes@.len() ==> public_node(#[trigger] res.nodes@[i], named_organizations(public@)[i]),
        res.total_count == res.nodes@.len(),
        res.public_count == res.nodes@.len(),
        res.private_count == 0,
        res.source == SummarySource::PublicProfileFallback,
        res.status == SummaryStatus::Partial,
        res.error_code == Some(OrganizationErrorCode::AccessRestricted),
{
    let ghost orig = public@;
    let mut remaining = public;
    let n = remaining.len();
    let mut nodes: Vec<OrganizationNode> = Vec::new();
    let mut i: usize = 0;
    while i < n
        invariant
            n == orig.len(),
            i <= n,
            remaining@ == orig.subrange(i as int, n as int),
            nodes@.len() == named_organizations(orig.subrange(0, i as int)).len(),
            forall|k: int|
                0 <= k < nodes@.len() ==> public_node(#[trigger] nodes@[k], named_organizations(orig.subrange(0, i as int))[k]),
        decreases n - i,
    {
        let org = remaining.remove(0);
        let ghost g = org;
        assert(g == orig[i as int]);
        assert(orig.subrange(0, i + 1).drop_last() =~= orig.subrange(0, i as int));
        assert(orig.subrange(0, i + 1).last() == g);
        assert(remaining@ =~= orig.subrange(i + 1, n as int));
        match org.login {
            Some(login) => {
                let node = OrganizationNode {
                    id: org.id,
                    login,
                    avatar_url: org.avatar_url,
                    url: org.html_url,
                    role: OrganizationRole::Member,
                    state: "active".to_string(),
                    visibility: Visibility::Public,
                };
                proof {
                    vstd::string::to_string_from_display_ensures_for_str("active", node.state);
                }
                nodes.push(node);
            },
            None => {},
        }
        i = i + 1;
    }
    assert(orig.subrange(0, n as int) =~= orig);
    let count = nodes.len();
    OrganizationSummary {
        total_count: count,
        public_count: count,
        private_count: 0,
        nodes,
        source: SummarySource::PublicProfileFallback,
        status: SummaryStatus::Partial,
        error_code: Some(OrganizationErrorCode::AccessRestricted),
    }
}

/// The lower-cased logins among `logins`, skipping missing ones.
pub fn lowercase_logins(logins: &Vec<Option<String>>) -> (res: Vec<String>)
    ensures
        string_views(res@) == lowered_logins(logins@),
{
    let n = logins.len();
    let mut out: Vec<String> = Vec::new();
    let mut i: usize = 0;
    while i < n
        invariant
            n == logins@.len(),
            i <= n,
            string_views(out@) == lowered_logins(logins@.subrange(0, i as int)),
        decreases n - i,
    {
        assert(logins@.subrange(0, i + 1).drop_last() =~= logins@.subrange(0, i as int));
        let ghost before = out@;
        match &logins[i] {
            Some(login) => {
                let lower = to_ascii_lowercase(login.as_str());
                out.push(lower);
                assert(string_views(out@) =~= string_views(before).push(ascii_lower(login@)));
            },
            None => {},
        }
        i = i + 1;
    }
    assert(logins@.subrange(0, n as int) =~= logins@);
    out
}

fn contains_login(set: &Vec<String>, login: &str) -> (res: bool)
    ensures
        res == string_views(set@).contains(login@),
{
    let n = set.len();
    let mut i: usize = 0;
    while i < n
        invariant
            n == set@.len(),
            i <= n,
            forall|k: int| 0 <= k < i ==> #[trigger] set@[k]@ != login@,
        decreases n - i,
    {
        if str_equal(set[i].as_str(), login) {
            assert(string_views(set@)[i as int] == login@);
            return true;
        }
        i = i + 1;
    }
    assert(!string_views(set@).contains(login@)) by {
        if string_views(set@).contains(login@) {
            let k = choose|k: int| 0 <= k < string_views(set@).len() && string_views(set@)[k] == login@;
            assert(set@[k]@ != login@);
        }
    }
    false
}

/// The summary of the viewer's authenticated memberships: every active
/// membership with an organization, marked public when the public profile
/// lists the same organization (compared up to ASCII case), private otherwise.
pub fn organization_summary(memberships: Vec<Membership>, public: &Vec<OrganizationInfo>) -> (res:
    OrganizationSummary)
    ensures
        res.nodes@.len() == listed_memberships(memberships@).len(),
        forall|i: int|
            0 <= i < res.nodes@.len() ==> membership_node(
                #[trigger] res.nodes@[i],
                listed_memberships(memberships@)[i],
                public@,
            ),
        res.total_count == res.nodes@.len(),
        res.public_count == public_node_count(res.nodes@),
        res.private_count == res.nodes@.len() - public_node_count(res.nodes@),
        res.total_count == res.public_count + res.private_count,
        res.source == SummarySource::AuthenticatedActiveMemberships,
        res.status == SummaryStatus::Ready,
        res.error_code is None,
{
    let n_public = public.len();
    let ghost keys = organization_logins(public@);
    let mut public_logins: Vec<String> = Vec::new();
    let mut p: usize = 0;
    while p < n_public
        invariant
            n_public == public@.len(),
            keys == organization_logins(public@),
            p <= n_public,
            string_views(public_logins@) == lowered_logins(keys.subrange(0, p as int)),
        decreases n_public - p,
    {
        assert(keys.subrange(0, p + 1).drop_last() =~= keys.subrange(0, p as int));
        assert(keys.subrange(0, p + 1).last() == public@[p as int].login);
        let ghost before = public_logins@;
        match &public[p].login {
            Some(login) => {
                public_logins.push(to_ascii_lowercase(login.as_str()));
                assert(string_views(public_logins@) =~= string_views(before).push(ascii_lower(login@)));
            },
            None => {},
        }
        p = p + 1;
    }
    assert(keys.subrange(0, n_public as int) =~= keys);
    let ghost orig = memberships@;
    let mut remaining = memberships;
    let n = remaining.len();
    let mut nodes: Vec<OrganizationNode> = Vec::new();
    let mut i: usize = 0;
    while i < n
        invariant
            n == orig.len(),
            i <= n,
            n_public == public@.len(),
            remaining@ == orig.subrange(i as int, n as int),
            nodes@.len() == listed_memberships(orig.subrange(0, i as int)).len(),
            forall|k: int|
                0 <= k < nodes@.len() ==> membership_node(
                    #[trigger] nodes@[k],
                    listed_memberships(orig.subrange(0, i as int))[k],
                    public@,
                ),
            string_views(public_logins@) == lowered_logins(organization_logins(public@)),
        decreases n - i,
    {
        let m = remaining.remove(0);
        let ghost g = m;
        assert(g == orig[i as int]);
        assert(orig.subrange(0, i + 1).drop_last() =~= orig.subrange(0, i as int));
        assert(orig.subrange(0, i + 1).last() == g);
        assert(remaining@ =~= orig.subrange(i + 1, n as int));
        let active = match &m.state {
            Some(s) => str_equal(s.as_str(), "active"),
            None => false,
        };
        if active {
            match m.organization {
                Some(org) => {
                    let state = match m.state {
                        Some(s) => s,
                        None => String::new(),
                    };
                    let login = match org.login {
                        Some(l) => l,
                        None => String::new(),
                    };
                    let lower = to_ascii_lowercase(login.as_str());
                    let is_public = contains_login(&public_logins, lower.as_str());
                    assert(lower@ == ascii_lower(login_text(g.organization->0.login)));
                    let node = OrganizationNode {
                        id: org.id,
                        login,
                        avatar_url: org.avatar_url,
                        url: org.html_url,
                        role: OrganizationRole::Reported(m.role),
                        state,
                        visibility: if is_public {
                            Visibility::Public
                        } else {
                            Visibility::Private
                        },
                    };
                    nodes.push(node);
                },
                None => {},
            }
        }
        i = i + 1;
    }
    assert(orig.subrange(0, n as int) =~= orig);
    let total = nodes.len();
    let mut public_count: usize = 0;
    let mut j: usize = 0;
    while j < total
        invariant
            total == nodes@.len(),
            j <= total,
            public_count == public_node_count(nodes@.subrange(0, j as int)),
            public_count <= j,
        decreases total - j,
    {
        assert(nodes@.subrange(0, j + 1).drop_last() =~= nodes@.subrange(0, j as int));
        match nodes[j].visibility {
            Visibility::Public => {
                public_count = public_count + 1;
            },
            Visibility::Private => {},
        }
        j = j + 1;
    }
    assert(nodes@.subrange(0, total as int) =~= nodes@);
    let private_count = total - public_count;
    OrganizationSummary {
        total_count: total,
        public_count,
        private_count,
        nodes,
        source: SummarySource::AuthenticatedActiveMemberships,
        status: SummaryStatus::Ready,
        error_code: None,
    }
}

/// The organizations field of the viewer's profile. When the authenticated
/// membership listing failed, the summary says why; when it succeeded empty
/// while the public profile discloses organizations, those are shown as a
/// partial fallback; otherwise the memberships are summarized.
pub fn profile_organizations(
    memberships: Result<Vec<Membership>, String>,
    public: Vec<OrganizationInfo>,
) -> (res: OrganizationSummary)
    ensures
        match memberships {
            Err(error) => {
                &&& res.status == SummaryStatus::Unavailable
                &&& res.source == SummarySource::AuthenticatedActiveMemberships
                &&& res.error_code == Some(unavailable_code(error@))
                &&& res.total_count == 0
                &&& res.public_count == 0
                &&& res.private_count == 0
                &&& res.nodes@.len() == 0
            },
            Ok(ms) => if ms@.len() == 0 && public@.len() > 0 {
                &&& res.status == SummaryStatus::Partial
                &&& res.source == SummarySource::PublicProfileFallback
                &&& res.error_code == Some(OrganizationErrorCode::AccessRestricted)
                &&& res.public_count == res.total_count
                &&& res.private_count == 0
                &&& res.nodes@.len() == named_organizations(public@).len()
                &&& forall|i: int|
                    0 <= i < res.nodes@.len() ==> public_node(
                        #[trigger] res.nodes@[i],
                        named_organizations(public@)[i],
                    )
            } else {
                &&& res.status == SummaryStatus::Ready
                &&& res.source == SummarySource::AuthenticatedActiveMemberships
                &&& res.error_code is None
                &&& res.public_count == public_node_count(res.nodes@)
                &&& res.nodes@.len() == listed_memberships(ms@).len()
                &&& forall|i: int|
                    0 <= i < res.nodes@.len() ==> membership_node(
                        #[trigger] res.nodes@[i],
                        listed_memberships(ms@)[i],
                        public@,
                    )
            },
        },
        res.total_count == res.public_count + res.private_count,
        res.total_count == res.nodes@.len(),
{
    match memberships {
        Ok(ms) => {
            if ms.len() == 0 && public.len() > 0 {
                organization_restricted_summary(public)
            } else {
                organization_summary(ms, &public)
            }
        },
        Err(error) => organization_unavailable_summary(error.as_str()),
    }
}

/// Keeps the memberships whose state is `active`, in order.
pub fn retain_active_memberships(page: Vec<Membership>) -> (res: Vec<Membership>)
    ensures
        res@ == page@.filter(|m: Membership| is_active_state(m.state)),
{
    let ghost orig = page@;
    let ghost pred = |m: Membership| is_active_state(m.state);
    let mut remaining = page;
    let n = remaining.len();
    let mut out: Vec<Membership> = Vec::new();
    let mut i: usize = 0;
    while i < n
        invariant
            n == orig.len(),
            i <= n,
            pred == (|m: Membership| is_active_state(m.state)),
            remaining@ == orig.subrange(i as int, n as int),
            out@ == orig.subrange(0, i as int).filter(pred),
        decreases n - i,
    {
        let m = remaining.remove(0);
        let ghost g = m;
        assert(g == orig[i as int]);
        assert(orig.subrange(0, i + 1).drop_last() =~= orig.subrange(0, i as int));
        assert(remaining@ =~= orig.subrange(i + 1, n as int));
        reveal_with_fuel(Seq::filter, 1);
        let active = match &m.state {
            Some(s) => str_equal(s.as_str(), "active"),
            None => false,
        };
        if active {
            out.push(m);
        }
        i = i + 1;
    }
    assert(orig.subrange(0, n as int) =~= orig);
    out
}

/// Why the authenticated membership listing failed.
#[derive(Clone, Copy, Debug, PartialEq, Eq, Structural)]
pub enum MembershipFetchError {
    /// 403 with an `x-github-sso` header.
    SsoRequired,
    /// 403 without it: the token lacks the `read:org` scope.
    ScopeMissing,
    /// Any other unsuccessful status.
    Status(u16),
}

impl MembershipFetchError {
    /// The marker text the error is reported with, for the two 403 causes.
    pub fn marker(&self) -> (res: Option<&'static str>)
        ensures
            match *self {
                MembershipFetchError::SsoRequired => res matches Some(m) && m@
                    == "organization_sso_required"@,
                MembershipFetchError::ScopeMissing => res matches Some(m) && m@
                    == "organization_membership_scope_missing"@,
                MembershipFetchError::Status(_) => res is None,
            },
    {
        match self {
            MembershipFetchError::SsoRequired => Some("organization_sso_required"),
            MembershipFetchError::ScopeMissing => Some("organization_membership_scope_missing"),
            MembershipFetchError::Status(_) => None,
        }
    }
}

/// Checks one page of the authenticated membership listing: a 403 names its
/// cause, any other status outside 200..=299 fails, success goes on.
pub fn check_membership_page(status: u16, sso_header: bool) -> (res: Result<(), MembershipFetchError>)
    ensures
        status == 403 ==> res == Err::<(), MembershipFetchError>(
            if sso_header {
                MembershipFetchError::SsoRequired
            } else {
                MembershipFetchError::ScopeMissing
            },
        ),
        status != 403 && !(200 <= status <= 299) ==> res == Err::<(), MembershipFetchError>(
            MembershipFetchError::Status(status),
        ),
        200 <= status <= 299 ==> res is Ok,
{
    if status == 403 {
        if sso_header {
            Err(MembershipFetchError::SsoRequired)
        } else {
            Err(MembershipFetchError::ScopeMissing)
        }
    } else if !(200 <= status && status <= 299) {
        Err(MembershipFetchError::Status(status))
    } else {
        Ok(())
    }
}

/// Number of items GitHub returns on a full page of a REST listing.
pub const PAGE_SIZE: usize = 100;

/// Number of pages the organization listings read at most.
pub const MAX_ORGANIZATION_PAGES: u32 = 10;

/// A page with fewer than `PAGE_SIZE` items is the last one.
pub fn is_last_page(item_count: usize) -> (res: bool)
    ensures
        res == (item_count < PAGE_SIZE),
{
    item_count < PAGE_SIZE
}

/// The cursor of the next page of the viewer's repositories: the end cursor
/// when GitHub reports a next page and gives one; `None` stops the listing.
pub fn next_repository_cursor(has_next_page: Option<bool>, end_cursor: Option<String>) -> (res:
    Option<String>)
    ensures
        has_next_page == Some(true) ==> res == end_cursor,
        has_next_page != Some(true) ==> res is None,
{
    match has_next_page {
        Some(true) => end_cursor,
        _ => None,
    }
}

/// How the viewer relates to a repository's owner.
#[derive(Clone, Copy, Debug, PartialEq, Eq, Structural)]
pub enum Ownership {
    Personal,
    Organization,
    Collaborator,
}

impl Ownership {
    /// The name under which the value is reported.
    pub fn as_str(&self) -> (res: &'static str)
        ensures
            res@ == match *self {
                Ownership::Personal => "personal"@,
                Ownership::Organization => "organization"@,
                Ownership::Collaborator => "collaborator"@,
            },
    {
        match self {
            Ownership::Personal => "personal",
            Ownership::Organization => "organization",
            Ownership::Collaborator => "collaborator",
        }
    }
}

/// What the viewer may do in a repository.
#[derive(Clone, Copy, Debug, PartialEq, Eq, Structural)]
pub enum AccessKind {
    Maintained,
    Triage,
    ReadOnly,
}

impl AccessKind {
    /// The name under which the value is reported.
    pub fn as_str(&self) -> (res: &'static str)
        ensures
            res@ == match *self {
                AccessKind::Maintained => "maintained"@,
                AccessKind::Triage => "triage"@,
                AccessKind::ReadOnly => "read_only"@,
            },
    {
        match self {
            AccessKind::Maintained => "maintained",
            AccessKind::Triage => "triage",
            AccessKind::ReadOnly => "read_only",
        }
    }
}

/// The classification added to each of the viewer's repositories.
pub struct RepositoryAccess {
    pub owner_login: String,
    pub owner_type: String,
    pub ownership: Ownership,
    pub access_kind: AccessKind,
    pub maintained_by_viewer: bool,
}

/// The characters of an optional text, or `default` when absent.
pub open spec fn text_or(s: Option<&str>, default: Seq<char>) -> Seq<char> {
    match s {
        Some(t) => t@,
        None => default,
    }
}

/// Personal when the owner is the viewer (ignoring ASCII case); organization
/// when the owner is an organization or one of the viewer's; collaborator
/// otherwise.
pub open spec fn ownership_spec(
    owner_login: Seq<char>,
    owner_type: Seq<char>,
    viewer_login: Seq<char>,
    organizations: Seq<Seq<char>>,
) -> Ownership {
    if ascii_lower(owner_login) == ascii_lower(viewer_login) {
        Ownership::Personal
    } else if owner_type == "Organization"@ || organizations.contains(ascii_lower(owner_login)) {
        Ownership::Organization
    } else {
        Ownership::Collaborator
    }
}

/// A permission that lets the viewer maintain the repository.
pub open spec fn maintains(permission: Seq<char>) -> bool {
    permission == "ADMIN"@ || permission == "MAINTAIN"@ || permission == "WRITE"@
}

/// The access kind a permission grants.
pub open spec fn access_kind_spec(permission: Seq<char>) -> AccessKind {
    if maintains(permission) {
        AccessKind::Maintained
    } else if permission == "TRIAGE"@ {
        AccessKind::Triage
    } else {
        AccessKind::ReadOnly
    }
}

/// Classifies a repository for the viewer. Ownership: personal when the owner
/// is the viewer (up to ASCII case), organization when the owner is an
/// organization or one of the viewer's organizations (`organizations` holds
/// lower-cased logins), collaborator otherwise. Access: maintained for ADMIN,
/// MAINTAIN and WRITE, triage for TRIAGE, read-only otherwise (a missing
/// permission counts as UNKNOWN).
pub fn classify_repository(
    owner_login: Option<&str>,
    owner_type: Option<&str>,
    permission: Option<&str>,
    viewer_login: &str,
    organizations: &Vec<String>,
) -> (res: RepositoryAccess)
    ensures
        res.owner_login@ == text_or(owner_login, Seq::empty()),
        res.owner_type@ == text_or(owner_type, Seq::empty()),
        res.ownership == ownership_spec(
            text_or(owner_login, Seq::empty()),
            text_or(owner_type, Seq::empty()),
            viewer_login@,
            string_views(organizations@),
        ),
        res.access_kind == access_kind_spec(text_or(permission, "UNKNOWN"@)),
        res.maintained_by_viewer == maintains(text_or(permission, "UNKNOWN"@)),
{
    let login: &str = match owner_login {
        Some(l) => l,
        None => "",
    };
    let kind: &str = match owner_type {
        Some(t) => t,
        None => "",
    };
    let perm: &str = match permission {
        Some(p) => p,
        None => "UNKNOWN",
    };
    proof {
        reveal_strlit("");
        assert(""@ =~= Seq::<char>::empty());
        assert(login@ == text_or(owner_login, Seq::empty()));
        assert(kind@ == text_or(owner_type, Seq::empty()));
    }
    let ownership = if eq_ignore_ascii_case(login, viewer_login) {
        Ownership::Personal
    } else if str_equal(kind, "Organization") || contains_login(
        organizations,
        to_ascii_lowercase(login).as_str(),
    ) {
        Ownership::Organization
    } else {
        Ownership::Collaborator
    };
    let maintained = str_equal(perm, "ADMIN") || str_equal(perm, "MAINTAIN") || str_equal(
        perm,
        "WRITE",
    );
    let access_kind = if maintained {
        AccessKind::Maintained
    } else if str_equal(perm, "TRIAGE") {
        AccessKind::Triage
    } else {
        AccessKind::ReadOnly
    };
    RepositoryAccess {
        owner_login: login.to_string(),
        owner_type: kind.to_string(),
        ownership,
        access_kind,
        maintained_by_viewer: maintained,
    }
}

/// The GraphQL query that lists the viewer's repositories: those the viewer
/// owns, collaborates on, or reaches as an organization member, a page of
/// 100 at a time after a cursor.
pub const VIEWER_REPOSITORIES_QUERY: &'static str = r#"
    query($cursor: String) {
        viewer {
            login
            organizations(first: 100) { nodes { login } }
            repositories(first: 100, after: $cursor, ownerAffiliations: [OWNER, COLLABORATOR, ORGANIZATION_MEMBER], orderBy: {field: UPDATED_AT, direction: DESC}) {
                pageInfo { hasNextPage endCursor }
                nodes {
                    id nameWithOwner description updatedAt url isPrivate isFork isArchived isEmpty isTemplate viewerPermission
                    defaultBranchRef { name }
                    owner { __typename login }
                }
            }
        }
    }
"#;

/// Number of repository pages the listing reads at most.
pub const MAX_REPOSITORY_PAGES: u32 = 100;

/// Repository ownership follows the owner. A repository is personal exactly
/// when its owner is the viewer, up to ASCII case. Any other repository whose
/// owner's type is `Organization` belongs to an organization, whatever the
/// viewer's organization list holds; so does one whose owner appears in that
/// list (lower-cased). Every other repository is a collaborator's.
pub proof fn repository_ownership_follows_the_owner(
    owner_login: Seq<char>,
    owner_type: Seq<char>,
    viewer_login: Seq<char>,
    organizations: Seq<Seq<char>>,
    other_organizations: Seq<Seq<char>>,
)
    ensures
        (ownership_spec(owner_login, owner_type, viewer_login, organizations) == Ownership::Personal)
            <==> ascii_lower(owner_login) == ascii_lower(viewer_login),
        ascii_lower(owner_login) != ascii_lower(viewer_login) && owner_type == "Organization"@
            ==> ownership_spec(owner_login, owner_type, viewer_login, organizations)
            == Ownership::Organization && ownership_spec(
            owner_login,
            owner_type,
            viewer_login,
            other_organizations,
        ) == Ownership::Organization,
        forall|k: int|
            0 <= k < organizations.len() && ascii_lower(owner_login) != ascii_lower(viewer_login)
                && #[trigger] organizations[k] == ascii_lower(owner_login) ==> ownership_spec(
                owner_login,
                owner_type,
                viewer_login,
                organizations,
            ) == Ownership::Organization,
        ascii_lower(owner_login) != ascii_lower(viewer_login) && owner_type != "Organization"@
            && (forall|k: int| 0 <= k < organizations.len() ==> #[trigger] organizations[k]
            != ascii_lower(owner_login)) ==> ownership_spec(
            owner_login,
            owner_type,
            viewer_login,
            organizations,
        ) == Ownership::Collaborator,
{
    assert forall|k: int|
        0 <= k < organizations.len() && ascii_lower(owner_login) != ascii_lower(viewer_login)
            && #[trigger] organizations[k] == ascii_lower(owner_login) implies ownership_spec(
            owner_login,
            owner_type,
            viewer_login,
            organizations,
        ) == Ownership::Organization by {
        assert(organizations.contains(ascii_lower(owner_login)));
    }
}

/// Access follows the viewer's permission: ADMIN, MAINTAIN and WRITE maintain
/// the repository, TRIAGE triages it, and anything else reads it only.
pub proof fn repository_access_follows_the_permission(permission: Seq<char>)
    ensures
        (access_kind_spec(permission) == AccessKind::Maintained) <==> (permission == "ADMIN"@
            || permission == "MAINTAIN"@ || permission == "WRITE"@),
        maintains(permission) <==> (access_kind_spec(permission) == AccessKind::Maintained),
        permission == "TRIAGE"@ ==> access_kind_spec(permission) == AccessKind::Triage,
        permission != "ADMIN"@ && permission != "MAINTAIN"@ && permission != "WRITE"@ && permission
            != "TRIAGE"@ ==> access_kind_spec(permission) == AccessKind::ReadOnly,
{
    reveal_strlit("ADMIN");
    reveal_strlit("MAINTAIN");
    reveal_strlit("WRITE");
    reveal_strlit("TRIAGE");
    assert("TRIAGE"@.len() == 6 && "ADMIN"@.len() == 5 && "MAINTAIN"@.len() == 8 && "WRITE"@.len()
        == 5);
}

proof fn lemma_lowered_logins_contains(logins: Seq<Option<String>>, x: Seq<char>)
    ensures
        lowered_logins(logins).contains(x) <==> exists|j: int|
            0 <= j < logins.len() && (#[trigger] logins[j]) is Some && ascii_lower(logins[j]->0@)
                == x,
    decreases logins.len(),
{
    if logins.len() > 0 {
        let front = logins.drop_last();
        let lf = lowered_logins(front);
        let lw = lowered_logins(logins);
        let last = logins.len() - 1;
        lemma_lowered_logins_contains(front, x);
        assert(logins[last] == logins.last());
        assert forall|j: int| 0 <= j < front.len() implies #[trigger] front[j] == logins[j] by {}
        if exists|j: int|
            0 <= j < logins.len() && (#[trigger] logins[j]) is Some && ascii_lower(logins[j]->0@)
                == x {
            let j = choose|j: int|
                0 <= j < logins.len() && (#[trigger] logins[j]) is Some && ascii_lower(
                    logins[j]->0@,
                ) == x;
            if j < last {
                assert(front[j] == logins[j]);
                assert(lf.contains(x));
                let k = choose|k: int| 0 <= k < lf.len() && lf[k] == x;
                match logins.last() {
                    Some(l) => {
                        assert(lw == lf.push(ascii_lower(l@)));
                        assert(lw[k] == x);
                    },
                    None => {
                        assert(lw == lf);
                    },
                }
                assert(lw.contains(x));
            } else {
                let l = logins.last()->0;
                assert(lw == lf.push(ascii_lower(l@)));
                assert(lw[lf.len() as int] == x);
                assert(lw.contains(x));
            }
        }
        if lw.contains(x) {
            let k = choose|k: int| 0 <= k < lw.len() && lw[k] == x;
            match logins.last() {
                Some(l) => {
                    assert(lw == lf.push(ascii_lower(l@)));
                    if k == lf.len() {
                        assert(logins[last] is Some && ascii_lower(logins[last]->0@) == x);
                    } else {
                        assert(lf[k] == x);
                        assert(lf.contains(x));
                        let j = choose|j: int|
                            0 <= j < front.len() && (#[trigger] front[j]) is Some && ascii_lower(
                                front[j]->0@,
                            ) == x;
                        assert(logins[j] == front[j]);
                    }
                },
                None => {
                    assert(lw == lf);
                    let j = choose|j: int|
                        0 <= j < front.len() && (#[trigger] front[j]) is Some && ascii_lower(
                            front[j]->0@,
                        ) == x;
                    assert(logins[j] == front[j]);
                },
            }
        }
    }
}

/// A listed membership is public exactly when some organization of the
/// public list, at any position, has the same login up to ASCII case;
/// otherwise it is private.
pub proof fn public_visibility_consults_every_public_organization(
    n: OrganizationNode,
    m: Membership,
    public: Seq<OrganizationInfo>,
)
    requires
        membership_node(n, m, public),
    ensures
        (n.visibility == Visibility::Public) <==> exists|j: int|
            0 <= j < public.len() && (#[trigger] public[j]).login is Some && ascii_lower(
                public[j].login->0@,
            ) == ascii_lower(n.login@),
        (n.visibility == Visibility::Private) <==> !(n.visibility == Visibility::Public),
{
    let logins = organization_logins(public);
    lemma_lowered_logins_contains(logins, ascii_lower(n.login@));
    assert forall|j: int| 0 <= j < public.len() implies #[trigger] logins[j] == public[j].login by {}
    if exists|j: int|
        0 <= j < public.len() && (#[trigger] public[j]).login is Some && ascii_lower(
            public[j].login->0@,
        ) == ascii_lower(n.login@) {
        let j = choose|j: int|
            0 <= j < public.len() && (#[trigger] public[j]).login is Some && ascii_lower(
                public[j].login->0@,
            ) == ascii_lower(n.login@);
        assert(logins[j] == public[j].login);
    }
    if lowered_logins(logins).contains(ascii_lower(n.login@)) {
        let j = choose|j: int|
            0 <= j < logins.len() && (#[trigger] logins[j]) is Some && ascii_lower(logins[j]->0@)
                == ascii_lower(n.login@);
        assert(public[j].login == logins[j]);
    }
}

} // verus!
