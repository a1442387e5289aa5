//! The bounded pool of resident browser child webviews: which tabs are
//! resident, which one is active and visible, and which tab is evicted when
//! the pool grows past its limit.

use crate::retry::{clock_since_epoch, duration_millis, duration_whole_millis, elapsed_since_epoch};
use std::time::{Duration, SystemTime};
use url::Url;
use vstd::string::StringExecFns;
use crate::text::str_equal;
use vstd::prelude::*;

verus! {

/// Milliseconds since the Unix epoch for what the clock gave, truncated to
/// `i64` as `as` does; `None` when it gave a time before the epoch.
pub open spec fn millis_since_epoch(elapsed: Option<Duration>) -> Option<i64> {
    match elapsed {
        Some(d) => Some(duration_millis(d) as i64),
        None => None,
    }
}

/// Milliseconds since the Unix epoch on the system clock, truncated to `i64`;
/// `None` when the clock reads a time before the epoch.
pub fn current_time_ms() -> (res: Option<i64>)
    ensures
        exists|t: SystemTime| res == millis_since_epoch(#[trigger] elapsed_since_epoch(t)),
{
    let elapsed = clock_since_epoch();
    let ghost t = choose|t: SystemTime| #[trigger] elapsed_since_epoch(t) == elapsed;
    let res = match elapsed {
        Some(d) => {
            let ms = duration_whole_millis(&d);
            Some(ms as i64)
        },
        None => None,
    };
    assert(res == millis_since_epoch(elapsed_since_epoch(t)));
    res
}

/// What `url::Url::parse` gives for a URL text: the parsed URL in its
/// serialized form (`Url::to_string`), or the message of the parse error
/// (`ParseError::to_string`) when the text does not parse.
pub uninterp spec fn url_parse_outcome(input: Seq<char>) -> Result<Seq<char>, Seq<char>>;

/// `url::Url::parse`, the URL handed back in its serialized form
/// (`Url::to_string`) and a parse error as its message.
#[verifier::external_body]
fn parse_url(input: &str) -> (res: Result<String, String>)
    ensures
        match res {
            Ok(u) => url_parse_outcome(input@) == Ok::<Seq<char>, Seq<char>>(u@),
            Err(m) => url_parse_outcome(input@) == Err::<Seq<char>, Seq<char>>(m@),
        },
{
    match Url::parse(input) {
        Ok(url) => Ok(url.to_string()),
        Err(error) => Err(error.to_string()),
    }
}

/// The URL a tab is asked to show, as the URL parser serializes it; a text
/// that does not parse is refused with `Invalid URL: ` followed by the
/// parser's message.
pub fn normalize_tab_url(input: &str) -> (res: Result<String, String>)
    ensures
        match url_parse_outcome(input@) {
            Ok(u) => res matches Ok(t) && t@ == u,
            Err(m) => res matches Err(e) && e@ == "Invalid URL: "@ + m,
        },
{
    match parse_url(input) {
        Ok(u) => Ok(u),
        Err(message) => {
            let mut e = String::from_str("Invalid URL: ");
            e.append(message.as_str());
            Err(e)
        },
    }
}

/// What the navigation policy decided for a URL.
#[derive(Clone, Copy, Debug, PartialEq, Eq, Structural)]
pub enum NavigationDecision {
    /// The URL may load inside the app.
    Allow,
    /// The URL opens in the system browser.
    OpenExternal,
    /// The URL is refused.
    Block,
}

/// An in-app navigation goes ahead only for URLs the policy allows.
pub fn navigation_proceeds(decision: NavigationDecision) -> (res: bool)
    ensures
        res == (decision == NavigationDecision::Allow),
{
    match decision {
        NavigationDecision::Allow => true,
        _ => false,
    }
}

/// A resident tab's webview.
pub struct BrowserWebviewRecord {
    pub tab_id: String,
    pub webview_label: String,
    pub current_url: String,
    pub visible: bool,
    pub pinned: bool,
    pub created_at: i64,
    pub last_activated_at: i64,
}

/// The abstract value of a resident tab.
pub struct RecordView {
    pub tab_id: Seq<char>,
    pub webview_label: Seq<char>,
    pub current_url: Seq<char>,
    pub visible: bool,
    pub pinned: bool,
    pub created_at: i64,
    pub last_activated_at: i64,
}

impl View for BrowserWebviewRecord {
    type V = RecordView;

    open spec fn view(&self) -> RecordView {
        RecordView {
            tab_id: self.tab_id@,
            webview_label: self.webview_label@,
            current_url: self.current_url@,
            visible: self.visible,
            pinned: self.pinned,
            created_at: self.created_at,
            last_activated_at: self.last_activated_at,
        }
    }
}

impl BrowserWebviewRecord {
    /// A freshly created, hidden and unpinned tab record.
    pub fn new(tab_id: String, webview_label: String, current_url: String, now: i64) -> (res: Self)
        ensures
            res@ == (RecordView {
                tab_id: tab_id@,
                webview_label: webview_label@,
                current_url: current_url@,
                visible: false,
                pinned: false,
                created_at: now,
                last_activated_at: now,
            }),
    {
        BrowserWebviewRecord {
            tab_id,
            webview_label,
            current_url,
            visible: false,
            pinned: false,
            created_at: now,
            last_activated_at: now,
        }
    }
}

/// The state of a resident tab handed to the front end.
pub struct BrowserState {
    pub tab_id: String,
    pub current_url: String,
    pub can_go_back: Option<bool>,
    pub can_go_forward: Option<bool>,
    pub loading: bool,
}

impl BrowserState {
    /// The state reported for a resident tab: its URL, with history and
    /// loading status unknown to the pool.
    pub fn resident(tab_id: String, current_url: String) -> (res: Self)
        ensures
            res.tab_id@ == tab_id@,
            res.current_url@ == current_url@,
            res.can_go_back is None,
            res.can_go_forward is None,
            !res.loading,
    {
        BrowserState { tab_id, current_url, can_go_back: None, can_go_forward: None, loading: false }
    }
}

/// The resident webview pool.
pub struct BrowserWebviewManager {
    records: Vec<BrowserWebviewRecord>,
    max_resident: usize,
    active_tab_id: Option<String>,
    activation_generation: u64,
}

/// The abstract value of the pool.
pub struct ManagerView {
    pub records: Seq<RecordView>,
    pub max_resident: nat,
    pub active_tab_id: Option<Seq<char>>,
    pub activation_generation: u64,
}

/// The abstract values of a run of records.
pub open spec fn records_view(records: Seq<BrowserWebviewRecord>) -> Seq<RecordView> {
    Seq::new(records.len(), |i: int| records[i]@)
}

/// An optional string by its characters.
pub open spec fn option_string_view(s: Option<String>) -> Option<Seq<char>> {
    match s {
        Some(t) => Some(t@),
        None => None,
    }
}

impl View for BrowserWebviewManager {
    type V = ManagerView;

    closed spec fn view(&self) -> ManagerView {
        ManagerView {
            records: records_view(self.records@),
            max_resident: self.max_resident as nat,
            active_tab_id: option_string_view(self.active_tab_id),
            activation_generation: self.activation_generation,
        }
    }
}

/// No two resident records share a tab id.
pub open spec fn unique_tabs(records: Seq<RecordView>) -> bool {
    forall|i: int, j: int|
        0 <= i < records.len() && 0 <= j < records.len() && i != j ==> #[trigger] records[i].tab_id
            != #[trigger] records[j].tab_id
}

/// The position of a tab among the records.
pub open spec fn tab_position(records: Seq<RecordView>, tab_id: Seq<char>) -> Option<int> {
    if exists|i: int| 0 <= i < records.len() && #[trigger] records[i].tab_id == tab_id {
        Some(choose|i: int| 0 <= i < records.len() && #[trigger] records[i].tab_id == tab_id)
    } else {
        None
    }
}

/// A record the pool may evict: not the active tab, and activated at some
/// time before `i64::MAX`.
pub open spec fn is_eviction_candidate(r: RecordView, active: Option<Seq<char>>) -> bool {
    active != Some(r.tab_id) && r.last_activated_at < i64::MAX
}

/// An eviction candidate that is not pinned.
pub open spec fn is_unpinned_candidate(r: RecordView, active: Option<Seq<char>>) -> bool {
    is_eviction_candidate(r, active) && !r.pinned
}

/// `i` is the least recently activated record among those that `pred`
/// admits, the earliest one on ties.
pub open spec fn is_least_recent(records: Seq<RecordView>, i: int, pred: spec_fn(RecordView) -> bool) -> bool {
    &&& 0 <= i < records.len()
    &&& pred(records[i])
    &&& forall|j: int|
        0 <= j < records.len() && pred(#[trigger] records[j]) ==> (j < i
            ==> records[j].last_activated_at > records[i].last_activated_at) && (j > i
            ==> records[j].last_activated_at >= records[i].last_activated_at)
}

/// The record evicted when the pool is over its limit: the least recently
/// activated unpinned candidate, else the least recently activated
/// candidate, else none.
pub open spec fn eviction_choice(records: Seq<RecordView>, active: Option<Seq<char>>) -> Option<int> {
    let unpinned = |r: RecordView| is_unpinned_candidate(r, active);
    let any = |r: RecordView| is_eviction_candidate(r, active);
    if exists|i: int| is_least_recent(records, i, unpinned) {
        Some(choose|i: int| is_least_recent(records, i, unpinned))
    } else if exists|i: int| is_least_recent(records, i, any) {
        Some(choose|i: int| is_least_recent(records, i, any))
    } else {
        None
    }
}

/// The records after the pool makes room: when more records are resident than
/// `max_resident`, the eviction choice is removed (nothing when there is
/// none); otherwise the records are unchanged.
pub open spec fn after_eviction(records: Seq<RecordView>, active: Option<Seq<char>>, max_resident: nat) -> Seq<RecordView> {
    if records.len() > max_resident {
        match eviction_choice(records, active) {
            Some(i) => records.remove(i),
            None => records,
        }
    } else {
        records
    }
}

/// The records after registering `record`: it replaces the record of the same
/// tab, or is appended when the tab is not resident.
pub open spec fn after_registration(records: Seq<RecordView>, record: RecordView) -> Seq<RecordView> {
    match tab_position(records, record.tab_id) {
        Some(i) => records.update(i, record),
        None => records.push(record),
    }
}

/// The records after activating `tab_id` at time `now`: only that tab is
/// visible, and its activation time is `now`.
pub open spec fn activated(records: Seq<RecordView>, tab_id: Seq<char>, now: i64) -> Seq<RecordView> {
    Seq::new(
        records.len(),
        |i: int|
            RecordView {
                visible: records[i].tab_id == tab_id,
                last_activated_at: if records[i].tab_id == tab_id {
                    now
                } else {
                    records[i].last_activated_at
                },
                ..records[i]
            },
    )
}

/// The records with every webview hidden.
pub open spec fn all_hidden(records: Seq<RecordView>) -> Seq<RecordView> {
    Seq::new(records.len(), |i: int| RecordView { visible: false, ..records[i] })
}

/// The labels of the records other than `tab_id`, in order.
pub open spec fn labels_except_spec(records: Seq<RecordView>, tab_id: Seq<char>) -> Seq<Seq<char>>
    decreases records.len(),
{
    if records.len() == 0 {
        seq![]
    } else {
        let rest = labels_except_spec(records.drop_last(), tab_id);
        if records.last().tab_id == tab_id {
            rest
        } else {
            rest.push(records.last().webview_label)
        }
    }
}

/// The number of records marked visible.
pub open spec fn visible_count_spec(records: Seq<RecordView>) -> nat
    decreases records.len(),
{
    if records.len() == 0 {
        0
    } else {
        visible_count_spec(records.drop_last()) + if records.last().visible {
            1nat
        } else {
            0nat
        }
    }
}

proof fn lemma_least_recent_unique(records: Seq<RecordView>, i: int, k: int, pred: spec_fn(RecordView) -> bool)
    requires
        is_least_recent(records, i, pred),
        is_least_recent(records, k, pred),
    ensures
        i == k,
{
    if i < k {
        assert(pred(records[i]));
    } else if k < i {
        assert(pred(records[k]));
    }
}

proof fn lemma_tab_position(records: Seq<RecordView>, tab_id: Seq<char>, i: int)
    requires
        unique_tabs(records),
        0 <= i < records.len(),
        records[i].tab_id == tab_id,
    ensures
        tab_position(records, tab_id) == Some(i),
{
    let k = choose|k: int| 0 <= k < records.len() && #[trigger] records[k].tab_id == tab_id;
    if k != i {
        assert(records[k].tab_id != records[i].tab_id);
    }
}

impl BrowserWebviewManager {
    /// The pool's well-formedness: tab ids are unique.
    pub open spec fn wf(&self) -> bool {
        unique_tabs(self@.records)
    }

    proof fn lemma_view_records(&self)
        ensures
            self@.records.len() == self.records@.len(),
            forall|i: int| 0 <= i < self.records@.len() ==> #[trigger] self@.records[i] == self.records@[i]@,
    {
    }

    /// An empty pool holding at most `max_resident` webviews.
    pub fn new(max_resident: usize) -> (res: Self)
        ensures
            res.wf(),
            res@.records == Seq::<RecordView>::empty(),
            res@.max_resident == max_resident,
            res@.active_tab_id is None,
            res@.activation_generation == 0,
    {
        let res = BrowserWebviewManager {
            records: Vec::new(),
            max_resident,
            active_tab_id: None,
            activation_generation: 0,
        };
        assert(res@.records =~= Seq::<RecordView>::empty());
        res
    }

    /// The number of resident webviews.
    pub fn resident_count(&self) -> (res: usize)
        ensures
            res == self@.records.len(),
    {
        self.records.len()
    }

    /// The limit on resident webviews.
    pub fn max_resident(&self) -> (res: usize)
        ensures
            res == self@.max_resident,
    {
        self.max_resident
    }

    /// The active tab, if any.
    pub fn active_tab_id(&self) -> (res: Option<&String>)
        ensures
            match res {
                Some(t) => self@.active_tab_id == Some(t@),
                None => self@.active_tab_id is None,
            },
    {
        match &self.active_tab_id {
            Some(t) => Some(t),
            None => None,
        }
    }

    /// The current activation generation.
    pub fn activation_generation(&self) -> (res: u64)
        ensures
            res == self@.activation_generation,
    {
        self.activation_generation
    }

    fn find_tab(&self, tab_id: &str) -> (res: Option<usize>)
        requires
            self.wf(),
        ensures
            match res {
                Some(i) => i < self@.records.len() && tab_position(self@.records, tab_id@) == Some(
                    i as int,
                ) && self@.records[i as int].tab_id == tab_id@,
                None => tab_position(self@.records, tab_id@) is None,
            },
    {
        proof {
            self.lemma_view_records();
        }
        let n = self.records.len();
        let mut i: usize = 0;
        while i < n
            invariant
                n == self.records@.len(),
                n == self@.records.len(),
                i <= n,
                forall|j: int| 0 <= j < i ==> #[trigger] self@.records[j].tab_id != tab_id@,
                forall|j: int| 0 <= j < n ==> #[trigger] self@.records[j] == self.records@[j]@,
                self.wf(),
            decreases n - i,
        {
            if str_equal(self.records[i].tab_id.as_str(), tab_id) {
                proof {
                    lemma_tab_position(self@.records, tab_id@, i as int);
                }
                return Some(i);
            }
            i = i + 1;
        }
        assert(!exists|j: int| 0 <= j < self@.records.len() && #[trigger] self@.records[j].tab_id == tab_id@);
        None
    }

    /// Whether the tab is resident.
    pub fn contains_tab(&self, tab_id: &str) -> (res: bool)
        requires
            self.wf(),
        ensures
            res == tab_position(self@.records, tab_id@) is Some,
    {
        self.find_tab(tab_id).is_some()
    }

    /// The webview label of a resident tab.
    pub fn webview_label(&self, tab_id: &str) -> (res: Option<String>)
        requires
            self.wf(),
        ensures
            match tab_position(self@.records, tab_id@) {
                Some(i) => res matches Some(l) && l@ == self@.records[i].webview_label,
                None => res is None,
            },
    {
        match self.find_tab(tab_id) {
            Some(i) => Some(self.records[i].webview_label.clone()),
            None => None,
        }
    }

    /// The webview label and current URL of a resident tab.
    pub fn tab_location(&self, tab_id: &str) -> (res: Option<(String, String)>)
        requires
            self.wf(),
        ensures
            match tab_position(self@.records, tab_id@) {
                Some(i) => res matches Some(p) && p.0@ == self@.records[i].webview_label && p.1@
                    == self@.records[i].current_url,
                None => res is None,
            },
    {
        match self.find_tab(tab_id) {
            Some(i) => Some(
                (self.records[i].webview_label.clone(), self.records[i].current_url.clone()),
            ),
            None => None,
        }
    }

    /// Registers a tab's webview, replacing the record of a tab with the same
    /// id, as a map insert does.
    pub fn insert_record(&mut self, record: BrowserWebviewRecord)
        requires
            old(self).wf(),
        ensures
            final(self).wf(),
            final(self)@.records == after_registration(old(self)@.records, record@),
            final(self)@.active_tab_id == old(self)@.active_tab_id,
            final(self)@.max_resident == old(self)@.max_resident,
            final(self)@.activation_generation == old(self)@.activation_generation,
    {
        let ghost rec = record@;
        match self.find_tab(record.tab_id.as_str()) {
            Some(i) => {
                self.records.set(i, record);
                assert(self@.records =~= old(self)@.records.update(i as int, rec));
            },
            None => {
                self.records.push(record);
                assert(self@.records =~= old(self)@.records.push(rec));
                assert forall|a: int, b: int|
                    0 <= a < self@.records.len() && 0 <= b < self@.records.len() && a != b
                    implies #[trigger] self@.records[a].tab_id != #[trigger] self@.records[b].tab_id by {
                    if a == self@.records.len() - 1 {
                        assert(old(self)@.records[b].tab_id != rec.tab_id);
                    } else if b == self@.records.len() - 1 {
                        assert(old(self)@.records[a].tab_id != rec.tab_id);
                    }
                }
            },
        }
    }

    /// When more webviews are resident than the limit allows, removes the
    /// least recently activated record that is not the active tab (unpinned
    /// ones first) and hands it back so that its webview can be closed.
    pub fn evict_for_capacity(&mut self) -> (res: Option<BrowserWebviewRecord>)
        requires
            old(self).wf(),
        ensures
            final(self).wf(),
            final(self)@.active_tab_id == old(self)@.active_tab_id,
            final(self)@.max_resident == old(self)@.max_resident,
            final(self)@.activation_generation == old(self)@.activation_generation,
            old(self)@.records.len() <= old(self)@.max_resident ==> res is None && final(self)@.records
                == old(self)@.records,
            old(self)@.records.len() > old(self)@.max_resident ==> match eviction_choice(
                old(self)@.records,
                old(self)@.active_tab_id,
            ) {
                Some(i) => res matches Some(r) && r@ == old(self)@.records[i] && final(self)@.records
                    == old(self)@.records.remove(i),
                None => res is None && final(self)@.records == old(self)@.records,
            },
            final(self)@.records == after_eviction(
                old(self)@.records,
                old(self)@.active_tab_id,
                old(self)@.max_resident,
            ),
    {
        if self.records.len() <= self.max_resident {
            return None;
        }
        proof {
            self.lemma_view_records();
        }
        let ghost rs = self@.records;
        let ghost active = self@.active_tab_id;
        let ghost unpinned = |r: RecordView| is_unpinned_candidate(r, active);
        let ghost any = |r: RecordView| is_eviction_candidate(r, active);
        let n = self.records.len();
        let mut best: Option<usize> = None;
        let mut best_time: i64 = i64::MAX;
        let mut oldest: Option<usize> = None;
        let mut oldest_time: i64 = i64::MAX;
        let mut i: usize = 0;
        while i < n
            invariant
                n == rs.len(),
                rs == self@.records,
                active == self@.active_tab_id,
                forall|j: int| 0 <= j < n ==> #[trigger] rs[j] == self.records@[j]@,
                unpinned == (|r: RecordView| is_unpinned_candidate(r, active)),
                any == (|r: RecordView| is_eviction_candidate(r, active)),
                i <= n,
                match oldest {
                    Some(k) => k < i && is_least_recent(rs.subrange(0, i as int), k as int, any)
                        && oldest_time == rs[k as int].last_activated_at,
                    None => oldest_time == i64::MAX && forall|j: int| 0 <= j < i ==> !any(#[trigger] rs[j]),
                },
                match best {
                    Some(k) => k < i && is_least_recent(rs.subrange(0, i as int), k as int, unpinned)
                        && best_time == rs[k as int].last_activated_at,
                    None => best_time == i64::MAX && forall|j: int| 0 <= j < i ==> !unpinned(#[trigger] rs[j]),
                },
            decreases n - i,
        {
            let is_active = match &self.active_tab_id {
                Some(a) => str_equal(self.records[i].tab_id.as_str(), a.as_str()),
                None => false,
            };
            let ghost prev = rs.subrange(0, i as int);
            let ghost next = rs.subrange(0, i + 1);
            assert(forall|j: int| 0 <= j < i ==> #[trigger] next[j] == prev[j]);
            if !is_active {
                let t = self.records[i].last_activated_at;
                if t < oldest_time {
                    oldest_time = t;
                    oldest = Some(i);
                }
                if !self.records[i].pinned && t < best_time {
                    best_time = t;
                    best = Some(i);
                }
            }
            proof {
                assert(is_active == (active == Some(rs[i as int].tab_id)));
                assert(next[i as int] == rs[i as int]);
            }
            i = i + 1;
        }
        assert(rs.subrange(0, n as int) =~= rs);
        let target = match best {
            Some(k) => Some(k),
            None => oldest,
        };
        proof {
            match best {
                Some(k) => {
                    assert(is_least_recent(rs, k as int, unpinned));
                    assert(exists|x: int| is_least_recent(rs, x, unpinned));
                    let c = choose|x: int| is_least_recent(rs, x, unpinned);
                    lemma_least_recent_unique(rs, c, k as int, unpinned);
                },
                None => {
                    assert(!exists|x: int| is_least_recent(rs, x, unpinned));
                    match oldest {
                        Some(k) => {
                            assert(is_least_recent(rs, k as int, any));
                            let c = choose|x: int| is_least_recent(rs, x, any);
                            lemma_least_recent_unique(rs, c, k as int, any);
                        },
                        None => {
                            assert(!exists|x: int| is_least_recent(rs, x, any));
                        },
                    }
                },
            }
        }
        match target {
            Some(k) => {
                let removed = self.records.remove(k);
                proof {
                    assert(self@.records =~= rs.remove(k as int));
                    assert forall|a: int, b: int|
                        0 <= a < self@.records.len() && 0 <= b < self@.records.len() && a != b
                        implies #[trigger] self@.records[a].tab_id != #[trigger] self@.records[b].tab_id by {
                        let oa = if a < k { a } else { a + 1 };
                        let ob = if b < k { b } else { b + 1 };
                        assert(self@.records[a] == rs[oa]);
                        assert(self@.records[b] == rs[ob]);
                    }
                }
                Some(removed)
            },
            None => None,
        }
    }

    /// Starts an activation: bumps the activation generation and returns it.
    pub fn begin_activation(&mut self) -> (res: u64)
        requires
            old(self).wf(),
            old(self)@.activation_generation < u64::MAX,
        ensures
            final(self).wf(),
            res == old(self)@.activation_generation + 1,
            final(self)@ == (ManagerView { activation_generation: res, ..old(self)@ }),
    {
        self.activation_generation = self.activation_generation + 1;
        self.activation_generation
    }

    /// Whether no later activation has begun since `generation`.
    pub fn is_current_activation(&self, generation: u64) -> (res: bool)
        ensures
            res == (self@.activation_generation == generation),
    {
        self.activation_generation == generation
    }

    /// The labels of every resident webview other than `tab_id`'s.
    pub fn labels_except(&self, tab_id: &str) -> (res: Vec<String>)
        ensures
            Seq::new(res@.len(), |i: int| res@[i]@) == labels_except_spec(self@.records, tab_id@),
    {
        proof {
            self.lemma_view_records();
        }
        let n = self.records.len();
        let mut out: Vec<String> = Vec::new();
        let mut i: usize = 0;
        while i < n
            invariant
                n == self@.records.len(),
                forall|j: int| 0 <= j < n ==> #[trigger] self@.records[j] == self.records@[j]@,
                i <= n,
                Seq::new(out@.len(), |k: int| out@[k]@) == labels_except_spec(
                    self@.records.subrange(0, i as int),
                    tab_id@,
                ),
            decreases n - i,
        {
            let ghost before = Seq::new(out@.len(), |k: int| out@[k]@);
            assert(self@.records.subrange(0, i + 1).drop_last() =~= self@.records.subrange(0, i as int));
            if !str_equal(self.records[i].tab_id.as_str(), tab_id) {
                out.push(self.records[i].webview_label.clone());
                assert(Seq::new(out@.len(), |k: int| out@[k]@) =~= before.push(
                    self@.records[i as int].webview_label,
                ));
            }
            i = i + 1;
        }
        assert(self@.records.subrange(0, n as int) =~= self@.records);
        out
    }

    /// Completes the activation of `tab_id` at time `now`: that tab becomes
    /// the active one and the only visible one, and its activation time is
    /// `now`.
    pub fn complete_activation(&mut self, tab_id: &str, now: i64)
        requires
            old(self).wf(),
        ensures
            final(self).wf(),
            final(self)@.records == activated(old(self)@.records, tab_id@, now),
            visible_count_spec(final(self)@.records) == if tab_position(
                old(self)@.records,
                tab_id@,
            ) is Some {
                1nat
            } else {
                0nat
            },
            final(self)@.active_tab_id == Some(tab_id@),
            final(self)@.max_resident == old(self)@.max_resident,
            final(self)@.activation_generation == old(self)@.activation_generation,
    {
        proof {
            self.lemma_view_records();
        }
        let ghost rs = self@.records;
        let n = self.records.len();
        let mut i: usize = 0;
        while i < n
            invariant
                n == rs.len(),
                n == self.records@.len(),
                i <= n,
                forall|j: int| 0 <= j < i ==> #[trigger] self.records@[j]@ == activated(rs, tab_id@, now)[j],
                forall|j: int| i <= j < n ==> #[trigger] self.records@[j]@ == rs[j],
                self.max_resident == old(self).max_resident,
                self.activation_generation == old(self).activation_generation,
            decreases n - i,
        {
            assert(self.records@[i as int]@ == rs[i as int]);
            let is_target = str_equal(self.records[i].tab_id.as_str(), tab_id);
            let ghost prev = self.records@;
            let mut record = self.records.remove(i);
            record.visible = is_target;
            if is_target {
                record.last_activated_at = now;
            }
            let ghost rec = record;
            self.records.insert(i, record);
            assert(self.records@ =~= prev.update(i as int, rec));
            assert(is_target == (rs[i as int].tab_id == tab_id@));
            assert(rec@ == activated(rs, tab_id@, now)[i as int]);
            assert forall|j: int| 0 <= j < i + 1 implies #[trigger] self.records@[j]@ == activated(rs, tab_id@, now)[j] by {
                if j < i {
                    assert(self.records@[j] == prev[j]);
                }
            }
            i = i + 1;
        }
        self.active_tab_id = Some(tab_id.to_string());
        proof {
            assert(self@.records =~= activated(rs, tab_id@, now));
            activation_leaves_one_visible(rs, tab_id@, now);
            assert forall|a: int, b: int|
                0 <= a < self@.records.len() && 0 <= b < self@.records.len() && a != b
                implies #[trigger] self@.records[a].tab_id != #[trigger] self@.records[b].tab_id by {
                assert(self@.records[a].tab_id == rs[a].tab_id);
                assert(self@.records[b].tab_id == rs[b].tab_id);
            }
        }
    }

    /// Hides every webview and clears the active tab; returns every label.
    pub fn hide_all(&mut self) -> (res: Vec<String>)
        requires
            old(self).wf(),
        ensures
            final(self).wf(),
            final(self)@.records == all_hidden(old(self)@.records),
            final(self)@.active_tab_id is None,
            final(self)@.max_resident == old(self)@.max_resident,
            final(self)@.activation_generation == old(self)@.activation_generation,
            Seq::new(res@.len(), |i: int| res@[i]@) == Seq::new(
                old(self)@.records.len(),
                |i: int| old(self)@.records[i].webview_label,
            ),
    {
        proof {
            self.lemma_view_records();
        }
        let ghost rs = self@.records;
        self.active_tab_id = None;
        let n = self.records.len();
        let mut labels: Vec<String> = Vec::new();
        let mut i: usize = 0;
        while i < n
            invariant
                n == rs.len(),
                n == self.records@.len(),
                i <= n,
                labels@.len() == i,
                forall|j: int| 0 <= j < i ==> #[trigger] labels@[j]@ == rs[j].webview_label,
                forall|j: int| 0 <= j < i ==> #[trigger] self.records@[j]@ == all_hidden(rs)[j],
                forall|j: int| i <= j < n ==> #[trigger] self.records@[j]@ == rs[j],
                self.max_resident == old(self).max_resident,
                self.activation_generation == old(self).activation_generation,
                self.active_tab_id is None,
            decreases n - i,
        {
            assert(self.records@[i as int]@ == rs[i as int]);
            let ghost prev = self.records@;
            let mut record = self.records.remove(i);
            record.visible = false;
            labels.push(record.webview_label.clone());
            let ghost rec = record;
            self.records.insert(i, record);
            assert(self.records@ =~= prev.update(i as int, rec));
            assert(rec@ == all_hidden(rs)[i as int]);
            assert forall|j: int| 0 <= j < i + 1 implies #[trigger] self.records@[j]@ == all_hidden(rs)[j] by {
                if j < i {
                    assert(self.records@[j] == prev[j]);
                }
            }
            assert(labels@[i as int]@ == rs[i as int].webview_label);
            i = i + 1;
        }
        proof {
            assert(self@.records =~= all_hidden(rs));
            assert(Seq::new(labels@.len(), |k: int| labels@[k]@) =~= Seq::new(
                rs.len(),
                |k: int| rs[k].webview_label,
            ));
            assert forall|a: int, b: int|
                0 <= a < self@.records.len() && 0 <= b < self@.records.len() && a != b
                implies #[trigger] self@.records[a].tab_id != #[trigger] self@.records[b].tab_id by {
                assert(self@.records[a].tab_id == rs[a].tab_id);
                assert(self@.records[b].tab_id == rs[b].tab_id);
            }
        }
        labels
    }

    /// Removes a resident tab (close or suspend), clearing the active tab when
    /// it is the one removed; returns the label of its webview.
    pub fn remove_tab(&mut self, tab_id: &str) -> (res: Option<String>)
        requires
            old(self).wf(),
        ensures
            final(self).wf(),
            final(self)@.max_resident == old(self)@.max_resident,
            final(self)@.activation_generation == old(self)@.activation_generation,
            match tab_position(old(self)@.records, tab_id@) {
                Some(i) => {
                    &&& res matches Some(l) && l@ == old(self)@.records[i].webview_label
                    &&& final(self)@.records == old(self)@.records.remove(i)
                    &&& final(self)@.active_tab_id == if old(self)@.active_tab_id == Some(tab_id@) {
                        None
                    } else {
                        old(self)@.active_tab_id
                    }
                },
                None => res is None && final(self)@ == old(self)@,
            },
    {
        match self.find_tab(tab_id) {
            Some(k) => {
                let ghost rs = self@.records;
                let removed = self.records.remove(k);
                let clear = match &self.active_tab_id {
                    Some(a) => str_equal(a.as_str(), tab_id),
                    None => false,
                };
                if clear {
                    self.active_tab_id = None;
                }
                proof {
                    assert(self@.records =~= rs.remove(k as int));
                    assert forall|a: int, b: int|
                        0 <= a < self@.records.len() && 0 <= b < self@.records.len() && a != b
                        implies #[trigger] self@.records[a].tab_id != #[trigger] self@.records[b].tab_id by {
                        let oa = if a < k { a } else { a + 1 };
                        let ob = if b < k { b } else { b + 1 };
                        assert(self@.records[a] == rs[oa]);
                        assert(self@.records[b] == rs[ob]);
                    }
                }
                Some(removed.webview_label)
            },
            None => None,
        }
    }

    /// Records the URL a resident tab now shows; returns its webview label.
    pub fn set_current_url(&mut self, tab_id: &str, url: String) -> (res: Option<String>)
        requires
            old(self).wf(),
        ensures
            final(self).wf(),
            final(self)@.max_resident == old(self)@.max_resident,
            final(self)@.activation_generation == old(self)@.activation_generation,
            final(self)@.active_tab_id == old(self)@.active_tab_id,
            match tab_position(old(self)@.records, tab_id@) {
                Some(i) => {
                    &&& res matches Some(l) && l@ == old(self)@.records[i].webview_label
                    &&& final(self)@.records == old(self)@.records.update(
                        i,
                        RecordView { current_url: url@, ..old(self)@.records[i] },
                    )
                },
                None => res is None && final(self)@.records == old(self)@.records,
            },
    {
        match self.find_tab(tab_id) {
            Some(k) => {
                let ghost rs = self@.records;
                let ghost u = url@;
                let ghost prev = self.records@;
                let mut record = self.records.remove(k);
                record.current_url = url;
                let label = record.webview_label.clone();
                let ghost rec = record;
                self.records.insert(k, record);
                assert(self.records@ =~= prev.update(k as int, rec));
                proof {
                    assert(self@.records =~= rs.update(k as int, RecordView { current_url: u, ..rs[k as int] }));
                    assert forall|a: int, b: int|
                        0 <= a < self@.records.len() && 0 <= b < self@.records.len() && a != b
                        implies #[trigger] self@.records[a].tab_id != #[trigger] self@.records[b].tab_id by {
                        assert(self@.records[a].tab_id == rs[a].tab_id);
                        assert(self@.records[b].tab_id == rs[b].tab_id);
                    }
                }
                Some(label)
            },
            None => None,
        }
    }

    /// The number of webviews marked visible.
    pub fn visible_count(&self) -> (res: usize)
        ensures
            res == visible_count_spec(self@.records),
    {
        proof {
            self.lemma_view_records();
        }
        let n = self.records.len();
        let mut count: usize = 0;
        let mut i: usize = 0;
        while i < n
            invariant
                n == self@.records.len(),
                forall|j: int| 0 <= j < n ==> #[trigger] self@.records[j] == self.records@[j]@,
                i <= n,
                count == visible_count_spec(self@.records.subrange(0, i as int)),
                count <= i,
            decreases n - i,
        {
            assert(self@.records.subrange(0, i + 1).drop_last() =~= self@.records.subrange(0, i as int));
            if self.records[i].visible {
                count = count + 1;
            }
            i = i + 1;
        }
        assert(self@.records.subrange(0, n as int) =~= self@.records);
        count
    }
}

// ---------------------------------------------------------------------------
// Laws
// ---------------------------------------------------------------------------

proof fn lemma_no_tab_none_visible(rs: Seq<RecordView>, tab_id: Seq<char>, now: i64)
    requires
        forall|i: int| 0 <= i < rs.len() ==> #[trigger] rs[i].tab_id != tab_id,
    ensures
        visible_count_spec(activated(rs, tab_id, now)) == 0,
    decreases rs.len(),
{
    if rs.len() > 0 {
        assert(activated(rs, tab_id, now).drop_last() =~= activated(rs.drop_last(), tab_id, now));
        assert forall|i: int| 0 <= i < rs.drop_last().len() implies #[trigger] rs.drop_last()[i].tab_id
            != tab_id by {
            assert(rs.drop_last()[i] == rs[i]);
        }
        lemma_no_tab_none_visible(rs.drop_last(), tab_id, now);
    }
}

/// After a tab is activated, it is the only visible webview: exactly one
/// webview is visible when the tab is resident, none otherwise.
pub proof fn activation_leaves_one_visible(rs: Seq<RecordView>, tab_id: Seq<char>, now: i64)
    requires
        unique_tabs(rs),
    ensures
        forall|i: int|
            0 <= i < rs.len() ==> (#[trigger] activated(rs, tab_id, now)[i].visible <==> rs[i].tab_id
                == tab_id),
        visible_count_spec(activated(rs, tab_id, now)) == if tab_position(rs, tab_id) is Some {
            1nat
        } else {
            0nat
        },
    decreases rs.len(),
{
    if rs.len() == 0 {
        return;
    }
    let front = rs.drop_last();
    assert(activated(rs, tab_id, now).drop_last() =~= activated(front, tab_id, now));
    assert(unique_tabs(front)) by {
        assert forall|a: int, b: int|
            0 <= a < front.len() && 0 <= b < front.len() && a != b implies #[trigger] front[a].tab_id
            != #[trigger] front[b].tab_id by {
            assert(front[a] == rs[a] && front[b] == rs[b]);
        }
    }
    let last = rs.len() - 1;
    if rs[last].tab_id == tab_id {
        assert forall|i: int| 0 <= i < front.len() implies #[trigger] front[i].tab_id != tab_id by {
            assert(front[i] == rs[i]);
            assert(rs[i].tab_id != rs[last].tab_id);
        }
        lemma_no_tab_none_visible(front, tab_id, now);
        lemma_tab_position(rs, tab_id, last);
    } else {
        activation_leaves_one_visible(front, tab_id, now);
        match tab_position(front, tab_id) {
            Some(k) => {
                assert(front[k] == rs[k]);
                lemma_tab_position(rs, tab_id, k);
            },
            None => {
                if tab_position(rs, tab_id) is Some {
                    let k = tab_position(rs, tab_id)->0;
                    assert(rs[k].tab_id == tab_id);
                    assert(front[k] == rs[k]);
                    lemma_tab_position(front, tab_id, k);
                }
            },
        }
    }
}

/// Hiding every webview leaves none visible.
pub proof fn hiding_all_leaves_none_visible(rs: Seq<RecordView>)
    ensures
        visible_count_spec(all_hidden(rs)) == 0,
    decreases rs.len(),
{
    if rs.len() > 0 {
        assert(all_hidden(rs).drop_last() =~= all_hidden(rs.drop_last()));
        hiding_all_leaves_none_visible(rs.drop_last());
    }
}

/// Creating a tab keeps the pool bounded: when at most `max_resident + 1`
/// webviews are resident and, should the pool be over its limit, some
/// inactive tab is an eviction candidate, then making room and registering the
/// new tab leaves at most `max_resident + 1` resident, and the active tab
/// stays resident.
pub proof fn creating_a_tab_keeps_the_pool_bounded(
    rs: Seq<RecordView>,
    active: Option<Seq<char>>,
    max_resident: nat,
    record: RecordView,
)
    requires
        unique_tabs(rs),
        rs.len() <= max_resident + 1,
        rs.len() > max_resident ==> exists|j: int|
            0 <= j < rs.len() && #[trigger] is_eviction_candidate(rs[j], active),
    ensures
        after_registration(after_eviction(rs, active, max_resident), record).len() <= max_resident
            + 1,
        match active {
            Some(a) => tab_position(rs, a) is Some ==> tab_position(
                after_registration(after_eviction(rs, active, max_resident), record),
                a,
            ) is Some,
            None => true,
        },
{
    eviction_spares_active_and_prefers_unpinned(rs, active);
    let ev = after_eviction(rs, active, max_resident);
    let fin = after_registration(ev, record);
    assert(ev.len() <= max_resident + 1);
    assert(rs.len() > max_resident ==> ev.len() == rs.len() - 1);
    if let Some(a) = active {
        if tab_position(rs, a) is Some {
            let p = tab_position(rs, a)->0;
            assert(0 <= p < rs.len() && rs[p].tab_id == a);
            let q = if rs.len() > max_resident {
                let i = eviction_choice(rs, active)->0;
                assert(rs[i].tab_id != a);
                if p < i {
                    p
                } else {
                    p - 1
                }
            } else {
                p
            };
            assert(0 <= q < ev.len() && ev[q].tab_id == a);
            assert(0 <= q < fin.len() && fin[q].tab_id == a);
        }
    }
}

proof fn lemma_least_recent_exists(rs: Seq<RecordView>, pred: spec_fn(RecordView) -> bool)
    requires
        exists|j: int| 0 <= j < rs.len() && pred(#[trigger] rs[j]),
    ensures
        exists|i: int| is_least_recent(rs, i, pred),
    decreases rs.len(),
{
    let front = rs.drop_last();
    let last = rs.len() - 1;
    if exists|j: int| 0 <= j < front.len() && pred(#[trigger] front[j]) {
        lemma_least_recent_exists(front, pred);
        let k = choose|i: int| is_least_recent(front, i, pred);
        assert(front[k] == rs[k]);
        if pred(rs[last]) && rs[last].last_activated_at < rs[k].last_activated_at {
            assert forall|j: int| 0 <= j < rs.len() && pred(#[trigger] rs[j]) implies (j < last
                ==> rs[j].last_activated_at > rs[last].last_activated_at) && (j > last
                ==> rs[j].last_activated_at >= rs[last].last_activated_at) by {
                if j < last {
                    assert(front[j] == rs[j]);
                }
            }
            assert(is_least_recent(rs, last, pred));
        } else {
            assert forall|j: int| 0 <= j < rs.len() && pred(#[trigger] rs[j]) implies (j < k
                ==> rs[j].last_activated_at > rs[k].last_activated_at) && (j > k
                ==> rs[j].last_activated_at >= rs[k].last_activated_at) by {
                if j < last {
                    assert(front[j] == rs[j]);
                }
            }
            assert(is_least_recent(rs, k, pred));
        }
    } else {
        let w = choose|j: int| 0 <= j < rs.len() && pred(#[trigger] rs[j]);
        if w < last {
            assert(front[w] == rs[w]);
        }
        assert(pred(rs[last]));
        assert forall|j: int| 0 <= j < rs.len() && pred(#[trigger] rs[j]) implies (j < last
            ==> rs[j].last_activated_at > rs[last].last_activated_at) && (j > last
            ==> rs[j].last_activated_at >= rs[last].last_activated_at) by {
            if j < last {
                assert(front[j] == rs[j]);
            }
        }
        assert(is_least_recent(rs, last, pred));
    }
}

/// Eviction never removes the active tab; it removes an unpinned tab
/// whenever one is a candidate, the least recently activated one; and when
/// some inactive tab was activated before `i64::MAX`, some tab is removed.
pub proof fn eviction_spares_active_and_prefers_unpinned(rs: Seq<RecordView>, active: Option<Seq<char>>)
    ensures
        eviction_choice(rs, active) matches Some(i) ==> 0 <= i < rs.len() && active != Some(
            rs[i].tab_id,
        ),
        (exists|j: int| 0 <= j < rs.len() && #[trigger] is_unpinned_candidate(rs[j], active))
            ==> (eviction_choice(rs, active) matches Some(i) && !rs[i].pinned && forall|j: int|
            0 <= j < rs.len() && is_unpinned_candidate(#[trigger] rs[j], active)
                ==> rs[j].last_activated_at >= rs[i].last_activated_at),
        (exists|j: int| 0 <= j < rs.len() && #[trigger] is_eviction_candidate(rs[j], active))
            ==> eviction_choice(rs, active) is Some,
{
    let unpinned = |r: RecordView| is_unpinned_candidate(r, active);
    let any = |r: RecordView| is_eviction_candidate(r, active);
    if exists|j: int| 0 <= j < rs.len() && #[trigger] is_unpinned_candidate(rs[j], active) {
        let j = choose|j: int| 0 <= j < rs.len() && #[trigger] is_unpinned_candidate(rs[j], active);
        assert(unpinned(rs[j]));
        lemma_least_recent_exists(rs, unpinned);
    }
    if exists|j: int| 0 <= j < rs.len() && #[trigger] is_eviction_candidate(rs[j], active) {
        let j = choose|j: int| 0 <= j < rs.len() && #[trigger] is_eviction_candidate(rs[j], active);
        assert(any(rs[j]));
        lemma_least_recent_exists(rs, any);
    }
}

/// Registering a tab that is not resident and then closing it gives back the
/// pool it started from.
pub proof fn closing_a_new_tab_restores_the_pool(rs: Seq<RecordView>, record: RecordView)
    requires
        unique_tabs(rs),
        tab_position(rs, record.tab_id) is None,
    ensures
        unique_tabs(rs.push(record)),
        tab_position(rs.push(record), record.tab_id) == Some(rs.len() as int),
        rs.push(record).remove(rs.len() as int) == rs,
{
    let grown = rs.push(record);
    assert forall|a: int, b: int|
        0 <= a < grown.len() && 0 <= b < grown.len() && a != b implies #[trigger] grown[a].tab_id
        != #[trigger] grown[b].tab_id by {
        if a == rs.len() {
            assert(!(rs[b].tab_id == record.tab_id));
        } else if b == rs.len() {
            assert(!(rs[a].tab_id == record.tab_id));
        }
    }
    lemma_tab_position(grown, record.tab_id, rs.len() as int);
    assert(grown.remove(rs.len() as int) =~= rs);
}

/// Activating a tab at time `now` stamps that tab: its record becomes the
/// visible one and is marked activated at `now`; every other record is hidden
/// and keeps its own activation time; nothing else of any record changes.
pub proof fn activation_stamps_the_activated_tab(rs: Seq<RecordView>, tab_id: Seq<char>, now: i64)
    ensures
        activated(rs, tab_id, now).len() == rs.len(),
        forall|i: int|
            0 <= i < rs.len() && rs[i].tab_id == tab_id ==> (#[trigger] activated(rs, tab_id, now)[i]).last_activated_at
                == now && activated(rs, tab_id, now)[i].visible,
        forall|i: int|
            0 <= i < rs.len() && rs[i].tab_id != tab_id ==> (#[trigger] activated(rs, tab_id, now)[i]).last_activated_at
                == rs[i].last_activated_at && !activated(rs, tab_id, now)[i].visible,
        forall|i: int|
            0 <= i < rs.len() ==> {
                let r = #[trigger] activated(rs, tab_id, now)[i];
                &&& r.tab_id == rs[i].tab_id
                &&& r.webview_label == rs[i].webview_label
                &&& r.current_url == rs[i].current_url
                &&& r.pinned == rs[i].pinned
                &&& r.created_at == rs[i].created_at
            },
{
}

/// The tab just activated is never the one evicted next: after activating a
/// resident tab, it is the active tab, which eviction spares.
pub proof fn activated_tab_is_not_evicted(rs: Seq<RecordView>, tab_id: Seq<char>, now: i64)
    ensures
        eviction_choice(activated(rs, tab_id, now), Some(tab_id)) matches Some(i) ==> activated(
            rs,
            tab_id,
            now,
        )[i].tab_id != tab_id,
{
    eviction_spares_active_and_prefers_unpinned(activated(rs, tab_id, now), Some(tab_id));
}

} // verus!
