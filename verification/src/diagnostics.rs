//! Privacy-safe diagnostics: anonymous record counts and a bounded tail of
//! the application log.

use crate::text::{lemma_no_occurrence, matches_from, occurs_from, occurs_in};
use vstd::prelude::*;
use vstd::string::StringExecFns;

verus! {

/// Hard ceiling on how much of the log file the problem reporter may read, so
/// a large rotated log can never balloon the bundle or memory.
pub const MAX_LOG_TAIL_BYTES: u64 = 256 * 1024;

/// The tables whose row counts the diagnostics report.
pub const COUNT_TABLES: [&'static str; 8] = [
    "accounts",
    "nodes",
    "edges",
    "notifications",
    "timeline_events",
    "simulator_entities",
    "simulator_events",
    "analytics_records",
];

/// The format tag of the diagnostics document.
pub const SAFE_DIAGNOSTICS_FORMAT: &'static str = "snow-devil-safe-diagnostics-v1";

/// Where reading the log starts: the last `MAX_LOG_TAIL_BYTES` bytes of a
/// longer log, or its beginning.
pub fn log_tail_start(len: u64) -> (res: u64)
    ensures
        res == if len > MAX_LOG_TAIL_BYTES {
            (len - MAX_LOG_TAIL_BYTES) as u64
        } else {
            0
        },
        res <= len,
        len - res <= MAX_LOG_TAIL_BYTES,
{
    if len > MAX_LOG_TAIL_BYTES {
        len - MAX_LOG_TAIL_BYTES
    } else {
        0
    }
}

/// The statement that counts the rows of a table.
pub fn record_count_query(table: &str) -> (res: String)
    ensures
        res@ == "SELECT COUNT(*) FROM "@ + table@,
{
    let mut q = String::from_str("SELECT COUNT(*) FROM ");
    q.append(table);
    q
}


/// Words that never appear in what the diagnostics report: credentials
/// (tokens, cookies), request bodies and file contents, repository names and
/// e-mail addresses.
pub open spec fn sensitive_words() -> Seq<Seq<char>> {
    seq!["token"@, "cookie"@, "body"@, "content"@, "repository_name"@, "email"@]
}

proof fn lemma_clean_name(name: Seq<char>)
    requires
        forall|w: int| 0 <= w < sensitive_words().len() ==> !occurs_from(name, #[trigger] sensitive_words()[w], 0),
    ensures
        forall|w: int| 0 <= w < sensitive_words().len() ==> !occurs_in(name, #[trigger] sensitive_words()[w]),
{
    assert forall|w: int| 0 <= w < sensitive_words().len() implies !occurs_in(name, #[trigger] sensitive_words()[w]) by {
        lemma_no_occurrence(name, sensitive_words()[w]);
    }
}

proof fn lemma_accounts_is_clean()
    ensures
        forall|w: int| 0 <= w < sensitive_words().len() ==> !occurs_in("accounts"@, #[trigger] sensitive_words()[w]),
{
    reveal_strlit("accounts");
    reveal_strlit("token");
    reveal_strlit("cookie");
    reveal_strlit("body");
    reveal_strlit("content");
    reveal_strlit("repository_name");
    reveal_strlit("email");
    reveal_with_fuel(occurs_from, 20);
    reveal_with_fuel(matches_from, 16);
    assert(!occurs_from("accounts"@, "token"@, 0));
    assert(!occurs_from("accounts"@, "cookie"@, 0));
    assert(!occurs_from("accounts"@, "body"@, 0));
    assert(!occurs_from("accounts"@, "content"@, 0));
    assert(!occurs_from("accounts"@, "repository_name"@, 0));
    assert(!occurs_from("accounts"@, "email"@, 0));
    lemma_clean_name("accounts"@);
}

proof fn lemma_nodes_is_clean()
    ensures
        forall|w: int| 0 <= w < sensitive_words().len() ==> !occurs_in("nodes"@, #[trigger] sensitive_words()[w]),
{
    reveal_strlit("nodes");
    reveal_strlit("token");
    reveal_strlit("cookie");
    reveal_strlit("body");
    reveal_strlit("content");
    reveal_strlit("repository_name");
    reveal_strlit("email");
    reveal_with_fuel(occurs_from, 20);
    reveal_with_fuel(matches_from, 16);
    assert(!occurs_from("nodes"@, "token"@, 0));
    assert(!occurs_from("nodes"@, "cookie"@, 0));
    assert(!occurs_from("nodes"@, "body"@, 0));
    assert(!occurs_from("nodes"@, "content"@, 0));
    assert(!occurs_from("nodes"@, "repository_name"@, 0));
    assert(!occurs_from("nodes"@, "email"@, 0));
    lemma_clean_name("nodes"@);
}

proof fn lemma_edges_is_clean()
    ensures
        forall|w: int| 0 <= w < sensitive_words().len() ==> !occurs_in("edges"@, #[trigger] sensitive_words()[w]),
{
    reveal_strlit("edges");
    reveal_strlit("token");
    reveal_strlit("cookie");
    reveal_strlit("body");
    reveal_strlit("content");
    reveal_strlit("repository_name");
    reveal_strlit("email");
    reveal_with_fuel(occurs_from, 20);
    reveal_with_fuel(matches_from, 16);
    assert(!occurs_from("edges"@, "token"@, 0));
    assert(!occurs_from("edges"@, "cookie"@, 0));
    assert(!occurs_from("edges"@, "body"@, 0));
    assert(!occurs_from("edges"@, "content"@, 0));
    assert(!occurs_from("edges"@, "repository_name"@, 0));
    assert(!occurs_from("edges"@, "email"@, 0));
    lemma_clean_name("edges"@);
}

proof fn lemma_notifications_is_clean()
    ensures
        forall|w: int| 0 <= w < sensitive_words().len() ==> !occurs_in("notifications"@, #[trigger] sensitive_words()[w]),
{
    reveal_strlit("notifications");
    reveal_strlit("token");
    reveal_strlit("cookie");
    reveal_strlit("body");
    reveal_strlit("content");
    reveal_strlit("repository_name");
    reveal_strlit("email");
    reveal_with_fuel(occurs_from, 20);
    reveal_with_fuel(matches_from, 16);
    assert(!occurs_from("notifications"@, "token"@, 0));
    assert(!occurs_from("notifications"@, "cookie"@, 0));
    assert(!occurs_from("notifications"@, "body"@, 0));
    assert(!occurs_from("notifications"@, "content"@, 0));
    assert(!occurs_from("notifications"@, "repository_name"@, 0));
    assert(!occurs_from("notifications"@, "email"@, 0));
    lemma_clean_name("notifications"@);
}

proof fn lemma_timeline_events_is_clean()
    ensures
        forall|w: int| 0 <= w < sensitive_words().len() ==> !occurs_in("timeline_events"@, #[trigger] sensitive_words()[w]),
{
    reveal_strlit("timeline_events");
    reveal_strlit("token");
    reveal_strlit("cookie");
    reveal_strlit("body");
    reveal_strlit("content");
    reveal_strlit("repository_name");
    reveal_strlit("email");
    reveal_with_fuel(occurs_from, 20);
    reveal_with_fuel(matches_from, 16);
    assert(!occurs_from("timeline_events"@, "token"@, 0));
    assert(!occurs_from("timeline_events"@, "cookie"@, 0));
    assert(!occurs_from("timeline_events"@, "body"@, 0));
    assert(!occurs_from("timeline_events"@, "content"@, 0));
    assert(!occurs_from("timeline_events"@, "repository_name"@, 0));
    assert(!occurs_from("timeline_events"@, "email"@, 0));
    lemma_clean_name("timeline_events"@);
}

proof fn lemma_simulator_entities_is_clean()
    ensures
        forall|w: int| 0 <= w < sensitive_words().len() ==> !occurs_in("simulator_entities"@, #[trigger] sensitive_words()[w]),
{
    reveal_strlit("simulator_entities");
    reveal_strlit("token");
    reveal_strlit("cookie");
    reveal_strlit("body");
    reveal_strlit("content");
    reveal_strlit("repository_name");
    reveal_strlit("email");
    reveal_with_fuel(occurs_from, 20);
    reveal_with_fuel(matches_from, 16);
    assert(!occurs_from("simulator_entities"@, "token"@, 0));
    assert(!occurs_from("simulator_entities"@, "cookie"@, 0));
    assert(!occurs_from("simulator_entities"@, "body"@, 0));
    assert(!occurs_from("simulator_entities"@, "content"@, 0));
    assert(!occurs_from("simulator_entities"@, "repository_name"@, 0));
    assert(!occurs_from("simulator_entities"@, "email"@, 0));
    lemma_clean_name("simulator_entities"@);
}

proof fn lemma_simulator_events_is_clean()
    ensures
        forall|w: int| 0 <= w < sensitive_words().len() ==> !occurs_in("simulator_events"@, #[trigger] sensitive_words()[w]),
{
    reveal_strlit("simulator_events");
    reveal_strlit("token");
    reveal_strlit("cookie");
    reveal_strlit("body");
    reveal_strlit("content");
    reveal_strlit("repository_name");
    reveal_strlit("email");
    reveal_with_fuel(occurs_from, 20);
    reveal_with_fuel(matches_from, 16);
    assert(!occurs_from("simulator_events"@, "token"@, 0));
    assert(!occurs_from("simulator_events"@, "cookie"@, 0));
    assert(!occurs_from("simulator_events"@, "body"@, 0));
    assert(!occurs_from("simulator_events"@, "content"@, 0));
    assert(!occurs_from("simulator_events"@, "repository_name"@, 0));
    assert(!occurs_from("simulator_events"@, "email"@, 0));
    lemma_clean_name("simulator_events"@);
}

proof fn lemma_analytics_records_is_clean()
    ensures
        forall|w: int| 0 <= w < sensitive_words().len() ==> !occurs_in("analytics_records"@, #[trigger] sensitive_words()[w]),
{
    reveal_strlit("analytics_records");
    reveal_strlit("token");
    reveal_strlit("cookie");
    reveal_strlit("body");
    reveal_strlit("content");
    reveal_strlit("repository_name");
    reveal_strlit("email");
    reveal_with_fuel(occurs_from, 20);
    reveal_with_fuel(matches_from, 16);
    assert(!occurs_from("analytics_records"@, "token"@, 0));
    assert(!occurs_from("analytics_records"@, "cookie"@, 0));
    assert(!occurs_from("analytics_records"@, "body"@, 0));
    assert(!occurs_from("analytics_records"@, "content"@, 0));
    assert(!occurs_from("analytics_records"@, "repository_name"@, 0));
    assert(!occurs_from("analytics_records"@, "email"@, 0));
    lemma_clean_name("analytics_records"@);
}

/// The diagnostics name only tables whose names carry nothing sensitive: no
/// table counted names a token, cookie, body, content, repository name or
/// e-mail address.
pub proof fn count_tables_name_nothing_sensitive()
    ensures
        forall|t: int, w: int|
            0 <= t < COUNT_TABLES@.len() && 0 <= w < sensitive_words().len() ==> !occurs_in(
                #[trigger] COUNT_TABLES@[t]@,
                #[trigger] sensitive_words()[w],
            ),
{
    lemma_accounts_is_clean();
    lemma_nodes_is_clean();
    lemma_edges_is_clean();
    lemma_notifications_is_clean();
    lemma_timeline_events_is_clean();
    lemma_simulator_entities_is_clean();
    lemma_simulator_events_is_clean();
    lemma_analytics_records_is_clean();
    assert forall|t: int, w: int|
        0 <= t < COUNT_TABLES@.len() && 0 <= w < sensitive_words().len() implies !occurs_in(
            #[trigger] COUNT_TABLES@[t]@,
            #[trigger] sensitive_words()[w],
        ) by {
        assert(COUNT_TABLES@[0]@ == "accounts"@);
        assert(COUNT_TABLES@[1]@ == "nodes"@);
        assert(COUNT_TABLES@[2]@ == "edges"@);
        assert(COUNT_TABLES@[3]@ == "notifications"@);
        assert(COUNT_TABLES@[4]@ == "timeline_events"@);
        assert(COUNT_TABLES@[5]@ == "simulator_entities"@);
        assert(COUNT_TABLES@[6]@ == "simulator_events"@);
        assert(COUNT_TABLES@[7]@ == "analytics_records"@);
    }
}

} // verus!
