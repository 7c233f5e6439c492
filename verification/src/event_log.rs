//! Idempotent, deduplicated event log and its aggregation queries.
//!
//! The log models the store relation `logs(msg_id, user_id, chat_id,
//! timestamp)` with a uniqueness constraint on `(msg_id, chat_id)`: at most
//! one entry exists per message identity. `record` is insert-if-absent,
//! `erase` is delete-by-key, and the read queries count entries per user or
//! per conversation, optionally restricted to a trailing time window.

use vstd::prelude::*;

verus! {

/// Length of the trailing query window, in seconds (24 hours).
pub const WINDOW_SECONDS: i64 = 86400;

/// One event: this message, in this conversation, authored by this user,
/// was classified as a match at this time.
#[derive(Clone, Copy, Debug, PartialEq, Eq, Structural)]
pub struct LogEntry {
    /// Message identifier, unique within its conversation.
    pub msg_id: i64,
    /// Conversation identifier.
    pub chat_id: i64,
    /// Author identifier; 0 is the sentinel for an unknown author.
    pub user_id: i64,
    /// Seconds-precision time assigned when the entry was written.
    pub timestamp: i64,
}

/// Does `e` carry the composite key `(msg_id, chat_id)`?
pub open spec fn is_key(e: LogEntry, msg_id: i64, chat_id: i64) -> bool {
    e.msg_id == msg_id && e.chat_id == chat_id
}

/// Is some entry with the composite key present?
pub open spec fn has_key(s: Seq<LogEntry>, msg_id: i64, chat_id: i64) -> bool {
    exists|i: int| 0 <= i < s.len() && is_key(s[i], msg_id, chat_id)
}

/// No two entries share a composite key.
pub open spec fn unique_keys(s: Seq<LogEntry>) -> bool {
    forall|i: int, j: int|
        0 <= i < j < s.len() ==> !is_key(s[i], s[j].msg_id, s[j].chat_id)
}

/// The log after an insert-if-absent of the given event.
pub open spec fn record_spec(
    s: Seq<LogEntry>,
    msg_id: i64,
    chat_id: i64,
    user_id: i64,
    now: i64,
) -> Seq<LogEntry> {
    if has_key(s, msg_id, chat_id) {
        s
    } else {
        s.push(LogEntry { msg_id, chat_id, user_id, timestamp: now })
    }
}

/// The log after a delete-by-key: every entry with the composite key is
/// gone, everything else is kept in order.
pub open spec fn erase_spec(s: Seq<LogEntry>, msg_id: i64, chat_id: i64) -> Seq<LogEntry>
    decreases s.len(),
{
    if s.len() == 0 {
        Seq::empty()
    } else {
        let rest = erase_spec(s.drop_last(), msg_id, chat_id);
        if is_key(s.last(), msg_id, chat_id) {
            rest
        } else {
            rest.push(s.last())
        }
    }
}

/// Does `e` satisfy every given restriction: author, conversation, and not
/// being older than the cutoff time?
pub open spec fn entry_matches(
    e: LogEntry,
    user: Option<i64>,
    chat: Option<i64>,
    cutoff: Option<int>,
) -> bool {
    &&& (user is Some ==> e.user_id == user->0)
    &&& (chat is Some ==> e.chat_id == chat->0)
    &&& (cutoff is Some ==> cutoff->0 <= e.timestamp)
}

/// Number of entries satisfying the given restrictions.
pub open spec fn count_matching(
    s: Seq<LogEntry>,
    user: Option<i64>,
    chat: Option<i64>,
    cutoff: Option<int>,
) -> nat
    decreases s.len(),
{
    if s.len() == 0 {
        0
    } else {
        count_matching(s.drop_last(), user, chat, cutoff) + if entry_matches(
            s.last(),
            user,
            chat,
            cutoff,
        ) {
            1nat
        } else {
            0nat
        }
    }
}

/// All-time count of entries authored by `user_id`.
pub open spec fn user_total_spec(s: Seq<LogEntry>, user_id: i64) -> nat {
    count_matching(s, Some(user_id), None, None)
}

/// Count of entries authored by `user_id` within the trailing window ending
/// at `now`.
pub open spec fn user_recent_spec(s: Seq<LogEntry>, user_id: i64, now: i64) -> nat {
    count_matching(s, Some(user_id), None, Some(now - WINDOW_SECONDS))
}

/// All-time count of entries in conversation `chat_id`.
pub open spec fn chat_total_spec(s: Seq<LogEntry>, chat_id: i64) -> nat {
    count_matching(s, None, Some(chat_id), None)
}

/// Count of entries in conversation `chat_id` within the trailing window.
pub open spec fn chat_recent_spec(s: Seq<LogEntry>, chat_id: i64, now: i64) -> nat {
    count_matching(s, None, Some(chat_id), Some(now - WINDOW_SECONDS))
}

/// Count of entries by `user_id` in conversation `chat_id` within the
/// trailing window.
pub open spec fn chat_user_recent_spec(
    s: Seq<LogEntry>,
    chat_id: i64,
    user_id: i64,
    now: i64,
) -> nat {
    count_matching(s, Some(user_id), Some(chat_id), Some(now - WINDOW_SECONDS))
}

proof fn lemma_count_take_step(
    s: Seq<LogEntry>,
    user: Option<i64>,
    chat: Option<i64>,
    cutoff: Option<int>,
    i: int,
)
    requires
        0 <= i < s.len(),
    ensures
        count_matching(s.take(i + 1), user, chat, cutoff) == count_matching(
            s.take(i),
            user,
            chat,
            cutoff,
        ) + if entry_matches(s[i], user, chat, cutoff) {
            1nat
        } else {
            0nat
        },
{
    assert(s.take(i + 1).drop_last() =~= s.take(i));
    assert(s.take(i + 1).last() == s[i]);
}

proof fn lemma_count_zero_iff(
    s: Seq<LogEntry>,
    user: Option<i64>,
    chat: Option<i64>,
    cutoff: Option<int>,
)
    ensures
        count_matching(s, user, chat, cutoff) == 0 <==> (forall|i: int|
            0 <= i < s.len() ==> !entry_matches(s[i], user, chat, cutoff)),
    decreases s.len(),
{
    if s.len() > 0 {
        lemma_count_zero_iff(s.drop_last(), user, chat, cutoff);
        assert(forall|i: int|
            0 <= i < s.len() - 1 ==> s.drop_last()[i] == s[i]);
        assert(s.last() == s[s.len() - 1]);
    }
}

/// The event log: an in-order sequence of entries with pairwise-distinct
/// composite keys.
pub struct EventLog {
    entries: Vec<LogEntry>,
}

impl View for EventLog {
    type V = Seq<LogEntry>;

    closed spec fn view(&self) -> Seq<LogEntry> {
        self.entries@
    }
}

impl EventLog {
    /// The uniqueness constraint on the composite key holds.
    pub open spec fn inv(&self) -> bool {
        unique_keys(self@)
    }

    /// An empty log.
    pub fn new() -> (log: EventLog)
        ensures
            log@ == Seq::<LogEntry>::empty(),
            log.inv(),
    {
        EventLog { entries: Vec::new() }
    }

    /// Number of entries.
    pub fn len(&self) -> (n: usize)
        ensures
            n == self@.len(),
    {
        self.entries.len()
    }

    /// The entry at position `i`, in insertion order.
    pub fn get(&self, i: usize) -> (e: LogEntry)
        requires
            i < self@.len(),
        ensures
            e == self@[i as int],
    {
        self.entries[i]
    }

    /// Insert-if-absent by composite key; the timestamp of a new entry is
    /// `now`, and a second write for an existing key is a silent no-op.
    pub fn record(&mut self, msg_id: i64, chat_id: i64, user_id: i64, now: i64)
        requires
            old(self).inv(),
        ensures
            final(self).inv(),
            final(self)@ == record_spec(old(self)@, msg_id, chat_id, user_id, now),
    {
        let n = self.entries.len();
        let mut i: usize = 0;
        while i < n
            invariant
                i <= n,
                n == self@.len(),
                self == old(self),
                self.inv(),
                forall|k: int| 0 <= k < i ==> !is_key(self@[k], msg_id, chat_id),
            decreases n - i,
        {
            let e = self.entries[i];
            if e.msg_id == msg_id && e.chat_id == chat_id {
                assert(has_key(self@, msg_id, chat_id));
                return ;
            }
            i += 1;
        }
        assert(!has_key(self@, msg_id, chat_id));
        self.entries.push(LogEntry { msg_id, chat_id, user_id, timestamp: now });
    }

    /// Delete-by-key; deleting an absent key is a no-op.
    pub fn erase(&mut self, msg_id: i64, chat_id: i64)
        requires
            old(self).inv(),
        ensures
            final(self).inv(),
            final(self)@ == erase_spec(old(self)@, msg_id, chat_id),
    {
        let ghost s = self@;
        let n = self.entries.len();
        let mut kept: Vec<LogEntry> = Vec::new();
        let mut i: usize = 0;
        while i < n
            invariant
                i <= n,
                n == self@.len(),
                self == old(self),
                kept@ == erase_spec(self@.take(i as int), msg_id, chat_id),
            decreases n - i,
        {
            let e = self.entries[i];
            proof {
                assert(self@.take(i + 1).drop_last() =~= self@.take(i as int));
                assert(self@.take(i + 1).last() == self@[i as int]);
            }
            if !(e.msg_id == msg_id && e.chat_id == chat_id) {
                kept.push(e);
            }
            i += 1;
        }
        proof {
            assert(self@.take(n as int) =~= self@);
            lemma_erase_props(s, msg_id, chat_id);
        }
        self.entries = kept;
    }
}

/// Shape of the erased log: its entries are entries of the original log,
/// none carries the erased key, and uniqueness of keys is preserved.
proof fn lemma_erase_props(s: Seq<LogEntry>, msg_id: i64, chat_id: i64)
    ensures
        forall|j: int|
            0 <= j < erase_spec(s, msg_id, chat_id).len() ==> s.contains(
                #[trigger] erase_spec(s, msg_id, chat_id)[j],
            ),
        forall|j: int|
            0 <= j < erase_spec(s, msg_id, chat_id).len() ==> !is_key(
                #[trigger] erase_spec(s, msg_id, chat_id)[j],
                msg_id,
                chat_id,
            ),
        unique_keys(s) ==> unique_keys(erase_spec(s, msg_id, chat_id)),
    decreases s.len(),
{
    let e = erase_spec(s, msg_id, chat_id);
    if s.len() > 0 {
        let rest = s.drop_last();
        let er = erase_spec(rest, msg_id, chat_id);
        lemma_erase_props(rest, msg_id, chat_id);
        assert(forall|i: int| 0 <= i < rest.len() ==> rest[i] == s[i]);
        assert forall|j: int| 0 <= j < e.len() implies s.contains(e[j]) && !is_key(
            e[j],
            msg_id,
            chat_id,
        ) by {
            if j < er.len() {
                let i = choose|i: int| 0 <= i < rest.len() && rest[i] == er[j];
                assert(s[i] == e[j]);
            } else {
                assert(e[j] == s[s.len() - 1]);
            }
        }
        if unique_keys(s) {
            assert(unique_keys(rest));
            if is_key(s.last(), msg_id, chat_id) {
                assert(e == er);
            } else {
                assert(e == er.push(s.last()));
                assert forall|i: int, j: int| 0 <= i < j < e.len() implies !is_key(
                    e[i],
                    e[j].msg_id,
                    e[j].chat_id,
                ) by {
                    if j < er.len() {
                    } else {
                        // e[j] is the original last entry; e[i] stems from an
                        // earlier entry, whose key differs by uniqueness.
                        let w = choose|w: int| 0 <= w < rest.len() && rest[w] == er[i];
                        assert(!is_key(s[w], s.last().msg_id, s.last().chat_id));
                    }
                }
            }
        }
    }
}


proof fn lemma_count_witness(
    s: Seq<LogEntry>,
    user: Option<i64>,
    chat: Option<i64>,
    cutoff: Option<int>,
    i: int,
)
    requires
        0 <= i < s.len(),
        entry_matches(s[i], user, chat, cutoff),
    ensures
        count_matching(s, user, chat, cutoff) >= 1,
    decreases s.len(),
{
    if i < s.len() - 1 {
        assert(s.drop_last()[i] == s[i]);
        lemma_count_witness(s.drop_last(), user, chat, cutoff, i);
    }
}

/// One leaderboard row: a user and that user's match count within the
/// trailing window.
#[derive(Clone, Copy, Debug, PartialEq, Eq, Structural)]
pub struct LeaderRow {
    /// Author identifier.
    pub user_id: i64,
    /// Number of matches by this author in the window.
    pub count: u64,
}

/// Does some row of the leaderboard name this user?
pub open spec fn row_user_present(rows: Seq<LeaderRow>, user_id: i64) -> bool {
    exists|i: int| 0 <= i < rows.len() && rows[i].user_id == user_id
}

/// What the leaderboard query returns: at most `limit` rows; each row names
/// a user with a positive in-window count in this conversation, and carries
/// exactly that count; rows are ordered by count, non-increasing; no user
/// appears twice; and a user with a positive count is only left out when the
/// board is full of counts at least as large.
pub open spec fn leaderboard_post(
    s: Seq<LogEntry>,
    chat_id: i64,
    now: i64,
    limit: int,
    rows: Seq<LeaderRow>,
) -> bool {
    &&& rows.len() <= limit
    &&& (forall|i: int|
        0 <= i < rows.len() ==> (#[trigger] rows[i]).count as nat == chat_user_recent_spec(
            s,
            chat_id,
            rows[i].user_id,
            now,
        ) && rows[i].count > 0)
    &&& (forall|i: int, j: int|
        0 <= i < j < rows.len() ==> rows[i].count >= rows[j].count)
    &&& (forall|i: int, j: int|
        0 <= i < j < rows.len() ==> rows[i].user_id != rows[j].user_id)
    &&& (forall|u: i64|
        #[trigger] chat_user_recent_spec(s, chat_id, u, now) > 0 && !row_user_present(rows, u)
            ==> rows.len() == limit && (rows.len() > 0 ==> chat_user_recent_spec(
            s,
            chat_id,
            u,
            now,
        ) <= rows[rows.len() - 1].count))
}

/// Is this user named in some row? Linear scan.
fn contains_user(rows: &Vec<LeaderRow>, user_id: i64) -> (b: bool)
    ensures
        b == row_user_present(rows@, user_id),
{
    let n = rows.len();
    let mut i: usize = 0;
    while i < n
        invariant
            i <= n,
            n == rows@.len(),
            forall|k: int| 0 <= k < i ==> rows@[k].user_id != user_id,
        decreases n - i,
    {
        if rows[i].user_id == user_id {
            assert(row_user_present(rows@, user_id));
            return true;
        }
        i += 1;
    }
    false
}

impl EventLog {
    /// All-time count of entries authored by `user_id`; 0 when there are
    /// none.
    pub fn total_by_user(&self, user_id: i64) -> (r: u64)
        ensures
            r as nat == user_total_spec(self@, user_id),
    {
        let n = self.entries.len();
        let mut r: u64 = 0;
        let mut i: usize = 0;
        while i < n
            invariant
                i <= n,
                n == self@.len(),
                r as nat == count_matching(self@.take(i as int), Some(user_id), None, None),
                r <= i as u64,
            decreases n - i,
        {
            let e = self.entries[i];
            proof {
                lemma_count_take_step(self@, Some(user_id), None, None, i as int);
            }
            if e.user_id == user_id {
                r += 1;
            }
            i += 1;
        }
        proof {
            assert(self@.take(n as int) =~= self@);
        }
        r
    }

    /// Count of entries authored by `user_id` in the trailing window ending
    /// at `now`; 0 when there are none.
    pub fn recent_by_user(&self, user_id: i64, now: i64) -> (r: u64)
        requires
            i64::MIN + WINDOW_SECONDS <= now,
        ensures
            r as nat == user_recent_spec(self@, user_id, now),
    {
        let cutoff = now - WINDOW_SECONDS;
        let n = self.entries.len();
        let mut r: u64 = 0;
        let mut i: usize = 0;
        while i < n
            invariant
                i <= n,
                n == self@.len(),
                cutoff == now - WINDOW_SECONDS,
                r as nat == count_matching(
                    self@.take(i as int),
                    Some(user_id),
                    None,
                    Some(now - WINDOW_SECONDS),
                ),
                r <= i as u64,
            decreases n - i,
        {
            let e = self.entries[i];
            proof {
                lemma_count_take_step(self@, Some(user_id), None, Some(now - WINDOW_SECONDS), i as int);
            }
            if e.user_id == user_id && e.timestamp >= cutoff {
                r += 1;
            }
            i += 1;
        }
        proof {
            assert(self@.take(n as int) =~= self@);
        }
        r
    }

    /// All-time count of entries in conversation `chat_id`; 0 when there are
    /// none.
    pub fn total_by_conversation(&self, chat_id: i64) -> (r: u64)
        ensures
            r as nat == chat_total_spec(self@, chat_id),
    {
        let n = self.entries.len();
        let mut r: u64 = 0;
        let mut i: usize = 0;
        while i < n
            invariant
                i <= n,
                n == self@.len(),
                r as nat == count_matching(self@.take(i as int), None, Some(chat_id), None),
                r <= i as u64,
            decreases n - i,
        {
            let e = self.entries[i];
            proof {
                lemma_count_take_step(self@, None, Some(chat_id), None, i as int);
            }
            if e.chat_id == chat_id {
                r += 1;
            }
            i += 1;
        }
        proof {
            assert(self@.take(n as int) =~= self@);
        }
        r
    }

    /// Count of entries in conversation `chat_id` in the trailing window
    /// ending at `now`; 0 when there are none.
    pub fn recent_by_conversation(&self, chat_id: i64, now: i64) -> (r: u64)
        requires
            i64::MIN + WINDOW_SECONDS <= now,
        ensures
            r as nat == chat_recent_spec(self@, chat_id, now),
    {
        let cutoff = now - WINDOW_SECONDS;
        let n = self.entries.len();
        let mut r: u64 = 0;
        let mut i: usize = 0;
        while i < n
            invariant
                i <= n,
                n == self@.len(),
                cutoff == now - WINDOW_SECONDS,
                r as nat == count_matching(
                    self@.take(i as int),
                    None,
                    Some(chat_id),
                    Some(now - WINDOW_SECONDS),
                ),
                r <= i as u64,
            decreases n - i,
        {
            let e = self.entries[i];
            proof {
                lemma_count_take_step(self@, None, Some(chat_id), Some(now - WINDOW_SECONDS), i as int);
            }
            if e.chat_id == chat_id && e.timestamp >= cutoff {
                r += 1;
            }
            i += 1;
        }
        proof {
            assert(self@.take(n as int) =~= self@);
        }
        r
    }

    /// Count of entries by `user_id` in conversation `chat_id` in the
    /// trailing window.
    fn recent_in_chat_by_user(&self, chat_id: i64, user_id: i64, now: i64) -> (r: u64)
        requires
            i64::MIN + WINDOW_SECONDS <= now,
        ensures
            r as nat == chat_user_recent_spec(self@, chat_id, user_id, now),
    {
        let cutoff = now - WINDOW_SECONDS;
        let n = self.entries.len();
        let mut r: u64 = 0;
        let mut i: usize = 0;
        while i < n
            invariant
                i <= n,
                n == self@.len(),
                cutoff == now - WINDOW_SECONDS,
                r as nat == count_matching(
                    self@.take(i as int),
                    Some(user_id),
                    Some(chat_id),
                    Some(now - WINDOW_SECONDS),
                ),
                r <= i as u64,
            decreases n - i,
        {
            let e = self.entries[i];
            proof {
                lemma_count_take_step(
                    self@,
                    Some(user_id),
                    Some(chat_id),
                    Some(now - WINDOW_SECONDS),
                    i as int,
                );
            }
            if e.user_id == user_id && e.chat_id == chat_id && e.timestamp >= cutoff {
                r += 1;
            }
            i += 1;
        }
        proof {
            assert(self@.take(n as int) =~= self@);
        }
        r
    }
}


impl EventLog {
    /// Top users of a conversation by in-window match count: grouped by
    /// user, restricted to the trailing window, ordered by count descending
    /// (ties in an arbitrary but deterministic order), truncated to `limit`
    /// rows.
    pub fn leaderboard(&self, chat_id: i64, now: i64, limit: usize) -> (rows: Vec<LeaderRow>)
        requires
            i64::MIN + WINDOW_SECONDS <= now,
        ensures
            leaderboard_post(self@, chat_id, now, limit as int, rows@),
    {
        let cutoff = now - WINDOW_SECONDS;
        let n = self.entries.len();
        let mut pending: Vec<LeaderRow> = Vec::new();
        let mut i: usize = 0;
        // Gather one row per user with at least one in-window entry here.
        while i < n
            invariant
                i <= n,
                n == self@.len(),
                i64::MIN + WINDOW_SECONDS <= now,
                cutoff == now - WINDOW_SECONDS,
                forall|k: int|
                    0 <= k < pending@.len() ==> (#[trigger] pending@[k]).count as nat
                        == chat_user_recent_spec(self@, chat_id, pending@[k].user_id, now)
                        && pending@[k].count > 0,
                forall|k: int, l: int|
                    0 <= k < l < pending@.len() ==> pending@[k].user_id != pending@[l].user_id,
                forall|k: int|
                    0 <= k < i && entry_matches(
                        #[trigger] self@[k],
                        None,
                        Some(chat_id),
                        Some(now - WINDOW_SECONDS),
                    ) ==> row_user_present(pending@, self@[k].user_id),
            decreases n - i,
        {
            let e = self.entries[i];
            if e.chat_id == chat_id && e.timestamp >= cutoff {
                if !contains_user(&pending, e.user_id) {
                    let c = self.recent_in_chat_by_user(chat_id, e.user_id, now);
                    proof {
                        lemma_count_witness(
                            self@,
                            Some(e.user_id),
                            Some(chat_id),
                            Some(now - WINDOW_SECONDS),
                            i as int,
                        );
                    }
                    let ghost prev = pending@;
                    pending.push(LeaderRow { user_id: e.user_id, count: c });
                    proof {
                        assert(pending@[pending@.len() - 1].user_id == e.user_id);
                        assert forall|u: i64| row_user_present(prev, u) implies row_user_present(
                            pending@,
                            u,
                        ) by {
                            let w = choose|w: int| 0 <= w < prev.len() && prev[w].user_id == u;
                            assert(pending@[w].user_id == u);
                        }
                    }
                }
            }
            i += 1;
        }
        proof {
            // Every user with a positive in-window count here has a row.
            assert forall|u: i64|
                #[trigger] chat_user_recent_spec(self@, chat_id, u, now) > 0 implies
                row_user_present(pending@, u) by {
                lemma_count_zero_iff(
                    self@,
                    Some(u),
                    Some(chat_id),
                    Some(now - WINDOW_SECONDS),
                );
                let w = choose|w: int|
                    0 <= w < self@.len() && entry_matches(
                        self@[w],
                        Some(u),
                        Some(chat_id),
                        Some(now - WINDOW_SECONDS),
                    );
                assert(entry_matches(self@[w], None, Some(chat_id), Some(now - WINDOW_SECONDS)));
                assert(self@[w].user_id == u);
            }
        }
        // Selection sort: bring the largest remaining count to the front of
        // the unsorted suffix, one position at a time.
        let m = pending.len();
        let mut i: usize = 0;
        while i < m
            invariant
                i <= m,
                m == pending@.len(),
                forall|k: int|
                    0 <= k < pending@.len() ==> (#[trigger] pending@[k]).count as nat
                        == chat_user_recent_spec(self@, chat_id, pending@[k].user_id, now)
                        && pending@[k].count > 0,
                forall|k: int, l: int|
                    0 <= k < l < pending@.len() ==> pending@[k].user_id != pending@[l].user_id,
                forall|u: i64|
                    #[trigger] chat_user_recent_spec(self@, chat_id, u, now) > 0
                        ==> row_user_present(pending@, u),
                forall|p: int, q: int|
                    0 <= p < q < i ==> pending@[p].count >= pending@[q].count,
                forall|p: int, q: int|
                    0 <= p < i <= q < m ==> pending@[p].count >= pending@[q].count,
            decreases m - i,
        {
            let ghost before = pending@;
            let mut best: usize = i;
            let mut j: usize = i + 1;
            while j < m
                invariant
                    i <= best < m,
                    i < j <= m,
                    m == pending@.len(),
                    pending@ == before,
                    forall|t: int| i <= t < j ==> pending@[best as int].count >= pending@[t].count,
                decreases m - j,
            {
                if pending[j].count > pending[best].count {
                    best = j;
                }
                j += 1;
            }
            let a = pending[i];
            let b = pending[best];
            pending[best] = a;
            pending[i] = b;
            proof {
                let after = pending@;
                assert(after == before.update(best as int, a).update(i as int, b));
                assert forall|u: i64| row_user_present(before, u) implies row_user_present(
                    after,
                    u,
                ) by {
                    let w = choose|w: int| 0 <= w < before.len() && before[w].user_id == u;
                    if w == i as int {
                        assert(after[best as int].user_id == u);
                    } else if w == best as int {
                        assert(after[i as int].user_id == u);
                    } else {
                        assert(after[w].user_id == u);
                    }
                }
            }
            i += 1;
        }
        // Keep only the leading rows.
        let ghost sorted = pending@;
        if pending.len() > limit {
            pending.truncate(limit);
        }
        proof {
            assert(pending@ == sorted.take(if limit as int <= sorted.len() {
                limit as int
            } else {
                sorted.len() as int
            }));
            assert forall|u: i64|
                #[trigger] chat_user_recent_spec(self@, chat_id, u, now) > 0
                    && !row_user_present(pending@, u) implies pending@.len() == limit as int && (
            pending@.len() > 0 ==> chat_user_recent_spec(self@, chat_id, u, now)
                <= pending@[pending@.len() - 1].count) by {
                let w = choose|w: int| 0 <= w < sorted.len() && sorted[w].user_id == u;
                assert(sorted[w].count as nat == chat_user_recent_spec(self@, chat_id, u, now));
                if w < pending@.len() {
                    assert(pending@[w].user_id == u);
                    assert(false);
                }
                assert(pending@.len() == limit as int);
                if pending@.len() > 0 {
                    assert(sorted[pending@.len() - 1].count >= sorted[w].count);
                    assert(pending@[pending@.len() - 1] == sorted[pending@.len() - 1]);
                }
            }
        }
        pending
    }
}


/// `record` is idempotent: recording the same message event a second time,
/// at any later time, leaves the log exactly as the first recording left
/// it — one entry, with the first call's timestamp.
pub proof fn lemma_record_idempotent(
    s: Seq<LogEntry>,
    msg_id: i64,
    chat_id: i64,
    user_id: i64,
    t1: i64,
    t2: i64,
)
    ensures
        record_spec(
            record_spec(s, msg_id, chat_id, user_id, t1),
            msg_id,
            chat_id,
            user_id,
            t2,
        ) == record_spec(s, msg_id, chat_id, user_id, t1),
{
    let s1 = record_spec(s, msg_id, chat_id, user_id, t1);
    if !has_key(s, msg_id, chat_id) {
        assert(is_key(s1[s.len() as int], msg_id, chat_id));
        assert(has_key(s1, msg_id, chat_id));
    }
}

/// `erase` of an absent key is a no-op: the log is returned unchanged, with
/// no entry removed or created.
pub proof fn lemma_erase_absent_noop(s: Seq<LogEntry>, msg_id: i64, chat_id: i64)
    requires
        !has_key(s, msg_id, chat_id),
    ensures
        erase_spec(s, msg_id, chat_id) == s,
    decreases s.len(),
{
    if s.len() > 0 {
        assert(forall|i: int| 0 <= i < s.len() - 1 ==> s.drop_last()[i] == s[i]);
        assert(!has_key(s.drop_last(), msg_id, chat_id));
        lemma_erase_absent_noop(s.drop_last(), msg_id, chat_id);
        assert(!is_key(s[s.len() - 1], msg_id, chat_id));
        assert(erase_spec(s, msg_id, chat_id) =~= s);
    }
}

/// A user with no entries in the log has zero counts: both the all-time
/// total and the in-window count are 0, for any query time.
pub proof fn lemma_absent_user_zero_counts(s: Seq<LogEntry>, user_id: i64, now: i64)
    requires
        forall|i: int| 0 <= i < s.len() ==> s[i].user_id != user_id,
    ensures
        user_total_spec(s, user_id) == 0,
        user_recent_spec(s, user_id, now) == 0,
{
    lemma_count_zero_iff(s, Some(user_id), None, None);
    lemma_count_zero_iff(s, Some(user_id), None, Some(now - WINDOW_SECONDS));
}

} // verus!
