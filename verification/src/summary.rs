//! Daily timeline entries and the per-date cache of daily summaries.
use vstd::prelude::*;
use crate::idle::elapsed;

verus! {

/// One window-log row of a daily summary, joined with its matter.
#[derive(Debug, Clone)]
pub struct TimelineEntry {
    pub id: i64,
    pub timestamp: i64,
    pub app_name: String,
    pub window_title: String,
    pub duration_ms: i64,
    pub is_idle: bool,
    pub is_approved: bool,
    pub matter_id: Option<i64>,
    pub matter_code: Option<String>,
    pub client_name: Option<String>,
}

fn copy_opt_string(s: &Option<String>) -> (r: Option<String>)
    ensures
        r == *s,
{
    match s {
        Some(t) => Some(t.clone()),
        None => None,
    }
}

impl TimelineEntry {
    /// An entry from the columns of a summary query row; the idle and
    /// approved columns hold 1 for true.
    pub fn from_columns(
        id: i64,
        timestamp: i64,
        app_name: String,
        window_title: String,
        duration_ms: i64,
        idle_column: i32,
        approved_column: i32,
        matter_id: Option<i64>,
        matter_code: Option<String>,
        client_name: Option<String>,
    ) -> (r: Self)
        ensures
            r == (TimelineEntry {
                id,
                timestamp,
                app_name,
                window_title,
                duration_ms,
                is_idle: idle_column == 1,
                is_approved: approved_column == 1,
                matter_id,
                matter_code,
                client_name,
            }),
    {
        TimelineEntry {
            id,
            timestamp,
            app_name,
            window_title,
            duration_ms,
            is_idle: idle_column == 1,
            is_approved: approved_column == 1,
            matter_id,
            matter_code,
            client_name,
        }
    }

    /// A field-by-field copy.
    pub fn copy(&self) -> (r: Self)
        ensures
            r == *self,
    {
        TimelineEntry {
            id: self.id,
            timestamp: self.timestamp,
            app_name: self.app_name.clone(),
            window_title: self.window_title.clone(),
            duration_ms: self.duration_ms,
            is_idle: self.is_idle,
            is_approved: self.is_approved,
            matter_id: self.matter_id,
            matter_code: copy_opt_string(&self.matter_code),
            client_name: copy_opt_string(&self.client_name),
        }
    }
}

/// A copy of each entry, in order.
pub fn copy_entries(entries: &Vec<TimelineEntry>) -> (r: Vec<TimelineEntry>)
    ensures
        r@ == entries@,
{
    let mut r: Vec<TimelineEntry> = Vec::new();
    let mut i: usize = 0;
    while i < entries.len()
        invariant
            i <= entries.len(),
            r@ == entries@.take(i as int),
        decreases entries.len() - i,
    {
        r.push(entries[i].copy());
        i = i + 1;
        assert(r@ =~= entries@.take(i as int));
    }
    assert(entries@.take(entries.len() as int) =~= entries@);
    r
}

/// A client matter to insert (`id` is `None`) or to update.
#[derive(Debug)]
pub struct MatterInput {
    pub id: Option<i64>,
    pub code: String,
    pub client_name: String,
    pub keywords: Vec<String>,
    pub rate_cents: i64,
}

/// The entries of one day's summary and when they were read.
#[derive(Debug)]
pub struct CachedSummary {
    pub entries: Vec<TimelineEntry>,
    /// Monotonic clock reading (nanoseconds) when the entries were read.
    pub timestamp: u64,
}

/// How long a cached summary is served, in nanoseconds (30 s).
pub const SUMMARY_TTL_NS: u64 = 30_000_000_000;

/// Model of a cached summary: its entries and its timestamp.
pub open spec fn cached_view(c: CachedSummary) -> (Seq<TimelineEntry>, u64) {
    (c.entries@, c.timestamp)
}

/// The map from date to cached summary that a list of pairs represents.
pub open spec fn map_of(s: Seq<(String, CachedSummary)>) -> Map<Seq<char>, (Seq<TimelineEntry>, u64)>
    decreases s.len(),
{
    if s.len() == 0 {
        Map::empty()
    } else {
        map_of(s.drop_last()).insert(s.last().0@, cached_view(s.last().1))
    }
}

/// No date occurs twice.
pub open spec fn distinct_dates(s: Seq<(String, CachedSummary)>) -> bool {
    forall|i: int, j: int| 0 <= i < j < s.len() ==> s[i].0@ != s[j].0@
}

/// What a lookup of `date` at clock reading `now` serves: the cached
/// entries when there are some and they are less than 30 s old.
pub open spec fn fresh_lookup(
    m: Map<Seq<char>, (Seq<TimelineEntry>, u64)>,
    date: Seq<char>,
    now: u64,
) -> Option<Seq<TimelineEntry>> {
    if m.contains_key(date) && elapsed(m[date].1, now) < SUMMARY_TTL_NS {
        Some(m[date].0)
    } else {
        None
    }
}

proof fn lemma_map_of_domain(s: Seq<(String, CachedSummary)>, k: Seq<char>)
    ensures
        map_of(s).contains_key(k) <==> exists|i: int| 0 <= i < s.len() && #[trigger] s[i].0@ == k,
    decreases s.len(),
{
    if s.len() > 0 {
        lemma_map_of_domain(s.drop_last(), k);
        if map_of(s).contains_key(k) && s.last().0@ != k {
            let i = choose|i: int| 0 <= i < s.len() - 1 && #[trigger] s.drop_last()[i].0@ == k;
            assert(s[i].0@ == k);
        }
        if exists|i: int| 0 <= i < s.len() && #[trigger] s[i].0@ == k {
            let i = choose|i: int| 0 <= i < s.len() && #[trigger] s[i].0@ == k;
            if i < s.len() - 1 {
                assert(s.drop_last()[i].0@ == k);
            }
        }
    }
}

proof fn lemma_map_of_at(s: Seq<(String, CachedSummary)>, i: int)
    requires
        distinct_dates(s),
        0 <= i < s.len(),
    ensures
        map_of(s).contains_key(s[i].0@),
        map_of(s)[s[i].0@] == cached_view(s[i].1),
    decreases s.len(),
{
    if i < s.len() - 1 {
        lemma_map_of_at(s.drop_last(), i);
        assert(s.drop_last()[i] == s[i]);
    }
}

proof fn lemma_map_of_update(s: Seq<(String, CachedSummary)>, i: int, x: (String, CachedSummary))
    requires
        distinct_dates(s),
        0 <= i < s.len(),
        x.0@ == s[i].0@,
    ensures
        map_of(s.update(i, x)) == map_of(s).insert(x.0@, cached_view(x.1)),
    decreases s.len(),
{
    if i == s.len() - 1 {
        assert(s.update(i, x).drop_last() =~= s.drop_last());
        assert(map_of(s.update(i, x)) =~= map_of(s).insert(x.0@, cached_view(x.1)));
    } else {
        lemma_map_of_update(s.drop_last(), i, x);
        assert(s.update(i, x).drop_last() =~= s.drop_last().update(i, x));
        assert(s.last().0@ != x.0@);
        assert(map_of(s.update(i, x)) =~= map_of(s).insert(x.0@, cached_view(x.1)));
    }
}

/// Daily summaries by date (`YYYY-MM-DD`), each with the time it was read.
pub struct SummaryCache {
    entries: Vec<(String, CachedSummary)>,
}

impl View for SummaryCache {
    type V = Map<Seq<char>, (Seq<TimelineEntry>, u64)>;

    /// The cached summaries by date.
    closed spec fn view(&self) -> Map<Seq<char>, (Seq<TimelineEntry>, u64)> {
        map_of(self.entries@)
    }
}

impl SummaryCache {

    /// The cache holds each date once.
    #[verifier::type_invariant]
    closed spec fn wf(&self) -> bool {
        distinct_dates(self.entries@)
    }

    /// An empty cache.
    pub fn new() -> (r: Self)
        ensures
            r.view() == Map::<Seq<char>, (Seq<TimelineEntry>, u64)>::empty(),
    {
        SummaryCache { entries: Vec::new() }
    }

    fn find(&self, date: &str) -> (r: Option<usize>)
        requires
            self.wf(),
        ensures
            match r {
                Some(i) => i < self.entries@.len() && self.entries@[i as int].0@ == date@,
                None => !self.view().contains_key(date@),
            },
    {
        let wanted = String::from_str(date);
        let mut i: usize = 0;
        while i < self.entries.len()
            invariant
                wanted@ == date@,
                i <= self.entries@.len(),
                forall|k: int| 0 <= k < i ==> self.entries@[k].0@ != date@,
            decreases self.entries.len() - i,
        {
            if self.entries[i].0 == wanted {
                return Some(i);
            }
            i = i + 1;
        }
        proof {
            lemma_map_of_domain(self.entries@, date@);
        }
        None
    }

    /// The entries cached for `date`, copied, when they were read less than
    /// 30 s before the clock reading `now`; otherwise `None`.
    pub fn fresh(&self, date: &str, now: u64) -> (r: Option<Vec<TimelineEntry>>)
        ensures
            match r {
                Some(v) => fresh_lookup(self.view(), date@, now) == Some(v@),
                None => fresh_lookup(self.view(), date@, now) is None,
            },
    {
        proof {
            use_type_invariant(self);
        }
        match self.find(date) {
            Some(i) => {
                proof {
                    lemma_map_of_at(self.entries@, i as int);
                }
                let cached = &self.entries[i].1;
                let age: u64 = if now >= cached.timestamp {
                    now - cached.timestamp
                } else {
                    0
                };
                if age < SUMMARY_TTL_NS {
                    Some(copy_entries(&cached.entries))
                } else {
                    None
                }
            },
            None => None,
        }
    }

    /// Caches `entries` for `date`, read at clock reading `now`, replacing
    /// what was cached for that date.
    pub fn store(&mut self, date: String, entries: Vec<TimelineEntry>, now: u64)
        ensures
            final(self).view() == old(self).view().insert(date@, (entries@, now)),
    {
        proof {
            use_type_invariant(&*self);
        }
        let ghost key = date@;
        let ghost old_entries = self.entries@;
        let item = (date, CachedSummary { entries, timestamp: now });
        let found = self.find(item.0.as_str());
        let mut list: Vec<(String, CachedSummary)> = Vec::new();
        std::mem::swap(&mut list, &mut self.entries);
        assert(list@ == old_entries);
        match found {
            Some(i) => {
                proof {
                    lemma_map_of_update(list@, i as int, item);
                }
                list.set(i, item);
                assert forall|a: int, b: int| 0 <= a < b < list@.len() implies list@[a].0@
                    != list@[b].0@ by {
                    assert(old_entries[a].0@ != old_entries[b].0@);
                }
            },
            None => {
                proof {
                    lemma_map_of_domain(list@, key);
                }
                list.push(item);
                assert(list@.drop_last() =~= old_entries);
                assert forall|a: int, b: int| 0 <= a < b < list@.len() implies list@[a].0@
                    != list@[b].0@ by {
                    if b == list@.len() - 1 {
                        assert(old_entries[a].0@ != key);
                    }
                }
            },
        }
        self.entries = list;
    }
}

/// Only stored dates are served, and only while younger than 30 s: a date
/// with no entry is never served, and a stored one is served (with exactly
/// its stored entries) exactly when less than 30 s passed since it was read.
pub proof fn lemma_fresh_serves_only_stored(
    m: Map<Seq<char>, (Seq<TimelineEntry>, u64)>,
    date: Seq<char>,
    now: u64,
)
    ensures
        !m.contains_key(date) ==> fresh_lookup(m, date, now) is None,
        m.contains_key(date) ==> (fresh_lookup(m, date, now) is Some <==> (if now >= m[date].1 {
            now - m[date].1
        } else {
            0
        }) < 30_000_000_000),
        fresh_lookup(m, date, now) matches Some(e) ==> m.contains_key(date) && e == m[date].0,
        fresh_lookup(Map::<Seq<char>, (Seq<TimelineEntry>, u64)>::empty(), date, now) is None,
{
}

/// A lookup right after storing `entries` for `date` at `stored_at` serves
/// those entries while they are less than 30 s old, and nothing after that.
pub proof fn lemma_read_after_store(
    m: Map<Seq<char>, (Seq<TimelineEntry>, u64)>,
    date: Seq<char>,
    entries: Seq<TimelineEntry>,
    stored_at: u64,
    now: u64,
)
    ensures
        fresh_lookup(m.insert(date, (entries, stored_at)), date, now) == (if elapsed(stored_at, now)
            < SUMMARY_TTL_NS {
            Some(entries)
        } else {
            None
        }),
{
}

/// Storing a summary for one date leaves the lookups of every other date
/// unchanged.
pub proof fn lemma_store_keeps_other_dates(
    m: Map<Seq<char>, (Seq<TimelineEntry>, u64)>,
    date: Seq<char>,
    other: Seq<char>,
    entries: Seq<TimelineEntry>,
    stored_at: u64,
    now: u64,
)
    requires
        other != date,
    ensures
        fresh_lookup(m.insert(date, (entries, stored_at)), other, now) == fresh_lookup(m, other, now),
{
}

} // verus!
