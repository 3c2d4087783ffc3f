//! The wishlist: Spotify tracks to fetch from Soulseek, each moving through
//! pending, downloading, importing, and completed or failed (with a retry
//! five minutes later).
use vstd::prelude::*;

use crate::tui::TransferState;

verus! {

/// Where a wishlist item stands.
#[derive(Debug, Clone, Copy, PartialEq, Eq, Structural)]
pub enum WishlistStatus {
    Pending,
    Searching,
    Downloading,
    Importing,
    Completed,
    Failed,
}

/// A wishlist item as stored.
#[derive(Debug, Clone, PartialEq, Eq)]
pub struct WishlistItem {
    pub id: i64,
    pub spotify_track_id: String,
    pub status: WishlistStatus,
    pub error_reason: Option<String>,
    pub attempts_count: i32,
    pub last_attempt_at: Option<i64>,
    pub next_retry_at: Option<i64>,
    pub created_at: i64,
}

/// How many items are in each status.
#[derive(Debug, Clone, Copy, PartialEq, Eq, Structural)]
pub struct WishlistStats {
    pub pending: i64,
    pub searching: i64,
    pub downloading: i64,
    pub importing: i64,
    pub completed: i64,
    pub failed: i64,
}

/// A Spotify track as stored, as far as fetching and matching read it.
#[derive(Debug, Clone)]
pub struct SpotifyTrackRecord {
    pub spotify_track_id: String,
    pub title: String,
    pub artists: Vec<String>,
    pub album: String,
    /// Milliseconds.
    pub duration: Option<i64>,
    pub local_track_id: Option<i64>,
}

/// What to look for on Soulseek.
#[derive(Debug, Clone)]
pub struct SongQuery {
    pub title: String,
    pub artist: String,
    pub album: Option<String>,
    pub duration_secs: u32,
}

/// Seconds to wait before retrying a failed item.
pub const RETRY_DELAY_SECS: i64 = 300;

/// Items waiting for work: pending ones, and failed ones whose retry time
/// is unset or has come.
pub open spec fn due(item: WishlistItem, now: i64) -> bool {
    item.status == WishlistStatus::Pending || (item.status == WishlistStatus::Failed && match item.next_retry_at {
        None => true,
        Some(t) => t <= now,
    })
}

/// Whether an item should be worked on at `now`.
pub fn is_due(item: &WishlistItem, now: i64) -> (b: bool)
    ensures
        b == due(*item, now),
{
    match item.status {
        WishlistStatus::Pending => true,
        WishlistStatus::Failed => match item.next_retry_at {
            None => true,
            Some(t) => t <= now,
        },
        _ => false,
    }
}

/// The positions of the due items, in order.
pub open spec fn due_positions(items: Seq<WishlistItem>, now: i64) -> Seq<usize>
    decreases items.len(),
{
    if items.len() == 0 {
        seq![]
    } else if due(items.last(), now) {
        due_positions(items.drop_last(), now).push((items.len() - 1) as usize)
    } else {
        due_positions(items.drop_last(), now)
    }
}

/// The positions of the items to work on at `now`, in order.
pub fn due_items(items: &Vec<WishlistItem>, now: i64) -> (r: Vec<usize>)
    ensures
        r@ == due_positions(items@, now),
{
    let mut r: Vec<usize> = Vec::new();
    for i in 0..items.len()
        invariant
            r@ == due_positions(items@.take(i as int), now),
    {
        assert(items@.take(i + 1).drop_last() == items@.take(i as int));
        if is_due(&items[i], now) {
            r.push(i);
        }
    }
    assert(items@.take(items@.len() as int) == items@);
    r
}

/// The item as it is after being wishlisted again: a completed or failed
/// one starts over as pending, with no error and no retry time; any other
/// is left as it is.
pub fn readd(item: WishlistItem) -> (r: WishlistItem)
    ensures
        if item.status == WishlistStatus::Completed || item.status == WishlistStatus::Failed {
            r == (WishlistItem { status: WishlistStatus::Pending, error_reason: None, next_retry_at: None, ..item })
        } else {
            r == item
        },
{
    if item.status == WishlistStatus::Completed || item.status == WishlistStatus::Failed {
        WishlistItem { status: WishlistStatus::Pending, error_reason: None, next_retry_at: None, ..item }
    } else {
        item
    }
}

/// The item reset for another try: pending, no error, no retry time.
pub fn retry(item: WishlistItem) -> (r: WishlistItem)
    ensures
        r == (WishlistItem { status: WishlistStatus::Pending, error_reason: None, next_retry_at: None, ..item }),
{
    WishlistItem { status: WishlistStatus::Pending, error_reason: None, next_retry_at: None, ..item }
}

/// The item with a new status and error, attempted at `now`.
pub fn with_status(item: WishlistItem, status: WishlistStatus, error_reason: Option<String>, now: i64) -> (r: WishlistItem)
    ensures
        r == (WishlistItem { status, error_reason, last_attempt_at: Some(now), ..item }),
{
    WishlistItem { status, error_reason, last_attempt_at: Some(now), ..item }
}

/// The item failed at `now` for `reason`: one more attempt counted, retry
/// in five minutes.
pub fn mark_failed(item: WishlistItem, reason: String, now: i64) -> (r: WishlistItem)
    requires
        item.attempts_count < i32::MAX,
        now <= i64::MAX - RETRY_DELAY_SECS,
    ensures
        r == (WishlistItem {
            status: WishlistStatus::Failed,
            error_reason: Some(reason),
            attempts_count: (item.attempts_count + 1) as i32,
            last_attempt_at: Some(now),
            next_retry_at: Some((now + RETRY_DELAY_SECS) as i64),
            ..item
        }),
{
    let attempts = item.attempts_count + 1;
    WishlistItem {
        status: WishlistStatus::Failed,
        error_reason: Some(reason),
        attempts_count: attempts,
        last_attempt_at: Some(now),
        next_retry_at: Some(now + RETRY_DELAY_SECS),
        ..item
    }
}

/// A failed item is due again exactly when its five minutes are over.
pub proof fn lemma_failed_item_retry(item: WishlistItem, failed_at: i64, now: i64)
    requires
        item.status == WishlistStatus::Failed,
        item.next_retry_at == Some((failed_at + RETRY_DELAY_SECS) as i64),
        failed_at <= i64::MAX - RETRY_DELAY_SECS,
    ensures
        due(item, now) <==> now >= failed_at + RETRY_DELAY_SECS,
{
}

/// Wishlisting again makes a finished item due at once.
pub proof fn lemma_readd_makes_due(item: WishlistItem, now: i64)
    requires
        item.status == WishlistStatus::Completed || item.status == WishlistStatus::Failed,
    ensures
        due(WishlistItem { status: WishlistStatus::Pending, error_reason: None, next_retry_at: None, ..item }, now),
{
}

/// How many items have a status.
pub open spec fn count_status(items: Seq<WishlistItem>, s: WishlistStatus) -> int
    decreases items.len(),
{
    if items.len() == 0 {
        0
    } else {
        count_status(items.drop_last(), s) + if items.last().status == s { 1int } else { 0int }
    }
}

proof fn lemma_count_status_bounded(items: Seq<WishlistItem>, s: WishlistStatus)
    ensures
        0 <= count_status(items, s) <= items.len(),
    decreases items.len(),
{
    if items.len() > 0 {
        lemma_count_status_bounded(items.drop_last(), s);
    }
}

/// Counts the items in each status.
pub fn wishlist_stats(items: &Vec<WishlistItem>) -> (r: WishlistStats)
    requires
        items@.len() <= i64::MAX,
    ensures
        r.pending == count_status(items@, WishlistStatus::Pending),
        r.searching == count_status(items@, WishlistStatus::Searching),
        r.downloading == count_status(items@, WishlistStatus::Downloading),
        r.importing == count_status(items@, WishlistStatus::Importing),
        r.completed == count_status(items@, WishlistStatus::Completed),
        r.failed == count_status(items@, WishlistStatus::Failed),
{
    let mut st = WishlistStats { pending: 0, searching: 0, downloading: 0, importing: 0, completed: 0, failed: 0 };
    for i in 0..items.len()
        invariant
            items@.len() <= i64::MAX,
            st.pending == count_status(items@.take(i as int), WishlistStatus::Pending),
            st.searching == count_status(items@.take(i as int), WishlistStatus::Searching),
            st.downloading == count_status(items@.take(i as int), WishlistStatus::Downloading),
            st.importing == count_status(items@.take(i as int), WishlistStatus::Importing),
            st.completed == count_status(items@.take(i as int), WishlistStatus::Completed),
            st.failed == count_status(items@.take(i as int), WishlistStatus::Failed),
    {
        let ghost prefix = items@.take(i as int);
        assert(items@.take(i + 1).drop_last() == prefix);
        proof {
            lemma_count_status_bounded(prefix, WishlistStatus::Pending);
            lemma_count_status_bounded(prefix, WishlistStatus::Searching);
            lemma_count_status_bounded(prefix, WishlistStatus::Downloading);
            lemma_count_status_bounded(prefix, WishlistStatus::Importing);
            lemma_count_status_bounded(prefix, WishlistStatus::Completed);
            lemma_count_status_bounded(prefix, WishlistStatus::Failed);
        }
        match items[i].status {
            WishlistStatus::Pending => st.pending = st.pending + 1,
            WishlistStatus::Searching => st.searching = st.searching + 1,
            WishlistStatus::Downloading => st.downloading = st.downloading + 1,
            WishlistStatus::Importing => st.importing = st.importing + 1,
            WishlistStatus::Completed => st.completed = st.completed + 1,
            WishlistStatus::Failed => st.failed = st.failed + 1,
        }
    }
    assert(items@.take(items@.len() as int) == items@);
    st
}

/// The statuses partition the items: the counts add up to the list's length.
pub proof fn lemma_stats_total(items: Seq<WishlistItem>)
    ensures
        count_status(items, WishlistStatus::Pending) + count_status(items, WishlistStatus::Searching)
            + count_status(items, WishlistStatus::Downloading) + count_status(items, WishlistStatus::Importing)
            + count_status(items, WishlistStatus::Completed) + count_status(items, WishlistStatus::Failed)
            == items.len(),
    decreases items.len(),
{
    if items.len() > 0 {
        lemma_stats_total(items.drop_last());
    }
}

// ----------------------------------------------------------------------
// Working on one item
// ----------------------------------------------------------------------

/// What to do with a due item.
#[derive(Debug, Clone)]
pub enum ItemPlan {
    /// Mark it failed for this reason.
    Fail(String),
    /// The track is already in the library: mark it completed.
    AlreadyMatched,
    /// Download this, then import it.
    Download(SongQuery),
}

/// The Soulseek query for a Spotify track: its title, first artist (empty
/// when there is none) and album, and its duration in whole seconds
/// (0 when unknown; the milliseconds are read as a `u32`, as stored).
pub open spec fn query_fields(t: SpotifyTrackRecord) -> (Seq<char>, Seq<char>, Seq<char>, u32) {
    (
        t.title@,
        if t.artists@.len() > 0 { t.artists@[0]@ } else { Seq::empty() },
        t.album@,
        ((match t.duration { Some(d) => d, None => 0 }) as u32 / 1000) as u32,
    )
}

/// The Soulseek query for a Spotify track (see `query_fields`).
pub fn song_query_for(t: &SpotifyTrackRecord) -> (q: SongQuery)
    ensures
        q.title@ == query_fields(*t).0,
        q.artist@ == query_fields(*t).1,
        q.album matches Some(a) && a@ == query_fields(*t).2,
        q.duration_secs == query_fields(*t).3,
{
    let artist = if t.artists.len() > 0 { t.artists[0].clone() } else { String::new() };
    let d: i64 = match t.duration {
        Some(d) => d,
        None => 0,
    };
    SongQuery { title: t.title.clone(), artist, album: Some(t.album.clone()), duration_secs: (d as u32) / 1000 }
}

/// Decides what to do with a due item, given its Spotify track if one was
/// found: fail when the track, its duration or its artist is missing;
/// complete when it is already matched; otherwise download it.
pub fn plan_wishlist_item(track: Option<&SpotifyTrackRecord>) -> (r: ItemPlan)
    ensures
        match track {
            None => r matches ItemPlan::Fail(m) && m@ == "Spotify track not found"@,
            Some(t) => if t.local_track_id is Some {
                r matches ItemPlan::AlreadyMatched
            } else if t.duration is None {
                r matches ItemPlan::Fail(m) && m@ == "Spotify track duration not found"@
            } else if t.artists@.len() == 0 {
                r matches ItemPlan::Fail(m) && m@ == "No artist found"@
            } else {
                r matches ItemPlan::Download(q) && q.title@ == query_fields(*t).0 && q.artist@ == query_fields(*t).1
                    && (q.album matches Some(a) && a@ == query_fields(*t).2) && q.duration_secs == query_fields(*t).3
            },
        },
{
    match track {
        None => ItemPlan::Fail("Spotify track not found".to_owned()),
        Some(t) => {
            if t.local_track_id.is_some() {
                ItemPlan::AlreadyMatched
            } else if t.duration.is_none() {
                ItemPlan::Fail("Spotify track duration not found".to_owned())
            } else if t.artists.len() == 0 {
                ItemPlan::Fail("No artist found".to_owned())
            } else {
                ItemPlan::Download(song_query_for(t))
            }
        },
    }
}

/// What a transfer state means for one download attempt: still running
/// (`None`), succeeded (`Some(true)`) or failed, so that the next candidate
/// is tried (`Some(false)`).
pub fn attempt_result(state: TransferState) -> (r: Option<bool>)
    ensures
        r == match state {
            TransferState::Queued | TransferState::InProgress { .. } => None,
            TransferState::Completed => Some(true),
            _ => Some(false),
        },
{
    match state {
        TransferState::Queued => None,
        TransferState::InProgress { .. } => None,
        TransferState::Completed => Some(true),
        _ => Some(false),
    }
}

} // verus!
