//! Decisions of the library services that do not need the database:
//! pagination, playlist ordering, sync counts, Plex preconditions and
//! YouTube feed addresses.
use vstd::prelude::*;

use crate::text::{chars_of, extend_chars, starts_with_exec, starts_with, string_of};

verus! {

// ----------------------------------------------------------------------
// Pagination
// ----------------------------------------------------------------------

/// One page of a listing, with the size of the whole listing.
#[derive(Debug, Clone)]
pub struct PaginatedResult<T> {
    pub items: Vec<T>,
    pub total_count: u64,
    pub page: usize,
    pub page_size: usize,
}

/// The page asked for (first page when absent, at least 1) and its size
/// (25 when absent, between 1 and 100).
pub open spec fn page_params(page: Option<i32>, page_size: Option<i32>) -> (int, int) {
    let p = match page { Some(p) => p as int, None => 1 };
    let s = match page_size { Some(s) => s as int, None => 25 };
    (if p < 1 { 1 } else { p }, if s < 1 { 1 } else if s > 100 { 100 } else { s })
}

/// Normalises the requested page and page size.
pub fn normalize_page(page: Option<i32>, page_size: Option<i32>) -> (r: (usize, usize))
    ensures
        r.0 == page_params(page, page_size).0,
        r.1 == page_params(page, page_size).1,
        r.0 >= 1 && 1 <= r.1 <= 100,
{
    let p: i32 = match page {
        Some(p) => p,
        None => 1,
    };
    let s: i32 = match page_size {
        Some(s) => s,
        None => 25,
    };
    let p = if p < 1 { 1 } else { p };
    let s = if s < 1 { 1 } else if s > 100 { 100 } else { s };
    (p as usize, s as usize)
}

/// How many items come before a page.
pub fn page_offset(page: usize, page_size: usize) -> (r: usize)
    requires
        (if page >= 1 { page - 1 } else { 0 }) * page_size <= usize::MAX,
    ensures
        r == (if page >= 1 { page - 1 } else { 0 }) * page_size,
{
    let before = if page >= 1 { page - 1 } else { 0 };
    before * page_size
}

/// The items of one page: `page_size` items after the first `offset`.
pub open spec fn page_slice(ids: Seq<i64>, offset: int, page_size: int) -> Seq<i64> {
    let start = if offset < ids.len() { offset } else { ids.len() as int };
    let end = if start + page_size < ids.len() { start + page_size } else { ids.len() as int };
    ids.subrange(start, end)
}

/// The identifiers on one page of a list.
pub fn paginate_ids(ids: &Vec<i64>, page: usize, page_size: usize) -> (r: Vec<i64>)
    requires
        (if page >= 1 { page - 1 } else { 0 }) * page_size <= usize::MAX,
    ensures
        r@ == page_slice(ids@, (if page >= 1 { page - 1 } else { 0 }) * page_size, page_size as int),
{
    let offset = page_offset(page, page_size);
    let start = if offset < ids.len() { offset } else { ids.len() };
    let end = if page_size < ids.len() - start { start + page_size } else { ids.len() };
    let mut r: Vec<i64> = Vec::new();
    let mut i = start;
    while i < end
        invariant
            start <= i <= end <= ids@.len(),
            r@ == ids@.subrange(start as int, i as int),
        decreases end - i,
    {
        r.push(ids[i]);
        i = i + 1;
    }
    r
}

/// Consecutive pages do not overlap and leave no gap: page `p` followed by
/// page `p + 1` is the run of twice the page size that starts at page `p`.
pub proof fn lemma_pages_adjacent(ids: Seq<i64>, page: int, page_size: int)
    requires
        page >= 1,
        page_size >= 1,
    ensures
        page_slice(ids, (page - 1) * page_size, page_size) + page_slice(ids, page * page_size, page_size)
            == page_slice(ids, (page - 1) * page_size, 2 * page_size),
{
    let o = (page - 1) * page_size;
    assert(page * page_size == o + page_size) by (nonlinear_arith)
        requires
            o == (page - 1) * page_size,
    ;
    assert(o >= 0) by (nonlinear_arith)
        requires
            page >= 1,
            page_size >= 1,
            o == (page - 1) * page_size,
    ;
    assert(page_slice(ids, o, page_size) + page_slice(ids, o + page_size, page_size)
        =~= page_slice(ids, o, 2 * page_size));
}

// ----------------------------------------------------------------------
// Playlists
// ----------------------------------------------------------------------

/// The column playlists are ordered by.
#[derive(Debug, Clone, Copy, PartialEq, Eq, Structural)]
pub enum PlaylistSortColumn {
    Name,
    UpdatedAt,
    CreatedAt,
}

/// The ordering asked for: by "name", "updated_at" or (otherwise)
/// creation time; descending unless the order given is not "desc"
/// (descending when none is given).
pub open spec fn playlist_order_spec(sort_by: Option<Seq<char>>, sort_order: Option<Seq<char>>) -> (PlaylistSortColumn, bool) {
    let by = match sort_by { Some(s) => s, None => "created_at"@ };
    let order = match sort_order { Some(s) => s, None => "desc"@ };
    let col = if by == "name"@ {
        PlaylistSortColumn::Name
    } else if by == "updated_at"@ {
        PlaylistSortColumn::UpdatedAt
    } else {
        PlaylistSortColumn::CreatedAt
    };
    (col, order == "desc"@)
}

fn same_text(a: &str, b: &str) -> (r: bool)
    ensures
        r == (a@ == b@),
{
    let x = chars_of(a);
    let y = chars_of(b);
    if x.len() != y.len() {
        return false;
    }
    for i in 0..x.len()
        invariant
            x@ == a@,
            y@ == b@,
            x@.len() == y@.len(),
            forall|k: int| 0 <= k < i ==> x@[k] == y@[k],
    {
        if x[i] != y[i] {
            return false;
        }
    }
    assert(x@ == y@);
    true
}

/// The column and direction (`true` for descending) to order playlists by.
pub fn playlist_order(sort_by: Option<&str>, sort_order: Option<&str>) -> (r: (PlaylistSortColumn, bool))
    ensures
        r == playlist_order_spec(
            match sort_by { Some(s) => Some(s@), None => None },
            match sort_order { Some(s) => Some(s@), None => None },
        ),
{
    let by = match sort_by {
        Some(s) => s,
        None => "created_at",
    };
    let order = match sort_order {
        Some(s) => s,
        None => "desc",
    };
    let col = if same_text(by, "name") {
        PlaylistSortColumn::Name
    } else if same_text(by, "updated_at") {
        PlaylistSortColumn::UpdatedAt
    } else {
        PlaylistSortColumn::CreatedAt
    };
    (col, same_text(order, "desc"))
}

// ----------------------------------------------------------------------
// Syncing a Spotify playlist into a local one
// ----------------------------------------------------------------------

/// The counts reported after syncing a Spotify playlist.
#[derive(Debug, Clone, Copy, PartialEq, Eq, Structural)]
pub struct SyncSpotifyPlaylistToLocalResult {
    pub total_tracks: i64,
    pub matched_tracks: i64,
    pub unmatched_tracks: i64,
    pub new_matches_found: i64,
}

/// How many tracks are linked to a local track.
pub open spec fn count_linked(links: Seq<Option<i64>>) -> int
    decreases links.len(),
{
    if links.len() == 0 {
        0
    } else {
        count_linked(links.drop_last()) + if links.last() is Some { 1int } else { 0int }
    }
}

proof fn lemma_count_linked_bounded(links: Seq<Option<i64>>)
    ensures
        0 <= count_linked(links) <= links.len(),
    decreases links.len(),
{
    if links.len() > 0 {
        lemma_count_linked_bounded(links.drop_last());
    }
}

fn linked_count(links: &Vec<Option<i64>>) -> (r: u64)
    ensures
        r == count_linked(links@),
{
    let mut c: u64 = 0;
    for i in 0..links.len()
        invariant
            c == count_linked(links@.take(i as int)),
            c <= i,
    {
        assert(links@.take(i + 1).drop_last() == links@.take(i as int));
        proof {
            lemma_count_linked_bounded(links@.take(i as int));
        }
        if links[i].is_some() {
            c = c + 1;
        }
    }
    assert(links@.take(links@.len() as int) == links@);
    c
}

/// The counts after a sync, from each track's local link before and after
/// matching: all tracks, those linked now, those not, and how many more
/// are linked than before.
pub fn sync_counts(before: &Vec<Option<i64>>, after: &Vec<Option<i64>>) -> (r: SyncSpotifyPlaylistToLocalResult)
    requires
        before@.len() == after@.len(),
        after@.len() <= i64::MAX,
    ensures
        r.total_tracks == after@.len(),
        r.matched_tracks == count_linked(after@),
        r.unmatched_tracks == after@.len() - count_linked(after@),
        r.new_matches_found == count_linked(after@) - count_linked(before@),
        r.matched_tracks + r.unmatched_tracks == r.total_tracks,
{
    let total = after.len() as i64;
    let prev = linked_count(before);
    let now = linked_count(after);
    proof {
        lemma_count_linked_bounded(before@);
        lemma_count_linked_bounded(after@);
    }
    SyncSpotifyPlaylistToLocalResult {
        total_tracks: total,
        matched_tracks: now as i64,
        unmatched_tracks: total - now as i64,
        new_matches_found: now as i64 - prev as i64,
    }
}

// ----------------------------------------------------------------------
// Plex
// ----------------------------------------------------------------------

/// Outcome of asking for the Plex library's tracks.
#[derive(Debug, Clone)]
pub enum PlexTracksOutcome<C> {
    Success(C),
    NoServer,
    MultipleServers(usize),
    NoToken,
    Error(String),
}

/// Whether the tracks can be fetched: exactly one server, with a token.
/// `None` means go ahead; otherwise the outcome to report.
pub fn plex_tracks_precheck<C>(server_count: usize, has_token: bool) -> (r: Option<PlexTracksOutcome<C>>)
    ensures
        server_count == 0 ==> r matches Some(PlexTracksOutcome::NoServer),
        server_count > 1 ==> (r matches Some(PlexTracksOutcome::MultipleServers(n)) && n == server_count),
        server_count == 1 && !has_token ==> r matches Some(PlexTracksOutcome::NoToken),
        server_count == 1 && has_token ==> r is None,
{
    if server_count == 0 {
        Some(PlexTracksOutcome::NoServer)
    } else if server_count > 1 {
        Some(PlexTracksOutcome::MultipleServers(server_count))
    } else if !has_token {
        Some(PlexTracksOutcome::NoToken)
    } else {
        None
    }
}

/// The message `url::Url::parse` gives for an address it refuses (its
/// `ParseError` shown as text), or none when it accepts the address.
pub uninterp spec fn url_parse_error_text(s: Seq<char>) -> Option<Seq<char>>;

/// `url::Url::parse(s)`: claims the result is `url_parse_error_text(s)`,
/// the refusal shown as text.
#[verifier::external_body]
fn url_parse_error(s: &str) -> (r: Option<String>)
    ensures
        match (r, url_parse_error_text(s@)) {
            (None, None) => true,
            (Some(e), Some(t)) => e@ == t,
            _ => false,
        },
{
    match url::Url::parse(s) {
        Ok(_) => None,
        Err(e) => Some(e.to_string()),
    }
}

/// The answer to an address the URL parser refuses.
pub open spec fn invalid_url_message(s: Seq<char>) -> Option<Seq<char>> {
    match url_parse_error_text(s) {
        None => None,
        Some(t) => Some("Invalid server URL: "@ + t),
    }
}

/// Checks a Plex server address: `Err` with "Invalid server URL: " and
/// the parser's message when `url` refuses it.
pub fn validate_server_url(server_url: &str) -> (r: Result<(), String>)
    ensures
        match (r, invalid_url_message(server_url@)) {
            (Ok(()), None) => true,
            (Err(m), Some(t)) => m@ == t,
            _ => false,
        },
{
    match url_parse_error(server_url) {
        None => Ok(()),
        Some(e) => Err("Invalid server URL: ".to_owned().concat(e.as_str())),
    }
}

/// Whether the tracks can be fetched: exactly one server, with a token and
/// an address the URL parser accepts. `None` means go ahead; otherwise the
/// outcome to report.
pub fn plex_tracks_check<C>(server_count: usize, has_token: bool, server_url: &str) -> (r: Option<PlexTracksOutcome<C>>)
    ensures
        server_count == 0 ==> r matches Some(PlexTracksOutcome::NoServer),
        server_count > 1 ==> (r matches Some(PlexTracksOutcome::MultipleServers(n)) && n == server_count),
        server_count == 1 && !has_token ==> r matches Some(PlexTracksOutcome::NoToken),
        server_count == 1 && has_token ==> match invalid_url_message(server_url@) {
            Some(t) => r matches Some(PlexTracksOutcome::Error(m)) && m@ == t,
            None => r is None,
        },
{
    match plex_tracks_precheck(server_count, has_token) {
        Some(o) => Some(o),
        None => match validate_server_url(server_url) {
            Ok(()) => None,
            Err(m) => Some(PlexTracksOutcome::Error(m)),
        },
    }
}

/// A Plex resource as far as authentication reads it.
#[derive(Debug, Clone)]
pub struct PlexResourceInfo {
    pub name: String,
    pub access_token: Option<String>,
}

/// The access token of the first resource named like the server (none
/// when that resource has no token or no resource has the name).
pub open spec fn server_token(resources: Seq<PlexResourceInfo>, name: Seq<char>) -> Option<Seq<char>>
    decreases resources.len(),
{
    if resources.len() == 0 {
        None
    } else if resources[0].name@ == name {
        match resources[0].access_token {
            Some(t) => Some(t@),
            None => None,
        }
    } else {
        server_token(resources.drop_first(), name)
    }
}

/// The access token for the server named `name` among the resources of a
/// Plex account.
pub fn plex_server_access_token(resources: &Vec<PlexResourceInfo>, name: &String) -> (r: Option<String>)
    ensures
        match (r, server_token(resources@, name@)) {
            (None, None) => true,
            (Some(t), Some(u)) => t@ == u,
            _ => false,
        },
{
    let mut i: usize = 0;
    assert(resources@.skip(0) == resources@);
    while i < resources.len()
        invariant
            i <= resources@.len(),
            server_token(resources@, name@) == server_token(resources@.skip(i as int), name@),
        decreases resources@.len() - i,
    {
        assert(resources@.skip(i as int).drop_first() == resources@.skip(i + 1));
        if resources[i].name == *name {
            return match &resources[i].access_token {
                Some(t) => Some(t.clone()),
                None => None,
            };
        }
        i = i + 1;
    }
    None
}

/// How many times a Plex PIN is polled, a second apart.
pub const PLEX_PIN_POLLS: u32 = 30;

/// What to do after polling a PIN for the `attempt`-th time (from 1).
#[derive(Debug, Clone, PartialEq, Eq)]
pub enum PinPoll {
    /// The PIN was claimed: this is the user's token.
    Claimed(String),
    /// Wait a second and poll again.
    Wait,
    /// Thirty polls without a claim.
    TimedOut,
}

/// The next step of PIN polling, given the attempt number and what the
/// poll returned.
pub fn pin_poll_step(attempt: u32, token: Option<String>) -> (r: PinPoll)
    ensures
        match token {
            Some(t) => r == PinPoll::Claimed(t),
            None => if attempt < PLEX_PIN_POLLS { r == PinPoll::Wait } else { r == PinPoll::TimedOut },
        },
{
    match token {
        Some(t) => PinPoll::Claimed(t),
        None => if attempt < PLEX_PIN_POLLS {
            PinPoll::Wait
        } else {
            PinPoll::TimedOut
        },
    }
}

/// Where Plex sends the user back after authorising.
pub fn plex_forward_url(base_url: &str) -> (r: String)
    ensures
        r@ == base_url@ + "/plex-auth/callback"@,
{
    let mut v = chars_of(base_url);
    extend_chars(&mut v, &chars_of("/plex-auth/callback"));
    string_of(&v)
}

// ----------------------------------------------------------------------
// YouTube
// ----------------------------------------------------------------------

/// The RSS feed of a channel.
pub open spec fn feed_url(channel_id: Seq<char>) -> Seq<char> {
    "https://www.youtube.com/feeds/videos.xml?channel_id="@ + channel_id
}

/// The RSS feed address of a channel.
pub fn get_feed_url(channel_id: &str) -> (r: String)
    ensures
        r@ == feed_url(channel_id@),
{
    let mut v = chars_of("https://www.youtube.com/feeds/videos.xml?channel_id=");
    extend_chars(&mut v, &chars_of(channel_id));
    string_of(&v)
}

/// A channel handle: the user name with a leading `@` (added when missing).
pub open spec fn channel_handle(username: Seq<char>) -> Seq<char> {
    if starts_with(username, "@"@) {
        username
    } else {
        "@"@ + username
    }
}

/// The page listing a channel's videos.
pub open spec fn videos_page_url(username: Seq<char>) -> Seq<char> {
    "https://www.youtube.com/"@ + channel_handle(username) + "/videos"@
}

/// The address of a channel's video page, from its user name or handle.
pub fn channel_videos_url(username: &str) -> (r: String)
    ensures
        r@ == videos_page_url(username@),
{
    let name = chars_of(username);
    let mut v = chars_of("https://www.youtube.com/");
    if !starts_with_exec(&name, &chars_of("@")) {
        extend_chars(&mut v, &chars_of("@"));
    }
    extend_chars(&mut v, &name);
    extend_chars(&mut v, &chars_of("/videos"));
    string_of(&v)
}

} // verus!
