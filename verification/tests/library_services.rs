use music_manager::matching::{
    candidates_to_store, confidence_to_candidate, decide_match, duration_match_to_candidate,
    is_spotify_track_already_matched, spotify_track_to_track, tally_decisions, unmatched_count,
    version_match_to_candidate, CandidateConfidence, CandidateDurationMatch, CandidateVersionMatch,
    DurationMatch, MatchConfidence, MatchDecision, MatchVerdict, MatcherInputError, VersionMatch,
};
use music_manager::services::{
    pin_poll_step, plex_forward_url, plex_server_access_token, PinPoll, PlexResourceInfo,
    channel_videos_url, get_feed_url, normalize_page, page_offset, paginate_ids, playlist_order,
    plex_tracks_check, plex_tracks_precheck, sync_counts, validate_server_url, PlaylistSortColumn, PlexTracksOutcome,
};
use music_manager::tui::TransferState;
use music_manager::wishlist::{
    attempt_result, due_items, is_due, mark_failed, plan_wishlist_item, readd, retry,
    wishlist_stats, ItemPlan, SpotifyTrackRecord, WishlistItem, WishlistStatus,
};

fn item(id: i64, status: WishlistStatus, next_retry_at: Option<i64>) -> WishlistItem {
    WishlistItem {
        id,
        spotify_track_id: format!("sp{}", id),
        status,
        error_reason: None,
        attempts_count: 0,
        last_attempt_at: None,
        next_retry_at,
        created_at: 0,
    }
}

fn track(artists: &[&str], duration: Option<i64>, local: Option<i64>) -> SpotifyTrackRecord {
    SpotifyTrackRecord {
        spotify_track_id: "sp1".to_string(),
        title: "Song".to_string(),
        artists: artists.iter().map(|a| a.to_string()).collect(),
        album: "Album".to_string(),
        duration,
        local_track_id: local,
    }
}

#[test]
fn wishlist_failure_retries_after_five_minutes() {
    let failed = mark_failed(item(1, WishlistStatus::Pending, None), "nope".to_string(), 1000);
    assert_eq!(failed.status, WishlistStatus::Failed);
    assert_eq!(failed.attempts_count, 1);
    assert_eq!(failed.next_retry_at, Some(1300));
    assert_eq!(failed.error_reason.as_deref(), Some("nope"));
    assert!(!is_due(&failed, 1299));
    assert!(is_due(&failed, 1300));
    let again = retry(failed.clone());
    assert_eq!(again.status, WishlistStatus::Pending);
    assert_eq!(again.next_retry_at, None);
    assert_eq!(readd(item(2, WishlistStatus::Downloading, None)).status, WishlistStatus::Downloading);
    assert_eq!(readd(failed).status, WishlistStatus::Pending);
}

#[test]
fn wishlist_due_and_stats() {
    let items = vec![
        item(1, WishlistStatus::Pending, None),
        item(2, WishlistStatus::Completed, None),
        item(3, WishlistStatus::Failed, Some(50)),
        item(4, WishlistStatus::Failed, None),
        item(5, WishlistStatus::Failed, Some(500)),
    ];
    assert_eq!(due_items(&items, 100), vec![0, 2, 3]);
    let s = wishlist_stats(&items);
    assert_eq!((s.pending, s.completed, s.failed, s.searching), (1, 1, 3, 0));
}

#[test]
fn wishlist_item_plans() {
    match plan_wishlist_item(None) {
        ItemPlan::Fail(m) => assert_eq!(m, "Spotify track not found"),
        _ => panic!(),
    }
    assert!(matches!(plan_wishlist_item(Some(&track(&["A"], Some(1), Some(7)))), ItemPlan::AlreadyMatched));
    match plan_wishlist_item(Some(&track(&["A"], None, None))) {
        ItemPlan::Fail(m) => assert_eq!(m, "Spotify track duration not found"),
        _ => panic!(),
    }
    match plan_wishlist_item(Some(&track(&[], Some(1), None))) {
        ItemPlan::Fail(m) => assert_eq!(m, "No artist found"),
        _ => panic!(),
    }
    match plan_wishlist_item(Some(&track(&["A", "B"], Some(215_999), None))) {
        ItemPlan::Download(q) => {
            assert_eq!(q.artist, "A");
            assert_eq!(q.duration_secs, 215);
            assert_eq!(q.album.as_deref(), Some("Album"));
        }
        _ => panic!(),
    }
    assert_eq!(attempt_result(TransferState::Queued), None);
    assert_eq!(attempt_result(TransferState::Completed), Some(true));
    assert_eq!(attempt_result(TransferState::Cancelled), Some(false));
}

fn verdict(id: i64, c: MatchConfidence) -> MatchVerdict {
    MatchVerdict { local_track_id: id, confidence: c, duration_match: DurationMatch::Close, version_match: VersionMatch::Ambiguous }
}

#[test]
fn matching_conversions_and_candidates() {
    assert_eq!(confidence_to_candidate(&MatchConfidence::Medium), Some(CandidateConfidence::Medium));
    assert_eq!(confidence_to_candidate(&MatchConfidence::NoMatch), None);
    assert_eq!(duration_match_to_candidate(&DurationMatch::Exact), CandidateDurationMatch::Exact);
    assert_eq!(version_match_to_candidate(&VersionMatch::Mismatch), CandidateVersionMatch::Mismatch);
    let vs = vec![
        verdict(1, MatchConfidence::Medium),
        verdict(2, MatchConfidence::NoMatch),
        verdict(3, MatchConfidence::Low),
        verdict(4, MatchConfidence::Low),
        verdict(5, MatchConfidence::Low),
        verdict(6, MatchConfidence::Low),
    ];
    let kept: Vec<i64> = candidates_to_store(&vs).iter().map(|c| c.local_track_id).collect();
    assert_eq!(kept, vec![1, 3, 4, 5]);
    assert_eq!(decide_match(&vs), MatchDecision::Review);
    assert_eq!(decide_match(&vec![verdict(9, MatchConfidence::High)]), MatchDecision::Link(9));
    assert_eq!(decide_match(&vec![]), MatchDecision::Unmatched);
    assert_eq!(
        tally_decisions(&vec![MatchDecision::Link(1), MatchDecision::Review, MatchDecision::Unmatched]),
        (1, 2)
    );
}

#[test]
fn matching_tracks() {
    let ts = vec![track(&["A"], Some(1), None), track(&["A"], Some(1), Some(3))];
    assert_eq!(unmatched_count(&ts), 1);
    assert!(is_spotify_track_already_matched(&ts[1]));
    let t = spotify_track_to_track(&track(&["A", "B", "C"], Some(180_000), None)).unwrap();
    assert_eq!(t.primary_artist, "A");
    assert_eq!(t.secondary_artists, vec!["B".to_string(), "C".to_string()]);
    assert_eq!(t.duration_ms, 180_000);
    assert_eq!(spotify_track_to_track(&track(&[], Some(1), None)).err(), Some(MatcherInputError::NoArtist));
    assert_eq!(spotify_track_to_track(&track(&["A"], None, None)).err(), Some(MatcherInputError::NoDuration));
}

#[test]
fn pagination() {
    assert_eq!(normalize_page(None, None), (1, 25));
    assert_eq!(normalize_page(Some(-3), Some(500)), (1, 100));
    assert_eq!(normalize_page(Some(4), Some(0)), (4, 1));
    assert_eq!(page_offset(3, 25), 50);
    let ids: Vec<i64> = (1..=12).collect();
    assert_eq!(paginate_ids(&ids, 2, 5), vec![6, 7, 8, 9, 10]);
    assert_eq!(paginate_ids(&ids, 3, 5), vec![11, 12]);
    assert!(paginate_ids(&ids, 9, 5).is_empty());
}

#[test]
fn consecutive_pages_are_adjacent() {
    let ids: Vec<i64> = (1..=20).collect();
    let mut two = paginate_ids(&ids, 3, 4);
    two.extend(paginate_ids(&ids, 4, 4));
    assert_eq!(two, paginate_ids(&ids, 2, 8));
    assert_eq!(two, vec![9, 10, 11, 12, 13, 14, 15, 16]);
}

#[test]
fn playlists_and_sync() {
    assert_eq!(playlist_order(None, None), (PlaylistSortColumn::CreatedAt, true));
    assert_eq!(playlist_order(Some("name"), Some("asc")), (PlaylistSortColumn::Name, false));
    assert_eq!(playlist_order(Some("updated_at"), Some("desc")), (PlaylistSortColumn::UpdatedAt, true));
    assert_eq!(playlist_order(Some("bogus"), None), (PlaylistSortColumn::CreatedAt, true));
    let r = sync_counts(&vec![None, Some(1), None], &vec![Some(4), Some(1), None]);
    assert_eq!((r.total_tracks, r.matched_tracks, r.unmatched_tracks, r.new_matches_found), (3, 2, 1, 1));
}

#[test]
fn plex_and_youtube() {
    assert!(matches!(plex_tracks_precheck::<()>(0, true), Some(PlexTracksOutcome::NoServer)));
    assert!(matches!(plex_tracks_precheck::<()>(3, true), Some(PlexTracksOutcome::MultipleServers(3))));
    assert!(matches!(plex_tracks_precheck::<()>(1, false), Some(PlexTracksOutcome::NoToken)));
    assert!(plex_tracks_precheck::<()>(1, true).is_none());
    assert_eq!(get_feed_url("UC123"), "https://www.youtube.com/feeds/videos.xml?channel_id=UC123");
    assert_eq!(channel_videos_url("someone"), "https://www.youtube.com/@someone/videos");
    assert_eq!(channel_videos_url("@someone"), "https://www.youtube.com/@someone/videos");
}

#[test]
fn plex_auth_helpers() {
    let resources = vec![
        PlexResourceInfo { name: "Other".to_string(), access_token: Some("o".to_string()) },
        PlexResourceInfo { name: "Home".to_string(), access_token: Some("h".to_string()) },
        PlexResourceInfo { name: "Home".to_string(), access_token: Some("later".to_string()) },
    ];
    assert_eq!(plex_server_access_token(&resources, &"Home".to_string()), Some("h".to_string()));
    assert_eq!(plex_server_access_token(&resources, &"None".to_string()), None);
    assert_eq!(pin_poll_step(3, None), PinPoll::Wait);
    assert_eq!(pin_poll_step(30, None), PinPoll::TimedOut);
    assert_eq!(pin_poll_step(30, Some("t".to_string())), PinPoll::Claimed("t".to_string()));
    assert_eq!(plex_forward_url("http://localhost:3001"), "http://localhost:3001/plex-auth/callback");
}

#[test]
fn plex_server_addresses_are_checked() {
    assert_eq!(validate_server_url("http://192.168.1.100:32400"), Ok(()));
    assert_eq!(
        validate_server_url("not-a-url"),
        Err("Invalid server URL: relative URL without a base".to_string())
    );
    assert!(plex_tracks_check::<()>(1, true, "http://localhost:32400").is_none());
    match plex_tracks_check::<()>(1, true, "not-a-url") {
        Some(PlexTracksOutcome::Error(m)) => assert!(m.starts_with("Invalid server URL")),
        _ => panic!("an invalid address must be reported"),
    }
    assert!(matches!(plex_tracks_check::<()>(1, false, "not-a-url"), Some(PlexTracksOutcome::NoToken)));
    assert!(matches!(plex_tracks_check::<()>(0, true, "not-a-url"), Some(PlexTracksOutcome::NoServer)));
}
