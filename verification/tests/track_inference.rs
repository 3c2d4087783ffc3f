use music_manager::inference::{
    contains_ignore_case, get_file_name_without_ext_slsk, infer_track_from_filename,
    infer_track_full, remove_consecutive_ws, remove_ft, replace_invalid_chars,
    track_to_string_no_info, FullTrack, TrackType,
};
use music_manager::regex_ops::escape;

#[test]
fn test_remove_ft() {
    assert_eq!(remove_ft("Song feat. Artist"), "Song Artist");
    assert_eq!(remove_ft("Song ft. Artist"), "Song Artist");
    assert_eq!(remove_ft("Song featuring Artist"), "Song Artist");
}

#[test]
fn test_remove_consecutive_ws() {
    assert_eq!(remove_consecutive_ws("hello   world"), "hello world");
    assert_eq!(remove_consecutive_ws("hello\t\tworld"), "hello world");
}

#[test]
fn test_contains_ignore_case() {
    assert!(contains_ignore_case("Hello World", "hello"));
    assert!(contains_ignore_case("Hello World", "WORLD"));
    assert!(!contains_ignore_case("Hello World", "xyz"));
}

#[test]
fn contains_ignore_case_empty_is_false() {
    assert!(!contains_ignore_case("", "a"));
    assert!(!contains_ignore_case("abc", ""));
}

#[test]
fn test_infer_track_from_filename_simple() {
    let (artist, title) = infer_track_from_filename("Artist - Title.mp3");
    assert_eq!(artist, "Artist");
    assert_eq!(title, "Title");
}

#[test]
fn test_infer_track_from_filename_three_parts() {
    let (artist, title) = infer_track_from_filename("Artist - Album - Title.mp3");
    assert!(!artist.is_empty() || !title.is_empty());
}

#[test]
fn test_infer_track_from_filename_with_track_number() {
    let (_artist, title) = infer_track_from_filename("01 - Artist - Title.mp3");
    assert!(!title.is_empty());
}

#[test]
fn infer_track_number_removed_exactly() {
    let (artist, title) = infer_track_from_filename("01 - Artist - Title.mp3");
    assert_eq!(artist, "Artist");
    assert_eq!(title, "Title");
}

#[test]
fn infer_three_parts_without_hints() {
    let (artist, title) = infer_track_from_filename("Artist - Album - Title.mp3");
    assert_eq!(artist, "Artist - Album");
    assert_eq!(title, "Title");
}

#[test]
fn infer_full_uses_requested_artist() {
    let wanted = FullTrack {
        artist: "Queen".to_string(),
        title: "Bohemian Rhapsody".to_string(),
        album: "A Night at the Opera".to_string(),
        artist_maybe_wrong: false,
        length: 355,
        track_type: TrackType::Normal,
    };
    let t = infer_track_full(
        "Music/A Night at the Opera - Queen - Bohemian Rhapsody.flac",
        &wanted,
        TrackType::Album,
    );
    assert_eq!(t.artist, "Queen");
    assert_eq!(t.title, "Bohemian Rhapsody");
    assert_eq!(t.album, "A Night at the Opera");
    assert!(!t.artist_maybe_wrong);
    assert_eq!(t.length, 355);
    assert_eq!(t.track_type, TrackType::Album);
}

#[test]
fn test_get_file_name_without_ext_slsk() {
    assert_eq!(get_file_name_without_ext_slsk("path/to/file.mp3"), "file");
    assert_eq!(get_file_name_without_ext_slsk("file.mp3"), "file");
    assert_eq!(get_file_name_without_ext_slsk("file"), "file");
}

#[test]
fn file_name_edge_cases() {
    assert_eq!(get_file_name_without_ext_slsk("C:\\Music\\a.b.flac"), "a.b");
    assert_eq!(get_file_name_without_ext_slsk("dir/.hidden"), ".hidden");
    assert_eq!(get_file_name_without_ext_slsk("dir/sub/"), "sub");
    assert_eq!(get_file_name_without_ext_slsk(""), "");
}

#[test]
fn replace_invalid_chars_strict_and_loose() {
    assert_eq!(replace_invalid_chars("a_b!c (d)", "", true), "abc (d)");
    assert_eq!(replace_invalid_chars("tab\there", "?", false), "tab?here");
}

#[test]
fn no_info_string_trims() {
    let t = FullTrack {
        artist: "".to_string(),
        title: "Song".to_string(),
        album: "".to_string(),
        artist_maybe_wrong: false,
        length: -1,
        track_type: TrackType::Normal,
    };
    assert_eq!(track_to_string_no_info(&t), "Song");
}

#[test]
fn remix_by_requested_artist_is_flagged() {
    let wanted = FullTrack {
        artist: "A (B)".to_string(),
        title: "Other".to_string(),
        album: "".to_string(),
        artist_maybe_wrong: false,
        length: -1,
        track_type: TrackType::Normal,
    };
    let t = infer_track_full("Song (A (B) Remix).mp3", &wanted, TrackType::Normal);
    assert!(t.artist_maybe_wrong);
    assert_eq!(t.title, "Song (A (B) Remix)");
    let plain = infer_track_full("Song (C Remix).mp3", &wanted, TrackType::Normal);
    assert!(!plain.artist_maybe_wrong);
}

#[test]
fn escape_backslashes_meta_characters() {
    assert_eq!(escape("a.b(c)"), "a\\.b\\(c\\)");
    assert_eq!(escape("AC/DC & co-op ~x"), "AC/DC \\& co\\-op \\~x");
    assert_eq!(escape("plain words"), "plain words");
}
