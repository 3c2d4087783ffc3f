use music_manager::ranking::{
    dedup_by_user_and_file, filter_audio, process_client_results, process_search_results, rank_client_results,
    rank_results,
};
use music_manager::soulseek::{FileAttribute, FileAttributes, SingleFileResult, Track};

fn result(user: &str, filename: &str, slots_free: bool, speed: u64, attrs: FileAttributes) -> SingleFileResult {
    SingleFileResult {
        username: user.to_string(),
        token: format!("token-{}", user),
        filename: filename.to_string(),
        size: 1000,
        slots_free,
        avg_speed: speed,
        queue_length: 0,
        attrs,
    }
}

fn test_track(length: Option<u32>) -> Track {
    Track {
        title: "Test Song".to_string(),
        album: "Test Album".to_string(),
        artists: vec!["Test Artist".to_string()],
        length,
    }
}

#[test]
fn test_rank_results_prefers_slots_free() {
    let track = test_track(None);
    let mut results = vec![
        SingleFileResult {
            username: "user1".to_string(),
            token: "token1".to_string(),
            filename: "test.mp3".to_string(),
            size: 1000,
            slots_free: false,
            avg_speed: 1000,
            queue_length: 0,
            attrs: FileAttributes::new(),
        },
        SingleFileResult {
            username: "user2".to_string(),
            token: "token2".to_string(),
            filename: "test.mp3".to_string(),
            size: 1000,
            slots_free: true,
            avg_speed: 500,
            queue_length: 0,
            attrs: FileAttributes::new(),
        },
    ];
    rank_results(&track, &mut results);
    assert!(results[0].slots_free);
}

#[test]
fn test_rank_results_prefers_better_match() {
    let track = test_track(None);
    let mut results = vec![
        SingleFileResult {
            username: "user1".to_string(),
            token: "token1".to_string(),
            filename: "other.mp3".to_string(),
            size: 1000,
            slots_free: true,
            avg_speed: 1000,
            queue_length: 0,
            attrs: FileAttributes::new(),
        },
        SingleFileResult {
            username: "user2".to_string(),
            token: "token2".to_string(),
            filename: "Test Artist - Test Song.mp3".to_string(),
            size: 1000,
            slots_free: true,
            avg_speed: 500,
            queue_length: 0,
            attrs: FileAttributes::new(),
        },
    ];
    rank_results(&track, &mut results);
    assert!(results[0].filename.contains("Test Artist"));
}

#[test]
fn test_rank_results_prefers_length_match() {
    let track = test_track(Some(180));
    let mut attrs1 = FileAttributes::new();
    attrs1.insert(FileAttribute::Duration, 200);
    let mut attrs2 = FileAttributes::new();
    attrs2.insert(FileAttribute::Duration, 185);
    let mut results = vec![
        SingleFileResult {
            username: "user1".to_string(),
            token: "token1".to_string(),
            filename: "test.mp3".to_string(),
            size: 1000,
            slots_free: true,
            avg_speed: 1000,
            queue_length: 0,
            attrs: attrs1,
        },
        SingleFileResult {
            username: "user2".to_string(),
            token: "token2".to_string(),
            filename: "test.mp3".to_string(),
            size: 1000,
            slots_free: true,
            avg_speed: 1000,
            queue_length: 0,
            attrs: attrs2,
        },
    ];
    rank_results(&track, &mut results);
    let first_duration = results[0].attrs.get(FileAttribute::Duration).unwrap();
    assert_eq!(first_duration, 185);
}

#[test]
fn test_rank_results_prefers_matches() {
    let track = Track {
        title: "Thriller".to_string(),
        album: "".to_string(),
        artists: vec!["Michael Jackson".to_string()],
        length: None,
    };
    let mut results = vec![
        SingleFileResult {
            username: "user1".to_string(),
            token: "t1".to_string(),
            filename: "random_song.mp3".to_string(),
            size: 1000,
            slots_free: true,
            avg_speed: 200,
            queue_length: 0,
            attrs: FileAttributes::new(),
        },
        SingleFileResult {
            username: "user2".to_string(),
            token: "t2".to_string(),
            filename: "Michael Jackson - Thriller.mp3".to_string(),
            size: 1000,
            slots_free: true,
            avg_speed: 100,
            queue_length: 0,
            attrs: FileAttributes::new(),
        },
    ];
    rank_client_results(&track, &mut results);
    assert!(results[0].filename.contains("Thriller"));
}

#[test]
fn test_rank_results_speed_tiebreaker() {
    let track = Track {
        title: "Song".to_string(),
        album: "".to_string(),
        artists: vec!["Artist".to_string()],
        length: None,
    };
    let mut results = vec![
        SingleFileResult {
            username: "user1".to_string(),
            token: "t1".to_string(),
            filename: "Artist Song.mp3".to_string(),
            size: 1000,
            slots_free: true,
            avg_speed: 100,
            queue_length: 0,
            attrs: FileAttributes::new(),
        },
        SingleFileResult {
            username: "user2".to_string(),
            token: "t2".to_string(),
            filename: "Artist Song.flac".to_string(),
            size: 1000,
            slots_free: true,
            avg_speed: 200,
            queue_length: 0,
            attrs: FileAttributes::new(),
        },
    ];
    rank_client_results(&track, &mut results);
    assert_eq!(results[0].avg_speed, 200);
}

#[test]
fn rank_results_is_stable_for_equal_keys() {
    let track = test_track(None);
    let mut results = vec![
        result("a", "x.mp3", true, 10, FileAttributes::new()),
        result("b", "x.mp3", true, 10, FileAttributes::new()),
        result("c", "x.mp3", true, 10, FileAttributes::new()),
    ];
    rank_results(&track, &mut results);
    let users: Vec<&str> = results.iter().map(|r| r.username.as_str()).collect();
    assert_eq!(users, vec!["a", "b", "c"]);
}

#[test]
fn rank_results_queue_then_size() {
    let track = test_track(None);
    let mut a = result("a", "x.mp3", true, 10, FileAttributes::new());
    a.queue_length = 5;
    let mut b = result("b", "x.mp3", true, 10, FileAttributes::new());
    b.size = 5000;
    let c = result("c", "x.mp3", true, 10, FileAttributes::new());
    let mut results = vec![a, b, c];
    rank_results(&track, &mut results);
    let users: Vec<&str> = results.iter().map(|r| r.username.as_str()).collect();
    assert_eq!(users, vec!["c", "b", "a"]);
}

#[test]
fn search_pipeline_filters_non_audio() {
    let track = test_track(None);
    let all = vec![
        result("user1", "song.mp3", true, 1000, FileAttributes::new()),
        result("user1", "document.txt", true, 1000, FileAttributes::new()),
    ];
    let out = process_search_results(&track, all);
    assert_eq!(out.len(), 1);
    assert_eq!(out[0].filename, "song.mp3");
}

#[test]
fn search_pipeline_deduplicates_keeping_fastest() {
    let track = test_track(None);
    let all = vec![
        result("user1", "song.mp3", true, 10, FileAttributes::new()),
        result("user1", "song.mp3", true, 30, FileAttributes::new()),
        result("user1", "song.mp3", true, 20, FileAttributes::new()),
        result("user2", "song.mp3", true, 5, FileAttributes::new()),
    ];
    let out = dedup_by_user_and_file(all);
    assert_eq!(out.len(), 2);
    assert_eq!(out[0].username, "user1");
    assert_eq!(out[0].avg_speed, 30);
    assert_eq!(out[1].username, "user2");
    let ranked = process_search_results(&track, out);
    assert_eq!(ranked[0].avg_speed, 30);
}

#[test]
fn filter_audio_keeps_order() {
    let all = vec![
        result("a", "1.flac", true, 1, FileAttributes::new()),
        result("b", "2.jpg", true, 1, FileAttributes::new()),
        result("c", "3.MP3", true, 1, FileAttributes::new()),
    ];
    let out = filter_audio(all, false);
    let users: Vec<&str> = out.iter().map(|r| r.username.as_str()).collect();
    assert_eq!(users, vec!["a", "c"]);
}

#[test]
fn filters_differ_on_rarer_extensions() {
    let all = || {
        vec![
            result("a", "1.wma", true, 1, FileAttributes::new()),
            result("b", "2.opus", true, 1, FileAttributes::new()),
            result("c", "3.aiff", true, 1, FileAttributes::new()),
        ]
    };
    assert_eq!(filter_audio(all(), false).len(), 1);
    assert_eq!(filter_audio(all(), true).len(), 3);
}

#[test]
fn client_pipeline_ranks_by_words_then_speed() {
    let track = Track {
        title: "Blue Monday".to_string(),
        album: String::new(),
        artists: vec!["New Order".to_string()],
        length: None,
    };
    let all = vec![
        result("u1", "random.mp3", true, 500, FileAttributes::new()),
        result("u2", "order - monday.wma", false, 10, FileAttributes::new()),
        result("u3", "NEW blue.opus", false, 20, FileAttributes::new()),
        result("u4", "notes.txt", true, 900, FileAttributes::new()),
    ];
    let out = process_client_results(&track, all);
    let users: Vec<&str> = out.iter().map(|r| r.username.as_str()).collect();
    // Both name a word of the artist and of the title: faster first; free
    // slots do not count here.
    assert_eq!(users, vec!["u3", "u2", "u1"]);
}

#[test]
fn rank_results_reads_durations_as_i32() {
    // 4_294_967_000 read as an i32 is -296: 476 away from 180, farther than 200.
    let track = test_track(Some(180));
    let mut far = FileAttributes::new();
    far.insert(FileAttribute::Duration, 4_294_967_000);
    let mut near = FileAttributes::new();
    near.insert(FileAttribute::Duration, 200);
    let mut results = vec![
        result("user1", "test.mp3", true, 1000, far),
        result("user2", "test.mp3", true, 1000, near),
    ];
    rank_results(&track, &mut results);
    assert_eq!(results[0].username, "user2");
    assert_eq!(results[1].attrs.get(FileAttribute::Duration), Some(4_294_967_000));
}
