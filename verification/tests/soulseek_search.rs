use std::collections::HashMap;

use music_manager::regex_ops::remove_diacritics;
use music_manager::search::{
    build_search_queries, clean_search_string, flatten_search_response, is_audio_file,
    to_file_attributes,
};
use music_manager::soulseek::{FileAttribute, FileInfo, FileSearchResponse, Track};

fn create_mock_file_search_response(
    username: &str,
    token: &str,
    files: Vec<FileInfo>,
) -> FileSearchResponse {
    FileSearchResponse {
        username: username.to_string(),
        token: token.to_string(),
        files,
        slots_free: true,
        avg_speed: 1000,
        queue_length: 0,
    }
}

fn create_mock_file_info(filename: &str, size: u64, duration: Option<u32>) -> FileInfo {
    let mut attrs = HashMap::new();
    if let Some(d) = duration {
        attrs.insert(1, d);
    }
    FileInfo { filename: filename.to_string(), size, attrs }
}

fn create_test_track() -> Track {
    Track {
        title: "Test Song".to_string(),
        album: "Test Album".to_string(),
        artists: vec!["Test Artist".to_string()],
        length: Some(180),
    }
}

fn create_test_file_search_response() -> FileSearchResponse {
    FileSearchResponse {
        username: "test_user".to_string(),
        token: "token123".to_string(),
        files: vec![
            FileInfo {
                filename: "song.mp3".to_string(),
                size: 5000000,
                attrs: HashMap::from([(0, 320), (1, 180)]),
            },
            FileInfo {
                filename: "song.flac".to_string(),
                size: 10000000,
                attrs: HashMap::from([(0, 1411), (4, 44100)]),
            },
        ],
        slots_free: true,
        avg_speed: 100,
        queue_length: 0,
    }
}

#[test]
fn soulseek_test_remove_diacritics() {
    assert_eq!(remove_diacritics("Café"), "Cafe");
    assert_eq!(remove_diacritics("naïve"), "naive");
    assert_eq!(remove_diacritics("résumé"), "resume");
}

#[test]
fn client_test_remove_diacritics() {
    assert_eq!(remove_diacritics("café"), "cafe");
    assert_eq!(remove_diacritics("naïve"), "naive");
    assert_eq!(remove_diacritics("résumé"), "resume");
    assert_eq!(remove_diacritics("Müller"), "Muller");
    assert_eq!(remove_diacritics("no accents"), "no accents");
    assert_eq!(remove_diacritics(""), "");
}

#[test]
fn soulseek_test_clean_search_string() {
    assert_eq!(clean_search_string("  hello  world  ", false), "hello  world");
    assert_eq!(clean_search_string("hello@world#test", true), "hello world test");
    assert_eq!(clean_search_string("hello   world", true), "hello world");
}

#[test]
fn client_test_clean_search_string() {
    assert_eq!(clean_search_string("  hello world  ", false), "hello world");
    assert_eq!(clean_search_string("normal text", false), "normal text");
    assert_eq!(clean_search_string("hello-world!", true), "hello world");
    assert_eq!(clean_search_string("test@#$%^&*()", true), "test");
    assert_eq!(clean_search_string("multiple   spaces", true), "multiple spaces");
    assert_eq!(clean_search_string("  trim  and  clean  ", true), "trim and clean");
    assert_eq!(clean_search_string("", true), "");
}

#[test]
fn soulseek_test_build_search_queries() {
    let track = Track {
        title: "Song Title".to_string(),
        album: "Album Name".to_string(),
        artists: vec!["Artist Name".to_string()],
        length: None,
    };
    let queries = build_search_queries(&track, false);
    assert!(!queries.is_empty());
    assert!(queries.iter().any(|q| q.contains("Artist Name")));
    assert!(queries.iter().any(|q| q.contains("Song Title")));
}

#[test]
fn client_test_build_search_queries() {
    let track = create_test_track();
    let queries = build_search_queries(&track, false);
    assert!(queries.len() >= 2);
    assert!(queries.iter().any(|q| q.contains("Test Artist")));
    assert!(queries.iter().any(|q| q.contains("Test Song")));
    assert!(queries.iter().any(|q| q.contains("Test Album")));

    let queries_special = build_search_queries(&track, true);
    assert!(queries_special.len() >= 2);

    let track_no_album = Track {
        title: "Test Song".to_string(),
        album: "".to_string(),
        artists: vec!["Test Artist".to_string()],
        length: None,
    };
    let queries_no_album = build_search_queries(&track_no_album, false);
    assert!(!queries_no_album.is_empty());
}

#[test]
fn test_build_search_queries_empty() {
    let track = Track { title: "".to_string(), album: "".to_string(), artists: vec![], length: None };
    let queries = build_search_queries(&track, false);
    assert!(queries.is_empty());
}

#[test]
fn build_search_queries_title_only_falls_back() {
    let track = Track { title: "Café".to_string(), album: "".to_string(), artists: vec![], length: None };
    let mut queries = build_search_queries(&track, false);
    queries.sort();
    assert_eq!(queries, vec!["Cafe".to_string(), "Café".to_string()]);
}

#[test]
fn build_search_queries_exact_set() {
    let track = create_test_track();
    let mut queries = build_search_queries(&track, false);
    queries.sort();
    assert_eq!(
        queries,
        vec!["Test Artist Test Song".to_string(), "Test Artist Test Song Test Album".to_string()]
    );
}

#[test]
fn soulseek_test_is_audio_file() {
    assert!(is_audio_file("song.mp3"));
    assert!(is_audio_file("song.flac"));
    assert!(is_audio_file("song.wav"));
    assert!(is_audio_file("song.m4a"));
    assert!(is_audio_file("song.ogg"));
    assert!(is_audio_file("song.aac"));
    assert!(is_audio_file("song.aiff"));
    assert!(!is_audio_file("song.txt"));
    assert!(!is_audio_file("song.exe"));
}

#[test]
fn client_test_is_audio_file() {
    assert!(is_audio_file("song.mp3"));
    assert!(is_audio_file("song.MP3"));
    assert!(is_audio_file("song.flac"));
    assert!(is_audio_file("song.wav"));
    assert!(is_audio_file("song.aac"));
    assert!(is_audio_file("song.ogg"));
    assert!(is_audio_file("song.m4a"));
    assert!(is_audio_file("song.wma"));
    assert!(is_audio_file("song.aiff"));
    assert!(is_audio_file("song.alac"));
    assert!(is_audio_file("song.opus"));
    assert!(is_audio_file("song.ape"));
    assert!(is_audio_file("/path/to/song.mp3"));
    assert!(is_audio_file("C:\\Music\\song.flac"));
    assert!(!is_audio_file("document.pdf"));
    assert!(!is_audio_file("video.mp4"));
    assert!(!is_audio_file("image.jpg"));
    assert!(!is_audio_file("archive.zip"));
    assert!(!is_audio_file("song.mp3.txt"));
}

#[test]
fn soulseek_test_to_file_attributes() {
    let mut attrs = HashMap::new();
    attrs.insert(0, 320);
    attrs.insert(1, 180);
    attrs.insert(2, 1);
    let result = to_file_attributes(&attrs);
    assert_eq!(result.get(FileAttribute::Bitrate), Some(320));
    assert_eq!(result.get(FileAttribute::Duration), Some(180));
    assert_eq!(result.get(FileAttribute::VariableBitRate), Some(1));
}

#[test]
fn client_test_to_file_attributes() {
    let mut attrs = HashMap::new();
    attrs.insert(0u8, 320u32);
    attrs.insert(1u8, 180u32);
    attrs.insert(4u8, 44100u32);
    let result = to_file_attributes(&attrs);
    assert_eq!(result.get(FileAttribute::Bitrate), Some(320));
    assert_eq!(result.get(FileAttribute::Duration), Some(180));
    assert_eq!(result.get(FileAttribute::SampleRate), Some(44100));
}

#[test]
fn test_to_file_attributes_unknown_key() {
    let mut attrs = HashMap::new();
    attrs.insert(99u8, 1000u32);
    let result = to_file_attributes(&attrs);
    assert!(result.is_empty());
}

#[test]
fn to_file_attributes_all_codes() {
    let attrs: HashMap<u8, u32> = HashMap::from([(0, 1), (1, 2), (2, 3), (3, 4), (4, 5), (5, 6), (6, 7)]);
    let r = to_file_attributes(&attrs);
    assert_eq!(r.get(FileAttribute::Bitrate), Some(1));
    assert_eq!(r.get(FileAttribute::Duration), Some(2));
    assert_eq!(r.get(FileAttribute::VariableBitRate), Some(3));
    assert_eq!(r.get(FileAttribute::Encoder), Some(4));
    assert_eq!(r.get(FileAttribute::SampleRate), Some(5));
    assert_eq!(r.get(FileAttribute::BitDepth), Some(6));
}

#[test]
fn soulseek_test_flatten_search_response() {
    let response = create_mock_file_search_response(
        "user1",
        "token123",
        vec![create_mock_file_info("song.mp3", 5000000, Some(180))],
    );
    let flattened = flatten_search_response(&response);
    assert_eq!(flattened.len(), 1);
    assert_eq!(flattened[0].username, "user1");
    assert_eq!(flattened[0].filename, "song.mp3");
    assert_eq!(flattened[0].size, 5000000);
}

#[test]
fn client_test_flatten_search_response() {
    let response = create_test_file_search_response();
    let flattened = flatten_search_response(&response);
    assert_eq!(flattened.len(), 2);
    let mp3_result = flattened.iter().find(|f| f.filename == "song.mp3").unwrap();
    assert_eq!(mp3_result.username, "test_user");
    assert_eq!(mp3_result.token, "token123");
    assert_eq!(mp3_result.size, 5000000);
    assert!(mp3_result.slots_free);
    assert_eq!(mp3_result.avg_speed, 100);
    assert_eq!(mp3_result.attrs.get(FileAttribute::Bitrate), Some(320));
    assert_eq!(mp3_result.attrs.get(FileAttribute::Duration), Some(180));
}
