use music_manager::search::{convert_search_results, RawFile, RawSearchResult};

#[test]
fn convert_search_results_narrows_codes() {
    let raw = vec![RawSearchResult {
        username: "u".to_string(),
        token: "42".to_string(),
        files: vec![RawFile { name: "a.flac".to_string(), size: 10, attribs: vec![(0, 320), (300, 1), (4, 44100)] }],
        slots: 0,
        speed: 1234,
    }];
    let out = convert_search_results(&raw);
    assert_eq!(out.len(), 1);
    assert_eq!(out[0].token, "42");
    assert!(!out[0].slots_free);
    assert_eq!(out[0].avg_speed, 1234);
    assert_eq!(out[0].queue_length, 0);
    let attrs = &out[0].files[0].attrs;
    assert_eq!(attrs.len(), 2);
    assert_eq!(attrs.get(&0), Some(&320));
    assert_eq!(attrs.get(&4), Some(&44100));
}
