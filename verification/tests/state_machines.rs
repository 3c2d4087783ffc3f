use music_manager::rate_limit::{
    rate_limit_settings, Admission, RateSettingsError, SearchRateLimiter, Session, SessionCheck,
    SessionState,
};
use music_manager::soulseek::{FileAttributes, SearchConfig, SingleFileResult};
use music_manager::tui::{
    download_event_for, format_duration, parse_u32, App, AppEvent, AppMode, BackgroundEvent,
    BackgroundRequest, DownloadEvent, DownloadStatus, FormField, Key, SearchEvent, TransferState,
};

fn config(spt: Option<u32>, renew: Option<u32>) -> SearchConfig {
    SearchConfig {
        username: "test".to_string(),
        password: "test".to_string(),
        concurrency: None,
        searches_per_time: spt,
        renew_time_secs: renew,
        max_search_time_ms: None,
        remove_special_chars: None,
    }
}

#[test]
fn test_rate_limiter_immediate_acquire() {
    let mut limiter = SearchRateLimiter::new(5, 1);
    for i in 0..5 {
        assert_eq!(limiter.acquire(i * 10), Admission::Proceed);
    }
}

#[test]
fn test_rate_limiter_waiting() {
    let mut limiter = SearchRateLimiter::new(2, 1);
    assert_eq!(limiter.acquire(0), Admission::Proceed);
    assert_eq!(limiter.acquire(0), Admission::Proceed);
    assert_eq!(limiter.acquire(0), Admission::Wait(1000));
    limiter.window_renewed(1000);
    assert_eq!(limiter.used_in_window, 1);
    assert_eq!(limiter.acquire(1001), Admission::Proceed);
    assert_eq!(limiter.acquire(1002), Admission::Wait(998));
}

#[test]
fn test_rate_limiter_window_reset() {
    let mut limiter = SearchRateLimiter::new(1, 1);
    assert_eq!(limiter.acquire(0), Admission::Proceed);
    assert_eq!(limiter.acquire(1100), Admission::Proceed);
    assert_eq!(limiter.window_start_ms, 1100);
}

#[test]
fn rate_limit_settings_defaults_and_errors() {
    assert_eq!(rate_limit_settings(&config(None, None)), Ok((34, 220)));
    assert_eq!(rate_limit_settings(&config(Some(0), None)), Err(RateSettingsError::ZeroSearches));
    assert_eq!(rate_limit_settings(&config(Some(3), Some(0))), Err(RateSettingsError::ZeroPeriod));
}

#[test]
fn session_backoff_doubles_up_to_a_minute() {
    let mut s = Session::new();
    assert_eq!(s.check(0), SessionCheck::Login);
    s.begin_login();
    s.login_failed(0, "boom".to_string());
    assert_eq!(s.check(500), SessionCheck::InBackoff(1000));
    assert_eq!(s.check(1000), SessionCheck::Login);
    assert_eq!(s.backoff_secs, 2);
    for _ in 0..10 {
        s.login_failed(0, "boom".to_string());
    }
    assert_eq!(s.backoff_secs, 60);
    s.login_succeeded(5);
    assert_eq!(s.backoff_secs, 1);
    assert_eq!(s.check(6), SessionCheck::Ready);
    assert!(s.report_session_error("gone".to_string()));
    assert_eq!(s.state, SessionState::Disconnected { last_error: Some("gone".to_string()) });
    assert!(!s.report_session_error("again".to_string()));
}

fn sample_result(name: &str) -> SingleFileResult {
    SingleFileResult {
        username: "u".to_string(),
        token: "t".to_string(),
        filename: name.to_string(),
        size: 1,
        slots_free: true,
        avg_speed: 1,
        queue_length: 0,
        attrs: FileAttributes::new(),
    }
}

#[test]
fn tui_form_editing_and_focus() {
    let mut app = App::new();
    assert_eq!(app.handle_key_event(Key::Char('h')), None);
    assert_eq!(app.handle_key_event(Key::Char('i')), None);
    assert_eq!(app.form.title, "hi");
    app.handle_key_event(Key::Backspace);
    assert_eq!(app.form.title, "h");
    app.handle_key_event(Key::Tab);
    assert_eq!(app.form.focused_field, FormField::Artist);
    app.handle_key_event(Key::BackTab);
    app.handle_key_event(Key::Up);
    assert_eq!(app.form.focused_field, FormField::Length);
    app.handle_key_event(Key::Char('9'));
    app.handle_key_event(Key::Char('0'));
    assert_eq!(app.handle_key_event(Key::Enter), Some(AppEvent::StartSearch));
    match app.handle_app_event(AppEvent::StartSearch) {
        BackgroundRequest::Search(t) => {
            assert_eq!(t.title, "h");
            assert_eq!(t.artists, vec!["".to_string()]);
            assert_eq!(t.length, Some(90));
        }
        _ => panic!("expected a search"),
    }
    app.handle_key_event(Key::Esc);
    assert!(!app.running);
}

#[test]
fn tui_results_navigation_keeps_window() {
    let mut app = App::new();
    let results: Vec<SingleFileResult> = (0..25).map(|i| sample_result(&format!("{}.mp3", i))).collect();
    app.handle_background_event(BackgroundEvent::SearchEvent(SearchEvent::Completed(results)));
    assert_eq!(app.mode, AppMode::Results);
    assert_eq!(app.status_message.as_deref(), Some("Found 25 results"));
    for _ in 0..12 {
        app.handle_key_event(Key::Down);
    }
    assert_eq!(app.selected_result, 12);
    assert_eq!(app.results_scroll, 3);
    app.handle_key_event(Key::PageDown);
    assert_eq!(app.selected_result, 22);
    app.handle_key_event(Key::PageDown);
    assert_eq!(app.selected_result, 24);
    assert_eq!(app.results_scroll, 15);
    app.handle_key_event(Key::PageUp);
    assert_eq!(app.selected_result, 14);
    assert_eq!(app.results_scroll, 14);
    app.handle_key_event(Key::Char('k'));
    assert_eq!((app.selected_result, app.results_scroll), (13, 13));
    assert_eq!(app.handle_key_event(Key::Enter), Some(AppEvent::StartDownload));
    match app.handle_app_event(AppEvent::StartDownload) {
        BackgroundRequest::Download(i) => assert_eq!(i, 13),
        _ => panic!("expected a download"),
    }
    assert_eq!(app.mode, AppMode::Downloading);
}

#[test]
fn tui_download_progress_and_errors() {
    let mut app = App::new();
    app.handle_background_event(BackgroundEvent::DownloadEvent(DownloadEvent::Progress {
        filename: "a.mp3".to_string(),
        bytes_downloaded: 10,
        total_bytes: 100,
    }));
    app.handle_background_event(BackgroundEvent::DownloadEvent(DownloadEvent::Completed));
    let p = app.download_progress.clone().unwrap();
    assert_eq!(p.bytes_downloaded, 100);
    assert_eq!(p.status, DownloadStatus::Completed);
    assert_eq!(app.status_message.as_deref(), Some("Download completed"));
    app.handle_background_event(BackgroundEvent::DownloadEvent(DownloadEvent::Failed("x".to_string())));
    assert_eq!(app.mode, AppMode::Error);
    app.handle_key_event(Key::Enter);
    assert_eq!(app.mode, AppMode::SearchForm);
    app.handle_key_event(Key::CtrlC);
    assert!(!app.running);
}

#[test]
fn transfer_states_map_to_events() {
    let name = "f.mp3".to_string();
    match download_event_for(TransferState::TimedOut, &name) {
        (DownloadEvent::Failed(m), true) => assert_eq!(m, "Download timed out"),
        _ => panic!(),
    }
    match download_event_for(TransferState::InProgress { bytes_downloaded: 1, total_bytes: 2 }, &name) {
        (DownloadEvent::Progress { filename, bytes_downloaded: 1, total_bytes: 2 }, false) => {
            assert_eq!(filename, "f.mp3")
        }
        _ => panic!(),
    }
}

#[test]
fn durations_and_numbers() {
    assert_eq!(format_duration(0), "00:00");
    assert_eq!(format_duration(187), "03:07");
    assert_eq!(format_duration(6000), "100:00");
    assert_eq!(parse_u32("+42"), Some(42));
    assert_eq!(parse_u32("4294967295"), Some(u32::MAX));
    assert_eq!(parse_u32("4294967296"), None);
    assert_eq!(parse_u32(""), None);
    assert_eq!(parse_u32("+"), None);
    assert_eq!(parse_u32("1a"), None);
    assert_eq!(parse_u32("-1"), None);
}
