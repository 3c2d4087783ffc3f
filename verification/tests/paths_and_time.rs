use music_manager::config::ConfigError;
use music_manager::paths::{AbsolutePath, PathError, RelativePath};
use music_manager::timestamp::{Timestamp, TimestampError, MAX_UTC_SECONDS, MIN_UTC_SECONDS};

#[test]
fn relative_accepts_simple() {
    let p = RelativePath::new("artist/album/01.flac").unwrap();
    assert_eq!(p.as_str(), "artist/album/01.flac");
}

#[test]
fn relative_rejects_absolute() {
    assert!(matches!(RelativePath::new("/abs/path"), Err(PathError::NotRelative(_))));
}

#[test]
fn relative_rejects_parent() {
    assert!(matches!(RelativePath::new("a/../b"), Err(PathError::ParentEscape(_))));
}

#[test]
fn absolute_accepts_root() {
    assert!(AbsolutePath::new("/tmp/foo").is_ok());
}

#[test]
fn absolute_rejects_relative() {
    assert!(matches!(AbsolutePath::new("foo"), Err(PathError::NotAbsolute(_))));
}

#[test]
fn empty_paths_are_refused() {
    assert_eq!(RelativePath::new(""), Err(PathError::Empty));
    assert_eq!(AbsolutePath::new(""), Err(PathError::Empty));
    assert_eq!(RelativePath::new("a/b.flac").unwrap().into_inner().as_str(), "a/b.flac");
}

#[test]
fn roundtrip_unix_seconds() {
    let t = Timestamp::from_unix_seconds(1_700_000_000).unwrap();
    assert_eq!(t.unix_seconds(), 1_700_000_000);
}

#[test]
fn rejects_out_of_range() {
    assert_eq!(Timestamp::from_unix_seconds(i64::MAX), Err(TimestampError::OutOfRange(i64::MAX)));
}

#[test]
fn now_is_after_2020() {
    assert!(Timestamp::now().unix_seconds() > 1_577_836_800);
}

#[test]
fn config_error_messages() {
    let missing = ConfigError::Missing { var: "MM_DB" };
    assert_eq!(missing.message(), "required env var MM_DB is not set or is empty");
    let invalid = ConfigError::Invalid { var: "MM_PORT", reason: "not a number".to_string() };
    assert_eq!(invalid.message(), "env var MM_PORT has an invalid value: not a number");
}

#[test]
fn path_buffers_hold_the_text() {
    assert_eq!(
        AbsolutePath::new("/music/inbox/file.flac").unwrap().into_inner(),
        camino::Utf8PathBuf::from("/music/inbox/file.flac")
    );
    let p = RelativePath::new("artist/album/01.flac").unwrap();
    assert_eq!(p.clone().into_inner(), camino::Utf8PathBuf::from("artist/album/01.flac"));
}

#[test]
fn clock_readings_fall_back_to_the_epoch() {
    assert_eq!(Timestamp::from_clock_reading(1_700_000_000).unix_seconds(), 1_700_000_000);
    assert_eq!(Timestamp::from_clock_reading(i64::MAX).unix_seconds(), 0);
}

#[test]
fn paths_parse_through_from_str() {
    let r: RelativePath = "a/b.flac".parse().unwrap();
    assert_eq!(r.as_str(), "a/b.flac");
    assert!("/abs".parse::<RelativePath>().is_err());
    assert!("/abs".parse::<AbsolutePath>().is_ok());
}

#[test]
fn timestamp_range_ends_exactly() {
    assert!(Timestamp::from_unix_seconds(MIN_UTC_SECONDS).is_ok());
    assert!(Timestamp::from_unix_seconds(MAX_UTC_SECONDS).is_ok());
    assert_eq!(
        Timestamp::from_unix_seconds(MIN_UTC_SECONDS - 1),
        Err(TimestampError::OutOfRange(MIN_UTC_SECONDS - 1))
    );
    assert_eq!(
        Timestamp::from_unix_seconds(MAX_UTC_SECONDS + 1),
        Err(TimestampError::OutOfRange(MAX_UTC_SECONDS + 1))
    );
}

#[test]
fn paths_order_by_components() {
    let slash = RelativePath::new("a/b").unwrap();
    let dash = RelativePath::new("a-b").unwrap();
    assert!(slash < dash);
    assert!(AbsolutePath::new("/x/y").unwrap() < AbsolutePath::new("/x-y").unwrap());
}
