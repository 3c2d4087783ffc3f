use std::time::Duration;

use music_manager::mm_types::{
    AudioCodec, AudioFormat, DurationMs, DurationOutOfRange, DurationSecs, ImageMimeType, Isrc,
    IsrcParseError, Mbid, MbidParseError,
};

#[test]
fn ms_rejects_negative() {
    assert!(DurationMs::from_millis_i64(-1).is_err());
}

#[test]
fn ms_roundtrip_value() {
    let d = DurationMs::from_millis_i64(123_456).unwrap();
    assert_eq!(d.as_millis_i64(), 123_456);
    assert_eq!(d.duration(), Duration::from_millis(123_456));
    assert_eq!(DurationMs::from_millis_i64(-5), Err(DurationOutOfRange::Negative(-5)));
}

#[test]
fn ms_from_duration_truncates_and_saturates() {
    let d = DurationMs::from_duration(Duration::from_micros(1_999));
    assert_eq!(d.as_millis_i64(), 1);
    let big = DurationMs::from_duration(Duration::from_secs(u64::MAX));
    assert_eq!(big.as_millis_i64(), i64::MAX);
}

#[test]
fn secs_roundtrip_value() {
    let d = DurationSecs::from_secs_i32(180).unwrap();
    assert_eq!(d.as_secs_i32(), 180);
    assert_eq!(d.duration(), Duration::from_secs(180));
    assert_eq!(DurationSecs::from_secs_i32(-1), Err(DurationOutOfRange::Negative(-1)));
    let big = DurationSecs::from_duration(Duration::from_secs(1 << 40));
    assert_eq!(big.as_secs_i32(), i32::MAX);
}

#[test]
fn mime_known() {
    assert_eq!(ImageMimeType::parse("image/PNG"), ImageMimeType::Png);
    assert_eq!(ImageMimeType::Png.as_str(), "image/png");
}

#[test]
fn mime_other_preserves_input() {
    let m = ImageMimeType::parse("image/avif");
    assert_eq!(m, ImageMimeType::Other("image/avif".into()));
    assert_eq!(m.as_str(), "image/avif");
}

#[test]
fn codec_other() {
    assert_eq!(AudioCodec::parse("alac"), AudioCodec::Other("alac".into()));
}

#[test]
fn format_parse_trims_and_lowercases() {
    assert_eq!(AudioFormat::parse("  FLAC "), AudioFormat::Flac);
    assert_eq!(AudioFormat::parse(AudioFormat::M4a.as_str()), AudioFormat::M4a);
    assert_eq!(AudioCodec::parse("Vorbis"), AudioCodec::Vorbis);
}

#[test]
fn isrc_canonicalizes() {
    let i = Isrc::parse("us-rc1-17-00001").unwrap();
    assert_eq!(i.as_str(), "USRC11700001");
}

#[test]
fn isrc_rejects_short() {
    assert!(Isrc::parse("ABC").is_err());
}

#[test]
fn isrc_rejects_symbols() {
    assert!(Isrc::parse("ABC!@#$%^&*()").is_err());
}

#[test]
fn isrc_errors_carry_input() {
    assert_eq!(Isrc::parse("ABC"), Err(IsrcParseError::BadLength("ABC".to_string())));
    assert_eq!(
        Isrc::parse("ABCDEFGHIJ!?"),
        Err(IsrcParseError::BadCharacters("ABCDEFGHIJ!?".to_string()))
    );
    let i = Isrc::parse(" usrc1 1700001 ").unwrap();
    assert_eq!(Isrc::parse(i.as_str()).unwrap(), i);
    assert_eq!(i.into_inner(), "USRC11700001");
}

#[test]
fn mbid_rejects_garbage() {
    assert!(Mbid::parse("not-a-uuid").is_err());
}

#[test]
fn mbid_text_roundtrip() {
    let m = Mbid::parse("F4C1D6F4-1234-4ABC-8DEF-0123456789AB").unwrap();
    assert_eq!(m.to_string(), "f4c1d6f4-1234-4abc-8def-0123456789ab");
    assert_eq!(Mbid::parse(&m.to_string()).unwrap(), m);
    assert_eq!(Mbid::from_uuid(m.uuid()), m);
    assert_eq!(Mbid::parse("xyz"), Err(MbidParseError::Invalid("xyz".to_string())));
}

#[test]
fn wrapped_values_come_back_unchanged() {
    let d = Duration::new(3, 141_592_653);
    assert_eq!(DurationMs::from_duration(d).duration(), d);
    assert_eq!(DurationSecs::from_duration(d).duration(), d);
    assert_eq!(Duration::from(DurationMs::from_duration(d)), d);
    assert_eq!(Duration::from(DurationSecs::from_duration(d)), d);
    assert_eq!(DurationMs::from_millis_i64(1_500).unwrap().duration(), Duration::from_millis(1_500));
    assert_eq!(DurationSecs::from_secs_i32(180).unwrap().duration(), Duration::from_secs(180));
    let u = uuid::Uuid::parse_str("f4c1d6f4-1234-4abc-8def-0123456789ab").unwrap();
    assert_eq!(Mbid::from_uuid(u).uuid(), u);
    assert_eq!(Mbid::parse("f4c1d6f4-1234-4abc-8def-0123456789ab").unwrap().uuid(), u);
}

#[test]
fn texts_parse_through_from_str() {
    let m: Mbid = "f4c1d6f4-1234-4abc-8def-0123456789ab".parse().unwrap();
    assert_eq!(m.to_string(), "f4c1d6f4-1234-4abc-8def-0123456789ab");
    let i: Isrc = "us-rc1-17-00001".parse().unwrap();
    assert_eq!(i.as_str(), "USRC11700001");
    assert!("ABC".parse::<Isrc>().is_err());
    assert_eq!("image/PNG".parse::<ImageMimeType>(), Ok(ImageMimeType::Png));
    assert_eq!("flac".parse::<AudioFormat>(), Ok(AudioFormat::Flac));
    assert_eq!("alac".parse::<AudioCodec>(), Ok(AudioCodec::Other("alac".to_string())));
}

#[test]
fn mbid_text_is_lower_case_hex_in_groups() {
    let m = Mbid::parse("F4C1D6F41234-4ABC-8DEF-0123456789AB".replace('-', "").as_str()).unwrap();
    assert_eq!(m.to_string(), "f4c1d6f4-1234-4abc-8def-0123456789ab");
    let u = uuid::Uuid::from_u128(0x0123_4567_89ab_cdef_0011_2233_4455_6677);
    assert_eq!(Mbid::from_uuid(u).to_string(), "01234567-89ab-cdef-0011-223344556677");
}
