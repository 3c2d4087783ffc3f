//! Strongly typed domain values: durations, ISRC codes and the string
//! enums for image and audio formats.
use std::time::Duration;
use vstd::prelude::*;

use crate::inference::utf8_len;
use crate::text::{chars_of, is_ws, char_is_ws, string_of, trim, trim_chars};

verus! {

// ----------------------------------------------------------------------
// Durations
// ----------------------------------------------------------------------

/// `Duration::as_secs` (std). The result is not tied to `d` here: `Duration`
/// is opaque to the verifier.
#[verifier::external_body]
fn duration_whole_secs(d: &Duration) -> (r: u64) {
    d.as_secs()
}

/// `Duration::subsec_nanos` (std), documented to be below one billion.
#[verifier::external_body]
fn duration_subsec_nanos(d: &Duration) -> (r: u32)
    ensures
        r < 1_000_000_000,
{
    d.subsec_nanos()
}

/// `Duration::new` (std), which cannot overflow when `nanos` is below one
/// billion. The resulting `Duration` is opaque: nothing is claimed of it.
#[verifier::external_body]
fn duration_new(secs: u64, nanos: u32) -> (r: Duration)
    requires
        nanos < 1_000_000_000,
{
    Duration::new(secs, nanos)
}

/// Why a stored number is not a valid duration.
#[derive(Debug, Clone, Copy, PartialEq, Eq, Structural)]
pub enum DurationOutOfRange {
    /// The value is negative.
    Negative(i64),
    /// The value does not fit in `u64` milliseconds.
    Overflow(i64),
}

/// A duration stored as whole milliseconds (`BIGINT`): the `Duration`
/// itself, with its whole seconds and sub-second nanoseconds as read from
/// it.
#[derive(Clone, Copy, Debug, PartialEq, Eq, PartialOrd, Ord, Hash)]
pub struct DurationMs {
    secs: u64,
    nanos: u32,
    value: Duration,
}

/// A duration stored as whole seconds (`INTEGER`): the `Duration` itself,
/// with its whole seconds and sub-second nanoseconds as read from it.
#[derive(Clone, Copy, Debug, PartialEq, Eq, PartialOrd, Ord, Hash)]
pub struct DurationSecs {
    secs: u64,
    nanos: u32,
    value: Duration,
}

impl DurationMs {
    #[verifier::type_invariant]
    spec fn wf(self) -> bool {
        self.nanos < 1_000_000_000
    }

    /// Whole seconds.
    pub closed spec fn secs_spec(self) -> u64 {
        self.secs
    }

    /// Nanoseconds beyond the whole seconds.
    pub closed spec fn nanos_spec(self) -> u32 {
        self.nanos
    }

    /// The whole milliseconds in this duration (`Duration::as_millis`).
    pub open spec fn total_millis(self) -> int {
        self.secs_spec() * 1000 + self.nanos_spec() / 1_000_000
    }

    /// The `Duration` held.
    pub closed spec fn held(self) -> Duration {
        self.value
    }

    /// Wraps a `Duration`.
    pub fn from_duration(d: Duration) -> (r: Self)
        ensures
            r.held() == d,
    {
        let secs = duration_whole_secs(&d);
        let nanos = duration_subsec_nanos(&d);
        DurationMs { secs, nanos, value: d }
    }

    /// A duration of `ms` milliseconds; negative values are refused.
    pub fn from_millis_i64(ms: i64) -> (r: Result<Self, DurationOutOfRange>)
        ensures
            ms < 0 <==> r == Err::<Self, DurationOutOfRange>(DurationOutOfRange::Negative(ms)),
            ms >= 0 ==> (r matches Ok(d) && d.total_millis() == ms && d.nanos_spec() % 1_000_000 == 0),
    {
        if ms < 0 {
            return Err(DurationOutOfRange::Negative(ms));
        }
        let m = ms as u64;
        let secs = m / 1000;
        let rem = (m % 1000) as u32;
        let nanos = rem * 1_000_000;
        assert(nanos / 1_000_000 == rem) by (nonlinear_arith)
            requires
                nanos == rem * 1_000_000,
                rem < 1000,
        ;
        Ok(DurationMs { secs, nanos, value: duration_new(secs, nanos) })
    }

    /// The whole milliseconds, saturated at `i64::MAX`.
    pub open spec fn millis_i64(self) -> int {
        if self.total_millis() <= i64::MAX {
            self.total_millis()
        } else {
            i64::MAX as int
        }
    }

    /// The whole milliseconds as `i64`, saturating at `i64::MAX`.
    pub fn as_millis_i64(self) -> (r: i64)
        ensures
            r == self.millis_i64(),
    {
        proof {
            use_type_invariant(&self);
        }
        let total: u128 = (self.secs as u128) * 1000 + (self.nanos / 1_000_000) as u128;
        if total <= i64::MAX as u128 {
            total as i64
        } else {
            i64::MAX
        }
    }

    /// The duration as a `Duration`: the one held.
    pub fn duration(self) -> (r: Duration)
        ensures
            r == self.held(),
    {
        self.value
    }
}

impl DurationSecs {
    #[verifier::type_invariant]
    spec fn wf(self) -> bool {
        self.nanos < 1_000_000_000
    }

    /// Whole seconds (`Duration::as_secs`).
    pub closed spec fn secs_spec(self) -> u64 {
        self.secs
    }

    /// Nanoseconds beyond the whole seconds.
    pub closed spec fn nanos_spec(self) -> u32 {
        self.nanos
    }

    /// The `Duration` held.
    pub closed spec fn held(self) -> Duration {
        self.value
    }

    /// Wraps a `Duration`.
    pub fn from_duration(d: Duration) -> (r: Self)
        ensures
            r.held() == d,
    {
        let secs = duration_whole_secs(&d);
        let nanos = duration_subsec_nanos(&d);
        DurationSecs { secs, nanos, value: d }
    }

    /// A duration of `secs` seconds; negative values are refused.
    pub fn from_secs_i32(secs: i32) -> (r: Result<Self, DurationOutOfRange>)
        ensures
            secs < 0 <==> r == Err::<Self, DurationOutOfRange>(DurationOutOfRange::Negative(secs as i64)),
            secs >= 0 ==> (r matches Ok(d) && d.secs_spec() == secs && d.nanos_spec() == 0),
    {
        if secs < 0 {
            return Err(DurationOutOfRange::Negative(secs as i64));
        }
        let s = secs as u64;
        Ok(DurationSecs { secs: s, nanos: 0, value: duration_new(s, 0) })
    }

    /// The whole seconds, saturated at `i32::MAX`.
    pub open spec fn secs_i32(self) -> int {
        if self.secs_spec() <= i32::MAX {
            self.secs_spec() as int
        } else {
            i32::MAX as int
        }
    }

    /// The whole seconds as `i32`, saturating at `i32::MAX`.
    pub fn as_secs_i32(self) -> (r: i32)
        ensures
            r == self.secs_i32(),
    {
        if self.secs <= i32::MAX as u64 {
            self.secs as i32
        } else {
            i32::MAX
        }
    }

    /// The duration as a `Duration`: the one held.
    pub fn duration(self) -> (r: Duration)
        ensures
            r == self.held(),
    {
        self.value
    }
}

impl From<DurationMs> for Duration {
    /// The `Duration` held (`DurationMs::duration`).
    fn from(d: DurationMs) -> (r: Duration) {
        d.duration()
    }
}

impl vstd::std_specs::convert::FromSpecImpl<DurationMs> for Duration {
    open spec fn obeys_from_spec() -> bool {
        true
    }

    open spec fn from_spec(v: DurationMs) -> Duration {
        v.held()
    }
}

impl From<DurationSecs> for Duration {
    /// The `Duration` held (`DurationSecs::duration`).
    fn from(d: DurationSecs) -> (r: Duration) {
        d.duration()
    }
}

impl vstd::std_specs::convert::FromSpecImpl<DurationSecs> for Duration {
    open spec fn obeys_from_spec() -> bool {
        true
    }

    open spec fn from_spec(v: DurationSecs) -> Duration {
        v.held()
    }
}

/// Milliseconds survive a round trip: the duration made from a
/// non-negative count (`from_millis_i64`) reads back (`as_millis_i64`) as
/// the same count.
pub proof fn lemma_millis_roundtrip(ms: i64, d: DurationMs)
    requires
        ms >= 0,
        d.total_millis() == ms,
    ensures
        d.millis_i64() == ms,
{
}

/// Seconds survive a round trip: the duration made from a non-negative
/// count (`from_secs_i32`) reads back (`as_secs_i32`) as the same count.
pub proof fn lemma_secs_roundtrip(secs: i32, d: DurationSecs)
    requires
        secs >= 0,
        d.secs_spec() == secs,
    ensures
        d.secs_i32() == secs,
{
}


// ----------------------------------------------------------------------
// MusicBrainz ids
// ----------------------------------------------------------------------

#[verifier::external_type_specification]
#[verifier::external_body]
pub struct ExUuid(uuid::Uuid);

/// The 128-bit value `uuid::Uuid::parse_str` reads from a text (hyphenated,
/// simple, braced or URN form), or none when it refuses it.
pub uninterp spec fn uuid_parse_result(text: Seq<char>) -> Option<u128>;

/// The lower-case hexadecimal digit for `n` (below 16).
pub open spec fn hex_char(n: u128) -> char {
    if n < 10 {
        (('0' as u32) + n) as char
    } else {
        (('a' as u32) + n - 10) as char
    }
}

/// The `k`-th of the 32 hexadecimal digits of `v`, most significant first.
pub open spec fn hex_digit_of(v: u128, k: int) -> u128 {
    (v >> ((124 - 4 * k) as u128)) & 0xf
}

/// Which digit stands at position `i` of the hyphenated text.
pub open spec fn digit_at(i: int) -> int {
    if i < 8 {
        i
    } else if i < 13 {
        i - 1
    } else if i < 18 {
        i - 2
    } else if i < 23 {
        i - 3
    } else {
        i - 4
    }
}

/// The lower-case hyphenated text of a value: its 32 hexadecimal digits,
/// most significant first, in groups of 8-4-4-4-12 joined by `-`.
pub open spec fn uuid_hyphenated(v: u128) -> Seq<char> {
    Seq::new(36, |i: int|
        if i == 8 || i == 13 || i == 18 || i == 23 {
            '-'
        } else {
            hex_char(hex_digit_of(v, digit_at(i)))
        })
}

/// `uuid::Uuid::parse_str(text)` then `as_u128()`: claims the result is
/// `uuid_parse_result` of the text.
#[verifier::external_body]
fn uuid_parse(text: &str) -> (r: Option<u128>)
    ensures
        r == uuid_parse_result(text@),
{
    match uuid::Uuid::parse_str(text) {
        Ok(u) => Some(u.as_u128()),
        Err(_) => None,
    }
}

/// `uuid::Uuid::from_u128(v).as_hyphenated().to_string()`: claims the text
/// is `uuid_hyphenated(v)`, 36 characters long, and that the crate's parser
/// reads it back as `v`.
#[verifier::external_body]
fn uuid_text(v: u128) -> (r: String)
    ensures
        r@ == uuid_hyphenated(v),
        r@.len() == 36,
        uuid_parse_result(r@) == Some(v),
{
    uuid::Uuid::from_u128(v).as_hyphenated().to_string()
}

/// `uuid::Uuid::as_u128`. `Uuid` is opaque here: the value is not tied to
/// its argument.
#[verifier::external_body]
fn uuid_value(u: &uuid::Uuid) -> (r: u128) {
    u.as_u128()
}

/// `uuid::Uuid::from_u128`. `Uuid` is opaque here: nothing is claimed of the
/// result.
#[verifier::external_body]
fn uuid_of_value(v: u128) -> (r: uuid::Uuid) {
    uuid::Uuid::from_u128(v)
}

/// Why a text is not a MusicBrainz id.
#[derive(Debug, Clone, PartialEq, Eq)]
pub enum MbidParseError {
    /// Holds the text given.
    Invalid(String),
}

/// A MusicBrainz identifier: the UUID itself, with its 128-bit value.
#[derive(Clone, Copy, Debug, PartialEq, Eq, PartialOrd, Ord, Hash)]
pub struct Mbid {
    value: u128,
    id: uuid::Uuid,
}

impl Mbid {
    /// The 128-bit value.
    pub closed spec fn value_spec(self) -> u128 {
        self.value
    }

    /// The UUID held.
    pub closed spec fn held(self) -> uuid::Uuid {
        self.id
    }

    /// Wraps a UUID.
    pub fn from_uuid(u: uuid::Uuid) -> (r: Self)
        ensures
            r.held() == u,
    {
        Mbid { value: uuid_value(&u), id: u }
    }

    /// Reads an id in any form the `uuid` crate accepts.
    pub fn parse(s: &str) -> (r: Result<Self, MbidParseError>)
        ensures
            match uuid_parse_result(s@) {
                Some(v) => r matches Ok(m) && m.value_spec() == v,
                None => r matches Err(MbidParseError::Invalid(e)) && e@ == s@,
            },
    {
        match uuid_parse(s) {
            Some(v) => Ok(Mbid { value: v, id: uuid_of_value(v) }),
            None => Err(MbidParseError::Invalid(s.to_owned())),
        }
    }

    /// The id as a UUID: the one held.
    pub fn uuid(self) -> (r: uuid::Uuid)
        ensures
            r == self.held(),
    {
        self.id
    }

    /// The id in lower-case hyphenated form.
    pub fn to_string(&self) -> (r: String)
        ensures
            r@ == uuid_hyphenated(self.value_spec()),
            uuid_parse_result(r@) == Some(self.value_spec()),
    {
        uuid_text(self.value)
    }
}

// ----------------------------------------------------------------------
// ISRC codes
// ----------------------------------------------------------------------

/// Why a string is not an ISRC.
#[derive(Debug, Clone, PartialEq, Eq)]
pub enum IsrcParseError {
    /// The normalised code is not 12 bytes long (holds the input).
    BadLength(String),
    /// The normalised code holds a character other than an ASCII letter or
    /// digit (holds the input).
    BadCharacters(String),
}

/// An International Standard Recording Code: 12 ASCII letters and digits,
/// letters upper case.
#[derive(Clone, Debug, PartialEq, Eq, PartialOrd, Ord, Hash)]
pub struct Isrc(String);

/// `char::to_ascii_uppercase`.
pub open spec fn ascii_upper(c: char) -> char {
    if 'a' <= c && c <= 'z' {
        ((c as u32) - 32) as char
    } else {
        c
    }
}

/// `char::to_ascii_lowercase`.
pub open spec fn ascii_lower(c: char) -> char {
    if 'A' <= c && c <= 'Z' {
        ((c as u32) + 32) as char
    } else {
        c
    }
}

/// `char::is_ascii_alphanumeric`.
pub open spec fn is_ascii_alnum(c: char) -> bool {
    ('0' <= c && c <= '9') || ('A' <= c && c <= 'Z') || ('a' <= c && c <= 'z')
}

/// The input without whitespace and dashes, ASCII letters upper-cased.
pub open spec fn isrc_normalized(s: Seq<char>) -> Seq<char>
    decreases s.len(),
{
    if s.len() == 0 {
        seq![]
    } else if !is_ws(s.last()) && s.last() != '-' {
        isrc_normalized(s.drop_last()).push(ascii_upper(s.last()))
    } else {
        isrc_normalized(s.drop_last())
    }
}

/// What `Isrc::parse` returns, by the normalised code.
pub open spec fn isrc_outcome(s: Seq<char>) -> Result<Seq<char>, IsrcParseError> {
    let n = isrc_normalized(s);
    if utf8_len(n) != 12 {
        Err(IsrcParseError::BadLength(arbitrary()))
    } else if !(forall|i: int| 0 <= i < n.len() ==> is_ascii_alnum(#[trigger] n[i])) {
        Err(IsrcParseError::BadCharacters(arbitrary()))
    } else {
        Ok(n)
    }
}

fn upper_char(c: char) -> (r: char)
    ensures
        r == ascii_upper(c),
{
    if 'a' <= c && c <= 'z' {
        let b = (c as u8) - 32;
        b as char
    } else {
        c
    }
}

fn lower_char(c: char) -> (r: char)
    ensures
        r == ascii_lower(c),
{
    if 'A' <= c && c <= 'Z' {
        let b = (c as u8) + 32;
        b as char
    } else {
        c
    }
}

/// A canonical code: ASCII letters and digits, no lower-case letters,
/// 12 bytes long.
pub open spec fn is_canonical_isrc(code: Seq<char>) -> bool {
    &&& utf8_len(code) == 12
    &&& forall|i: int| 0 <= i < code.len() ==> is_ascii_alnum(#[trigger] code[i]) && !('a' <= code[i] && code[i] <= 'z')
}

proof fn lemma_normalized_upper(s: Seq<char>)
    ensures
        forall|i: int| 0 <= i < isrc_normalized(s).len() ==> !('a' <= #[trigger] isrc_normalized(s)[i] && isrc_normalized(s)[i] <= 'z'),
    decreases s.len(),
{
    if s.len() > 0 {
        lemma_normalized_upper(s.drop_last());
        let c = s.last();
        if 'a' <= c && c <= 'z' {
            assert(ascii_upper(c) as u32 == (c as u32) - 32);
        }
        let prev = isrc_normalized(s.drop_last());
        let n = isrc_normalized(s);
        assert forall|i: int| 0 <= i < n.len() implies !('a' <= #[trigger] n[i] && n[i] <= 'z') by {
            if i < prev.len() {
                assert(n[i] == prev[i]);
            }
        }
    }
}

proof fn lemma_normalized_fixed(s: Seq<char>)
    requires
        forall|i: int| 0 <= i < s.len() ==> is_ascii_alnum(#[trigger] s[i]) && !('a' <= s[i] && s[i] <= 'z'),
    ensures
        isrc_normalized(s) == s,
    decreases s.len(),
{
    if s.len() > 0 {
        lemma_normalized_fixed(s.drop_last());
        assert(s.drop_last().push(s.last()) == s);
    }
}

impl Isrc {
    /// The code, e.g. "USRC11700001".
    pub closed spec fn code(&self) -> Seq<char> {
        self.0@
    }

    /// Parses an ISRC, ignoring whitespace and dashes and upper-casing
    /// letters.
    pub fn parse(s: &str) -> (r: Result<Self, IsrcParseError>)
        ensures
            match (r, isrc_outcome(s@)) {
                (Ok(i), Ok(n)) => i.code() == n && is_canonical_isrc(n),
                (Err(IsrcParseError::BadLength(e)), Err(IsrcParseError::BadLength(_))) => e@ == s@,
                (Err(IsrcParseError::BadCharacters(e)), Err(IsrcParseError::BadCharacters(_))) => e@ == s@,
                _ => false,
            },
    {
        let cs = chars_of(s);
        let mut out: Vec<char> = Vec::new();
        for i in 0..cs.len()
            invariant
                cs@ == s@,
                out@ == isrc_normalized(cs@.take(i as int)),
        {
            assert(cs@.take(i + 1).drop_last() == cs@.take(i as int));
            let c = cs[i];
            if !char_is_ws(c) && c != '-' {
                out.push(upper_char(c));
            }
        }
        assert(cs@.take(cs@.len() as int) == cs@);
        let normalized = string_of(&out);
        if normalized.as_str().len() != 12 {
            return Err(IsrcParseError::BadLength(s.to_owned()));
        }
        let mut ok = true;
        for i in 0..out.len()
            invariant
                out@ == isrc_normalized(s@),
                utf8_len(out@) == 12,
                ok <==> forall|k: int| 0 <= k < i ==> is_ascii_alnum(#[trigger] out@[k]),
        {
            let c = out[i];
            if !(('0' <= c && c <= '9') || ('A' <= c && c <= 'Z') || ('a' <= c && c <= 'z')) {
                ok = false;
            }
        }
        if !ok {
            return Err(IsrcParseError::BadCharacters(s.to_owned()));
        }
        proof {
            lemma_normalized_upper(s@);
        }
        Ok(Isrc(normalized))
    }

    /// The code as a string slice.
    pub fn as_str(&self) -> (r: &str)
        ensures
            r@ == self.code(),
    {
        self.0.as_str()
    }

    /// The code as an owned string.
    pub fn into_inner(self) -> (r: String)
        ensures
            r@ == self.code(),
    {
        self.0
    }
}


/// Parsing is idempotent: the text of a parsed code parses to the same code.
pub proof fn lemma_isrc_reparse(code: Seq<char>)
    requires
        is_canonical_isrc(code),
    ensures
        isrc_outcome(code) == Ok::<Seq<char>, IsrcParseError>(code),
{
    lemma_normalized_fixed(code);
}

// ----------------------------------------------------------------------
// String enums
// ----------------------------------------------------------------------

/// Every character mapped by `char::to_ascii_lowercase`.
pub open spec fn ascii_lowercase(s: Seq<char>) -> Seq<char> {
    s.map_values(|c: char| ascii_lower(c))
}

fn ascii_lowercase_chars(s: &Vec<char>) -> (r: Vec<char>)
    ensures
        r@ == ascii_lowercase(s@),
{
    let mut r: Vec<char> = Vec::new();
    for i in 0..s.len()
        invariant
            r@ == ascii_lowercase(s@.take(i as int)),
    {
        r.push(lower_char(s[i]));
        assert(ascii_lowercase(s@.take(i + 1)) == ascii_lowercase(s@.take(i as int)).push(ascii_lower(s@[i as int])));
    }
    assert(s@.take(s@.len() as int) == s@);
    r
}

fn same_chars(a: &Vec<char>, b: &str) -> (r: bool)
    ensures
        r == (a@ == b@),
{
    let bv = chars_of(b);
    if a.len() != bv.len() {
        return false;
    }
    for i in 0..a.len()
        invariant
            a@.len() == bv@.len(),
            bv@ == b@,
            forall|k: int| 0 <= k < i ==> a@[k] == bv@[k],
    {
        if a[i] != bv[i] {
            return false;
        }
    }
    assert(a@ == bv@);
    true
}

/// Text with no surrounding whitespace and no ASCII capitals is left as it
/// is by trimming and lower-casing.
proof fn lemma_canonical_text(s: Seq<char>)
    requires
        s.len() > 0,
        !is_ws(s[0]),
        !is_ws(s.last()),
        forall|i: int| 0 <= i < s.len() ==> !('A' <= #[trigger] s[i] && s[i] <= 'Z'),
    ensures
        ascii_lowercase(trim(s)) == s,
{
    assert(crate::text::trim_start(s) == s);
    assert(crate::text::trim_end(s) == s);
    assert(ascii_lowercase(s) == s);
}

/// An image's MIME type.
#[derive(Clone, Debug, PartialEq, Eq, Hash)]
pub enum ImageMimeType {
    Jpeg,
    Png,
    Gif,
    Webp,
    /// Any other value, kept as given.
    Other(String),
}

/// The text of a `ImageMimeType`.
pub open spec fn image_mime_type_text(v: ImageMimeType) -> Seq<char> {
    match v {
        ImageMimeType::Jpeg => "image/jpeg"@,
        ImageMimeType::Png => "image/png"@,
        ImageMimeType::Gif => "image/gif"@,
        ImageMimeType::Webp => "image/webp"@,
        ImageMimeType::Other(s) => s@,
    }
}

/// The named `ImageMimeType` that text denotes once trimmed and lower-cased (ASCII).
pub open spec fn image_mime_type_known(s: Seq<char>) -> Option<ImageMimeType> {
    let lower = ascii_lowercase(trim(s));
    if lower == "image/jpeg"@ {
        Some(ImageMimeType::Jpeg)
    } else if lower == "image/png"@ {
        Some(ImageMimeType::Png)
    } else if lower == "image/gif"@ {
        Some(ImageMimeType::Gif)
    } else if lower == "image/webp"@ {
        Some(ImageMimeType::Webp)
    } else {
        None
    }
}

impl ImageMimeType {
    /// The canonical text (the given text for `Other`).
    pub fn as_str(&self) -> (r: &str)
        ensures
            r@ == image_mime_type_text(*self),
    {
        match self {
            ImageMimeType::Jpeg => "image/jpeg",
            ImageMimeType::Png => "image/png",
            ImageMimeType::Gif => "image/gif",
            ImageMimeType::Webp => "image/webp",
            ImageMimeType::Other(s) => s.as_str(),
        }
    }

    /// Reads a value, ignoring surrounding whitespace and ASCII case; any
    /// other text is kept as `Other`.
    pub fn parse(s: &str) -> (r: Self)
        ensures
            match image_mime_type_known(s@) {
                Some(v) => r == v,
                None => r matches ImageMimeType::Other(x) && x@ == s@,
            },
    {
        let lower = ascii_lowercase_chars(&trim_chars(&chars_of(s)));
        if same_chars(&lower, "image/jpeg") {
            ImageMimeType::Jpeg
        } else if same_chars(&lower, "image/png") {
            ImageMimeType::Png
        } else if same_chars(&lower, "image/gif") {
            ImageMimeType::Gif
        } else if same_chars(&lower, "image/webp") {
            ImageMimeType::Webp
        } else {
            ImageMimeType::Other(s.to_owned())
        }
    }
}

/// Reading the canonical text of a named value gives the value back, and
/// reading back the text of any value gives what reading its text gives:
/// `parse(v.as_str())` is `v` for every value but an `Other` whose text
/// denotes a named one.
pub proof fn lemma_image_mime_type_roundtrip(v: ImageMimeType)
    ensures
        image_mime_type_known(image_mime_type_text(v)) == match v {
            ImageMimeType::Other(x) => image_mime_type_known(x@),
            _ => Some(v),
        },
{
    reveal_strlit("image/jpeg");
    reveal_strlit("image/png");
    reveal_strlit("image/gif");
    reveal_strlit("image/webp");
    match v {
        ImageMimeType::Other(x) => {},
        _ => {
            lemma_canonical_text(image_mime_type_text(v));
        },
    }
}

/// An audio file format.
#[derive(Clone, Debug, PartialEq, Eq, Hash)]
pub enum AudioFormat {
    Flac,
    Mp3,
    Aac,
    Ogg,
    Opus,
    Wav,
    M4a,
    /// Any other value, kept as given.
    Other(String),
}

/// The text of a `AudioFormat`.
pub open spec fn audio_format_text(v: AudioFormat) -> Seq<char> {
    match v {
        AudioFormat::Flac => "flac"@,
        AudioFormat::Mp3 => "mp3"@,
        AudioFormat::Aac => "aac"@,
        AudioFormat::Ogg => "ogg"@,
        AudioFormat::Opus => "opus"@,
        AudioFormat::Wav => "wav"@,
        AudioFormat::M4a => "m4a"@,
        AudioFormat::Other(s) => s@,
    }
}

/// The named `AudioFormat` that text denotes once trimmed and lower-cased (ASCII).
pub open spec fn audio_format_known(s: Seq<char>) -> Option<AudioFormat> {
    let lower = ascii_lowercase(trim(s));
    if lower == "flac"@ {
        Some(AudioFormat::Flac)
    } else if lower == "mp3"@ {
        Some(AudioFormat::Mp3)
    } else if lower == "aac"@ {
        Some(AudioFormat::Aac)
    } else if lower == "ogg"@ {
        Some(AudioFormat::Ogg)
    } else if lower == "opus"@ {
        Some(AudioFormat::Opus)
    } else if lower == "wav"@ {
        Some(AudioFormat::Wav)
    } else if lower == "m4a"@ {
        Some(AudioFormat::M4a)
    } else {
        None
    }
}

impl AudioFormat {
    /// The canonical text (the given text for `Other`).
    pub fn as_str(&self) -> (r: &str)
        ensures
            r@ == audio_format_text(*self),
    {
        match self {
            AudioFormat::Flac => "flac",
            AudioFormat::Mp3 => "mp3",
            AudioFormat::Aac => "aac",
            AudioFormat::Ogg => "ogg",
            AudioFormat::Opus => "opus",
            AudioFormat::Wav => "wav",
            AudioFormat::M4a => "m4a",
            AudioFormat::Other(s) => s.as_str(),
        }
    }

    /// Reads a value, ignoring surrounding whitespace and ASCII case; any
    /// other text is kept as `Other`.
    pub fn parse(s: &str) -> (r: Self)
        ensures
            match audio_format_known(s@) {
                Some(v) => r == v,
                None => r matches AudioFormat::Other(x) && x@ == s@,
            },
    {
        let lower = ascii_lowercase_chars(&trim_chars(&chars_of(s)));
        if same_chars(&lower, "flac") {
            AudioFormat::Flac
        } else if same_chars(&lower, "mp3") {
            AudioFormat::Mp3
        } else if same_chars(&lower, "aac") {
            AudioFormat::Aac
        } else if same_chars(&lower, "ogg") {
            AudioFormat::Ogg
        } else if same_chars(&lower, "opus") {
            AudioFormat::Opus
        } else if same_chars(&lower, "wav") {
            AudioFormat::Wav
        } else if same_chars(&lower, "m4a") {
            AudioFormat::M4a
        } else {
            AudioFormat::Other(s.to_owned())
        }
    }
}

/// Reading the canonical text of a named value gives the value back, and
/// reading back the text of any value gives what reading its text gives:
/// `parse(v.as_str())` is `v` for every value but an `Other` whose text
/// denotes a named one.
pub proof fn lemma_audio_format_roundtrip(v: AudioFormat)
    ensures
        audio_format_known(audio_format_text(v)) == match v {
            AudioFormat::Other(x) => audio_format_known(x@),
            _ => Some(v),
        },
{
    reveal_strlit("flac");
    reveal_strlit("mp3");
    reveal_strlit("aac");
    reveal_strlit("ogg");
    reveal_strlit("opus");
    reveal_strlit("wav");
    reveal_strlit("m4a");
    match v {
        AudioFormat::Other(x) => {},
        _ => {
            lemma_canonical_text(audio_format_text(v));
        },
    }
}

/// An audio codec.
#[derive(Clone, Debug, PartialEq, Eq, Hash)]
pub enum AudioCodec {
    Flac,
    Mp3,
    Aac,
    Vorbis,
    Opus,
    Pcm,
    /// Any other value, kept as given.
    Other(String),
}

/// The text of a `AudioCodec`.
pub open spec fn audio_codec_text(v: AudioCodec) -> Seq<char> {
    match v {
        AudioCodec::Flac => "flac"@,
        AudioCodec::Mp3 => "mp3"@,
        AudioCodec::Aac => "aac"@,
        AudioCodec::Vorbis => "vorbis"@,
        AudioCodec::Opus => "opus"@,
        AudioCodec::Pcm => "pcm"@,
        AudioCodec::Other(s) => s@,
    }
}

/// The named `AudioCodec` that text denotes once trimmed and lower-cased (ASCII).
pub open spec fn audio_codec_known(s: Seq<char>) -> Option<AudioCodec> {
    let lower = ascii_lowercase(trim(s));
    if lower == "flac"@ {
        Some(AudioCodec::Flac)
    } else if lower == "mp3"@ {
        Some(AudioCodec::Mp3)
    } else if lower == "aac"@ {
        Some(AudioCodec::Aac)
    } else if lower == "vorbis"@ {
        Some(AudioCodec::Vorbis)
    } else if lower == "opus"@ {
        Some(AudioCodec::Opus)
    } else if lower == "pcm"@ {
        Some(AudioCodec::Pcm)
    } else {
        None
    }
}

impl AudioCodec {
    /// The canonical text (the given text for `Other`).
    pub fn as_str(&self) -> (r: &str)
        ensures
            r@ == audio_codec_text(*self),
    {
        match self {
            AudioCodec::Flac => "flac",
            AudioCodec::Mp3 => "mp3",
            AudioCodec::Aac => "aac",
            AudioCodec::Vorbis => "vorbis",
            AudioCodec::Opus => "opus",
            AudioCodec::Pcm => "pcm",
            AudioCodec::Other(s) => s.as_str(),
        }
    }

    /// Reads a value, ignoring surrounding whitespace and ASCII case; any
    /// other text is kept as `Other`.
    pub fn parse(s: &str) -> (r: Self)
        ensures
            match audio_codec_known(s@) {
                Some(v) => r == v,
                None => r matches AudioCodec::Other(x) && x@ == s@,
            },
    {
        let lower = ascii_lowercase_chars(&trim_chars(&chars_of(s)));
        if same_chars(&lower, "flac") {
            AudioCodec::Flac
        } else if same_chars(&lower, "mp3") {
            AudioCodec::Mp3
        } else if same_chars(&lower, "aac") {
            AudioCodec::Aac
        } else if same_chars(&lower, "vorbis") {
            AudioCodec::Vorbis
        } else if same_chars(&lower, "opus") {
            AudioCodec::Opus
        } else if same_chars(&lower, "pcm") {
            AudioCodec::Pcm
        } else {
            AudioCodec::Other(s.to_owned())
        }
    }
}

/// Reading the canonical text of a named value gives the value back, and
/// reading back the text of any value gives what reading its text gives:
/// `parse(v.as_str())` is `v` for every value but an `Other` whose text
/// denotes a named one.
pub proof fn lemma_audio_codec_roundtrip(v: AudioCodec)
    ensures
        audio_codec_known(audio_codec_text(v)) == match v {
            AudioCodec::Other(x) => audio_codec_known(x@),
            _ => Some(v),
        },
{
    reveal_strlit("flac");
    reveal_strlit("mp3");
    reveal_strlit("aac");
    reveal_strlit("vorbis");
    reveal_strlit("opus");
    reveal_strlit("pcm");
    match v {
        AudioCodec::Other(x) => {},
        _ => {
            lemma_canonical_text(audio_codec_text(v));
        },
    }
}

impl std::str::FromStr for Mbid {
    type Err = MbidParseError;

    /// Reads the text with `parse`.
    fn from_str(s: &str) -> Result<Self, Self::Err> {
        Self::parse(s)
    }
}

impl std::str::FromStr for Isrc {
    type Err = IsrcParseError;

    /// Reads the text with `parse`.
    fn from_str(s: &str) -> Result<Self, Self::Err> {
        Self::parse(s)
    }
}

impl std::str::FromStr for ImageMimeType {
    type Err = std::convert::Infallible;

    /// Reads the text with `parse`, which never fails.
    fn from_str(s: &str) -> Result<Self, Self::Err> {
        Ok(Self::parse(s))
    }
}

impl std::str::FromStr for AudioFormat {
    type Err = std::convert::Infallible;

    /// Reads the text with `parse`, which never fails.
    fn from_str(s: &str) -> Result<Self, Self::Err> {
        Ok(Self::parse(s))
    }
}

impl std::str::FromStr for AudioCodec {
    type Err = std::convert::Infallible;

    /// Reads the text with `parse`, which never fails.
    fn from_str(s: &str) -> Result<Self, Self::Err> {
        Ok(Self::parse(s))
    }
}

} // verus!
