//! Spotify API data and the PKCE authorisation flow.
use base64::Engine;
use rand::Rng;
use sha2::Digest;
use vstd::prelude::*;
use vstd::utf8::encode_utf8;

use crate::text::{chars_of, extend_chars, string_of};

verus! {

// ----------------------------------------------------------------------
// API data
// ----------------------------------------------------------------------

/// Spotify OAuth token response.
#[derive(Debug, Clone)]
pub struct SpotifyTokenResponse {
    pub access_token: String,
    pub token_type: String,
    pub expires_in: u64,
    pub refresh_token: Option<String>,
    pub scope: String,
}

/// Spotify user profile.
#[derive(Debug, Clone)]
pub struct SpotifyUser {
    pub id: String,
    pub display_name: Option<String>,
}

/// Spotify playlist from the API.
#[derive(Debug, Clone)]
pub struct SpotifyPlaylist {
    pub id: String,
    pub name: String,
    pub description: Option<String>,
    pub snapshot_id: String,
    pub tracks: SpotifyPlaylistTracks,
}

/// The track count of a playlist.
#[derive(Debug, Clone)]
pub struct SpotifyPlaylistTracks {
    pub total: i32,
}

/// Spotify track from the API.
#[derive(Debug, Clone)]
pub struct SpotifyTrack {
    pub id: String,
    pub name: String,
    pub artists: Vec<SpotifyArtist>,
    pub album: SpotifyAlbum,
    pub duration_ms: Option<i64>,
    pub external_ids: Option<SpotifyExternalIds>,
}

/// A track's artist.
#[derive(Debug, Clone)]
pub struct SpotifyArtist {
    pub id: String,
    pub name: String,
}

/// A track's album.
#[derive(Debug, Clone)]
pub struct SpotifyAlbum {
    pub id: String,
    pub name: String,
    pub external_ids: Option<SpotifyExternalIds>,
}

/// Catalogue identifiers.
#[derive(Debug, Clone)]
pub struct SpotifyExternalIds {
    pub isrc: Option<String>,
    pub ean: Option<String>,
    pub upc: Option<String>,
}

/// Status of a playlist sync.
#[derive(Debug, Clone, Copy, PartialEq, Eq, Structural)]
pub enum SyncStatus {
    Pending,
    InProgress,
    Completed,
    Failed,
}

/// Result of a single track download attempt.
#[derive(Debug, Clone)]
pub enum DownloadResult {
    AlreadyExists { track_id: i64 },
    Downloaded { track_id: i64 },
    Failed { reason: String },
}

/// Result of a playlist sync.
#[derive(Debug, Clone)]
pub struct PlaylistSyncResult {
    pub total_tracks: i32,
    pub already_downloaded: i32,
    pub newly_downloaded: i32,
    pub failed: i32,
    pub failed_tracks: Vec<FailedTrack>,
}

/// A track that could not be synced, and why.
#[derive(Debug, Clone)]
pub struct FailedTrack {
    pub spotify_track: SpotifyTrack,
    pub reason: String,
}

/// PKCE session data kept between starting and completing a login.
#[derive(Debug, Clone)]
pub struct OAuthSession {
    pub code_verifier: String,
    pub state: String,
    pub created_at: i64,
}

/// What starting a login hands back to the user.
#[derive(Debug, Clone)]
pub struct SpotifyAuthResponse {
    pub auth_url: String,
    pub state: String,
}

/// A Spotify playlist as the rest of the program sees it.
#[derive(Debug, Clone)]
pub struct SpotifyApiPlaylist {
    pub id: String,
    pub name: String,
    pub description: Option<String>,
    pub snapshot_id: String,
    pub total_tracks: i32,
}

/// A Spotify track as the rest of the program sees it.
#[derive(Debug, Clone)]
pub struct SpotifyApiTrack {
    pub id: String,
    pub name: String,
    pub duration_ms: i32,
    pub artists: Vec<String>,
    pub album_name: String,
    pub isrc: Option<String>,
    pub upc: Option<String>,
}

// ----------------------------------------------------------------------
// Outside calls
// ----------------------------------------------------------------------

/// A uniformly random index below `n` (`rand::rng().random_range(0..n)`,
/// which panics on an empty range). Only the range of the result is claimed.
#[verifier::external_body]
fn random_index(n: usize) -> (r: usize)
    requires
        n > 0,
    ensures
        r < n,
{
    rand::rng().random_range(0..n)
}

/// The current time in seconds since the Unix epoch
/// (`chrono::Utc::now().timestamp()`). Nothing is claimed of it.
#[verifier::external_body]
fn unix_now() -> (r: i64) {
    chrono::Utc::now().timestamp()
}

/// The SHA-256 digest of some bytes.
pub uninterp spec fn sha256_digest(data: Seq<u8>) -> Seq<u8>;

/// `sha2::Sha256` over `data`: claims the result is `sha256_digest(data)`,
/// 32 bytes long.
#[verifier::external_body]
fn sha256(data: &[u8]) -> (r: Vec<u8>)
    ensures
        r@ == sha256_digest(data@),
        r@.len() == 32,
{
    let mut hasher = sha2::Sha256::new();
    hasher.update(data);
    hasher.finalize().to_vec()
}

/// A character of the URL-safe base64 alphabet.
pub open spec fn is_base64_url_char(c: char) -> bool {
    ('A' <= c && c <= 'Z') || ('a' <= c && c <= 'z') || ('0' <= c && c <= '9') || c == '-' || c == '_'
}

/// The URL-safe base64 digit for a six-bit value: `A`-`Z`, `a`-`z`,
/// `0`-`9`, `-`, `_`.
pub open spec fn base64_digit(v: int) -> char {
    if v < 26 {
        (65 + v) as char
    } else if v < 52 {
        (97 + v - 26) as char
    } else if v < 62 {
        (48 + v - 52) as char
    } else if v == 62 {
        '-'
    } else {
        '_'
    }
}

/// The base64 encoding of some bytes with the URL-safe alphabet, unpadded:
/// each three bytes become four digits of six bits each, most significant
/// first; a last one or two bytes become two or three digits, the missing
/// low bits zero.
pub open spec fn base64_url_nopad(d: Seq<u8>) -> Seq<char>
    decreases d.len(),
{
    if d.len() == 0 {
        seq![]
    } else if d.len() == 1 {
        seq![base64_digit(d[0] as int / 4), base64_digit((d[0] % 4) * 16)]
    } else if d.len() == 2 {
        seq![
            base64_digit(d[0] as int / 4),
            base64_digit((d[0] % 4) * 16 + d[1] / 16),
            base64_digit((d[1] % 16) * 4),
        ]
    } else {
        seq![
            base64_digit(d[0] as int / 4),
            base64_digit((d[0] % 4) * 16 + d[1] / 16),
            base64_digit((d[1] % 16) * 4 + d[2] / 64),
            base64_digit(d[2] as int % 64),
        ] + base64_url_nopad(d.skip(3))
    }
}

/// The unpadded encoded length: four characters per three bytes, two or
/// three for a remainder of one or two bytes.
pub open spec fn base64_nopad_len(n: int) -> int {
    4 * (n / 3) + if n % 3 == 1 { 2int } else if n % 3 == 2 { 3int } else { 0int }
}

/// The unpadded encoding has the unpadded length and uses only the
/// URL-safe alphabet.
pub proof fn lemma_base64_shape(d: Seq<u8>)
    ensures
        base64_url_nopad(d).len() == base64_nopad_len(d.len() as int),
        forall|i: int| 0 <= i < base64_url_nopad(d).len() ==> is_base64_url_char(#[trigger] base64_url_nopad(d)[i]),
    decreases d.len(),
{
    if d.len() >= 3 {
        lemma_base64_shape(d.skip(3));
        let head = seq![
            base64_digit(d[0] as int / 4),
            base64_digit((d[0] % 4) * 16 + d[1] / 16),
            base64_digit((d[1] % 16) * 4 + d[2] / 64),
            base64_digit(d[2] as int % 64),
        ];
        assert(base64_url_nopad(d) == head + base64_url_nopad(d.skip(3)));
        assert(base64_nopad_len(d.len() as int) == 4 + base64_nopad_len(d.len() - 3));
        assert forall|i: int| 0 <= i < base64_url_nopad(d).len() implies is_base64_url_char(
            #[trigger] base64_url_nopad(d)[i],
        ) by {
            if i >= 4 {
                assert(base64_url_nopad(d)[i] == base64_url_nopad(d.skip(3))[i - 4]);
            }
        }
    }
}

/// `base64::engine::general_purpose::URL_SAFE_NO_PAD.encode(data)`: claims
/// the result is `base64_url_nopad(data)`. The length computation panics
/// beyond `usize`, which the bound excludes.
#[verifier::external_body]
fn base64_url_encode(data: &[u8]) -> (r: String)
    requires
        data@.len() <= 0x3fff_ffff,
    ensures
        r@ == base64_url_nopad(data@),
{
    base64::engine::general_purpose::URL_SAFE_NO_PAD.encode(data)
}

/// An unreserved URL byte: ASCII letter, digit, `-`, `.`, `_` or `~`.
pub open spec fn is_unreserved(b: u8) -> bool {
    (48 <= b <= 57) || (65 <= b <= 90) || (97 <= b <= 122) || b == 45 || b == 46 || b == 95 || b == 126
}

/// An upper-case hexadecimal digit for a value below 16.
pub open spec fn hex_digit(v: u8) -> char {
    if v < 10 {
        ((48 + v) as u8) as char
    } else {
        ((55 + v) as u8) as char
    }
}

/// Percent-encoding of bytes: unreserved bytes stay, every other byte
/// becomes `%` and two upper-case hex digits.
pub open spec fn percent_encoded(bytes: Seq<u8>) -> Seq<char>
    decreases bytes.len(),
{
    if bytes.len() == 0 {
        seq![]
    } else {
        let b = bytes.last();
        percent_encoded(bytes.drop_last()) + if is_unreserved(b) {
            seq![b as char]
        } else {
            seq!['%', hex_digit(b / 16), hex_digit(b % 16)]
        }
    }
}

/// `urlencoding::encode`: claims the result percent-encodes the UTF-8 bytes
/// of `s` as its source does (every byte but ASCII letters, digits and
/// `-._~`).
#[verifier::external_body]
fn url_encode(s: &str) -> (r: String)
    ensures
        r@ == percent_encoded(encode_utf8(s@)),
{
    urlencoding::encode(s).into_owned()
}

// ----------------------------------------------------------------------
// PKCE
// ----------------------------------------------------------------------

/// Where users are sent to authorise the app.
pub const SPOTIFY_AUTH_URL: &'static str = "https://accounts.spotify.com/authorize";

/// Where codes and refresh tokens are exchanged for access tokens.
pub const SPOTIFY_TOKEN_URL: &'static str = "https://accounts.spotify.com/api/token";

/// The permissions asked for.
pub const SPOTIFY_SCOPE: &'static str = "playlist-read-private playlist-read-collaborative user-library-read";

/// The characters PKCE allows in a verifier.
pub const PKCE_CHARSET: &'static str = "ABCDEFGHIJKLMNOPQRSTUVWXYZabcdefghijklmnopqrstuvwxyz0123456789-._~";

/// A character PKCE allows in a verifier: ASCII letter, digit, `-`, `.`,
/// `_` or `~`.
pub open spec fn is_pkce_char(c: char) -> bool {
    ('A' <= c && c <= 'Z') || ('a' <= c && c <= 'z') || ('0' <= c && c <= '9') || c == '-' || c == '.'
        || c == '_' || c == '~'
}

/// The characters of `PKCE_CHARSET` at the given positions.
pub open spec fn pkce_chars_at(indices: Seq<usize>) -> Seq<char> {
    Seq::new(indices.len(), |i: int| PKCE_CHARSET@[indices[i] as int])
}

/// Positions in `PKCE_CHARSET` (66 characters).
pub open spec fn pkce_positions(indices: Seq<usize>) -> bool {
    forall|i: int| 0 <= i < indices.len() ==> #[trigger] indices[i] < 66
}

/// The string of the PKCE characters at the given positions of
/// `PKCE_CHARSET`, one per position.
pub fn pkce_string_from(indices: &Vec<usize>) -> (r: String)
    requires
        pkce_positions(indices@),
    ensures
        r@ == pkce_chars_at(indices@),
        forall|i: int| 0 <= i < r@.len() ==> is_pkce_char(#[trigger] r@[i]),
{
    let charset = chars_of(PKCE_CHARSET);
    proof {
        reveal_strlit("ABCDEFGHIJKLMNOPQRSTUVWXYZabcdefghijklmnopqrstuvwxyz0123456789-._~");
        assert forall|k: int| 0 <= k < charset@.len() implies is_pkce_char(#[trigger] charset@[k]) by {
        }
    }
    let mut out: Vec<char> = Vec::new();
    for i in 0..indices.len()
        invariant
            charset@ == PKCE_CHARSET@,
            charset@.len() == 66,
            pkce_positions(indices@),
            forall|k: int| 0 <= k < charset@.len() ==> is_pkce_char(#[trigger] charset@[k]),
            out@ == pkce_chars_at(indices@).take(i as int),
    {
        assert(indices@[i as int] < 66);
        out.push(charset[indices[i]]);
        assert(out@ == pkce_chars_at(indices@).take(i + 1));
    }
    assert(out@ == pkce_chars_at(indices@));
    string_of(&out)
}

/// A random string of `length` PKCE characters: `length` positions drawn
/// at random, each giving the `PKCE_CHARSET` character there.
pub fn generate_random_string(length: usize) -> (r: String)
    ensures
        r@.len() == length,
        forall|i: int| 0 <= i < r@.len() ==> is_pkce_char(#[trigger] r@[i]),
        exists|ix: Seq<usize>| ix.len() == length && pkce_positions(ix) && r@ == pkce_chars_at(ix),
{
    let mut indices: Vec<usize> = Vec::new();
    for _i in 0..length
        invariant
            indices@.len() == _i,
            pkce_positions(indices@),
    {
        let idx = random_index(66);
        indices.push(idx);
    }
    pkce_string_from(&indices)
}

/// A PKCE code verifier: 128 random PKCE characters.
pub fn generate_code_verifier() -> (r: String)
    ensures
        r@.len() == 128,
        forall|i: int| 0 <= i < r@.len() ==> is_pkce_char(#[trigger] r@[i]),
        exists|ix: Seq<usize>| ix.len() == 128 && pkce_positions(ix) && r@ == pkce_chars_at(ix),
{
    generate_random_string(128)
}

/// A CSRF state value: 16 random PKCE characters.
pub fn generate_state() -> (r: String)
    ensures
        r@.len() == 16,
        forall|i: int| 0 <= i < r@.len() ==> is_pkce_char(#[trigger] r@[i]),
        exists|ix: Seq<usize>| ix.len() == 16 && pkce_positions(ix) && r@ == pkce_chars_at(ix),
{
    generate_random_string(16)
}

/// The S256 code challenge of a verifier: the URL-safe unpadded base64 of
/// the SHA-256 of its UTF-8 bytes.
pub open spec fn code_challenge(verifier: Seq<char>) -> Seq<char> {
    base64_url_nopad(sha256_digest(encode_utf8(verifier)))
}

/// The S256 code challenge of a verifier (43 URL-safe characters).
pub fn generate_code_challenge(verifier: &str) -> (r: String)
    ensures
        r@ == code_challenge(verifier@),
        r@.len() == 43,
        forall|i: int| 0 <= i < r@.len() ==> is_base64_url_char(#[trigger] r@[i]),
{
    let digest = sha256(verifier.as_bytes());
    proof {
        lemma_base64_shape(digest@);
    }
    base64_url_encode(digest.as_slice())
}

/// The authorisation URL for a client, redirect, state and challenge.
pub open spec fn auth_url(client_id: Seq<char>, redirect_uri: Seq<char>, state: Seq<char>, challenge: Seq<char>) -> Seq<char> {
    SPOTIFY_AUTH_URL@ + "?client_id="@ + percent_encoded(encode_utf8(client_id))
        + "&response_type=code&redirect_uri="@ + percent_encoded(encode_utf8(redirect_uri))
        + "&state="@ + percent_encoded(encode_utf8(state)) + "&scope="@ + percent_encoded(
        encode_utf8(SPOTIFY_SCOPE@),
    ) + "&code_challenge="@ + percent_encoded(encode_utf8(challenge))
        + "&code_challenge_method=S256"@
}

fn push_str(v: &mut Vec<char>, s: &str)
    ensures
        final(v)@ == old(v)@ + s@,
{
    extend_chars(v, &chars_of(s));
}

/// Starts a PKCE login with a given verifier, state and clock reading: the
/// URL to send the user to, and the session to keep until they come back.
pub fn oauth_start(
    client_id: &str,
    redirect_uri: &str,
    code_verifier: String,
    state: String,
    now: i64,
) -> (r: (SpotifyAuthResponse, OAuthSession))
    ensures
        r.0.auth_url@ == auth_url(client_id@, redirect_uri@, state@, code_challenge(code_verifier@)),
        r.0.state@ == state@,
        r.1.code_verifier@ == code_verifier@,
        r.1.state@ == state@,
        r.1.created_at == now,
{
    let challenge = generate_code_challenge(code_verifier.as_str());
    let mut url: Vec<char> = Vec::new();
    push_str(&mut url, SPOTIFY_AUTH_URL);
    push_str(&mut url, "?client_id=");
    push_str(&mut url, url_encode(client_id).as_str());
    push_str(&mut url, "&response_type=code&redirect_uri=");
    push_str(&mut url, url_encode(redirect_uri).as_str());
    push_str(&mut url, "&state=");
    push_str(&mut url, url_encode(state.as_str()).as_str());
    push_str(&mut url, "&scope=");
    push_str(&mut url, url_encode(SPOTIFY_SCOPE).as_str());
    push_str(&mut url, "&code_challenge=");
    push_str(&mut url, url_encode(challenge.as_str()).as_str());
    push_str(&mut url, "&code_challenge_method=S256");
    let response = SpotifyAuthResponse { auth_url: string_of(&url), state: state.clone() };
    let session = OAuthSession { code_verifier, state, created_at: now };
    (response, session)
}

/// Starts a PKCE login: a fresh 128-character verifier and 16-character
/// state, stamped with the current time.
pub fn initiate_oauth(client_id: &str, redirect_uri: &str) -> (r: (SpotifyAuthResponse, OAuthSession))
    ensures
        r.0.auth_url@ == auth_url(client_id@, redirect_uri@, r.0.state@, code_challenge(r.1.code_verifier@)),
        r.0.state@ == r.1.state@,
        r.1.code_verifier@.len() == 128,
        r.1.state@.len() == 16,
        forall|i: int| 0 <= i < 128 ==> is_pkce_char(#[trigger] r.1.code_verifier@[i]),
        forall|i: int| 0 <= i < 16 ==> is_pkce_char(#[trigger] r.1.state@[i]),
{
    let code_verifier = generate_code_verifier();
    let state = generate_state();
    oauth_start(client_id, redirect_uri, code_verifier, state, unix_now())
}

/// The `Authorization` header value for the token endpoint: "Basic " and
/// the URL-safe unpadded base64 of "client_id:client_secret".
pub fn basic_auth_header(client_id: &str, client_secret: &str) -> (r: String)
    requires
        encode_utf8(client_id@ + ":"@ + client_secret@).len() <= 0x3fff_ffff,
    ensures
        r@ == "Basic "@ + base64_url_nopad(encode_utf8(client_id@ + ":"@ + client_secret@)),
{
    let mut creds: Vec<char> = chars_of(client_id);
    push_str(&mut creds, ":");
    push_str(&mut creds, client_secret);
    let joined = string_of(&creds);
    let encoded = base64_url_encode(joined.as_str().as_bytes());
    let mut out: Vec<char> = chars_of("Basic ");
    push_str(&mut out, encoded.as_str());
    string_of(&out)
}

} // verus!
