//! Matching Spotify tracks against the local library: what a matcher
//! result becomes, which tracks get linked, and which candidates are kept
//! for review.
use vstd::prelude::*;

use crate::wishlist::SpotifyTrackRecord;

verus! {

/// How sure the matcher is.
#[derive(Debug, Clone, Copy, PartialEq, Eq, Structural)]
pub enum MatchConfidence {
    High,
    Medium,
    Low,
    NoMatch,
}

/// How close the durations are.
#[derive(Debug, Clone, Copy, PartialEq, Eq, Structural)]
pub enum DurationMatch {
    Exact,
    Close,
    Mismatch,
}

/// Whether both are the same version (live, remix, ...).
#[derive(Debug, Clone, Copy, PartialEq, Eq, Structural)]
pub enum VersionMatch {
    Match,
    Mismatch,
    Ambiguous,
}

/// A stored candidate's confidence.
#[derive(Debug, Clone, Copy, PartialEq, Eq, Structural)]
pub enum CandidateConfidence {
    High,
    Medium,
    Low,
}

/// A stored candidate's duration match.
#[derive(Debug, Clone, Copy, PartialEq, Eq, Structural)]
pub enum CandidateDurationMatch {
    Exact,
    Close,
    Mismatch,
}

/// A stored candidate's version match.
#[derive(Debug, Clone, Copy, PartialEq, Eq, Structural)]
pub enum CandidateVersionMatch {
    Match,
    Mismatch,
    Ambiguous,
}

/// A matcher's verdict on one local track.
#[derive(Debug, Clone, Copy, PartialEq, Eq, Structural)]
pub struct MatchVerdict {
    pub local_track_id: i64,
    pub confidence: MatchConfidence,
    pub duration_match: DurationMatch,
    pub version_match: VersionMatch,
}

/// A candidate to store for review.
#[derive(Debug, Clone, Copy, PartialEq, Eq, Structural)]
pub struct CandidateRecord {
    pub local_track_id: i64,
    pub confidence: CandidateConfidence,
    pub duration_match: CandidateDurationMatch,
    pub version_match: CandidateVersionMatch,
}

/// The stored confidence of a verdict; none for no match.
pub open spec fn candidate_confidence(c: MatchConfidence) -> Option<CandidateConfidence> {
    match c {
        MatchConfidence::High => Some(CandidateConfidence::High),
        MatchConfidence::Medium => Some(CandidateConfidence::Medium),
        MatchConfidence::Low => Some(CandidateConfidence::Low),
        MatchConfidence::NoMatch => None,
    }
}

/// The stored form of a duration match.
pub open spec fn candidate_duration(d: DurationMatch) -> CandidateDurationMatch {
    match d {
        DurationMatch::Exact => CandidateDurationMatch::Exact,
        DurationMatch::Close => CandidateDurationMatch::Close,
        DurationMatch::Mismatch => CandidateDurationMatch::Mismatch,
    }
}

/// The stored form of a version match.
pub open spec fn candidate_version(v: VersionMatch) -> CandidateVersionMatch {
    match v {
        VersionMatch::Match => CandidateVersionMatch::Match,
        VersionMatch::Mismatch => CandidateVersionMatch::Mismatch,
        VersionMatch::Ambiguous => CandidateVersionMatch::Ambiguous,
    }
}

/// The stored confidence of a verdict; none for no match.
pub fn confidence_to_candidate(confidence: &MatchConfidence) -> (r: Option<CandidateConfidence>)
    ensures
        r == candidate_confidence(*confidence),
{
    match confidence {
        MatchConfidence::High => Some(CandidateConfidence::High),
        MatchConfidence::Medium => Some(CandidateConfidence::Medium),
        MatchConfidence::Low => Some(CandidateConfidence::Low),
        MatchConfidence::NoMatch => None,
    }
}

/// The stored form of a duration match.
pub fn duration_match_to_candidate(dm: &DurationMatch) -> (r: CandidateDurationMatch)
    ensures
        r == candidate_duration(*dm),
{
    match dm {
        DurationMatch::Exact => CandidateDurationMatch::Exact,
        DurationMatch::Close => CandidateDurationMatch::Close,
        DurationMatch::Mismatch => CandidateDurationMatch::Mismatch,
    }
}

/// The stored form of a version match.
pub fn version_match_to_candidate(vm: &VersionMatch) -> (r: CandidateVersionMatch)
    ensures
        r == candidate_version(*vm),
{
    match vm {
        VersionMatch::Match => CandidateVersionMatch::Match,
        VersionMatch::Mismatch => CandidateVersionMatch::Mismatch,
        VersionMatch::Ambiguous => CandidateVersionMatch::Ambiguous,
    }
}

/// A Spotify track is matched once it is linked to a local track.
pub fn is_spotify_track_already_matched(spotify_track: &SpotifyTrackRecord) -> (b: bool)
    ensures
        b == spotify_track.local_track_id is Some,
{
    spotify_track.local_track_id.is_some()
}

/// How many candidates are kept per Spotify track.
pub const MAX_STORED_CANDIDATES: usize = 5;

/// The candidates kept from the first `n` verdicts: those with a
/// confidence, in order, converted.
pub open spec fn kept_candidates(verdicts: Seq<MatchVerdict>, n: int) -> Seq<CandidateRecord>
    decreases n,
{
    if n <= 0 {
        seq![]
    } else {
        let v = verdicts[n - 1];
        let prev = kept_candidates(verdicts, n - 1);
        match candidate_confidence(v.confidence) {
            Some(c) => prev.push(CandidateRecord {
                local_track_id: v.local_track_id,
                confidence: c,
                duration_match: candidate_duration(v.duration_match),
                version_match: candidate_version(v.version_match),
            }),
            None => prev,
        }
    }
}

/// The candidates to store for review: among the first five verdicts
/// (best first), those that are a match at all.
pub fn candidates_to_store(verdicts: &Vec<MatchVerdict>) -> (r: Vec<CandidateRecord>)
    ensures
        r@ == kept_candidates(verdicts@, if verdicts@.len() < 5 { verdicts@.len() as int } else { 5 }),
{
    let n = if verdicts.len() < MAX_STORED_CANDIDATES { verdicts.len() } else { MAX_STORED_CANDIDATES };
    let mut r: Vec<CandidateRecord> = Vec::new();
    for i in 0..n
        invariant
            n <= verdicts@.len(),
            r@ == kept_candidates(verdicts@, i as int),
    {
        let v = verdicts[i];
        match confidence_to_candidate(&v.confidence) {
            Some(c) => {
                r.push(CandidateRecord {
                    local_track_id: v.local_track_id,
                    confidence: c,
                    duration_match: duration_match_to_candidate(&v.duration_match),
                    version_match: version_match_to_candidate(&v.version_match),
                });
            },
            None => {},
        }
    }
    r
}

/// What happens to a Spotify track after matching.
#[derive(Debug, Clone, Copy, PartialEq, Eq, Structural)]
pub enum MatchDecision {
    /// Link it to this local track.
    Link(i64),
    /// Keep candidates for review (there were verdicts, none certain).
    Review,
    /// Nothing matched at all.
    Unmatched,
}

/// Links the best verdict when it is of high confidence; otherwise asks
/// for review when there is any verdict.
pub fn decide_match(verdicts: &Vec<MatchVerdict>) -> (r: MatchDecision)
    ensures
        r == if verdicts@.len() > 0 && verdicts@[0].confidence == MatchConfidence::High {
            MatchDecision::Link(verdicts@[0].local_track_id)
        } else if verdicts@.len() > 0 {
            MatchDecision::Review
        } else {
            MatchDecision::Unmatched
        },
{
    if verdicts.len() > 0 && verdicts[0].confidence == MatchConfidence::High {
        MatchDecision::Link(verdicts[0].local_track_id)
    } else if verdicts.len() > 0 {
        MatchDecision::Review
    } else {
        MatchDecision::Unmatched
    }
}

/// Linked and not linked counts of a list of decisions.
pub open spec fn tally(ds: Seq<MatchDecision>) -> (int, int)
    decreases ds.len(),
{
    if ds.len() == 0 {
        (0, 0)
    } else {
        let (m, f) = tally(ds.drop_last());
        if ds.last() is Link {
            (m + 1, f)
        } else {
            (m, f + 1)
        }
    }
}

proof fn lemma_tally_sum(ds: Seq<MatchDecision>)
    ensures
        tally(ds).0 >= 0 && tally(ds).1 >= 0 && tally(ds).0 + tally(ds).1 == ds.len(),
    decreases ds.len(),
{
    if ds.len() > 0 {
        lemma_tally_sum(ds.drop_last());
    }
}

/// How many tracks were linked and how many were not.
pub fn tally_decisions(ds: &Vec<MatchDecision>) -> (r: (u64, u64))
    ensures
        r.0 == tally(ds@).0,
        r.1 == tally(ds@).1,
        r.0 + r.1 == ds@.len(),
{
    let mut m: u64 = 0;
    let mut f: u64 = 0;
    for i in 0..ds.len()
        invariant
            m == tally(ds@.take(i as int)).0,
            f == tally(ds@.take(i as int)).1,
            m + f == i,
    {
        assert(ds@.take(i + 1).drop_last() == ds@.take(i as int));
        proof {
            lemma_tally_sum(ds@.take(i as int));
        }
        match ds[i] {
            MatchDecision::Link(_) => m = m + 1,
            _ => f = f + 1,
        }
    }
    assert(ds@.take(ds@.len() as int) == ds@);
    (m, f)
}

/// How many tracks are not linked yet.
pub open spec fn count_unmatched(ts: Seq<SpotifyTrackRecord>) -> int
    decreases ts.len(),
{
    if ts.len() == 0 {
        0
    } else {
        count_unmatched(ts.drop_last()) + if ts.last().local_track_id is None { 1int } else { 0int }
    }
}

proof fn lemma_count_unmatched_bounded(ts: Seq<SpotifyTrackRecord>)
    ensures
        0 <= count_unmatched(ts) <= ts.len(),
    decreases ts.len(),
{
    if ts.len() > 0 {
        lemma_count_unmatched_bounded(ts.drop_last());
    }
}

/// How many of the tracks still need matching.
pub fn unmatched_count(ts: &Vec<SpotifyTrackRecord>) -> (r: u64)
    ensures
        r == count_unmatched(ts@),
{
    let mut c: u64 = 0;
    for i in 0..ts.len()
        invariant
            c == count_unmatched(ts@.take(i as int)),
            c <= i,
    {
        assert(ts@.take(i + 1).drop_last() == ts@.take(i as int));
        proof {
            lemma_count_unmatched_bounded(ts@.take(i as int));
        }
        if !is_spotify_track_already_matched(&ts[i]) {
            c = c + 1;
        }
    }
    assert(ts@.take(ts@.len() as int) == ts@);
    c
}

/// A track as the matcher compares it.
#[derive(Debug, Clone)]
pub struct MatcherTrack {
    pub title: String,
    pub primary_artist: String,
    pub secondary_artists: Vec<String>,
    pub album: String,
    pub duration_ms: u32,
}

/// Why a Spotify track cannot be matched.
#[derive(Debug, Clone, Copy, PartialEq, Eq, Structural)]
pub enum MatcherInputError {
    NoArtist,
    NoDuration,
}

/// A Spotify track as the matcher compares it: the first artist is the
/// primary one, the rest are secondary; the duration in milliseconds is
/// read as a `u32`. Refused without an artist or a duration.
pub fn spotify_track_to_track(spotify_track: &SpotifyTrackRecord) -> (r: Result<MatcherTrack, MatcherInputError>)
    ensures
        spotify_track.artists@.len() == 0 ==> r == Err::<MatcherTrack, MatcherInputError>(MatcherInputError::NoArtist),
        spotify_track.artists@.len() > 0 && spotify_track.duration is None ==> r == Err::<MatcherTrack, MatcherInputError>(MatcherInputError::NoDuration),
        spotify_track.artists@.len() > 0 && spotify_track.duration is Some ==> (r matches Ok(t) && {
            &&& t.title@ == spotify_track.title@
            &&& t.primary_artist@ == spotify_track.artists@[0]@
            &&& t.secondary_artists@.len() == spotify_track.artists@.len() - 1
            &&& forall|i: int| 0 <= i < t.secondary_artists@.len() ==> #[trigger] t.secondary_artists@[i]@ == spotify_track.artists@[i + 1]@
            &&& t.album@ == spotify_track.album@
            &&& t.duration_ms == spotify_track.duration.unwrap() as u32
        }),
{
    if spotify_track.artists.len() == 0 {
        return Err(MatcherInputError::NoArtist);
    }
    let duration = match spotify_track.duration {
        Some(d) => d,
        None => return Err(MatcherInputError::NoDuration),
    };
    let mut secondary: Vec<String> = Vec::new();
    let n = spotify_track.artists.len();
    for i in 1..n
        invariant
            n == spotify_track.artists@.len(),
            secondary@.len() == i - 1,
            forall|k: int| 0 <= k < secondary@.len() ==> #[trigger] secondary@[k]@ == spotify_track.artists@[k + 1]@,
    {
        secondary.push(spotify_track.artists[i].clone());
    }
    Ok(MatcherTrack {
        title: spotify_track.title.clone(),
        primary_artist: spotify_track.artists[0].clone(),
        secondary_artists: secondary,
        album: spotify_track.album.clone(),
        duration_ms: duration as u32,
    })
}

} // verus!
