//! Ordering search results from most to least promising.
//!
//! Each result gets a rank key; results are sorted by key, stably, so that
//! results with equal keys keep their order.
use vstd::prelude::*;

use crate::inference::{inferred_artist_title, infer_track_from_filename};
use crate::search::{artist_line, is_audio_name, is_common_audio_name};
use crate::soulseek::{FileAttribute, SingleFileResult, Track};
use crate::text::{
    any_word_in, chars_of, contains, contains_exec, join_chars, lowercase, some_word_in, to_lowercase,
    string_of, words_exec,
};

verus! {

/// What a result is ranked by, field by field in order of importance.
#[derive(Debug, Clone, Copy, PartialEq, Eq, Structural)]
pub struct RankKey {
    /// The user has a free upload slot (preferred).
    pub slots_free: bool,
    /// How many of the requested artist and title the inferred artist and
    /// title contain (more is better).
    pub matched: u32,
    /// Distance of the file's duration from the requested length (smaller
    /// is better; constant when no length was requested).
    pub len_diff: u64,
    /// Upload speed (faster is better).
    pub speed: u64,
    /// How many of the requested artist and title the file name contains
    /// (more is better).
    pub name_score: u32,
    /// Queue length (shorter is better).
    pub queue: u32,
    /// File size (smaller is better).
    pub size: u64,
}

/// `a` ranks strictly before `b`.
pub open spec fn key_lt(a: RankKey, b: RankKey) -> bool {
    if a.slots_free != b.slots_free {
        a.slots_free
    } else if a.matched != b.matched {
        a.matched > b.matched
    } else if a.len_diff != b.len_diff {
        a.len_diff < b.len_diff
    } else if a.speed != b.speed {
        a.speed > b.speed
    } else if a.name_score != b.name_score {
        a.name_score > b.name_score
    } else if a.queue != b.queue {
        a.queue < b.queue
    } else {
        a.size < b.size
    }
}

/// `key_lt` is a strict total order on keys.
pub proof fn lemma_key_order()
    ensures
        forall|a: RankKey| !#[trigger] key_lt(a, a),
        forall|a: RankKey, b: RankKey, c: RankKey|
            #[trigger] key_lt(a, b) && #[trigger] key_lt(b, c) ==> key_lt(a, c),
        forall|a: RankKey, b: RankKey|
            !#[trigger] key_lt(a, b) && !key_lt(b, a) ==> a == b,
{
}

/// The requested artists, joined and lowercased.
pub open spec fn wanted_artist(t: Track) -> Seq<char> {
    lowercase(artist_line(t))
}

/// The requested title, lowercased.
pub open spec fn wanted_title(t: Track) -> Seq<char> {
    lowercase(t.title@)
}

/// The number of true conditions.
pub open spec fn count2(a: bool, b: bool) -> u32 {
    ((if a { 1u32 } else { 0u32 }) + (if b { 1u32 } else { 0u32 })) as u32
}

/// The requested length, if one was given and it is positive.
pub open spec fn requested_length(t: Track) -> Option<u32> {
    match t.length {
        Some(l) => if l > 0 {
            Some(l)
        } else {
            None
        },
        None => None,
    }
}

/// The duration attribute of a result, 0 when absent.
pub open spec fn duration_of(r: SingleFileResult) -> u32 {
    match r.attrs.value_of(FileAttribute::Duration) {
        Some(d) => d,
        None => 0,
    }
}

/// A `u32` read as an `i32` (`as i32`: values above `i32::MAX` wrap to
/// negative ones).
pub open spec fn as_i32(x: u32) -> int {
    if x <= 0x7fff_ffff {
        x as int
    } else {
        x - 0x1_0000_0000
    }
}

/// The signed difference of a result's duration and the requested length,
/// both read as `i32`.
pub open spec fn signed_gap(d: u32, l: u32) -> int {
    as_i32(d) - as_i32(l)
}

/// Distance of a result's duration from the requested length, both read as
/// `i32`; a result without a duration is as far as an `i32` allows.
pub open spec fn length_gap(t: Track, r: SingleFileResult) -> u64 {
    match requested_length(t) {
        None => 0,
        Some(l) => {
            let d = duration_of(r);
            if d > 0 {
                let g = signed_gap(d, l);
                (if g >= 0 {
                    g
                } else {
                    -g
                }) as u64
            } else {
                0x7fff_ffffu64
            }
        },
    }
}

/// The rank key of a result for a requested track.
pub open spec fn rank_key(t: Track, r: SingleFileResult) -> RankKey {
    let (artist, title) = inferred_artist_title(r.filename@);
    let name = lowercase(r.filename@);
    RankKey {
        slots_free: r.slots_free,
        matched: count2(
            contains(lowercase(artist), wanted_artist(t)),
            contains(lowercase(title), wanted_title(t)),
        ),
        len_diff: length_gap(t, r),
        speed: r.avg_speed,
        name_score: count2(contains(name, wanted_artist(t)), contains(name, wanted_title(t))),
        queue: r.queue_length,
        size: r.size,
    }
}

/// `p` lists each index below `n` exactly once.
pub open spec fn is_permutation(p: Seq<int>, n: int) -> bool {
    &&& p.len() == n
    &&& forall|i: int| 0 <= i < n ==> 0 <= #[trigger] p[i] < n
    &&& forall|i: int, j: int| 0 <= i < j < n ==> p[i] != p[j]
    &&& forall|j: int| 0 <= j < n ==> #[trigger] occurs_in(p, j)
}

/// Some position of `p` holds `j`.
pub open spec fn occurs_in(p: Seq<int>, j: int) -> bool {
    exists|i: int| 0 <= i < p.len() && #[trigger] p[i] == j
}

/// `after` is `before` reordered by `p` (position `i` holds `before[p[i]]`),
/// ordered by rank key, with equally ranked results in their former order.
pub open spec fn stably_ranked(
    t: Track,
    before: Seq<SingleFileResult>,
    after: Seq<SingleFileResult>,
    p: Seq<int>,
) -> bool {
    &&& after.len() == before.len()
    &&& is_permutation(p, before.len() as int)
    &&& forall|i: int| 0 <= i < after.len() ==> after[i] == before[#[trigger] p[i]]
    &&& forall|i: int, j: int|
        0 <= i < j < after.len() ==> !key_lt(rank_key(t, #[trigger] after[j]), rank_key(t, #[trigger] after[i]))
    &&& forall|i: int, j: int|
        0 <= i < j < after.len() && rank_key(t, #[trigger] after[i]) == rank_key(t, #[trigger] after[j])
            ==> p[i] < p[j]
}

/// `after` is `before` reordered by `p`, ordered by the keys `kf` gives,
/// with results of equal keys in their former order.
pub open spec fn sorted_by_keys(
    kf: spec_fn(SingleFileResult) -> RankKey,
    before: Seq<SingleFileResult>,
    after: Seq<SingleFileResult>,
    p: Seq<int>,
) -> bool {
    &&& after.len() == before.len()
    &&& is_permutation(p, before.len() as int)
    &&& forall|i: int| 0 <= i < after.len() ==> after[i] == before[#[trigger] p[i]]
    &&& forall|i: int, j: int|
        0 <= i < j < after.len() ==> !key_lt(kf(#[trigger] after[j]), kf(#[trigger] after[i]))
    &&& forall|i: int, j: int|
        0 <= i < j < after.len() && kf(#[trigger] after[i]) == kf(#[trigger] after[j]) ==> p[i] < p[j]
}

/// Swaps two elements of a slice (`<[T]>::swap` from `std`).
#[verifier::external_body]
fn swap_elements<T>(s: &mut [T], i: usize, j: usize)
    requires
        i < old(s)@.len(),
        j < old(s)@.len(),
    ensures
        final(s)@ == old(s)@.update(i as int, old(s)@[j as int]).update(j as int, old(s)@[i as int]),
{
    s.swap(i, j);
}

fn lower_chars(s: &str) -> (r: Vec<char>)
    ensures
        r@ == lowercase(s@),
{
    chars_of(to_lowercase(s).as_str())
}

fn count_exec(a: bool, b: bool) -> (r: u32)
    ensures
        r == count2(a, b),
{
    (if a { 1u32 } else { 0u32 }) + (if b { 1u32 } else { 0u32 })
}

fn key_of(
    t: &Track,
    wanted_len: Option<u32>,
    artist_lc: &Vec<char>,
    title_lc: &Vec<char>,
    r: &SingleFileResult,
) -> (k: RankKey)
    requires
        wanted_len == requested_length(*t),
        artist_lc@ == wanted_artist(*t),
        title_lc@ == wanted_title(*t),
    ensures
        k == rank_key(*t, *r),
{
    let (artist, title) = infer_track_from_filename(r.filename.as_str());
    let matched = count_exec(
        contains_exec(&lower_chars(artist.as_str()), artist_lc),
        contains_exec(&lower_chars(title.as_str()), title_lc),
    );
    let name = lower_chars(r.filename.as_str());
    let name_score = count_exec(contains_exec(&name, artist_lc), contains_exec(&name, title_lc));
    let len_diff: u64 = match wanted_len {
        None => 0,
        Some(l) => {
            let d = match r.attrs.get(FileAttribute::Duration) {
                Some(d) => d,
                None => 0,
            };
            if d > 0 {
                let di: i64 = if d <= 0x7fff_ffff { d as i64 } else { d as i64 - 0x1_0000_0000 };
                let li: i64 = if l <= 0x7fff_ffff { l as i64 } else { l as i64 - 0x1_0000_0000 };
                let g: i64 = di - li;
                if g >= 0 {
                    g as u64
                } else {
                    (-g) as u64
                }
            } else {
                0x7fff_ffffu64
            }
        },
    };
    RankKey {
        slots_free: r.slots_free,
        matched,
        len_diff,
        speed: r.avg_speed,
        name_score,
        queue: r.queue_length,
        size: r.size,
    }
}

/// Sorts results best first: free slots, then how well the inferred artist
/// and title match, then closeness to the requested length, then speed,
/// then how well the file name matches, then shorter queues, then smaller
/// files. The sort is stable.
pub fn rank_results(track: &Track, results: &mut [SingleFileResult])
    ensures
        exists|p: Seq<int>| stably_ranked(*track, old(results)@, final(results)@, p),
{
    let n = results.len();
    let mut parts: Vec<Vec<char>> = Vec::new();
    for i in 0..track.artists.len()
        invariant
            crate::text::views(parts@) == crate::search::string_views(track.artists@).take(i as int),
    {
        let ghost before = crate::text::views(parts@);
        parts.push(chars_of(track.artists[i].as_str()));
        assert(crate::text::views(parts@) == before.push(track.artists@[i as int]@));
        assert(crate::search::string_views(track.artists@).take(i + 1)
            == crate::search::string_views(track.artists@).take(i as int).push(track.artists@[i as int]@));
    }
    assert(crate::search::string_views(track.artists@).take(track.artists@.len() as int)
        == crate::search::string_views(track.artists@));
    let joined = join_chars(&parts, &chars_of(" "));
    let artist_lc = lower_chars(string_of(&joined).as_str());
    let title_lc = lower_chars(track.title.as_str());
    let wanted_len: Option<u32> = match track.length {
        Some(l) => if l > 0 {
            Some(l)
        } else {
            None
        },
        None => None,
    };
    let ghost orig = results@;
    let mut keys: Vec<RankKey> = Vec::new();
    for i in 0..n
        invariant
            n == results@.len(),
            results@ == orig,
            keys@.len() == i,
            wanted_len == requested_length(*track),
            artist_lc@ == wanted_artist(*track),
            title_lc@ == wanted_title(*track),
            forall|k: int| 0 <= k < i ==> keys@[k] == rank_key(*track, #[trigger] orig[k]),
    {
        keys.push(key_of(track, wanted_len, &artist_lc, &title_lc, &results[i]));
    }
    let ghost kf = |r: SingleFileResult| rank_key(*track, r);
    sort_by_keys(results, keys, Ghost(kf));
    proof {
        let p = choose|p: Seq<int>| sorted_by_keys(kf, orig, results@, p);
        assert(stably_ranked(*track, orig, results@, p));
    }
}

/// Sorts results by their keys (`keys[i]` is the key of `results[i]`),
/// stably: an insertion sort.
fn sort_by_keys(
    results: &mut [SingleFileResult],
    keys: Vec<RankKey>,
    Ghost(kf): Ghost<spec_fn(SingleFileResult) -> RankKey>,
)
    requires
        keys@.len() == old(results)@.len(),
        forall|k: int| 0 <= k < keys@.len() ==> keys@[k] == kf(#[trigger] old(results)@[k]),
    ensures
        exists|p: Seq<int>| sorted_by_keys(kf, old(results)@, final(results)@, p),
{
    let mut keys = keys;
    let n = results.len();
    let ghost orig = results@;
    proof {
        lemma_key_order();
    }
    let ghost mut p: Seq<int> = Seq::new(n as nat, |k: int| k);
    let ghost mut q: Seq<int> = Seq::new(n as nat, |k: int| k);
    proof {
        assert forall|j: int| 0 <= j < n implies #[trigger] occurs_in(p, j) by {
            assert(p[j] == j);
        }
    }
    if n == 0 {
        assert(sorted_by_keys(kf, orig, results@, p));
        return;
    }
    let mut i: usize = 1;
    while i < n
        invariant
            1 <= i <= n,
            n == results@.len(),
            keys@.len() == n,
            orig.len() == n,
            forall|k: int| 0 <= k < n ==> keys@[k] == kf(#[trigger] results@[k]),
            is_permutation(p, n as int),
            q.len() == n,
            forall|x: int| 0 <= x < n ==> 0 <= #[trigger] q[x] < n && p[q[x]] == x,
            forall|k: int| 0 <= k < n ==> results@[k] == orig[#[trigger] p[k]],
            forall|k: int| i <= k < n ==> #[trigger] p[k] == k,
            forall|a: int, b: int| 0 <= a < b < i ==> !key_lt(#[trigger] keys@[b], #[trigger] keys@[a]),
            forall|a: int, b: int|
                0 <= a < b < i && #[trigger] keys@[a] == #[trigger] keys@[b] ==> p[a] < p[b],
        decreases n - i,
    {
        proof {
            lemma_key_order();
            assert forall|k: int| 0 <= k < i implies #[trigger] p[k] < i by {
                if p[k] >= i {
                    assert(p[p[k]] == p[k]);
                }
            }
        }
        let ghost kx = keys@[i as int];
        let mut j = i;
        while j > 0 && key_less(&keys[j], &keys[j - 1])
            invariant
                j <= i < n,
                n == results@.len(),
                keys@.len() == n,
                orig.len() == n,
                forall|k: int| 0 <= k < n ==> keys@[k] == kf(#[trigger] results@[k]),
                is_permutation(p, n as int),
                q.len() == n,
                forall|x: int| 0 <= x < n ==> 0 <= #[trigger] q[x] < n && p[q[x]] == x,
                forall|k: int| 0 <= k < n ==> results@[k] == orig[#[trigger] p[k]],
                forall|k: int| i < k < n ==> #[trigger] p[k] == k,
                p[j as int] == i,
                keys@[j as int] == kx,
                forall|a: int, b: int|
                    0 <= a < b <= i && a != j && b != j ==> !key_lt(#[trigger] keys@[b], #[trigger] keys@[a]),
                forall|k: int| j < k <= i ==> key_lt(kx, #[trigger] keys@[k]),
                forall|a: int, b: int|
                    0 <= a < b <= i && a != j && b != j && #[trigger] keys@[a] == #[trigger] keys@[b]
                        ==> p[a] < p[b],
                forall|k: int| 0 <= k <= i && k != j ==> #[trigger] p[k] < i,
            decreases j,
        {
            let ghost old_keys = keys@;
            let ghost old_p = p;
            let ghost old_q = q;
            swap_elements(results, j - 1, j);
            let t = keys[j - 1];
            let u = keys[j];
            keys.set(j - 1, u);
            keys.set(j, t);
            proof {
                p = old_p.update(j - 1, old_p[j as int]).update(j as int, old_p[j - 1]);
                assert(keys@ == old_keys.update(j - 1, old_keys[j as int]).update(j as int, old_keys[j - 1]));
                assert forall|a: int, b: int| 0 <= a < b < n implies p[a] != p[b] by {
                    assert(old_p[a] != old_p[b] || a == b);
                    assert(old_p[j - 1] != old_p[j as int]);
                }
                let pa = old_p[j - 1];
                let pb = old_p[j as int];
                q = old_q.update(pb, j - 1).update(pa, j as int);
                assert forall|x: int| 0 <= x < n implies 0 <= #[trigger] q[x] < n && p[q[x]] == x by {
                    if x != pa && x != pb {
                        assert(old_p[old_q[x]] == x);
                        assert(old_q[x] != j - 1 && old_q[x] != j);
                    }
                }
                assert forall|y: int| 0 <= y < n implies #[trigger] occurs_in(p, y) by {
                    assert(p[q[y]] == y);
                }
            }
            j = j - 1;
        }
        proof {
            lemma_key_order();
            assert forall|a: int, b: int| 0 <= a < b < i + 1 implies !key_lt(
                #[trigger] keys@[b],
                #[trigger] keys@[a],
            ) by {
                if b == j && a < j {
                    if a < j - 1 {
                        assert(!key_lt(keys@[j - 1], keys@[a]));
                    }
                }
            }
        }
        i = i + 1;
    }
    proof {
        assert(sorted_by_keys(kf, orig, results@, p));
    }
}

/// `x` comes before `y` in the ranking of `b`: a better key, or an equal
/// key and an earlier position.
pub open spec fn ranks_earlier(t: Track, b: Seq<SingleFileResult>, x: int, y: int) -> bool {
    key_lt(rank_key(t, b[x]), rank_key(t, b[y])) || (rank_key(t, b[x]) == rank_key(t, b[y]) && x < y)
}

proof fn lemma_ranked_increasing(t: Track, b: Seq<SingleFileResult>, a: Seq<SingleFileResult>, p: Seq<int>, u: int, v: int)
    requires
        stably_ranked(t, b, a, p),
        0 <= u < v < a.len(),
    ensures
        ranks_earlier(t, b, p[u], p[v]),
{
    lemma_key_order();
    assert(a[u] == b[p[u]] && a[v] == b[p[v]]);
    assert(!key_lt(rank_key(t, a[v]), rank_key(t, a[u])));
    if rank_key(t, a[u]) == rank_key(t, a[v]) {
        assert(p[u] < p[v]);
    }
}

proof fn lemma_agree_at(
    t: Track,
    b: Seq<SingleFileResult>,
    a1: Seq<SingleFileResult>,
    p1: Seq<int>,
    a2: Seq<SingleFileResult>,
    p2: Seq<int>,
    u: int,
)
    requires
        stably_ranked(t, b, a1, p1),
        stably_ranked(t, b, a2, p2),
        0 <= u < b.len(),
    ensures
        p1[u] == p2[u],
    decreases u,
{
    let n = b.len() as int;
    assert forall|v: int| 0 <= v < u implies p1[v] == p2[v] by {
        lemma_agree_at(t, b, a1, p1, a2, p2, v);
    }
    let x = p1[u];
    let y = p2[u];
    if x != y {
        lemma_key_order();
        assert(0 <= x < n && 0 <= y < n);
        assert(occurs_in(p2, x) && occurs_in(p1, y));
        let w = choose|i: int| 0 <= i < n && #[trigger] p2[i] == x;
        let w1 = choose|i: int| 0 <= i < n && #[trigger] p1[i] == y;
        if w < u {
            assert(p1[w] == p2[w]);
            assert(p1[w] == p1[u]);
        }
        if w1 < u {
            assert(p1[w1] == p2[w1]);
            assert(p2[w1] == p2[u]);
        }
        assert(w > u && w1 > u);
        lemma_ranked_increasing(t, b, a2, p2, u, w);
        lemma_ranked_increasing(t, b, a1, p1, u, w1);
        assert(ranks_earlier(t, b, y, x));
        assert(ranks_earlier(t, b, x, y));
    }
}

/// Ranking is deterministic: there is only one way to order results by rank
/// key while keeping equally ranked results in their former order.
pub proof fn lemma_ranking_unique(
    t: Track,
    b: Seq<SingleFileResult>,
    a1: Seq<SingleFileResult>,
    p1: Seq<int>,
    a2: Seq<SingleFileResult>,
    p2: Seq<int>,
)
    requires
        stably_ranked(t, b, a1, p1),
        stably_ranked(t, b, a2, p2),
    ensures
        a1 == a2,
{
    assert forall|u: int| 0 <= u < a1.len() implies a1[u] == a2[u] by {
        lemma_agree_at(t, b, a1, p1, a2, p2, u);
    }
    assert(a1 =~= a2);
}

/// Ranking is idempotent: ranking an already ranked list changes nothing.
pub proof fn lemma_ranking_idempotent(
    t: Track,
    b: Seq<SingleFileResult>,
    a: Seq<SingleFileResult>,
    p: Seq<int>,
    a2: Seq<SingleFileResult>,
    p2: Seq<int>,
)
    requires
        stably_ranked(t, b, a, p),
        stably_ranked(t, a, a2, p2),
    ensures
        a2 == a,
{
    let id = Seq::new(a.len(), |k: int| k);
    assert forall|j: int| 0 <= j < a.len() implies #[trigger] occurs_in(id, j) by {
        assert(id[j] == j);
    }
    assert(stably_ranked(t, a, a, id));
    lemma_ranking_unique(t, a, a2, p2, a, id);
}

fn key_less(a: &RankKey, b: &RankKey) -> (r: bool)
    ensures
        r == key_lt(*a, *b),
{
    if a.slots_free != b.slots_free {
        a.slots_free
    } else if a.matched != b.matched {
        a.matched > b.matched
    } else if a.len_diff != b.len_diff {
        a.len_diff < b.len_diff
    } else if a.speed != b.speed {
        a.speed > b.speed
    } else if a.name_score != b.name_score {
        a.name_score > b.name_score
    } else if a.queue != b.queue {
        a.queue < b.queue
    } else {
        a.size < b.size
    }
}


// ----------------------------------------------------------------------
// From raw results to the ranked list
// ----------------------------------------------------------------------

/// An audio file name: with `wide`, one of the eleven extensions the
/// client accepts (`is_audio_name`); else one of the seven the search
/// module accepts (`is_common_audio_name`).
pub open spec fn audio_name(filename: Seq<char>, wide: bool) -> bool {
    if wide {
        is_audio_name(filename)
    } else {
        is_common_audio_name(filename)
    }
}

/// The results whose file names are audio file names, in order.
pub open spec fn audio_only(rs: Seq<SingleFileResult>, wide: bool) -> Seq<SingleFileResult>
    decreases rs.len(),
{
    if rs.len() == 0 {
        seq![]
    } else if audio_name(rs.last().filename@, wide) {
        audio_only(rs.drop_last(), wide).push(rs.last())
    } else {
        audio_only(rs.drop_last(), wide)
    }
}

/// Results are the same file from the same user when this key agrees.
pub open spec fn dedup_key(r: SingleFileResult) -> Seq<char> {
    r.username@ + "::"@ + r.filename@
}

/// The last position of a result with key `key`, or -1.
pub open spec fn key_position(acc: Seq<SingleFileResult>, key: Seq<char>) -> int
    decreases acc.len(),
{
    if acc.len() == 0 {
        -1
    } else if dedup_key(acc.last()) == key {
        acc.len() - 1
    } else {
        key_position(acc.drop_last(), key)
    }
}

/// Adds a result: a new key is appended; a known key is replaced in place
/// when the new result is strictly faster.
pub open spec fn add_unique(acc: Seq<SingleFileResult>, item: SingleFileResult) -> Seq<SingleFileResult> {
    let k = key_position(acc, dedup_key(item));
    if k < 0 {
        acc.push(item)
    } else if item.avg_speed > acc[k].avg_speed {
        acc.update(k, item)
    } else {
        acc
    }
}

/// One result per key, the fastest (the first of equally fast ones), in
/// the order the keys first appear.
pub open spec fn dedup_results(rs: Seq<SingleFileResult>) -> Seq<SingleFileResult>
    decreases rs.len(),
{
    if rs.len() == 0 {
        seq![]
    } else {
        add_unique(dedup_results(rs.drop_last()), rs.last())
    }
}

proof fn lemma_key_position_range(acc: Seq<SingleFileResult>, key: Seq<char>)
    ensures
        -1 <= key_position(acc, key) < acc.len(),
        key_position(acc, key) >= 0 ==> dedup_key(acc[key_position(acc, key)]) == key,
        key_position(acc, key) < 0 ==> forall|k: int| 0 <= k < acc.len() ==> dedup_key(#[trigger] acc[k]) != key,
    decreases acc.len(),
{
    if acc.len() > 0 {
        lemma_key_position_range(acc.drop_last(), key);
        if key_position(acc, key) < 0 {
            assert forall|k: int| 0 <= k < acc.len() implies dedup_key(#[trigger] acc[k]) != key by {
                if k < acc.len() - 1 {
                    assert(acc[k] == acc.drop_last()[k]);
                }
            }
        }
    }
}

/// Deduplication leaves one result per user and file name, and for every
/// input result a result with its key that is at least as fast.
pub proof fn lemma_dedup_unique_and_fastest(rs: Seq<SingleFileResult>)
    ensures
        forall|i: int, j: int|
            0 <= i < j < dedup_results(rs).len() ==> dedup_key(#[trigger] dedup_results(rs)[i]) != dedup_key(
                #[trigger] dedup_results(rs)[j],
            ),
        forall|x: int|
            0 <= x < rs.len() ==> exists|i: int|
                0 <= i < dedup_results(rs).len() && #[trigger] dedup_key(dedup_results(rs)[i]) == dedup_key(
                    #[trigger] rs[x],
                ) && rs[x].avg_speed <= dedup_results(rs)[i].avg_speed,
    decreases rs.len(),
{
    if rs.len() > 0 {
        let prev_rs = rs.drop_last();
        lemma_dedup_unique_and_fastest(prev_rs);
        let sub = dedup_results(prev_rs);
        let item = rs.last();
        let key = dedup_key(item);
        lemma_key_position_range(sub, key);
        let k = key_position(sub, key);
        let cur = dedup_results(rs);
        assert(cur == add_unique(sub, item));
        assert forall|i: int, j: int| 0 <= i < j < cur.len() implies dedup_key(#[trigger] cur[i]) != dedup_key(
            #[trigger] cur[j],
        ) by {
            if k < 0 {
                if j == sub.len() {
                    assert(cur[i] == sub[i]);
                } else {
                    assert(cur[i] == sub[i] && cur[j] == sub[j]);
                }
            } else {
                if i == k || j == k {
                    if item.avg_speed > sub[k].avg_speed {
                        assert(dedup_key(cur[k]) == dedup_key(sub[k]));
                    }
                }
                assert(dedup_key(cur[i]) == dedup_key(sub[i]));
                assert(dedup_key(cur[j]) == dedup_key(sub[j]));
            }
        }
        assert forall|x: int| 0 <= x < rs.len() implies exists|i: int|
            0 <= i < cur.len() && #[trigger] dedup_key(cur[i]) == dedup_key(#[trigger] rs[x])
                && rs[x].avg_speed <= cur[i].avg_speed by {
            if x == rs.len() - 1 {
                if k < 0 {
                    assert(cur[sub.len() as int] == item);
                    assert(dedup_key(cur[sub.len() as int]) == dedup_key(rs[x]));
                } else {
                    assert(dedup_key(cur[k]) == dedup_key(rs[x]));
                }
            } else {
                assert(rs[x] == prev_rs[x]);
                let i = choose|i: int|
                    0 <= i < sub.len() && #[trigger] dedup_key(sub[i]) == dedup_key(#[trigger] prev_rs[x])
                        && prev_rs[x].avg_speed <= sub[i].avg_speed;
                if k >= 0 && i == k && item.avg_speed > sub[k].avg_speed {
                    assert(cur[k] == item);
                    assert(dedup_key(cur[k]) == dedup_key(rs[x]));
                } else {
                    assert(cur[i] == sub[i]);
                    assert(dedup_key(cur[i]) == dedup_key(rs[x]));
                }
            }
        }
    }
}

/// Keeps the results that name audio files (by the eleven extensions with
/// `wide`, else by the seven).
pub fn filter_audio(all: Vec<SingleFileResult>, wide: bool) -> (r: Vec<SingleFileResult>)
    ensures
        r@ == audio_only(all@, wide),
{
    let ghost orig = all@;
    let mut out: Vec<SingleFileResult> = Vec::new();
    for item in it: all.into_iter()
        invariant
            it.seq() == orig,
            out@ == audio_only(orig.take(it.index() as int), wide),
    {
        let ghost idx = it.index() as int;
        assert(orig.take(idx + 1).drop_last() == orig.take(idx));
        let keep = if wide {
            crate::search::is_audio_file(item.filename.as_str())
        } else {
            crate::search::is_common_audio_file(item.filename.as_str())
        };
        if keep {
            out.push(item);
        }
    }
    assert(orig.take(orig.len() as int) == orig);
    out
}

fn key_string(r: &SingleFileResult) -> (k: String)
    ensures
        k@ == dedup_key(*r),
{
    let mut v = chars_of(r.username.as_str());
    crate::text::extend_chars(&mut v, &chars_of("::"));
    crate::text::extend_chars(&mut v, &chars_of(r.filename.as_str()));
    string_of(&v)
}

/// One result per user and file name, keeping the fastest. The results
/// kept so far are held in a vector and found again by their key, so that
/// the outcome, including its order, is fixed by the input.
pub fn dedup_by_user_and_file(all: Vec<SingleFileResult>) -> (r: Vec<SingleFileResult>)
    ensures
        r@ == dedup_results(all@),
{
    let ghost orig = all@;
    let mut out: Vec<SingleFileResult> = Vec::new();
    let mut keys: Vec<String> = Vec::new();
    for item in it: all.into_iter()
        invariant
            it.seq() == orig,
            out@ == dedup_results(orig.take(it.index() as int)),
            keys@.len() == out@.len(),
            forall|k: int| 0 <= k < keys@.len() ==> #[trigger] keys@[k]@ == dedup_key(out@[k]),
    {
        let ghost idx = it.index() as int;
        assert(orig.take(idx + 1).drop_last() == orig.take(idx));
        assert(orig.take(idx + 1).last() == item);
        let key = key_string(&item);
        let mut pos = keys.len();
        let mut found = false;
        assert(out@.take(pos as int) == out@);
        while pos > 0 && !found
            invariant
                pos <= keys@.len(),
                keys@.len() == out@.len(),
                forall|k: int| 0 <= k < keys@.len() ==> #[trigger] keys@[k]@ == dedup_key(out@[k]),
                key@ == dedup_key(item),
                found ==> pos < keys@.len() && keys@[pos as int]@ == key@ && key_position(out@, key@) == pos,
                !found ==> key_position(out@, key@) == key_position(out@.take(pos as int), key@),
            decreases pos + (if found { 0int } else { 1int }),
        {
            assert(out@.take(pos as int).drop_last() == out@.take(pos - 1));
            assert(out@.take(pos as int).last() == out@[pos - 1]);
            if keys[pos - 1] == key {
                found = true;
                pos = pos - 1;
            } else {
                pos = pos - 1;
            }
        }
        proof {
            lemma_key_position_range(out@, key@);
            if !found {
                assert(out@.take(0) == Seq::<SingleFileResult>::empty());
            }
        }
        if found {
            if item.avg_speed > out[pos].avg_speed {
                out.set(pos, item);
            }
        } else {
            keys.push(key);
            out.push(item);
        }
    }
    assert(orig.take(orig.len() as int) == orig);
    out
}

/// What a search keeps, as the search module does it: audio files by the
/// seven common extensions, one per user and file name (the fastest of
/// duplicates), ranked by `rank_results`.
pub fn process_search_results(track: &Track, all: Vec<SingleFileResult>) -> (r: Vec<SingleFileResult>)
    ensures
        exists|p: Seq<int>| stably_ranked(*track, dedup_results(audio_only(all@, false)), r@, p),
{
    let audio = filter_audio(all, false);
    let mut unique = dedup_by_user_and_file(audio);
    rank_results(track, unique.as_mut_slice());
    unique
}

/// The key the client ranks by: results whose lowercased file name holds
/// a word of the requested artists and a word of the requested title come
/// first, then faster uploads. (Only `matched` and `speed` vary.)
pub open spec fn client_key(t: Track, r: SingleFileResult) -> RankKey {
    let name = lowercase(r.filename@);
    RankKey {
        slots_free: false,
        matched: if some_word_in(name, wanted_artist(t)) && some_word_in(name, wanted_title(t)) {
            1u32
        } else {
            0u32
        },
        len_diff: 0,
        speed: r.avg_speed,
        name_score: 0,
        queue: 0,
        size: 0,
    }
}

/// `after` is `before` reordered by `p`, ordered by the client's key, with
/// equally ranked results in their former order.
pub open spec fn client_ranked(
    t: Track,
    before: Seq<SingleFileResult>,
    after: Seq<SingleFileResult>,
    p: Seq<int>,
) -> bool {
    sorted_by_keys(|r: SingleFileResult| client_key(t, r), before, after, p)
}

/// Sorts results the way the client does: those whose file name holds a
/// word of the requested artists and a word of the requested title first,
/// then by upload speed, fastest first. The sort is stable.
pub fn rank_client_results(track: &Track, results: &mut [SingleFileResult])
    ensures
        exists|p: Seq<int>| client_ranked(*track, old(results)@, final(results)@, p),
{
    let n = results.len();
    let mut parts: Vec<Vec<char>> = Vec::new();
    for i in 0..track.artists.len()
        invariant
            crate::text::views(parts@) == crate::search::string_views(track.artists@).take(i as int),
    {
        let ghost before = crate::text::views(parts@);
        parts.push(chars_of(track.artists[i].as_str()));
        assert(crate::text::views(parts@) == before.push(track.artists@[i as int]@));
        assert(crate::search::string_views(track.artists@).take(i + 1)
            == crate::search::string_views(track.artists@).take(i as int).push(track.artists@[i as int]@));
    }
    assert(crate::search::string_views(track.artists@).take(track.artists@.len() as int)
        == crate::search::string_views(track.artists@));
    let joined = join_chars(&parts, &chars_of(" "));
    let artist_words = words_exec(&lower_chars(string_of(&joined).as_str()));
    let title_words = words_exec(&lower_chars(track.title.as_str()));
    let ghost orig = results@;
    let ghost kf = |r: SingleFileResult| client_key(*track, r);
    let mut keys: Vec<RankKey> = Vec::new();
    for i in 0..n
        invariant
            n == results@.len(),
            results@ == orig,
            keys@.len() == i,
            crate::text::views(artist_words@) == crate::text::words(wanted_artist(*track)),
            crate::text::views(title_words@) == crate::text::words(wanted_title(*track)),
            kf == (|r: SingleFileResult| client_key(*track, r)),
            forall|k: int| 0 <= k < i ==> keys@[k] == kf(#[trigger] orig[k]),
    {
        let name = lower_chars(results[i].filename.as_str());
        let a = any_word_in(&name, &artist_words);
        let t = any_word_in(&name, &title_words);
        proof {
            let ghost ws = crate::text::words(wanted_artist(*track));
            assert(a == some_word_in(name@, wanted_artist(*track))) by {
                if a {
                    let j = choose|j: int| 0 <= j < artist_words@.len() && contains(name@, #[trigger] artist_words@[j]@);
                    assert(ws[j] == artist_words@[j]@);
                }
                if some_word_in(name@, wanted_artist(*track)) {
                    let j = choose|j: int| 0 <= j < ws.len() && contains(name@, #[trigger] ws[j]);
                    assert(ws[j] == artist_words@[j]@);
                }
            }
            let ghost wt = crate::text::words(wanted_title(*track));
            assert(t == some_word_in(name@, wanted_title(*track))) by {
                if t {
                    let j = choose|j: int| 0 <= j < title_words@.len() && contains(name@, #[trigger] title_words@[j]@);
                    assert(wt[j] == title_words@[j]@);
                }
                if some_word_in(name@, wanted_title(*track)) {
                    let j = choose|j: int| 0 <= j < wt.len() && contains(name@, #[trigger] wt[j]);
                    assert(wt[j] == title_words@[j]@);
                }
            }
        }
        keys.push(RankKey {
            slots_free: false,
            matched: if a && t { 1 } else { 0 },
            len_diff: 0,
            speed: results[i].avg_speed,
            name_score: 0,
            queue: 0,
            size: 0,
        });
        assert(keys@[i as int] == client_key(*track, orig[i as int]));
    }
    sort_by_keys(results, keys, Ghost(kf));
    proof {
        let p = choose|p: Seq<int>| sorted_by_keys(kf, orig, results@, p);
        assert(kf =~= (|r: SingleFileResult| client_key(*track, r)));
        assert(client_ranked(*track, orig, results@, p));
    }
}

/// What a search keeps, as the client does it: audio files by the eleven
/// extensions, one per user and file name (the fastest of duplicates),
/// ranked by `rank_client_results`.
pub fn process_client_results(track: &Track, all: Vec<SingleFileResult>) -> (r: Vec<SingleFileResult>)
    ensures
        exists|p: Seq<int>| client_ranked(*track, dedup_results(audio_only(all@, true)), r@, p),
{
    let audio = filter_audio(all, true);
    let mut unique = dedup_by_user_and_file(audio);
    rank_client_results(track, unique.as_mut_slice());
    unique
}


/// Among results with equal free-slot status, one whose inferred artist
/// and title contain the requested artist and title (lowercased) comes
/// before one whose inferred artist or inferred title does not.
pub proof fn lemma_full_match_ranks_first(
    t: Track,
    before: Seq<SingleFileResult>,
    after: Seq<SingleFileResult>,
    p: Seq<int>,
    i: int,
    j: int,
)
    requires
        stably_ranked(t, before, after, p),
        0 <= i < after.len(),
        0 <= j < after.len(),
        after[i].slots_free == after[j].slots_free,
        contains(lowercase(inferred_artist_title(after[i].filename@).0), lowercase(artist_line(t))),
        contains(lowercase(inferred_artist_title(after[i].filename@).1), lowercase(t.title@)),
        !(contains(lowercase(inferred_artist_title(after[j].filename@).0), lowercase(artist_line(t)))
            && contains(lowercase(inferred_artist_title(after[j].filename@).1), lowercase(t.title@))),
    ensures
        i < j,
{
    let ki = rank_key(t, after[i]);
    let kj = rank_key(t, after[j]);
    assert(ki.matched == 2);
    assert(kj.matched <= 1);
    assert(key_lt(ki, kj));
    if j < i {
        assert(!key_lt(rank_key(t, after[i]), rank_key(t, after[j])));
    }
}

/// The search pipeline's filter keeps exactly the results whose lowercased
/// file name ends in .mp3 .flac .wav .m4a .ogg .aac or .aiff.
pub proof fn lemma_search_filter_keeps_common_audio(rs: Seq<SingleFileResult>, x: SingleFileResult)
    ensures
        audio_only(rs, false).contains(x) <==> rs.contains(x) && {
            let l = lowercase(x.filename@);
            ||| crate::text::ends_with(l, ".mp3"@)
            ||| crate::text::ends_with(l, ".flac"@)
            ||| crate::text::ends_with(l, ".wav"@)
            ||| crate::text::ends_with(l, ".m4a"@)
            ||| crate::text::ends_with(l, ".ogg"@)
            ||| crate::text::ends_with(l, ".aac"@)
            ||| crate::text::ends_with(l, ".aiff"@)
        },
{
    lemma_audio_only_contains(rs, false, x);
}

/// The client's filter keeps exactly the results whose lowercased file name
/// ends in .mp3 .flac .wav .aac .ogg .m4a .wma .aiff .alac .opus or .ape.
pub proof fn lemma_client_filter_keeps_audio(rs: Seq<SingleFileResult>, x: SingleFileResult)
    ensures
        audio_only(rs, true).contains(x) <==> rs.contains(x) && {
            let l = lowercase(x.filename@);
            ||| crate::text::ends_with(l, ".mp3"@)
            ||| crate::text::ends_with(l, ".flac"@)
            ||| crate::text::ends_with(l, ".wav"@)
            ||| crate::text::ends_with(l, ".aac"@)
            ||| crate::text::ends_with(l, ".ogg"@)
            ||| crate::text::ends_with(l, ".m4a"@)
            ||| crate::text::ends_with(l, ".wma"@)
            ||| crate::text::ends_with(l, ".aiff"@)
            ||| crate::text::ends_with(l, ".alac"@)
            ||| crate::text::ends_with(l, ".opus"@)
            ||| crate::text::ends_with(l, ".ape"@)
        },
{
    lemma_audio_only_contains(rs, true, x);
}

proof fn lemma_audio_only_contains(rs: Seq<SingleFileResult>, wide: bool, x: SingleFileResult)
    ensures
        audio_only(rs, wide).contains(x) <==> rs.contains(x) && audio_name(x.filename@, wide),
    decreases rs.len(),
{
    if rs.len() > 0 {
        let init = rs.drop_last();
        lemma_audio_only_contains(init, wide, x);
        let sub = audio_only(init, wide);
        if rs.contains(x) && x != rs.last() {
            let k = choose|k: int| 0 <= k < rs.len() && rs[k] == x;
            assert(init[k] == x);
        }
        if init.contains(x) {
            let k = choose|k: int| 0 <= k < init.len() && init[k] == x;
            assert(rs[k] == x);
        }
        if audio_name(rs.last().filename@, wide) {
            let cur = sub.push(rs.last());
            if cur.contains(x) && x != rs.last() {
                let k = choose|k: int| 0 <= k < cur.len() && cur[k] == x;
                assert(sub[k] == x);
            }
            if sub.contains(x) {
                let k = choose|k: int| 0 <= k < sub.len() && sub[k] == x;
                assert(cur[k] == x);
            }
            assert(cur[sub.len() as int] == rs.last());
            assert(rs[rs.len() - 1] == rs.last());
        } else {
            assert(rs[rs.len() - 1] == rs.last());
        }
    }
}

} // verus!
