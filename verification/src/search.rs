//! Building Soulseek search queries and flattening search responses.
use std::collections::HashMap;
use vstd::prelude::*;

use crate::regex_ops::{remove_diacritics, replace_all, replace_all_or_keep, unaccent_result};
use crate::soulseek::{
    attribute_code, attribute_of_code, FileAttribute, FileAttributes, FileInfo, FileSearchResponse,
    SingleFileResult, Track,
};
use crate::text::{
    chars_of, ends_with, ends_with_exec, extend_chars, join, join_chars, lowercase, string_of,
    to_lowercase, trim, trim_chars, views,
};

verus! {

/// The characters of each string.
pub open spec fn string_views(v: Seq<String>) -> Seq<Seq<char>> {
    v.map_values(|s: String| s@)
}

/// The artists of a track joined with single spaces.
pub open spec fn artist_line(t: Track) -> Seq<char> {
    join(string_views(t.artists@), " "@)
}

/// `clean_search_string`: trimmed; with `remove_special`, every character
/// that is not a letter, digit or whitespace becomes a space, runs of
/// whitespace collapse to one space, and the result is trimmed again.
pub open spec fn clean_search(s: Seq<char>, remove_special: bool) -> Seq<char> {
    if remove_special {
        trim(
            replace_all_or_keep(
                "\\s+"@,
                replace_all_or_keep("[^\\p{L}\\p{N}\\s]"@, trim(s), " "@),
                " "@,
            ),
        )
    } else {
        trim(trim(s))
    }
}

/// The queries considered for a track, before empty ones are dropped:
/// "artists title" and "artists title album" as typed and with diacritics
/// removed; when artists or title is missing, the title alone and the
/// artists alone (each also without diacritics).
pub open spec fn query_candidates(t: Track, remove_special: bool) -> Seq<Seq<char>> {
    let title = t.title@;
    let album = t.album@;
    let artist = artist_line(t);
    let has_base = artist.len() > 0 && title.len() > 0;
    let has_album = has_base && album.len() > 0;
    let base = artist + " "@ + title;
    let with_album = artist + " "@ + title + " "@ + album;
    (if has_base { seq![clean_search(base, remove_special)] } else { seq![] })
    + (if has_album { seq![clean_search(with_album, remove_special)] } else { seq![] })
    + (if has_base { seq![clean_search(unaccent_result(base), remove_special)] } else { seq![] })
    + (if has_album { seq![clean_search(unaccent_result(with_album), remove_special)] } else { seq![] })
    + (if !has_base && title.len() > 0 {
        seq![clean_search(title, remove_special), clean_search(unaccent_result(title), remove_special)]
    } else {
        seq![]
    })
    + (if !has_base && artist.len() > 0 {
        seq![clean_search(artist, remove_special), clean_search(unaccent_result(artist), remove_special)]
    } else {
        seq![]
    })
}

/// Trims a search string and, with `remove_special`, replaces special
/// characters by spaces and collapses whitespace.
pub fn clean_search_string(s: &str, remove_special: bool) -> (r: String)
    ensures
        r@ == clean_search(s@, remove_special),
{
    let t = trim_chars(&chars_of(s));
    if remove_special {
        let a = replace_all("[^\\p{L}\\p{N}\\s]", &string_of(&t), " ");
        let b = replace_all("\\s+", &a, " ");
        let r = trim_chars(&chars_of(&b));
        string_of(&r)
    } else {
        let r = trim_chars(&t);
        string_of(&r)
    }
}

/// `queries` holds, once each, exactly the non-empty members of `used`.
pub open spec fn holds_distinct_nonempty(queries: Seq<Seq<char>>, used: Seq<Seq<char>>) -> bool {
    &&& forall|x: Seq<char>| queries.contains(x) <==> (used.contains(x) && x.len() > 0)
    &&& queries.no_duplicates()
}

/// Adds `q` to `queries` unless it is empty or already there.
fn insert_query(queries: &mut Vec<String>, q: String, Ghost(used): Ghost<Seq<Seq<char>>>)
    requires
        holds_distinct_nonempty(string_views(old(queries)@), used),
    ensures
        holds_distinct_nonempty(string_views(final(queries)@), used.push(q@)),
        string_views(final(queries)@) == if q@.len() > 0 && !string_views(old(queries)@).contains(q@) {
            string_views(old(queries)@).push(q@)
        } else {
            string_views(old(queries)@)
        },
{
    let ghost u2 = used.push(q@);
    assert forall|x: Seq<char>| u2.contains(x) <==> (used.contains(x) || x == q@) by {
        if u2.contains(x) {
            let k = choose|k: int| 0 <= k < u2.len() && u2[k] == x;
            if k < used.len() {
                assert(used[k] == x);
            }
        }
        if used.contains(x) {
            let k = choose|k: int| 0 <= k < used.len() && used[k] == x;
            assert(u2[k] == x);
        }
        if x == q@ {
            assert(u2[used.len() as int] == x);
        }
    }
    if q.as_str().unicode_len() == 0 {
        assert(q@.len() == 0);
        assert forall|x: Seq<char>| string_views(queries@).contains(x) <==> (u2.contains(x) && x.len() > 0) by {
            if x.len() > 0 && u2.contains(x) {
                assert(x != q@);
            }
        }
        return;
    }
    let n = queries.len();
    for i in 0..n
        invariant
            n == queries@.len(),
            queries@ == old(queries)@,
            forall|k: int| 0 <= k < i ==> queries@[k]@ != q@,
            q@.len() > 0,
            holds_distinct_nonempty(string_views(queries@), used),
            u2 == used.push(q@),
            forall|x: Seq<char>| u2.contains(x) <==> (used.contains(x) || x == q@),
    {
        if queries[i] == q {
            assert(string_views(queries@)[i as int] == q@);
            assert(string_views(queries@).contains(q@));
            assert forall|x: Seq<char>| string_views(queries@).contains(x) <==> (u2.contains(x) && x.len() > 0) by {
                if x == q@ {
                    assert(string_views(queries@).contains(x));
                }
            }
            return;
        }
    }
    proof {
        assert forall|k: int| 0 <= k < string_views(queries@).len() implies string_views(queries@)[k] != q@ by {
            assert(string_views(queries@)[k] == queries@[k]@);
        }
    }
    let ghost before = queries@;
    queries.push(q);
    assert(string_views(queries@) == string_views(before).push(q@));
    proof {
        let nv = string_views(queries@);
        let ov = string_views(before);
        assert forall|x: Seq<char>| nv.contains(x) <==> (ov.contains(x) || x == q@) by {
            if nv.contains(x) {
                let k = choose|k: int| 0 <= k < nv.len() && nv[k] == x;
                if k < ov.len() {
                    assert(ov[k] == x);
                }
            }
            if ov.contains(x) {
                let k = choose|k: int| 0 <= k < ov.len() && ov[k] == x;
                assert(nv[k] == x);
            }
            if x == q@ {
                assert(nv[ov.len() as int] == x);
            }
        }
    }
}

/// The artists joined with single spaces.
fn artist_line_exec(t: &Track) -> (r: Vec<char>)
    ensures
        r@ == artist_line(*t),
{
    let n = t.artists.len();
    let mut parts: Vec<Vec<char>> = Vec::new();
    for i in 0..n
        invariant
            n == t.artists@.len(),
            views(parts@) == string_views(t.artists@).take(i as int),
    {
        let ghost before = views(parts@);
        parts.push(chars_of(t.artists[i].as_str()));
        assert(views(parts@) == before.push(t.artists@[i as int]@));
        assert(string_views(t.artists@).take(i + 1) == string_views(t.artists@).take(i as int).push(
            t.artists@[i as int]@,
        ));
    }
    assert(string_views(t.artists@).take(n as int) == string_views(t.artists@));
    let sep = chars_of(" ");
    join_chars(&parts, &sep)
}

/// The distinct non-empty search queries for a track. The order of the
/// queries carries no meaning.
pub fn build_search_queries(track: &Track, remove_special: bool) -> (r: Vec<String>)
    ensures
        forall|q: Seq<char>|
            string_views(r@).contains(q) <==> (query_candidates(*track, remove_special).contains(q)
                && q.len() > 0),
        string_views(r@).no_duplicates(),
{
    let title = chars_of(track.title.as_str());
    let album = chars_of(track.album.as_str());
    let artist = artist_line_exec(track);
    let space = chars_of(" ");
    let has_base = artist.len() > 0 && title.len() > 0;
    let has_album = has_base && album.len() > 0;
    let mut base = artist.clone();
    extend_chars(&mut base, &space);
    extend_chars(&mut base, &title);
    let mut with_album = base.clone();
    extend_chars(&mut with_album, &space);
    extend_chars(&mut with_album, &album);
    let base_s = string_of(&base);
    let album_s = string_of(&with_album);
    let title_s = string_of(&title);
    let artist_s = string_of(&artist);
    let ghost cands = query_candidates(*track, remove_special);
    let mut queries: Vec<String> = Vec::new();
    let ghost mut used: Seq<Seq<char>> = seq![];
    assert(string_views(queries@) == Seq::<Seq<char>>::empty());
    if has_base {
        insert_query(&mut queries, clean_search_string(base_s.as_str(), remove_special), Ghost(used));
        proof { used = used.push(clean_search(base@, remove_special)); }
    }
    if has_album {
        insert_query(&mut queries, clean_search_string(album_s.as_str(), remove_special), Ghost(used));
        proof { used = used.push(clean_search(with_album@, remove_special)); }
    }
    if has_base {
        let d = remove_diacritics(base_s.as_str());
        insert_query(&mut queries, clean_search_string(d.as_str(), remove_special), Ghost(used));
        proof { used = used.push(clean_search(unaccent_result(base@), remove_special)); }
    }
    if has_album {
        let d = remove_diacritics(album_s.as_str());
        insert_query(&mut queries, clean_search_string(d.as_str(), remove_special), Ghost(used));
        proof { used = used.push(clean_search(unaccent_result(with_album@), remove_special)); }
    }
    if !has_base && title.len() > 0 {
        insert_query(&mut queries, clean_search_string(title_s.as_str(), remove_special), Ghost(used));
        proof { used = used.push(clean_search(title@, remove_special)); }
        let d = remove_diacritics(title_s.as_str());
        insert_query(&mut queries, clean_search_string(d.as_str(), remove_special), Ghost(used));
        proof { used = used.push(clean_search(unaccent_result(title@), remove_special)); }
    }
    if !has_base && artist.len() > 0 {
        insert_query(&mut queries, clean_search_string(artist_s.as_str(), remove_special), Ghost(used));
        proof { used = used.push(clean_search(artist@, remove_special)); }
        let d = remove_diacritics(artist_s.as_str());
        insert_query(&mut queries, clean_search_string(d.as_str(), remove_special), Ghost(used));
        proof { used = used.push(clean_search(unaccent_result(artist@), remove_special)); }
    }
    assert(used == cands);
    queries
}


/// Whether a file name, lowercased, ends with one of the audio extensions
/// .mp3 .flac .wav .aac .ogg .m4a .wma .aiff .alac .opus .ape.
pub open spec fn is_audio_name(filename: Seq<char>) -> bool {
    let l = lowercase(filename);
    ||| ends_with(l, ".mp3"@)
    ||| ends_with(l, ".flac"@)
    ||| ends_with(l, ".wav"@)
    ||| ends_with(l, ".aac"@)
    ||| ends_with(l, ".ogg"@)
    ||| ends_with(l, ".m4a"@)
    ||| ends_with(l, ".wma"@)
    ||| ends_with(l, ".aiff"@)
    ||| ends_with(l, ".alac"@)
    ||| ends_with(l, ".opus"@)
    ||| ends_with(l, ".ape"@)
}

fn has_suffix(s: &Vec<char>, suffix: &str) -> (b: bool)
    ensures
        b == ends_with(s@, suffix@),
{
    let p = chars_of(suffix);
    ends_with_exec(s, &p)
}

/// Whether the file name carries one of the eleven audio extensions the
/// client accepts (case-insensitively).
pub fn is_audio_file(filename: &str) -> (b: bool)
    ensures
        b == is_audio_name(filename@),
{
    let lower = to_lowercase(filename);
    let l = chars_of(lower.as_str());
    has_suffix(&l, ".mp3") || has_suffix(&l, ".flac") || has_suffix(&l, ".wav")
        || has_suffix(&l, ".aac") || has_suffix(&l, ".ogg") || has_suffix(&l, ".m4a")
        || has_suffix(&l, ".wma") || has_suffix(&l, ".aiff") || has_suffix(&l, ".alac")
        || has_suffix(&l, ".opus") || has_suffix(&l, ".ape")
}

/// Whether a file name, lowercased, ends with one of the audio extensions
/// the search module accepts: .mp3 .flac .wav .m4a .ogg .aac .aiff.
pub open spec fn is_common_audio_name(filename: Seq<char>) -> bool {
    let l = lowercase(filename);
    ||| ends_with(l, ".mp3"@)
    ||| ends_with(l, ".flac"@)
    ||| ends_with(l, ".wav"@)
    ||| ends_with(l, ".m4a"@)
    ||| ends_with(l, ".ogg"@)
    ||| ends_with(l, ".aac"@)
    ||| ends_with(l, ".aiff"@)
}

/// Whether the file name carries one of the seven common audio extensions
/// (case-insensitively).
pub fn is_common_audio_file(filename: &str) -> (b: bool)
    ensures
        b == is_common_audio_name(filename@),
{
    let lower = to_lowercase(filename);
    let l = chars_of(lower.as_str());
    has_suffix(&l, ".mp3") || has_suffix(&l, ".flac") || has_suffix(&l, ".wav")
        || has_suffix(&l, ".m4a") || has_suffix(&l, ".ogg") || has_suffix(&l, ".aac")
        || has_suffix(&l, ".aiff")
}

/// The attribute a protocol code stands for, if any.
pub fn attribute_from_code(k: u8) -> (r: Option<FileAttribute>)
    ensures
        r == attribute_of_code(k),
{
    if k == 0 {
        Some(FileAttribute::Bitrate)
    } else if k == 1 {
        Some(FileAttribute::Duration)
    } else if k == 2 {
        Some(FileAttribute::VariableBitRate)
    } else if k == 3 {
        Some(FileAttribute::Encoder)
    } else if k == 4 {
        Some(FileAttribute::SampleRate)
    } else if k == 5 {
        Some(FileAttribute::BitDepth)
    } else {
        None
    }
}

/// Every attribute holds the value stored under its protocol code, and
/// nothing else: codes that name no attribute are dropped.
pub open spec fn attributes_from_codes(r: FileAttributes, codes: Map<u8, u32>) -> bool {
    forall|a: FileAttribute|
        #[trigger] r.value_of(a) == if codes.contains_key(attribute_code(a)) {
            Some(codes[attribute_code(a)])
        } else {
            None
        }
}

proof fn lemma_code_roundtrip(a: FileAttribute)
    ensures
        attribute_code(a) < 6,
        attribute_of_code(attribute_code(a)) == Some(a),
{
}

/// Converts raw attribute codes into named attributes, dropping unknown
/// codes.
pub fn to_file_attributes(attrs: &HashMap<u8, u32>) -> (r: FileAttributes)
    ensures
        attributes_from_codes(r, attrs@),
{
    broadcast use vstd::std_specs::hash::group_hash_axioms;
    let mut r = FileAttributes::new();
    let mut k: u8 = 0;
    while k < 6
        invariant
            k <= 6,
            forall|a: FileAttribute|
                #[trigger] r.value_of(a) == if attribute_code(a) < k && attrs@.contains_key(
                    attribute_code(a),
                ) {
                    Some(attrs@[attribute_code(a)])
                } else {
                    None
                },
        decreases 6 - k,
    {
        let ghost before = r;
        match attrs.get(&k) {
            Some(v) => {
                match attribute_from_code(k) {
                    Some(a) => {
                        r.insert(a, *v);
                        proof {
                            assert forall|b: FileAttribute|
                                #[trigger] r.value_of(b) == if attribute_code(b) < k + 1
                                    && attrs@.contains_key(attribute_code(b)) {
                                    Some(attrs@[attribute_code(b)])
                                } else {
                                    None
                                } by {
                                lemma_code_roundtrip(b);
                                if b == a {
                                    assert(attribute_code(b) == k);
                                }
                            }
                        }
                    },
                    None => {},
                }
            },
            None => {
                proof {
                    assert forall|b: FileAttribute|
                        #[trigger] r.value_of(b) == if attribute_code(b) < k + 1
                            && attrs@.contains_key(attribute_code(b)) {
                            Some(attrs@[attribute_code(b)])
                        } else {
                            None
                        } by {
                        lemma_code_roundtrip(b);
                    }
                }
            },
        }
        k = k + 1;
    }
    proof {
        assert forall|a: FileAttribute|
            #[trigger] r.value_of(a) == if attrs@.contains_key(attribute_code(a)) {
                Some(attrs@[attribute_code(a)])
            } else {
                None
            } by {
            lemma_code_roundtrip(a);
        }
    }
    r
}

/// The result for one file of a response: the user's transfer details with
/// that file's name, size and attributes.
pub open spec fn flattened_from(r: SingleFileResult, resp: FileSearchResponse, f: FileInfo) -> bool {
    &&& r.username == resp.username
    &&& r.token == resp.token
    &&& r.filename == f.filename
    &&& r.size == f.size
    &&& r.slots_free == resp.slots_free
    &&& r.avg_speed == resp.avg_speed
    &&& r.queue_length == resp.queue_length
    &&& attributes_from_codes(r.attrs, f.attrs@)
}

/// One result per file of a search response, in the response's order.
pub fn flatten_search_response(response: &FileSearchResponse) -> (r: Vec<SingleFileResult>)
    ensures
        r@.len() == response.files@.len(),
        forall|i: int|
            0 <= i < r@.len() ==> #[trigger] flattened_from(r@[i], *response, response.files@[i]),
{
    let mut out: Vec<SingleFileResult> = Vec::new();
    let n = response.files.len();
    for i in 0..n
        invariant
            n == response.files@.len(),
            out@.len() == i,
            forall|j: int|
                0 <= j < i ==> #[trigger] flattened_from(out@[j], *response, response.files@[j]),
    {
        let file = &response.files[i];
        let item = SingleFileResult {
            username: response.username.clone(),
            token: response.token.clone(),
            filename: file.filename.clone(),
            size: file.size,
            slots_free: response.slots_free,
            avg_speed: response.avg_speed,
            queue_length: response.queue_length,
            attrs: to_file_attributes(&file.attrs),
        };
        out.push(item);
    }
    out
}


/// A shared file as reported by the Soulseek client: name, size and raw
/// attribute codes.
#[derive(Debug, Clone)]
pub struct RawFile {
    pub name: String,
    pub size: u64,
    pub attribs: Vec<(u32, u32)>,
}

/// A user's answer to a search as reported by the Soulseek client.
#[derive(Debug, Clone)]
pub struct RawSearchResult {
    pub username: String,
    pub token: String,
    pub files: Vec<RawFile>,
    pub slots: u32,
    pub speed: u32,
}

/// The attribute codes that fit in a byte, later pairs overriding earlier
/// ones with the same code.
pub open spec fn narrowed_codes(pairs: Seq<(u32, u32)>) -> Map<u8, u32>
    decreases pairs.len(),
{
    if pairs.len() == 0 {
        Map::empty()
    } else {
        let m = narrowed_codes(pairs.drop_last());
        let (k, v) = pairs.last();
        if k <= 255 {
            m.insert(k as u8, v)
        } else {
            m
        }
    }
}

fn narrow_attribs(pairs: &Vec<(u32, u32)>) -> (r: HashMap<u8, u32>)
    ensures
        r@ == narrowed_codes(pairs@),
{
    broadcast use vstd::std_specs::hash::group_hash_axioms;
    let mut m: HashMap<u8, u32> = HashMap::new();
    for i in 0..pairs.len()
        invariant
            m@ == narrowed_codes(pairs@.take(i as int)),
    {
        assert(pairs@.take(i + 1).drop_last() == pairs@.take(i as int));
        let (k, v) = pairs[i];
        if k <= 255 {
            m.insert(k as u8, v);
        }
    }
    assert(pairs@.take(pairs@.len() as int) == pairs@);
    m
}

/// A client file in this library's terms.
pub open spec fn file_converted(f: FileInfo, raw: RawFile) -> bool {
    f.filename == raw.name && f.size == raw.size && f.attrs@ == narrowed_codes(raw.attribs@)
}

/// A client result in this library's terms: attribute codes beyond a byte
/// dropped, slots free when there is at least one, the speed as reported,
/// no queue.
pub open spec fn converted_from(r: FileSearchResponse, raw: RawSearchResult) -> bool {
    &&& r.username == raw.username
    &&& r.token == raw.token
    &&& r.files@.len() == raw.files@.len()
    &&& forall|j: int| 0 <= j < r.files@.len() ==> #[trigger] file_converted(r.files@[j], raw.files@[j])
    &&& r.slots_free == (raw.slots > 0)
    &&& r.avg_speed == raw.speed
    &&& r.queue_length == 0
}

fn convert_one(raw: &RawSearchResult) -> (r: FileSearchResponse)
    ensures
        converted_from(r, *raw),
{
    let mut files: Vec<FileInfo> = Vec::new();
    for j in 0..raw.files.len()
        invariant
            files@.len() == j,
            forall|k: int| 0 <= k < j ==> #[trigger] file_converted(files@[k], raw.files@[k]),
    {
        let f = &raw.files[j];
        let info = FileInfo { filename: f.name.clone(), size: f.size, attrs: narrow_attribs(&f.attribs) };
        let ghost before = files@;
        assert(info.filename == raw.files@[j as int].name);
        assert(info.size == raw.files@[j as int].size);
        assert(info.attrs@ == narrowed_codes(raw.files@[j as int].attribs@));
        files.push(info);
        assert forall|k: int| 0 <= k < j + 1 implies #[trigger] file_converted(files@[k], raw.files@[k]) by {
            if k < j {
                assert(files@[k] == before[k]);
            }
        }
    }
    FileSearchResponse {
        username: raw.username.clone(),
        token: raw.token.clone(),
        files,
        slots_free: raw.slots > 0,
        avg_speed: raw.speed as u64,
        queue_length: 0,
    }
}

/// Converts the Soulseek client's results, one response per result.
pub fn convert_search_results(results: &Vec<RawSearchResult>) -> (r: Vec<FileSearchResponse>)
    ensures
        r@.len() == results@.len(),
        forall|i: int| 0 <= i < r@.len() ==> #[trigger] converted_from(r@[i], results@[i]),
{
    let mut out: Vec<FileSearchResponse> = Vec::new();
    for i in 0..results.len()
        invariant
            out@.len() == i,
            forall|k: int| 0 <= k < i ==> #[trigger] converted_from(out@[k], results@[k]),
    {
        out.push(convert_one(&results[i]));
    }
    out
}


/// When a track has artists and a title, the queries hold the cleaned
/// "artists title" both as typed and with diacritics removed, and, when
/// it also has an album, the cleaned "artists title album" both ways (each
/// unless it cleans to nothing).
pub proof fn lemma_queries_cover_track(t: Track, remove_special: bool, queries: Seq<Seq<char>>)
    requires
        forall|q: Seq<char>| queries.contains(q) <==> (query_candidates(t, remove_special).contains(q) && q.len() > 0),
        artist_line(t).len() > 0,
        t.title@.len() > 0,
    ensures
        ({
            let base = artist_line(t) + " "@ + t.title@;
            let full = artist_line(t) + " "@ + t.title@ + " "@ + t.album@;
            &&& clean_search(base, remove_special).len() > 0 ==> queries.contains(clean_search(base, remove_special))
            &&& clean_search(unaccent_result(base), remove_special).len() > 0
                ==> queries.contains(clean_search(unaccent_result(base), remove_special))
            &&& t.album@.len() > 0 && clean_search(full, remove_special).len() > 0
                ==> queries.contains(clean_search(full, remove_special))
            &&& t.album@.len() > 0 && clean_search(unaccent_result(full), remove_special).len() > 0
                ==> queries.contains(clean_search(unaccent_result(full), remove_special))
        }),
{
    let c = query_candidates(t, remove_special);
    let base = artist_line(t) + " "@ + t.title@;
    let full = artist_line(t) + " "@ + t.title@ + " "@ + t.album@;
    if t.album@.len() > 0 {
        assert(c[0] == clean_search(base, remove_special));
        assert(c[1] == clean_search(full, remove_special));
        assert(c[2] == clean_search(unaccent_result(base), remove_special));
        assert(c[3] == clean_search(unaccent_result(full), remove_special));
    } else {
        assert(c[0] == clean_search(base, remove_special));
        assert(c[1] == clean_search(unaccent_result(base), remove_special));
    }
}

} // verus!
