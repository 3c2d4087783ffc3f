//! Guessing artist and title from a shared file's path.
//!
//! A Soulseek file name such as `"03 - Artist - Album - Title.flac"` is
//! split into its parts and matched against the track that was asked for.
//! Every step is a function on character sequences; the regular expressions
//! are run by the `regex` crate (see `regex_ops`).
use vstd::prelude::*;
use vstd::utf8::encode_utf8;

use crate::regex_ops::{
    escape, is_match, regex_escape_result, regex_matches, replace_all, replace_all_or_keep,
    replace_first, replace_first_or_keep,
};
use crate::text::{
    chars_of, contains, contains_exec, extend_chars, keep_nonempty, keep_nonempty_exec,
    lowercase, replace, replace_chars, split, split_chars, starts_with, starts_with_exec,
    string_of, to_lowercase, trim, trim_chars, views,
};

verus! {

/// Two or more whitespace characters.
pub const MULTI_WS: &'static str = r"\s{2,}";

/// "feat", "feat.", "ft", "ft." or "featuring" as a word, with the
/// whitespace around it.
pub const FEAT_WORDS: &'static str = r"\s*\b(feat\.?|ft\.?|featuring)\b\s*";

/// A period standing alone between or after whitespace.
pub const LONE_PERIOD: &'static str = r"\s+\.\s+|\s+\.|\.\s+";

/// Any character other than ASCII letters, digits, space, dash and parentheses.
pub const STRICT_INVALID: &'static str = r"[^A-Za-z0-9 \-()]";

/// Any character that is not a letter, number, punctuation, separator or symbol.
pub const LOOSE_INVALID: &'static str = r"[^\p{L}\p{N}\p{P}\p{Z}\p{S}]";

/// A track number at the start of a name ("01 ", "1-02.", "3. ", "4 - ").
pub const TRACK_NUM_START: &'static str = r"^(?:(?:[0-9][-.])?\d{2,3}[. -]|\d\.\s|\d\s-\s)";

/// A track number after a " - " separator.
pub const TRACK_NUM_MIDDLE: &'static str = r" - ((\d-)?\d{2,3}|\d{2,3}\.?)\s+";

/// A track number written as "-NN-" between spaces.
pub const TRACK_NUM_MIDDLE_ALT: &'static str = r"\s+-(\d{2,3})-\s+";

/// A track-number marker left between two dashes.
pub const TRACK_NUM_MARK: &'static str = r"-\s*<<tracknum>>\s*-";

/// What kind of release a track was found in.
#[derive(Debug, Clone, Copy, PartialEq, Eq, Structural)]
pub enum TrackType {
    Normal,
    Album,
    Single,
    Unknown,
}

/// A track as inferred from a file name.
#[derive(Debug, Clone)]
pub struct FullTrack {
    pub artist: String,
    pub title: String,
    pub album: String,
    pub artist_maybe_wrong: bool,
    pub length: i32,
    pub track_type: TrackType,
}

/// Inferred fields: artist, album, title, and whether the artist may be wrong.
pub type Fields = (Seq<char>, Seq<char>, Seq<char>, bool);

// ----------------------------------------------------------------------
// File names
// ----------------------------------------------------------------------

/// A path separator: `/` or `\`.
pub open spec fn is_sep(c: char) -> bool {
    c == '/' || c == '\\'
}

/// The path without trailing separators.
pub open spec fn trim_end_seps(s: Seq<char>) -> Seq<char>
    decreases s.len(),
{
    if s.len() > 0 && is_sep(s.last()) {
        trim_end_seps(s.drop_last())
    } else {
        s
    }
}

/// What follows the last separator (the whole path if there is none).
pub open spec fn last_component(s: Seq<char>) -> Seq<char>
    decreases s.len(),
{
    if s.len() == 0 {
        s
    } else if is_sep(s.last()) {
        seq![]
    } else {
        last_component(s.drop_last()).push(s.last())
    }
}

/// The index of the last `.`, or -1.
pub open spec fn last_dot(s: Seq<char>) -> int
    decreases s.len(),
{
    if s.len() == 0 {
        -1
    } else if s.last() == '.' {
        s.len() - 1
    } else {
        last_dot(s.drop_last())
    }
}

/// The last path component with its extension removed; a name whose only
/// dot is its first character keeps it.
pub open spec fn name_without_ext(path: Seq<char>) -> Seq<char> {
    let f = last_component(trim_end_seps(path));
    let d = last_dot(f);
    if d > 0 {
        f.take(d)
    } else {
        f
    }
}

proof fn lemma_last_dot_range(s: Seq<char>)
    ensures
        -1 <= last_dot(s) < s.len(),
        last_dot(s) >= 0 ==> s[last_dot(s)] == '.',
    decreases s.len(),
{
    if s.len() > 0 {
        lemma_last_dot_range(s.drop_last());
    }
}

proof fn lemma_last_component_len(s: Seq<char>)
    ensures
        last_component(s).len() <= s.len(),
    decreases s.len(),
{
    if s.len() > 0 {
        lemma_last_component_len(s.drop_last());
    }
}

/// The file name of a Soulseek path (either separator) without its
/// extension.
pub fn get_file_name_without_ext_slsk(path_str: &str) -> (r: String)
    ensures
        r@ == name_without_ext(path_str@),
{
    let s = chars_of(path_str);
    let mut end = s.len();
    assert(s@.take(end as int) == s@);
    while end > 0 && (s[end - 1] == '/' || s[end - 1] == '\\')
        invariant
            end <= s@.len(),
            trim_end_seps(s@) == trim_end_seps(s@.take(end as int)),
        decreases end,
    {
        assert(s@.take(end as int).drop_last() == s@.take(end - 1));
        end = end - 1;
    }
    assert(trim_end_seps(s@.take(end as int)) == s@.take(end as int));
    let ghost clean = s@.take(end as int);
    let mut start = end;
    while start > 0 && !(s[start - 1] == '/' || s[start - 1] == '\\')
        invariant
            start <= end <= s@.len(),
            clean == s@.take(end as int),
            last_component(clean) == last_component(s@.take(start as int)) + s@.subrange(
                start as int,
                end as int,
            ),
        decreases start,
    {
        let ghost t = s@.take(start as int);
        assert(t.drop_last() == s@.take(start - 1));
        assert(s@.subrange(start - 1, end as int) == seq![t.last()] + s@.subrange(
            start as int,
            end as int,
        ));
        assert(last_component(t) == last_component(t.drop_last()).push(t.last()));
        assert(last_component(t.drop_last()).push(t.last()) + s@.subrange(start as int, end as int)
            == last_component(t.drop_last()) + s@.subrange(start - 1, end as int));
        start = start - 1;
    }
    assert(last_component(s@.take(start as int)) == Seq::<char>::empty());
    assert(Seq::<char>::empty() + s@.subrange(start as int, end as int) == s@.subrange(
        start as int,
        end as int,
    ));
    let mut name: Vec<char> = Vec::new();
    let mut i = start;
    while i < end
        invariant
            start <= i <= end <= s@.len(),
            name@ == s@.subrange(start as int, i as int),
        decreases end - i,
    {
        name.push(s[i]);
        i = i + 1;
    }
    let ghost f = name@;
    assert(f == last_component(trim_end_seps(path_str@)));
    let mut d = name.len();
    assert(f.take(d as int) == f);
    while d > 0 && name[d - 1] != '.'
        invariant
            d <= name@.len(),
            name@ == f,
            last_dot(f) == last_dot(f.take(d as int)),
        decreases d,
    {
        assert(f.take(d as int).drop_last() == f.take(d - 1));
        d = d - 1;
    }
    if d > 1 {
        assert(last_dot(f.take(d as int)) == d - 1);
        let mut out: Vec<char> = Vec::new();
        let mut j: usize = 0;
        while j < d - 1
            invariant
                j <= d - 1,
                d <= name@.len(),
                out@ == name@.take(j as int),
            decreases d - 1 - j,
        {
            out.push(name[j]);
            assert(name@.take(j + 1) == name@.take(j as int).push(name@[j as int]));
            j = j + 1;
        }
        string_of(&out)
    } else {
        proof {
            if d == 1 {
                assert(last_dot(f.take(1)) == 0);
            } else {
                assert(f.take(0) == Seq::<char>::empty());
            }
        }
        string_of(&name)
    }
}

// ----------------------------------------------------------------------
// Small text helpers
// ----------------------------------------------------------------------

/// Runs of two or more whitespace characters become one space.
pub open spec fn collapse_ws(s: Seq<char>) -> Seq<char> {
    replace_all_or_keep(MULTI_WS@, s, " "@)
}

/// "feat."/"ft."/"featuring" and stray periods removed, whitespace
/// collapsed, then trimmed.
pub open spec fn strip_ft(s: Seq<char>) -> Seq<char> {
    trim(
        collapse_ws(
            replace_all_or_keep(LONE_PERIOD@, replace_all_or_keep(FEAT_WORDS@, s, " "@), " "@),
        ),
    )
}

/// Invalid characters replaced: with `strict`, all but ASCII letters,
/// digits, space, `-`, `(` and `)`; otherwise control and other
/// non-printing characters.
pub open spec fn without_invalid(s: Seq<char>, replacement: Seq<char>, strict: bool) -> Seq<char> {
    if strict {
        replace_all_or_keep(STRICT_INVALID@, s, replacement)
    } else {
        replace_all_or_keep(LOOSE_INVALID@, s, replacement)
    }
}

/// Case-insensitive containment; false when either side is empty.
pub open spec fn contains_ic(haystack: Seq<char>, needle: Seq<char>) -> bool {
    haystack.len() > 0 && needle.len() > 0 && contains(lowercase(haystack), lowercase(needle))
}

/// "artist album title", trimmed.
pub open spec fn no_info_string(artist: Seq<char>, album: Seq<char>, title: Seq<char>) -> Seq<char> {
    trim(artist + " "@ + album + " "@ + title)
}

fn lit(s: &str) -> (v: Vec<char>)
    ensures
        v@ == s@,
{
    chars_of(s)
}

fn rx_all(pattern: &str, s: &Vec<char>, rep: &str) -> (r: Vec<char>)
    ensures
        r@ == replace_all_or_keep(pattern@, s@, rep@),
{
    let text = string_of(s);
    let out = replace_all(pattern, text.as_str(), rep);
    chars_of(out.as_str())
}

fn rx_first(pattern: &str, s: &Vec<char>, rep: &str) -> (r: Vec<char>)
    ensures
        r@ == replace_first_or_keep(pattern@, s@, rep@),
{
    let text = string_of(s);
    let out = replace_first(pattern, text.as_str(), rep);
    chars_of(out.as_str())
}

fn rx_match(pattern: &str, s: &Vec<char>) -> (b: bool)
    ensures
        b == regex_matches(pattern@, s@),
{
    let text = string_of(s);
    is_match(pattern, text.as_str())
}

fn repl(s: &Vec<char>, from: &str, to: &str) -> (r: Vec<char>)
    requires
        from@.len() > 0,
    ensures
        r@ == replace(s@, from@, to@),
{
    replace_chars(s, &lit(from), &lit(to))
}

fn collapse_ws_chars(s: &Vec<char>) -> (r: Vec<char>)
    ensures
        r@ == collapse_ws(s@),
{
    rx_all(MULTI_WS, s, " ")
}

fn strip_ft_chars(s: &Vec<char>) -> (r: Vec<char>)
    ensures
        r@ == strip_ft(s@),
{
    let a = rx_all(FEAT_WORDS, s, " ");
    let b = rx_all(LONE_PERIOD, &a, " ");
    let c = collapse_ws_chars(&b);
    trim_chars(&c)
}

fn cic(haystack: &Vec<char>, needle: &Vec<char>) -> (b: bool)
    ensures
        b == contains_ic(haystack@, needle@),
{
    if haystack.len() == 0 || needle.len() == 0 {
        return false;
    }
    let h = to_lowercase(string_of(haystack).as_str());
    let n = to_lowercase(string_of(needle).as_str());
    contains_exec(&chars_of(h.as_str()), &chars_of(n.as_str()))
}

/// Runs of two or more whitespace characters become one space.
pub fn remove_consecutive_ws(s: &str) -> (r: String)
    ensures
        r@ == collapse_ws(s@),
{
    replace_all(MULTI_WS, s, " ")
}

/// Removes "feat."/"ft."/"featuring" and stray periods, collapsing and
/// trimming whitespace.
pub fn remove_ft(s: &str) -> (r: String)
    ensures
        r@ == strip_ft(s@),
{
    string_of(&strip_ft_chars(&chars_of(s)))
}

/// Replaces invalid characters by `replacement` (see `without_invalid`).
pub fn replace_invalid_chars(s: &str, replacement: &str, strict: bool) -> (r: String)
    ensures
        r@ == without_invalid(s@, replacement@, strict),
{
    if strict {
        replace_all(STRICT_INVALID, s, replacement)
    } else {
        replace_all(LOOSE_INVALID, s, replacement)
    }
}

/// Case-insensitive substring test; false when either string is empty.
pub fn contains_ignore_case(haystack: &str, needle: &str) -> (b: bool)
    ensures
        b == contains_ic(haystack@, needle@),
{
    cic(&chars_of(haystack), &chars_of(needle))
}

/// "artist album title" of a track, trimmed.
pub fn track_to_string_no_info(t: &FullTrack) -> (r: String)
    ensures
        r@ == no_info_string(t.artist@, t.album@, t.title@),
{
    let mut v = chars_of(t.artist.as_str());
    let sp = lit(" ");
    extend_chars(&mut v, &sp);
    extend_chars(&mut v, &chars_of(t.album.as_str()));
    extend_chars(&mut v, &sp);
    extend_chars(&mut v, &chars_of(t.title.as_str()));
    string_of(&trim_chars(&v))
}


// ----------------------------------------------------------------------
// Inference steps
// ----------------------------------------------------------------------

/// Step 1: the file name without extension, " — " read as " - ",
/// underscores as spaces, trimmed, whitespace runs collapsed.
pub open spec fn normalized_name(initial: Seq<char>) -> Seq<char> {
    collapse_ws(trim(replace(replace(name_without_ext(initial), " — "@, " - "@), "_"@, " "@)))
}

/// The marker left where a track number was removed, and the dashes
/// around it, cleaned up.
pub open spec fn unmark(g: Seq<char>) -> Seq<char> {
    trim(replace(replace_all_or_keep(TRACK_NUM_MARK@, g, "-"@), "<<tracknum>>"@, ""@))
}

/// Step 2: a leading track number is removed (with a following "- ");
/// otherwise a track number after " - " or written as "-NN-" is removed,
/// unless the same pattern also occurs in `info` (the requested track's
/// "artist album title").
pub open spec fn strip_track_number(f: Seq<char>, info: Seq<char>) -> Seq<char> {
    if regex_matches(TRACK_NUM_START@, f) {
        let g = trim(replace_first_or_keep(TRACK_NUM_START@, f, ""@));
        if starts_with(g, "- "@) {
            trim(g.skip(2))
        } else {
            g
        }
    } else if regex_matches(TRACK_NUM_MIDDLE@, f) {
        if regex_matches(TRACK_NUM_MIDDLE@, info) {
            f
        } else {
            unmark(replace_first_or_keep(TRACK_NUM_MIDDLE@, f, " - <<tracknum>> "@))
        }
    } else if regex_matches(TRACK_NUM_MIDDLE_ALT@, f) {
        if regex_matches(TRACK_NUM_MIDDLE_ALT@, info) {
            f
        } else {
            unmark(replace_first_or_keep(TRACK_NUM_MIDDLE_ALT@, f, " <<tracknum>> "@))
        }
    } else {
        f
    }
}

/// Em dashes as dashes, underscores as spaces, square brackets as round ones.
pub open spec fn bracket_fix(s: Seq<char>) -> Seq<char> {
    replace(replace(replace(replace(s, "—"@, "-"@), "_"@, " "@), "["@, "("@), "]"@, ")"@)
}

/// Step 3 for the file name: brackets fixed, invalid characters removed,
/// whitespace collapsed and trimmed.
pub open spec fn clean_name(f: Seq<char>) -> Seq<char> {
    trim(collapse_ws(without_invalid(bracket_fix(f), ""@, true)))
}

/// Step 3 for a field of the requested track: trimmed, brackets fixed,
/// invalid characters removed, trimmed, "feat." removed, whitespace collapsed.
pub open spec fn clean_field(x: Seq<char>) -> Seq<char> {
    collapse_ws(strip_ft(trim(without_invalid(bracket_fix(trim(x)), ""@, true))))
}

/// A pattern for "(artist ...)", the artist's name taken literally.
pub open spec fn remix_pattern(artist: Seq<char>) -> Seq<char> {
    r"\("@ + regex_escape_result(artist) + r"\s+.+\)"@
}

/// The name holds "(artist ...)": the file may be someone's remix.
pub open spec fn maybe_remix(artist: Seq<char>, fname: Seq<char>) -> bool {
    artist.len() > 0 && regex_matches(remix_pattern(artist), fname)
}

/// The non-empty pieces of a name between " - " separators.
pub open spec fn name_parts(fname: Seq<char>) -> Seq<Seq<char>> {
    keep_nonempty(split(fname, " - "@))
}

/// Length in bytes of the UTF-8 encoding (what `str::len` returns).
pub open spec fn utf8_len(s: Seq<char>) -> int {
    (encode_utf8(s).len() as usize) as int
}

/// How far a part's byte length is from the name's.
pub open spec fn len_distance(part: Seq<char>, name: Seq<char>) -> int {
    let d = utf8_len(part) - utf8_len(name);
    if d < 0 {
        -d
    } else {
        d
    }
}

/// Among the first `n` parts other than index `skip`, the first one that
/// contains `name` (ignoring case) with the least length distance to it.
pub open spec fn best_part(parts: Seq<Seq<char>>, name: Seq<char>, skip: int, n: int) -> Option<int>
    decreases n,
{
    if n <= 0 {
        None
    } else {
        let prev = best_part(parts, name, skip, n - 1);
        let i = n - 1;
        if i != skip && contains_ic(parts[i], name) {
            match prev {
                None => Some(i),
                Some(j) => if len_distance(parts[i], name) < len_distance(parts[j], name) {
                    Some(i)
                } else {
                    Some(j)
                },
            }
        } else {
            prev
        }
    }
}

/// Where the artist sits among three parts, before reconciling with the album.
pub open spec fn artist_pos3(parts: Seq<Seq<char>>, aname: Seq<char>) -> int {
    if aname.len() == 0 {
        -1
    } else if contains_ic(parts[0], aname) {
        0
    } else if contains_ic(parts[1], aname) {
        1
    } else {
        -1
    }
}

/// Where the album sits among three parts.
pub open spec fn album_pos3(parts: Seq<Seq<char>>, alname: Seq<char>) -> int {
    if alname.len() == 0 {
        -1
    } else if contains_ic(parts[0], alname) {
        0
    } else if contains_ic(parts[1], alname) {
        1
    } else {
        -1
    }
}

/// Three parts: the title is the last; the artist is the part naming it
/// (the first when artist and album claim the same part or the name looks
/// like a remix), or the first two joined when neither is found.
pub open spec fn assign_three(
    parts: Seq<Seq<char>>,
    aname: Seq<char>,
    alname: Seq<char>,
    remix: bool,
    amw: bool,
) -> Fields {
    let a0 = artist_pos3(parts, aname);
    let b0 = album_pos3(parts, alname);
    let wrong1 = aname.len() > 0 && a0 == -1;
    let a1 = if a0 >= 0 && a0 == b0 { 0 } else { a0 };
    let b1 = if a0 >= 0 && a0 == b0 { 1 } else { b0 };
    let wrong2 = a1 == -1 && remix;
    let a2 = if a1 == -1 && remix { 0 } else { a1 };
    let b2 = if a1 == -1 && remix { 1 } else { b1 };
    let wrong = amw || wrong1 || wrong2 || (a2 == -1 && b2 == -1);
    let artist = if a2 == -1 && b2 == -1 {
        parts[0] + " - "@ + parts[1]
    } else if a2 >= 0 {
        parts[a2]
    } else {
        aname
    };
    (artist, alname, parts[2], wrong)
}

/// More than three parts: artist and title are the parts closest in length
/// among those containing them (the title's taken from the others).
pub open spec fn assign_many(
    parts: Seq<Seq<char>>,
    aname: Seq<char>,
    alname: Seq<char>,
    tname: Seq<char>,
    amw: bool,
) -> Fields {
    let ai = if aname.len() > 0 { best_part(parts, aname, -1, parts.len() as int) } else { None };
    let artist = match ai {
        Some(i) => parts[i],
        None => aname,
    };
    let skip = match ai {
        Some(i) => i,
        None => -1,
    };
    let ti = if tname.len() > 0 { best_part(parts, tname, skip, parts.len() as int) } else { None };
    let title = match ti {
        Some(i) => parts[i],
        None => tname,
    };
    (artist, alname, title, amw)
}

/// The fields read off the parts of the name.
pub open spec fn assign_parts(
    parts: Seq<Seq<char>>,
    aname: Seq<char>,
    alname: Seq<char>,
    tname: Seq<char>,
    remix: bool,
    amw: bool,
) -> Fields {
    if parts.len() == 1 {
        (aname, alname, parts[0], amw || remix)
    } else if parts.len() == 2 {
        (
            parts[0],
            alname,
            parts[1],
            amw || !(contains_ic(parts[0], aname) && contains_ic(parts[1], tname)),
        )
    } else if parts.len() == 3 {
        assign_three(parts, aname, alname, remix, amw)
    } else if parts.len() > 3 {
        assign_many(parts, aname, alname, tname, amw)
    } else {
        (aname, alname, tname, amw)
    }
}

/// `a` names the requested artist and `t` the requested title.
pub open spec fn fits(a: Seq<char>, t: Seq<char>, artist: Seq<char>, title: Seq<char>) -> bool {
    contains_ic(a, artist) && contains_ic(t, title)
}

/// Artist, album and title rearranged by the first arrangement that puts
/// the requested artist and title in place; unchanged when none does.
pub open spec fn rearranged(x: Fields, artist: Seq<char>, title: Seq<char>) -> Fields {
    let (x0, x1, x2, w) = x;
    if fits(x0, x1, artist, title) {
        (x0, x2, x1, w)
    } else if fits(x1, x2, artist, title) {
        (x1, x0, x2, w)
    } else if fits(x1, x0, artist, title) {
        (x1, x2, x0, w)
    } else if fits(x2, x1, artist, title) {
        (x2, x0, x1, w)
    } else if fits(x2, x0, artist, title) {
        (x2, x1, x0, w)
    } else {
        x
    }
}

/// The last step: an empty title falls back to the whole name; fields that
/// name neither the requested title nor artist are rearranged; "feat." is
/// removed from title and artist.
pub open spec fn finish(x: Fields, fname: Seq<char>, artist: Seq<char>, title: Seq<char>) -> Fields {
    let y = if trim(x.2).len() == 0 {
        (x.0, x.1, fname, true)
    } else if x.0.len() > 0 && !contains_ic(x.2, title) && !contains_ic(x.0, artist) {
        rearranged(x, artist, title)
    } else {
        x
    };
    (strip_ft(y.0), y.1, strip_ft(y.2), y.3)
}

/// Artist, album, title and the doubt flag inferred from a file name, given
/// the requested track's artist, album, title and doubt flag.
pub open spec fn infer_fields(
    initial: Seq<char>,
    artist: Seq<char>,
    album: Seq<char>,
    title: Seq<char>,
    amw: bool,
) -> Fields {
    let f = strip_track_number(normalized_name(initial), no_info_string(artist, album, title));
    let fname = clean_name(f);
    let aname = clean_field(artist);
    let tname = clean_field(title);
    let alname = clean_field(album);
    let parts = name_parts(fname);
    let x = assign_parts(parts, aname, alname, tname, maybe_remix(aname, fname), amw);
    finish(x, fname, artist, title)
}


// ----------------------------------------------------------------------
// Executable steps
// ----------------------------------------------------------------------

/// Inferred fields as character vectors.
pub type FieldsExec = (Vec<char>, Vec<char>, Vec<char>, bool);

/// The view of inferred fields.
pub open spec fn fields_view(x: FieldsExec) -> Fields {
    (x.0@, x.1@, x.2@, x.3)
}

fn copy_chars(v: &Vec<char>) -> (r: Vec<char>)
    ensures
        r@ == v@,
{
    let r = v.clone();
    assert(r@ == v@);
    r
}

fn skip_chars(v: &Vec<char>, k: usize) -> (r: Vec<char>)
    requires
        k <= v@.len(),
    ensures
        r@ == v@.skip(k as int),
{
    let mut r: Vec<char> = Vec::new();
    let mut i = k;
    while i < v.len()
        invariant
            k <= i <= v@.len(),
            r@ == v@.subrange(k as int, i as int),
        decreases v@.len() - i,
    {
        r.push(v[i]);
        i = i + 1;
    }
    r
}

fn concat3(a: &Vec<char>, sep: &str, b: &Vec<char>) -> (r: Vec<char>)
    ensures
        r@ == a@ + sep@ + b@,
{
    let mut r = copy_chars(a);
    extend_chars(&mut r, &lit(sep));
    extend_chars(&mut r, b);
    r
}

fn normalized_name_exec(initial: &str) -> (r: Vec<char>)
    ensures
        r@ == normalized_name(initial@),
{
    proof {
        reveal_strlit(" — ");
        reveal_strlit("_");
    }
    let base = chars_of(get_file_name_without_ext_slsk(initial).as_str());
    let a = repl(&base, " — ", " - ");
    let b = repl(&a, "_", " ");
    collapse_ws_chars(&trim_chars(&b))
}

fn unmark_exec(g: &Vec<char>) -> (r: Vec<char>)
    ensures
        r@ == unmark(g@),
{
    proof {
        reveal_strlit("<<tracknum>>");
    }
    let a = rx_all(TRACK_NUM_MARK, g, "-");
    trim_chars(&repl(&a, "<<tracknum>>", ""))
}

fn strip_track_number_exec(f: &Vec<char>, info: &Vec<char>) -> (r: Vec<char>)
    ensures
        r@ == strip_track_number(f@, info@),
{
    if rx_match(TRACK_NUM_START, f) {
        let g = trim_chars(&rx_first(TRACK_NUM_START, f, ""));
        let dash = lit("- ");
        if starts_with_exec(&g, &dash) {
            proof {
                reveal_strlit("- ");
            }
            trim_chars(&skip_chars(&g, 2))
        } else {
            g
        }
    } else if rx_match(TRACK_NUM_MIDDLE, f) {
        if rx_match(TRACK_NUM_MIDDLE, info) {
            copy_chars(f)
        } else {
            unmark_exec(&rx_first(TRACK_NUM_MIDDLE, f, " - <<tracknum>> "))
        }
    } else if rx_match(TRACK_NUM_MIDDLE_ALT, f) {
        if rx_match(TRACK_NUM_MIDDLE_ALT, info) {
            copy_chars(f)
        } else {
            unmark_exec(&rx_first(TRACK_NUM_MIDDLE_ALT, f, " <<tracknum>> "))
        }
    } else {
        copy_chars(f)
    }
}

fn bracket_fix_exec(s: &Vec<char>) -> (r: Vec<char>)
    ensures
        r@ == bracket_fix(s@),
{
    proof {
        reveal_strlit("—");
        reveal_strlit("_");
        reveal_strlit("[");
        reveal_strlit("]");
    }
    let a = repl(s, "—", "-");
    let b = repl(&a, "_", " ");
    let c = repl(&b, "[", "(");
    repl(&c, "]", ")")
}

fn clean_name_exec(f: &Vec<char>) -> (r: Vec<char>)
    ensures
        r@ == clean_name(f@),
{
    let a = rx_all(STRICT_INVALID, &bracket_fix_exec(f), "");
    trim_chars(&collapse_ws_chars(&a))
}

fn clean_field_exec(x: &Vec<char>) -> (r: Vec<char>)
    ensures
        r@ == clean_field(x@),
{
    let a = rx_all(STRICT_INVALID, &bracket_fix_exec(&trim_chars(x)), "");
    collapse_ws_chars(&strip_ft_chars(&trim_chars(&a)))
}

fn maybe_remix_exec(aname: &Vec<char>, fname: &Vec<char>) -> (b: bool)
    ensures
        b == maybe_remix(aname@, fname@),
{
    if aname.len() == 0 {
        return false;
    }
    let esc = chars_of(escape(string_of(aname).as_str()).as_str());
    let mut pat = lit(r"\(");
    extend_chars(&mut pat, &esc);
    extend_chars(&mut pat, &lit(r"\s+.+\)"));
    let pattern = string_of(&pat);
    let text = string_of(fname);
    is_match(pattern.as_str(), text.as_str())
}

fn name_parts_exec(fname: &Vec<char>) -> (r: Vec<Vec<char>>)
    ensures
        views(r@) == name_parts(fname@),
{
    proof {
        reveal_strlit(" - ");
    }
    keep_nonempty_exec(&split_chars(fname, &lit(" - ")))
}

fn byte_len(v: &Vec<char>) -> (n: usize)
    ensures
        n as int == utf8_len(v@),
{
    let s = string_of(v);
    s.as_str().len()
}

/// `skip` as an index, -1 for none.
pub open spec fn skip_index(skip: Option<usize>) -> int {
    match skip {
        Some(i) => i as int,
        None => -1,
    }
}

fn best_part_exec(parts: &Vec<Vec<char>>, name: &Vec<char>, skip: Option<usize>) -> (r: Option<usize>)
    ensures
        match r {
            Some(i) => i < parts@.len() && best_part(views(parts@), name@, skip_index(skip), parts@.len() as int) == Some(i as int),
            None => best_part(views(parts@), name@, skip_index(skip), parts@.len() as int) is None,
        },
{
    let ghost ps = views(parts@);
    let ghost sk = skip_index(skip);
    let name_len = byte_len(name);
    let mut best: Option<usize> = None;
    let mut best_d: usize = 0;
    let n = parts.len();
    for i in 0..n
        invariant
            n == parts@.len(),
            ps == views(parts@),
            sk == skip_index(skip),
            name_len as int == utf8_len(name@),
            match best {
                Some(j) => j < i && best_part(ps, name@, sk, i as int) == Some(j as int)
                    && best_d as int == len_distance(ps[j as int], name@),
                None => best_part(ps, name@, sk, i as int) is None,
            },
    {
        assert(ps[i as int] == parts@[i as int]@);
        let skipped = match skip {
            Some(k) => k == i,
            None => false,
        };
        if !skipped && cic(&parts[i], name) {
            let pl = byte_len(&parts[i]);
            let d = if pl >= name_len { pl - name_len } else { name_len - pl };
            match best {
                None => {
                    best = Some(i);
                    best_d = d;
                },
                Some(j) => {
                    if d < best_d {
                        best = Some(i);
                        best_d = d;
                    }
                },
            }
        }
    }
    best
}

fn assign_three_exec(
    parts: &Vec<Vec<char>>,
    aname: &Vec<char>,
    alname: &Vec<char>,
    remix: bool,
    amw: bool,
) -> (r: FieldsExec)
    requires
        parts@.len() == 3,
    ensures
        fields_view(r) == assign_three(views(parts@), aname@, alname@, remix, amw),
{
    let ghost ps = views(parts@);
    assert(ps[0] == parts@[0]@ && ps[1] == parts@[1]@ && ps[2] == parts@[2]@);
    let a0: i64 = if aname.len() == 0 {
        -1
    } else if cic(&parts[0], aname) {
        0
    } else if cic(&parts[1], aname) {
        1
    } else {
        -1
    };
    let b0: i64 = if alname.len() == 0 {
        -1
    } else if cic(&parts[0], alname) {
        0
    } else if cic(&parts[1], alname) {
        1
    } else {
        -1
    };
    let mut wrong = amw || (aname.len() > 0 && a0 == -1);
    let mut a = a0;
    let mut b = b0;
    if a >= 0 && a == b {
        a = 0;
        b = 1;
    }
    if a == -1 && remix {
        wrong = true;
        a = 0;
        b = 1;
    }
    let artist = if a == -1 && b == -1 {
        wrong = true;
        concat3(&parts[0], " - ", &parts[1])
    } else if a == 0 {
        copy_chars(&parts[0])
    } else if a == 1 {
        copy_chars(&parts[1])
    } else {
        copy_chars(aname)
    };
    (artist, copy_chars(alname), copy_chars(&parts[2]), wrong)
}

fn assign_many_exec(
    parts: &Vec<Vec<char>>,
    aname: &Vec<char>,
    alname: &Vec<char>,
    tname: &Vec<char>,
    amw: bool,
) -> (r: FieldsExec)
    ensures
        fields_view(r) == assign_many(views(parts@), aname@, alname@, tname@, amw),
{
    let ghost ps = views(parts@);
    let ai = if aname.len() > 0 {
        best_part_exec(parts, aname, None)
    } else {
        None
    };
    let artist = match ai {
        Some(i) => copy_chars(&parts[i]),
        None => copy_chars(aname),
    };
    let ti = if tname.len() > 0 {
        best_part_exec(parts, tname, ai)
    } else {
        None
    };
    let title = match ti {
        Some(i) => copy_chars(&parts[i]),
        None => copy_chars(tname),
    };
    (artist, copy_chars(alname), title, amw)
}

fn assign_parts_exec(
    parts: &Vec<Vec<char>>,
    aname: &Vec<char>,
    alname: &Vec<char>,
    tname: &Vec<char>,
    remix: bool,
    amw: bool,
) -> (r: FieldsExec)
    ensures
        fields_view(r) == assign_parts(views(parts@), aname@, alname@, tname@, remix, amw),
{
    let ghost ps = views(parts@);
    if parts.len() == 1 {
        assert(ps[0] == parts@[0]@);
        (copy_chars(aname), copy_chars(alname), copy_chars(&parts[0]), amw || remix)
    } else if parts.len() == 2 {
        assert(ps[0] == parts@[0]@ && ps[1] == parts@[1]@);
        let ok = cic(&parts[0], aname) && cic(&parts[1], tname);
        (copy_chars(&parts[0]), copy_chars(alname), copy_chars(&parts[1]), amw || !ok)
    } else if parts.len() == 3 {
        assign_three_exec(parts, aname, alname, remix, amw)
    } else if parts.len() > 3 {
        assign_many_exec(parts, aname, alname, tname, amw)
    } else {
        (copy_chars(aname), copy_chars(alname), copy_chars(tname), amw)
    }
}

fn fits_exec(a: &Vec<char>, t: &Vec<char>, artist: &Vec<char>, title: &Vec<char>) -> (b: bool)
    ensures
        b == fits(a@, t@, artist@, title@),
{
    cic(a, artist) && cic(t, title)
}

fn rearranged_exec(x: FieldsExec, artist: &Vec<char>, title: &Vec<char>) -> (r: FieldsExec)
    ensures
        fields_view(r) == rearranged(fields_view(x), artist@, title@),
{
    let (x0, x1, x2, w) = x;
    if fits_exec(&x0, &x1, artist, title) {
        (x0, x2, x1, w)
    } else if fits_exec(&x1, &x2, artist, title) {
        (x1, x0, x2, w)
    } else if fits_exec(&x1, &x0, artist, title) {
        (x1, x2, x0, w)
    } else if fits_exec(&x2, &x1, artist, title) {
        (x2, x0, x1, w)
    } else if fits_exec(&x2, &x0, artist, title) {
        (x2, x1, x0, w)
    } else {
        (x0, x1, x2, w)
    }
}

fn finish_exec(x: FieldsExec, fname: &Vec<char>, artist: &Vec<char>, title: &Vec<char>) -> (r: FieldsExec)
    ensures
        fields_view(r) == finish(fields_view(x), fname@, artist@, title@),
{
    let ghost xv = fields_view(x);
    let y = if trim_chars(&x.2).len() == 0 {
        (x.0, x.1, copy_chars(fname), true)
    } else if x.0.len() > 0 && !cic(&x.2, title) && !cic(&x.0, artist) {
        rearranged_exec(x, artist, title)
    } else {
        x
    };
    (strip_ft_chars(&y.0), y.1, strip_ft_chars(&y.2), y.3)
}

/// Infers artist, album and title from a file name, using the requested
/// track to decide which part is which.
pub fn infer_track_full(initial_filename: &str, default_track: &FullTrack, track_type: TrackType) -> (r: FullTrack)
    ensures
        (r.artist@, r.album@, r.title@, r.artist_maybe_wrong) == infer_fields(
            initial_filename@,
            default_track.artist@,
            default_track.album@,
            default_track.title@,
            default_track.artist_maybe_wrong,
        ),
        r.length == default_track.length,
        r.track_type == track_type,
{
    let artist = chars_of(default_track.artist.as_str());
    let album = chars_of(default_track.album.as_str());
    let title = chars_of(default_track.title.as_str());
    let info = chars_of(track_to_string_no_info(default_track).as_str());
    let f = strip_track_number_exec(&normalized_name_exec(initial_filename), &info);
    let fname = clean_name_exec(&f);
    let aname = clean_field_exec(&artist);
    let tname = clean_field_exec(&title);
    let alname = clean_field_exec(&album);
    let parts = name_parts_exec(&fname);
    let remix = maybe_remix_exec(&aname, &fname);
    let x = assign_parts_exec(&parts, &aname, &alname, &tname, remix, default_track.artist_maybe_wrong);
    let y = finish_exec(x, &fname, &artist, &title);
    FullTrack {
        artist: string_of(&y.0),
        title: string_of(&y.2),
        album: string_of(&y.1),
        artist_maybe_wrong: y.3,
        length: default_track.length,
        track_type,
    }
}

/// Artist and title inferred from a file name alone (no requested track).
pub open spec fn inferred_artist_title(filename: Seq<char>) -> (Seq<char>, Seq<char>) {
    let x = infer_fields(filename, Seq::empty(), Seq::empty(), Seq::empty(), false);
    (x.0, x.2)
}

/// Artist and title guessed from a file name alone.
pub fn infer_track_from_filename(filename: &str) -> (r: (String, String))
    ensures
        (r.0@, r.1@) == inferred_artist_title(filename@),
{
    let default_t = FullTrack {
        artist: String::new(),
        title: String::new(),
        album: String::new(),
        artist_maybe_wrong: false,
        length: -1,
        track_type: TrackType::Normal,
    };
    let parsed = infer_track_full(filename, &default_t, TrackType::Normal);
    (parsed.artist, parsed.title)
}


/// Field `i` (0, 1 or 2) of inferred fields.
pub open spec fn field_at(x: Fields, i: int) -> Seq<char> {
    if i == 0 {
        x.0
    } else if i == 1 {
        x.1
    } else {
        x.2
    }
}

/// Rearranging only reorders the three fields; whenever two different
/// fields name the requested artist and the requested title, the result
/// has a field naming the artist first and a field naming the title last;
/// when no two fields do, nothing moves.
pub proof fn lemma_rearranged_places_artist_and_title(x: Fields, artist: Seq<char>, title: Seq<char>)
    ensures
        ({
            let r = rearranged(x, artist, title);
            &&& r.3 == x.3
            &&& exists|i: int, j: int, k: int|
                0 <= i < 3 && 0 <= j < 3 && 0 <= k < 3 && i != j && j != k && i != k
                    && r.0 == field_at(x, i) && r.1 == field_at(x, j) && r.2 == field_at(x, k)
            &&& (exists|i: int, k: int|
                0 <= i < 3 && 0 <= k < 3 && i != k && contains_ic(field_at(x, i), artist)
                    && contains_ic(field_at(x, k), title))
                ==> contains_ic(r.0, artist) && contains_ic(r.2, title)
            &&& !(exists|i: int, k: int|
                0 <= i < 3 && 0 <= k < 3 && i != k && contains_ic(field_at(x, i), artist)
                    && contains_ic(field_at(x, k), title))
                ==> r == x
        }),
{
    let r = rearranged(x, artist, title);
    assert(field_at(x, 0) == x.0 && field_at(x, 1) == x.1 && field_at(x, 2) == x.2);
    if fits(x.0, x.1, artist, title) {
        assert(r.0 == field_at(x, 0) && r.1 == field_at(x, 2) && r.2 == field_at(x, 1));
    } else if fits(x.1, x.2, artist, title) {
        assert(r.0 == field_at(x, 1) && r.1 == field_at(x, 0) && r.2 == field_at(x, 2));
    } else if fits(x.1, x.0, artist, title) {
        assert(r.0 == field_at(x, 1) && r.1 == field_at(x, 2) && r.2 == field_at(x, 0));
    } else if fits(x.2, x.1, artist, title) {
        assert(r.0 == field_at(x, 2) && r.1 == field_at(x, 0) && r.2 == field_at(x, 1));
    } else if fits(x.2, x.0, artist, title) {
        assert(r.0 == field_at(x, 2) && r.1 == field_at(x, 1) && r.2 == field_at(x, 0));
    } else {
        assert(r == x);
        if exists|i: int, k: int|
            0 <= i < 3 && 0 <= k < 3 && i != k && contains_ic(field_at(x, i), artist)
                && contains_ic(field_at(x, k), title) {
            let (i, k) = choose|i: int, k: int|
                0 <= i < 3 && 0 <= k < 3 && i != k && contains_ic(field_at(x, i), artist)
                    && contains_ic(field_at(x, k), title);
            assert(i == 0 && k == 2) by {
                if i == 0 && k == 1 {
                    assert(fits(x.0, x.1, artist, title));
                } else if i == 1 && k == 2 {
                    assert(fits(x.1, x.2, artist, title));
                } else if i == 1 && k == 0 {
                    assert(fits(x.1, x.0, artist, title));
                } else if i == 2 && k == 1 {
                    assert(fits(x.2, x.1, artist, title));
                } else if i == 2 && k == 0 {
                    assert(fits(x.2, x.0, artist, title));
                }
            }
        }
    }
}

} // verus!
