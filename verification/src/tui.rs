//! The search-and-download terminal UI as a state machine: keys and
//! background events come in, the state changes, and requests for the
//! background worker go out. Drawing and the event loop live outside.
use vstd::prelude::*;

use crate::soulseek::{SingleFileResult, Track};
use crate::text::{chars_of, extend_chars, string_of};

verus! {

/// Which screen is shown.
#[derive(Debug, Clone, Copy, PartialEq, Eq, Structural)]
pub enum AppMode {
    SearchForm,
    Results,
    Downloading,
    Error,
}

/// The search form's fields, in focus order.
#[derive(Debug, Clone, Copy, PartialEq, Eq, Structural)]
pub enum FormField {
    Title,
    Artist,
    Album,
    Length,
}

/// The search form.
#[derive(Debug, Clone)]
pub struct SearchForm {
    pub title: String,
    pub artist: String,
    pub album: String,
    /// Typed as text, read as a number of seconds when searching.
    pub length: String,
    pub focused_field: FormField,
}

/// Whether a download is running or done.
#[derive(Debug, Clone, Copy, PartialEq, Eq, Structural)]
pub enum DownloadStatus {
    InProgress,
    Completed,
}

/// Progress of the current download.
#[derive(Debug, Clone)]
pub struct DownloadProgress {
    pub filename: String,
    pub bytes_downloaded: u64,
    pub total_bytes: u64,
    pub status: DownloadStatus,
}

/// A key press, as far as the UI tells keys apart.
#[derive(Debug, Clone, Copy, PartialEq, Eq, Structural)]
pub enum Key {
    /// Ctrl+C.
    CtrlC,
    Esc,
    Tab,
    BackTab,
    Up,
    Down,
    PageUp,
    PageDown,
    Enter,
    Backspace,
    Char(char),
    Other,
}

/// Requests the UI makes of itself.
#[derive(Debug, Clone, Copy, PartialEq, Eq, Structural)]
pub enum AppEvent {
    /// Search for the track in the form.
    StartSearch,
    /// Download the selected result.
    StartDownload,
}

/// Progress reports of a search.
#[derive(Debug, Clone)]
pub enum SearchEvent {
    Started,
    Completed(Vec<SingleFileResult>),
    Failed(String),
}

/// Progress reports of a download.
#[derive(Debug, Clone)]
pub enum DownloadEvent {
    Started,
    Progress { filename: String, bytes_downloaded: u64, total_bytes: u64 },
    Completed,
    Failed(String),
}

/// Reports from the background worker.
#[derive(Debug, Clone)]
pub enum BackgroundEvent {
    SearchEvent(SearchEvent),
    DownloadEvent(DownloadEvent),
}

/// What the background worker is asked to do.
#[derive(Debug, Clone)]
pub enum BackgroundRequest {
    /// Search for this track.
    Search(Track),
    /// Download the result at this position of the result list.
    Download(usize),
}

/// How many results the results list shows at once.
pub const VISIBLE_RESULTS: usize = 10;

/// The UI's state.
#[derive(Debug, Clone)]
pub struct App {
    pub mode: AppMode,
    pub form: SearchForm,
    pub results: Vec<SingleFileResult>,
    pub selected_result: usize,
    pub results_scroll: usize,
    pub download_progress: Option<DownloadProgress>,
    pub error_message: Option<String>,
    pub status_message: Option<String>,
    pub running: bool,
}

// ----------------------------------------------------------------------
// Focus
// ----------------------------------------------------------------------

/// The field after `f` (wrapping).
pub open spec fn next_field(f: FormField) -> FormField {
    match f {
        FormField::Title => FormField::Artist,
        FormField::Artist => FormField::Album,
        FormField::Album => FormField::Length,
        FormField::Length => FormField::Title,
    }
}

/// The field before `f` (wrapping).
pub open spec fn prev_field(f: FormField) -> FormField {
    match f {
        FormField::Title => FormField::Length,
        FormField::Artist => FormField::Title,
        FormField::Album => FormField::Artist,
        FormField::Length => FormField::Album,
    }
}

/// Moving focus forward then back (or back then forward) returns to the
/// same field, and four steps forward visit every field once.
pub proof fn lemma_focus_cycle(f: FormField)
    ensures
        prev_field(next_field(f)) == f,
        next_field(prev_field(f)) == f,
        next_field(next_field(next_field(next_field(f)))) == f,
        f != next_field(f) && f != next_field(next_field(f)) && f != next_field(next_field(next_field(f))),
{
}

// ----------------------------------------------------------------------
// Numbers as text
// ----------------------------------------------------------------------

/// The decimal digits of `n`.
pub open spec fn decimal(n: nat) -> Seq<char>
    decreases n,
{
    if n < 10 {
        seq![digit_char(n)]
    } else {
        decimal(n / 10).push(digit_char(n % 10))
    }
}

/// The digit for a value below 10.
pub open spec fn digit_char(d: nat) -> char {
    ((48 + d) as u8) as char
}

/// Decimal digits, padded with zeros to at least two.
pub open spec fn decimal2(n: nat) -> Seq<char> {
    if n < 10 {
        seq!['0'] + decimal(n)
    } else {
        decimal(n)
    }
}

/// The decimal digits of a number.
pub fn decimal_string(n: u64) -> (r: String)
    ensures
        r@ == decimal(n as nat),
{
    let mut digits: Vec<char> = Vec::new();
    let mut m = n;
    let ghost mut rest: Seq<char> = seq![];
    // digits are produced least significant first, then reversed
    while m >= 10
        invariant
            decimal(n as nat) == decimal(m as nat) + rest,
            digits@.len() == rest.len(),
            forall|i: int| 0 <= i < rest.len() ==> #[trigger] rest[i] == digits@[rest.len() - 1 - i],
        decreases m,
    {
        let d = (m % 10) as u8;
        let c = (48 + d) as char;
        proof {
            assert(decimal(m as nat) == decimal((m / 10) as nat).push(digit_char((m % 10) as nat)));
            assert(decimal((m / 10) as nat).push(digit_char((m % 10) as nat)) + rest == decimal((m / 10) as nat) + (seq![c] + rest));
            rest = seq![c] + rest;
        }
        digits.push(c);
        m = m / 10;
    }
    let c = (48 + (m as u8)) as char;
    proof {
        assert(decimal(m as nat) == seq![c]);
        rest = seq![c] + rest;
    }
    digits.push(c);
    let mut out: Vec<char> = Vec::new();
    let mut k = digits.len();
    while k > 0
        invariant
            k <= digits@.len(),
            digits@.len() == rest.len(),
            forall|i: int| 0 <= i < rest.len() ==> #[trigger] rest[i] == digits@[rest.len() - 1 - i],
            out@ == rest.take(digits@.len() - k),
        decreases k,
    {
        k = k - 1;
        out.push(digits[k]);
        assert(rest.take(digits@.len() - k) == rest.take(digits@.len() - k - 1).push(rest[digits@.len() - k - 1]));
    }
    assert(rest.take(rest.len() as int) == rest);
    assert(decimal(n as nat) == rest);
    string_of(&out)
}

/// Seconds as minutes and seconds, each at least two digits ("03:07").
pub open spec fn duration_text(seconds: nat) -> Seq<char> {
    decimal2(seconds / 60) + ":"@ + decimal2(seconds % 60)
}

/// Formats seconds as `MM:SS` (minutes may take more digits).
pub fn format_duration(seconds: u32) -> (r: String)
    ensures
        r@ == duration_text(seconds as nat),
{
    let minutes = seconds / 60;
    let secs = seconds % 60;
    let mut out: Vec<char> = Vec::new();
    if minutes < 10 {
        out.push('0');
    }
    extend_chars(&mut out, &chars_of(decimal_string(minutes as u64).as_str()));
    out.push(':');
    if secs < 10 {
        out.push('0');
    }
    extend_chars(&mut out, &chars_of(decimal_string(secs as u64).as_str()));
    proof {
        reveal_strlit(":");
    }
    string_of(&out)
}


// ----------------------------------------------------------------------
// Reading the length field
// ----------------------------------------------------------------------

/// The value of a string of decimal digits.
pub open spec fn digits_value(s: Seq<char>) -> int
    decreases s.len(),
{
    if s.len() == 0 {
        0
    } else {
        digits_value(s.drop_last()) * 10 + (s.last() as int - 48)
    }
}

/// Every character is an ASCII digit.
pub open spec fn all_digits(s: Seq<char>) -> bool {
    forall|i: int| 0 <= i < s.len() ==> '0' <= #[trigger] s[i] && s[i] <= '9'
}

/// `str::parse::<u32>`: an optional `+` and one or more digits whose value
/// fits in `u32`.
pub open spec fn parsed_u32(s: Seq<char>) -> Option<u32> {
    let d = if s.len() > 0 && s[0] == '+' { s.skip(1) } else { s };
    if d.len() > 0 && all_digits(d) && digits_value(d) <= u32::MAX {
        Some(digits_value(d) as u32)
    } else {
        None
    }
}

proof fn lemma_digits_value_grows(s: Seq<char>, i: int)
    requires
        all_digits(s),
        0 <= i <= s.len(),
    ensures
        0 <= digits_value(s.take(i)) <= digits_value(s),
    decreases s.len(),
{
    if s.len() > 0 {
        if i == s.len() {
            assert(s.take(i) == s);
            lemma_digits_value_grows(s.drop_last(), i - 1);
            assert(s.drop_last().take(i - 1) == s.drop_last());
        } else {
            lemma_digits_value_grows(s.drop_last(), i);
            assert(s.drop_last().take(i) == s.take(i));
            lemma_digits_value_grows(s.drop_last(), s.len() - 1);
            assert(s.drop_last().take(s.len() - 1) == s.drop_last());
        }
    }
}

/// Reads a whole number of seconds as `str::parse::<u32>` does.
pub fn parse_u32(s: &str) -> (r: Option<u32>)
    ensures
        r == parsed_u32(s@),
{
    let cs = chars_of(s);
    let start: usize = if cs.len() > 0 && cs[0] == '+' { 1 } else { 0 };
    let ghost d = if s@.len() > 0 && s@[0] == '+' { s@.skip(1) } else { s@ };
    if start >= cs.len() {
        assert(d.len() == 0);
        return None;
    }
    let mut value: u64 = 0;
    let mut i = start;
    while i < cs.len()
        invariant
            cs@ == s@,
            start <= i <= cs@.len(),
            d == cs@.skip(start as int),
            d == (if s@.len() > 0 && s@[0] == '+' { s@.skip(1) } else { s@ }),
            all_digits(d.take(i - start)),
            value == digits_value(d.take(i - start)),
            value <= u32::MAX,
        decreases cs@.len() - i,
    {
        let c = cs[i];
        assert(d.take(i - start + 1).drop_last() == d.take(i - start));
        assert(d.take(i - start + 1).last() == c);
        if !('0' <= c && c <= '9') {
            assert(d[i - start] == c);
            assert(!all_digits(d));
            return None;
        }
        let digit = (c as u64) - 48;
        let next = value * 10 + digit;
        if next > u32::MAX as u64 {
            proof {
                assert(all_digits(d.take(i - start + 1)));
                assert(digits_value(d.take(i - start + 1)) == next);
                if all_digits(d) {
                    lemma_digits_value_grows(d, i - start + 1);
                }
            }
            return None;
        }
        value = next;
        i = i + 1;
    }
    assert(d.take(i - start) == d);
    Some(value as u32)
}

// ----------------------------------------------------------------------
// The state machine
// ----------------------------------------------------------------------

/// The text of a form field.
pub open spec fn field_text(form: SearchForm, f: FormField) -> Seq<char> {
    match f {
        FormField::Title => form.title@,
        FormField::Artist => form.artist@,
        FormField::Album => form.album@,
        FormField::Length => form.length@,
    }
}

/// The form after replacing the text of field `f`, as texts per field:
/// `f` reads `text`, the others are unchanged, focus is unchanged.
pub open spec fn form_edited(old: SearchForm, new: SearchForm, f: FormField, text: Seq<char>) -> bool {
    &&& new.focused_field == old.focused_field
    &&& forall|g: FormField| #[trigger] field_text(new, g) == if g == f { text } else { field_text(old, g) }
}

/// Every field holds the same text.
pub open spec fn same_texts(a: SearchForm, b: SearchForm) -> bool {
    a.title == b.title && a.artist == b.artist && a.album == b.album && a.length == b.length
}

/// Selection and scroll after a navigation key in the results list of
/// `len` items; `None` for keys that do not navigate.
pub open spec fn navigate(key: Key, sel: int, scroll: int, len: int) -> Option<(int, int)> {
    let last = if len > 0 { len - 1 } else { 0 };
    if key == Key::Up || key == Key::Char('k') {
        if sel > 0 {
            let s = sel - 1;
            Some((s, if s < scroll { s } else { scroll }))
        } else {
            Some((sel, scroll))
        }
    } else if key == Key::Down || key == Key::Char('j') {
        if sel < last {
            let s = sel + 1;
            Some((s, if s >= scroll + 10 { s - 9 } else { scroll }))
        } else {
            Some((sel, scroll))
        }
    } else if key == Key::PageUp {
        if sel > 0 {
            let s = if sel >= 10 { sel - 10 } else { 0 };
            Some((s, if s < scroll { s } else { scroll }))
        } else {
            Some((sel, scroll))
        }
    } else if key == Key::PageDown {
        let s = if sel + 10 <= last { sel + 10 } else { last };
        Some((s, if s >= scroll + 10 { s - 9 } else { scroll }))
    } else {
        None
    }
}

/// Everything but the listed parts is unchanged.
pub open spec fn same_lists(a: App, b: App) -> bool {
    &&& a.results == b.results
    &&& a.selected_result == b.selected_result
    &&& a.results_scroll == b.results_scroll
    &&& a.download_progress == b.download_progress
    &&& a.error_message == b.error_message
    &&& a.status_message == b.status_message
}

/// What a key press does to the state, and the request it makes.
pub open spec fn key_effect(old: App, new: App, key: Key, r: Option<AppEvent>) -> bool {
    if key == Key::CtrlC {
        new == App { running: false, ..old } && r is None
    } else {
        match old.mode {
            AppMode::SearchForm => {
                let f = old.form.focused_field;
                if key == Key::Esc {
                    new == App { running: false, ..old } && r is None
                } else if key == Key::Tab || key == Key::Down {
                    &&& new.form.focused_field == next_field(f)
                    &&& same_texts(old.form, new.form)
                    &&& new.mode == old.mode && new.running == old.running && same_lists(old, new)
                    &&& r is None
                } else if key == Key::BackTab || key == Key::Up {
                    &&& new.form.focused_field == prev_field(f)
                    &&& same_texts(old.form, new.form)
                    &&& new.mode == old.mode && new.running == old.running && same_lists(old, new)
                    &&& r is None
                } else if key == Key::Enter {
                    new == old && r == Some(AppEvent::StartSearch)
                } else if key is Char {
                    &&& form_edited(old.form, new.form, f, field_text(old.form, f).push(key->0))
                    &&& new.mode == old.mode && new.running == old.running && same_lists(old, new)
                    &&& r is None
                } else if key == Key::Backspace {
                    let t = field_text(old.form, f);
                    &&& form_edited(old.form, new.form, f, if t.len() > 0 { t.drop_last() } else { t })
                    &&& new.mode == old.mode && new.running == old.running && same_lists(old, new)
                    &&& r is None
                } else {
                    new == old && r is None
                }
            },
            AppMode::Results => {
                if key == Key::Esc {
                    new == App { mode: AppMode::SearchForm, ..old } && r is None
                } else if key == Key::Enter {
                    new == old && r == Some(AppEvent::StartDownload)
                } else {
                    match navigate(key, old.selected_result as int, old.results_scroll as int, old.results@.len() as int) {
                        Some((s, sc)) => new == App { selected_result: s as usize, results_scroll: sc as usize, ..old } && r is None,
                        None => new == old && r is None,
                    }
                }
            },
            AppMode::Downloading => {
                if key == Key::Esc {
                    new == App { mode: AppMode::Results, ..old } && r is None
                } else {
                    new == old && r is None
                }
            },
            AppMode::Error => {
                if key == Key::Esc || key == Key::Enter {
                    new == App { mode: AppMode::SearchForm, ..old } && r is None
                } else {
                    new == old && r is None
                }
            },
        }
    }
}

fn pop_last(s: &String) -> (r: String)
    ensures
        r@ == if s@.len() > 0 { s@.drop_last() } else { s@ },
{
    let mut v = chars_of(s.as_str());
    if v.len() > 0 {
        v.pop();
    }
    string_of(&v)
}

fn push_last(s: &String, c: char) -> (r: String)
    ensures
        r@ == s@.push(c),
{
    let mut v = chars_of(s.as_str());
    v.push(c);
    string_of(&v)
}

impl App {
    /// The selection stays within the list (at 0 when it is empty) and
    /// inside the visible window that starts at the scroll position.
    pub open spec fn wf(&self) -> bool {
        &&& self.results_scroll <= self.selected_result
        &&& self.selected_result < self.results_scroll + 10
        &&& (self.selected_result < self.results@.len() || self.selected_result == 0)
    }

    /// The start screen: an empty form with the title focused.
    pub fn new() -> (r: App)
        ensures
            r.mode == AppMode::SearchForm,
            r.form.title@.len() == 0 && r.form.artist@.len() == 0 && r.form.album@.len() == 0 && r.form.length@.len() == 0,
            r.form.focused_field == FormField::Title,
            r.results@.len() == 0,
            r.selected_result == 0 && r.results_scroll == 0,
            r.download_progress is None,
            r.error_message is None,
            r.status_message matches Some(m) && m@ == "Ready"@,
            r.running,
            r.wf(),
    {
        App {
            mode: AppMode::SearchForm,
            form: SearchForm {
                title: String::new(),
                artist: String::new(),
                album: String::new(),
                length: String::new(),
                focused_field: FormField::Title,
            },
            results: Vec::new(),
            selected_result: 0,
            results_scroll: 0,
            download_progress: None,
            error_message: None,
            status_message: Some("Ready".to_owned()),
            running: true,
        }
    }

    /// Stops the event loop.
    pub fn quit(&mut self)
        ensures
            *final(self) == (App { running: false, ..*old(self) }),
    {
        self.running = false;
    }

    fn set_field(&mut self, text: String)
        ensures
            form_edited(old(self).form, final(self).form, old(self).form.focused_field, text@),
            final(self).mode == old(self).mode,
            final(self).running == old(self).running,
            same_lists(*old(self), *final(self)),
    {
        match self.form.focused_field {
            FormField::Title => self.form.title = text,
            FormField::Artist => self.form.artist = text,
            FormField::Album => self.form.album = text,
            FormField::Length => self.form.length = text,
        }
    }

    fn focused_text(&self) -> (r: &String)
        ensures
            r@ == field_text(self.form, self.form.focused_field),
    {
        match self.form.focused_field {
            FormField::Title => &self.form.title,
            FormField::Artist => &self.form.artist,
            FormField::Album => &self.form.album,
            FormField::Length => &self.form.length,
        }
    }

    fn navigate_results(&mut self, key: Key) -> (moved: bool)
        requires
            old(self).wf(),
        ensures
            match navigate(key, old(self).selected_result as int, old(self).results_scroll as int, old(self).results@.len() as int) {
                Some((s, sc)) => moved && *final(self) == (App { selected_result: s as usize, results_scroll: sc as usize, ..*old(self) }),
                None => !moved && *final(self) == *old(self),
            },
            final(self).wf(),
    {
        let len = self.results.len();
        let last = if len > 0 { len - 1 } else { 0 };
        let sel = self.selected_result;
        if key == Key::Up || key == Key::Char('k') {
            if sel > 0 {
                self.selected_result = sel - 1;
                if self.selected_result < self.results_scroll {
                    self.results_scroll = self.selected_result;
                }
            }
            true
        } else if key == Key::Down || key == Key::Char('j') {
            if sel < last {
                self.selected_result = sel + 1;
                if self.selected_result - self.results_scroll >= VISIBLE_RESULTS {
                    self.results_scroll = self.selected_result - VISIBLE_RESULTS + 1;
                }
            }
            true
        } else if key == Key::PageUp {
            if sel > 0 {
                self.selected_result = if sel >= 10 { sel - 10 } else { 0 };
                if self.selected_result < self.results_scroll {
                    self.results_scroll = self.selected_result;
                }
            }
            true
        } else if key == Key::PageDown {
            self.selected_result = if last - sel >= 10 { sel + 10 } else { last };
            if self.selected_result - self.results_scroll >= VISIBLE_RESULTS {
                self.results_scroll = self.selected_result - VISIBLE_RESULTS + 1;
            }
            true
        } else {
            false
        }
    }

    /// Applies a key press; returns the request it makes of the UI, if any.
    pub fn handle_key_event(&mut self, key: Key) -> (r: Option<AppEvent>)
        requires
            old(self).wf(),
        ensures
            key_effect(*old(self), *final(self), key, r),
            final(self).wf(),
    {
        if key == Key::CtrlC {
            self.quit();
            return None;
        }
        match self.mode {
            AppMode::SearchForm => {
                let f = self.form.focused_field;
                match key {
                    Key::Esc => {
                        self.quit();
                        None
                    },
                    Key::Tab | Key::Down => {
                        self.form.focused_field = match f {
                            FormField::Title => FormField::Artist,
                            FormField::Artist => FormField::Album,
                            FormField::Album => FormField::Length,
                            FormField::Length => FormField::Title,
                        };
                        None
                    },
                    Key::BackTab | Key::Up => {
                        self.form.focused_field = match f {
                            FormField::Title => FormField::Length,
                            FormField::Artist => FormField::Title,
                            FormField::Album => FormField::Artist,
                            FormField::Length => FormField::Album,
                        };
                        None
                    },
                    Key::Enter => Some(AppEvent::StartSearch),
                    Key::Char(c) => {
                        let t = push_last(self.focused_text(), c);
                        self.set_field(t);
                        None
                    },
                    Key::Backspace => {
                        let t = pop_last(self.focused_text());
                        self.set_field(t);
                        None
                    },
                    _ => None,
                }
            },
            AppMode::Results => {
                match key {
                    Key::Esc => {
                        self.mode = AppMode::SearchForm;
                        None
                    },
                    Key::Enter => Some(AppEvent::StartDownload),
                    _ => {
                        self.navigate_results(key);
                        None
                    },
                }
            },
            AppMode::Downloading => {
                if key == Key::Esc {
                    self.mode = AppMode::Results;
                }
                None
            },
            AppMode::Error => {
                if key == Key::Esc || key == Key::Enter {
                    self.mode = AppMode::SearchForm;
                }
                None
            },
        }
    }

    /// Turns a UI request into work for the background worker: a search
    /// for the track in the form (the length read as a number of seconds,
    /// dropped when it is not one), or the download of the selected result,
    /// which switches to the download screen.
    pub fn handle_app_event(&mut self, event: AppEvent) -> (r: BackgroundRequest)
        requires
            event == AppEvent::StartDownload ==> old(self).selected_result < old(self).results@.len(),
        ensures
            match event {
                AppEvent::StartSearch => {
                    &&& *final(self) == *old(self)
                    &&& r matches BackgroundRequest::Search(t) && {
                        &&& t.title@ == old(self).form.title@
                        &&& t.artists@.len() == 1 && t.artists@[0]@ == old(self).form.artist@
                        &&& t.album@ == old(self).form.album@
                        &&& t.length == parsed_u32(old(self).form.length@)
                    }
                },
                AppEvent::StartDownload => {
                    &&& *final(self) == (App { mode: AppMode::Downloading, ..*old(self) })
                    &&& r == BackgroundRequest::Download(old(self).selected_result)
                },
            },
    {
        match event {
            AppEvent::StartSearch => {
                let track = Track {
                    title: self.form.title.clone(),
                    artists: vec![self.form.artist.clone()],
                    album: self.form.album.clone(),
                    length: parse_u32(self.form.length.as_str()),
                };
                BackgroundRequest::Search(track)
            },
            AppEvent::StartDownload => {
                self.mode = AppMode::Downloading;
                BackgroundRequest::Download(self.selected_result)
            },
        }
    }

    /// Applies a report from the background worker. A completed download
    /// must follow a progress report.
    pub fn handle_background_event(&mut self, event: BackgroundEvent)
        requires
            old(self).wf(),
            event matches BackgroundEvent::DownloadEvent(DownloadEvent::Completed) ==> old(self).download_progress is Some,
        ensures
            final(self).wf(),
            match event {
                BackgroundEvent::SearchEvent(SearchEvent::Started) => {
                    &&& final(self).status_message matches Some(m) && m@ == "Searching..."@
                    &&& *final(self) == (App { status_message: final(self).status_message, ..*old(self) })
                },
                BackgroundEvent::SearchEvent(SearchEvent::Completed(results)) => {
                    &&& final(self).results == results
                    &&& final(self).selected_result == 0 && final(self).results_scroll == 0
                    &&& final(self).mode == AppMode::Results
                    &&& final(self).status_message matches Some(m) && m@ == "Found "@ + decimal(results@.len()) + " results"@
                    &&& final(self).form == old(self).form && final(self).running == old(self).running
                    &&& final(self).download_progress == old(self).download_progress
                    &&& final(self).error_message == old(self).error_message
                },
                BackgroundEvent::SearchEvent(SearchEvent::Failed(e)) => {
                    *final(self) == (App { error_message: Some(e), mode: AppMode::Error, ..*old(self) })
                },
                BackgroundEvent::DownloadEvent(DownloadEvent::Started) => {
                    &&& final(self).status_message matches Some(m) && m@ == "Download started"@
                    &&& *final(self) == (App { status_message: final(self).status_message, ..*old(self) })
                },
                BackgroundEvent::DownloadEvent(DownloadEvent::Progress { filename, bytes_downloaded, total_bytes }) => {
                    *final(self) == (App {
                        download_progress: Some(DownloadProgress { filename, bytes_downloaded, total_bytes, status: DownloadStatus::InProgress }),
                        ..*old(self)
                    })
                },
                BackgroundEvent::DownloadEvent(DownloadEvent::Completed) => {
                    let p = old(self).download_progress.unwrap();
                    &&& final(self).status_message matches Some(m) && m@ == "Download completed"@
                    &&& *final(self) == (App {
                        download_progress: Some(DownloadProgress { filename: p.filename, bytes_downloaded: p.total_bytes, total_bytes: p.total_bytes, status: DownloadStatus::Completed }),
                        status_message: final(self).status_message,
                        ..*old(self)
                    })
                },
                BackgroundEvent::DownloadEvent(DownloadEvent::Failed(e)) => {
                    *final(self) == (App { error_message: Some(e), mode: AppMode::Error, ..*old(self) })
                },
            },
    {
        match event {
            BackgroundEvent::SearchEvent(search) => match search {
                SearchEvent::Started => {
                    self.status_message = Some("Searching...".to_owned());
                },
                SearchEvent::Completed(results) => {
                    self.results = results;
                    self.selected_result = 0;
                    self.results_scroll = 0;
                    self.mode = AppMode::Results;
                    let mut msg = chars_of("Found ");
                    extend_chars(&mut msg, &chars_of(decimal_string(self.results.len() as u64).as_str()));
                    extend_chars(&mut msg, &chars_of(" results"));
                    self.status_message = Some(string_of(&msg));
                },
                SearchEvent::Failed(error) => {
                    self.error_message = Some(error);
                    self.mode = AppMode::Error;
                },
            },
            BackgroundEvent::DownloadEvent(download) => match download {
                DownloadEvent::Started => {
                    self.status_message = Some("Download started".to_owned());
                },
                DownloadEvent::Progress { filename, bytes_downloaded, total_bytes } => {
                    self.download_progress = Some(DownloadProgress {
                        filename,
                        bytes_downloaded,
                        total_bytes,
                        status: DownloadStatus::InProgress,
                    });
                },
                DownloadEvent::Completed => {
                    let progress = self.download_progress.take();
                    match progress {
                        Some(p) => {
                            self.download_progress = Some(DownloadProgress {
                                filename: p.filename,
                                bytes_downloaded: p.total_bytes,
                                total_bytes: p.total_bytes,
                                status: DownloadStatus::Completed,
                            });
                        },
                        None => {},
                    }
                    self.status_message = Some("Download completed".to_owned());
                },
                DownloadEvent::Failed(error) => {
                    self.error_message = Some(error);
                    self.mode = AppMode::Error;
                },
            },
        }
    }
}

/// The state of a transfer as reported by the Soulseek client.
#[derive(Debug, Clone, Copy, PartialEq, Eq, Structural)]
pub enum TransferState {
    Queued,
    InProgress { bytes_downloaded: u64, total_bytes: u64 },
    Completed,
    Failed,
    TimedOut,
    Cancelled,
}

/// The report for a transfer state, and whether the transfer is over.
pub fn download_event_for(state: TransferState, filename: &String) -> (r: (DownloadEvent, bool))
    ensures
        match state {
            TransferState::Queued => r.0 matches DownloadEvent::Started && !r.1,
            TransferState::InProgress { bytes_downloaded, total_bytes } => {
                &&& r.0 matches DownloadEvent::Progress { filename: f, bytes_downloaded: b, total_bytes: t }
                    && f@ == filename@ && b == bytes_downloaded && t == total_bytes
                &&& !r.1
            },
            TransferState::Completed => r.0 matches DownloadEvent::Completed && r.1,
            TransferState::Failed => r.0 matches DownloadEvent::Failed(m) && m@ == "Download failed"@ && r.1,
            TransferState::TimedOut => r.0 matches DownloadEvent::Failed(m) && m@ == "Download timed out"@ && r.1,
            TransferState::Cancelled => r.0 matches DownloadEvent::Failed(m) && m@ == "Download was cancelled"@ && r.1,
        },
{
    match state {
        TransferState::Queued => (DownloadEvent::Started, false),
        TransferState::InProgress { bytes_downloaded, total_bytes } => (
            DownloadEvent::Progress { filename: filename.clone(), bytes_downloaded, total_bytes },
            false,
        ),
        TransferState::Completed => (DownloadEvent::Completed, true),
        TransferState::Failed => (DownloadEvent::Failed("Download failed".to_owned()), true),
        TransferState::TimedOut => (DownloadEvent::Failed("Download timed out".to_owned()), true),
        TransferState::Cancelled => (DownloadEvent::Failed("Download was cancelled".to_owned()), true),
    }
}

} // verus!
