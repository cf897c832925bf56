//! What a spoken research note says, and when a note may be spoken.

use vstd::prelude::*;

use crate::agent::executables::{find_on_path, has_directory_part, path_candidates_of, ExecutableProbe, RecordedProbe};
use crate::agent::launch::variable;
use crate::agent::secrets::environment_view;

use crate::text::{
    char_is_whitespace, chars_of, collapse, collapse_whitespace, is_whitespace_char, starts_with,
    string_from_chars, vec_starts_with,
};

verus! {

#[derive(Clone, Debug, PartialEq, Eq)]
pub enum SpeechSubmit {
    Queued,
    Disabled,
    Empty,
    Duplicate,
    Throttled,
    SessionLimit,
    QueueFull,
    Unavailable(String),
}

#[derive(Clone, Debug, PartialEq, Eq)]
pub enum SpeechEvent {
    Played,
    Cancelled,
    Stale,
    Failed(String),
}

pub const MAX_SPOKEN_SOURCE_CHARS: usize = 4000;

/// `char::is_alphanumeric`: the Unicode Alphabetic or Numeric property.
pub uninterp spec fn char_alphanumeric(c: char) -> bool;

/// `char::to_lowercase`: the Unicode lowercase mapping of `c`.
pub uninterp spec fn char_lowercase(c: char) -> Seq<char>;

/// `char::is_alphanumeric`.
#[verifier::external_body]
fn is_alphanumeric(c: char) -> (r: bool)
    ensures
        r == char_alphanumeric(c),
{
    c.is_alphanumeric()
}

/// `char::to_lowercase`, collected.
#[verifier::external_body]
fn lowercase(c: char) -> (r: Vec<char>)
    ensures
        r@ == char_lowercase(c),
{
    c.to_lowercase().collect()
}

/// The position of the first whitespace character of `s`, or its length.
pub open spec fn first_whitespace(s: Seq<char>) -> nat
    decreases s.len(),
{
    if s.len() == 0 {
        0
    } else if is_whitespace_char(s[0]) {
        0
    } else {
        1 + first_whitespace(s.drop_first())
    }
}

/// The position of the first `](` in `s`.
pub open spec fn find_label_end(s: Seq<char>) -> Option<nat>
    decreases s.len(),
{
    if s.len() < 2 {
        None
    } else if s[0] == ']' && s[1] == '(' {
        Some(0)
    } else {
        match find_label_end(s.drop_first()) {
            Some(p) => Some(p + 1),
            None => None,
        }
    }
}

/// The position of the first `)` in `s`.
pub open spec fn find_close(s: Seq<char>) -> Option<nat>
    decreases s.len(),
{
    if s.len() == 0 {
        None
    } else if s[0] == ')' {
        Some(0)
    } else {
        match find_close(s.drop_first()) {
            Some(p) => Some(p + 1),
            None => None,
        }
    }
}

pub proof fn lemma_find_label_end(s: Seq<char>)
    ensures
        find_label_end(s) matches Some(p) ==> p + 2 <= s.len() && s[p as int] == ']' && s[p as int + 1] == '(',
    decreases s.len(),
{
    if s.len() >= 2 && !(s[0] == ']' && s[1] == '(') {
        lemma_find_label_end(s.drop_first());
    }
}

pub proof fn lemma_find_close(s: Seq<char>)
    ensures
        find_close(s) matches Some(q) ==> q < s.len() && s[q as int] == ')',
    decreases s.len(),
{
    if s.len() > 0 && s[0] != ')' {
        lemma_find_close(s.drop_first());
    }
}

pub proof fn lemma_first_whitespace(s: Seq<char>)
    ensures
        first_whitespace(s) <= s.len(),
        first_whitespace(s) < s.len() ==> is_whitespace_char(s[first_whitespace(s) as int]),
        forall|j: int| 0 <= j < first_whitespace(s) ==> !is_whitespace_char(#[trigger] s[j]),
    decreases s.len(),
{
    if s.len() > 0 && !is_whitespace_char(s[0]) {
        lemma_first_whitespace(s.drop_first());
        assert forall|j: int| 0 <= j < first_whitespace(s) implies !is_whitespace_char(#[trigger] s[j]) by {
            if j > 0 {
                assert(s[j] == s.drop_first()[j - 1]);
            }
        }
    }
}

/// Markdown links `[label](target)` keep only their label, and bare
/// `http://`/`https://` URLs are dropped up to the next whitespace.
pub open spec fn strip_links(s: Seq<char>) -> Seq<char>
    decreases s.len(),
{
    if s.len() == 0 {
        Seq::empty()
    } else {
        let tail = s.drop_first();
        let label_end = find_label_end(tail);
        proof {
            lemma_find_label_end(tail);
            if label_end is Some {
                lemma_find_close(s.subrange(label_end.unwrap() as int + 3, s.len() as int));
            }
            lemma_first_whitespace(s);
        }
        if s[0] == '[' && label_end is Some && find_close(
            s.subrange(label_end.unwrap() as int + 3, s.len() as int),
        ) is Some {
            let p = label_end.unwrap() as int;
            let q = find_close(s.subrange(p + 3, s.len() as int)).unwrap() as int;
            s.subrange(1, p + 1) + strip_links(s.subrange(p + 4 + q, s.len() as int))
        } else if starts_with(s, "http://"@) || starts_with(s, "https://"@) {
            let w = first_whitespace(s) as int;
            if w == 0 {
                Seq::empty()
            } else {
                strip_links(s.subrange(w, s.len() as int))
            }
        } else {
            seq![s[0]] + strip_links(tail)
        }
    }
}

/// Markdown emphasis, code, heading, quote, and bracket marks read as spaces.
pub open spec fn unmark(c: char) -> char {
    if c == '*' || c == '_' || c == '`' || c == '#' || c == '>' || c == '[' || c == ']' {
        ' '
    } else {
        c
    }
}

/// Spoken text: the first 4000 characters, without links and URLs, with
/// markdown marks as spaces and whitespace collapsed.
pub open spec fn spoken_text(s: Seq<char>) -> Seq<char> {
    let bounded = s.take(if s.len() <= MAX_SPOKEN_SOURCE_CHARS { s.len() as int } else { MAX_SPOKEN_SOURCE_CHARS as int });
    let stripped = strip_links(bounded);
    collapse_whitespace(Seq::new(stripped.len(), |i: int| unmark(stripped[i])))
}

fn label_end_in(v: &Vec<char>, from: usize) -> (r: Option<usize>)
    requires
        from <= v.len(),
    ensures
        match find_label_end(v@.subrange(from as int, v.len() as int)) {
            Some(p) => r == Some((p + from) as usize),
            None => r is None,
        },
        r matches Some(k) ==> k + 1 < v.len(),
{
    let mut i: usize = from;
    while v.len() > 0 && i < v.len() - 1
        invariant
            from <= i <= v.len(),
            find_label_end(v@.subrange(from as int, v.len() as int)) == (match find_label_end(
                v@.subrange(i as int, v.len() as int),
            ) {
                Some(p) => Some((p + (i - from)) as nat),
                None => None,
            }),
        decreases v.len() - i,
    {
        let ghost rest = v@.subrange(i as int, v.len() as int);
        assert(rest.drop_first() == v@.subrange(i as int + 1, v.len() as int));
        if v[i] == ']' && v[i + 1] == '(' {
            return Some(i);
        }
        i = i + 1;
    }
    proof {
        lemma_find_label_end(v@.subrange(from as int, v.len() as int));
    }
    assert(v@.subrange(i as int, v.len() as int).len() < 2);
    None
}

fn close_in(v: &Vec<char>, from: usize) -> (r: Option<usize>)
    requires
        from <= v.len(),
    ensures
        match find_close(v@.subrange(from as int, v.len() as int)) {
            Some(p) => r == Some((p + from) as usize),
            None => r is None,
        },
{
    let mut i: usize = from;
    while i < v.len()
        invariant
            from <= i <= v.len(),
            find_close(v@.subrange(from as int, v.len() as int)) == (match find_close(
                v@.subrange(i as int, v.len() as int),
            ) {
                Some(p) => Some((p + (i - from)) as nat),
                None => None,
            }),
        decreases v.len() - i,
    {
        let ghost rest = v@.subrange(i as int, v.len() as int);
        assert(rest.drop_first() == v@.subrange(i as int + 1, v.len() as int));
        if v[i] == ')' {
            return Some(i);
        }
        i = i + 1;
    }
    assert(v@.subrange(i as int, v.len() as int).len() == 0);
    None
}

fn whitespace_in(v: &Vec<char>, from: usize) -> (r: usize)
    requires
        from <= v.len(),
    ensures
        r == from + first_whitespace(v@.subrange(from as int, v.len() as int)),
        r <= v.len(),
{
    let mut i: usize = from;
    while i < v.len() && !char_is_whitespace(v[i])
        invariant
            from <= i <= v.len(),
            first_whitespace(v@.subrange(from as int, v.len() as int)) == (i - from)
                + first_whitespace(v@.subrange(i as int, v.len() as int)),
        decreases v.len() - i,
    {
        let ghost rest = v@.subrange(i as int, v.len() as int);
        assert(rest.drop_first() == v@.subrange(i as int + 1, v.len() as int));
        i = i + 1;
    }
    i
}

/// Removes markdown link targets and bare URLs from spoken text.
pub fn strip_markdown_links_and_urls(text: &Vec<char>) -> (r: Vec<char>)
    ensures
        r@ == strip_links(text@),
{
    let http: Vec<char> = chars_of("http://");
    let https: Vec<char> = chars_of("https://");
    let mut out: Vec<char> = Vec::new();
    let mut i: usize = 0;
    assert(text@.subrange(0, text@.len() as int) == text@);
    while i < text.len()
        invariant
            i <= text.len(),
            http@ == "http://"@,
            https@ == "https://"@,
            strip_links(text@) == out@ + strip_links(text@.subrange(i as int, text@.len() as int)),
        decreases text.len() - i,
    {
        let ghost s = text@.subrange(i as int, text@.len() as int);
        assert(s.drop_first() == text@.subrange(i as int + 1, text@.len() as int));
        let label = if text[i] == '[' {
            label_end_in(text, i + 1)
        } else {
            None
        };
        proof {
            lemma_find_label_end(s.drop_first());
            if label is Some {
                let l = label.unwrap();
                assert(s.subrange(l - i + 2, s.len() as int) =~= text@.subrange(l as int + 2, text@.len() as int));
            }
        }
        let mut handled = false;
        if let Some(label_at) = label {
            let close = close_in(text, label_at + 2);
            if let Some(close_at) = close {
                proof {
                    lemma_find_label_end(s.drop_first());
                    lemma_find_close(text@.subrange(label_at as int + 2, text@.len() as int));
                    let p = label_at - i - 1;
                    assert(s.subrange(p + 3, s.len() as int) == text@.subrange(
                        label_at as int + 2,
                        text@.len() as int,
                    ));
                    assert(s.subrange(1, p + 1) == text@.subrange(i as int + 1, label_at as int));
                    assert(s.subrange(p + 4 + (close_at - label_at - 2), s.len() as int)
                        == text@.subrange(close_at as int + 1, text@.len() as int));
                }
                let mut j: usize = i + 1;
                let ghost before = out@;
                while j < label_at
                    invariant
                        i + 1 <= j <= label_at,
                        label_at < text.len(),
                        out@ == before + text@.subrange(i as int + 1, j as int),
                    decreases label_at - j,
                {
                    out.push(text[j]);
                    j = j + 1;
                    assert(out@ =~= before + text@.subrange(i as int + 1, j as int));
                }
                assert(out@ + strip_links(text@.subrange(close_at as int + 1, text@.len() as int))
                    =~= before + strip_links(s));
                i = close_at + 1;
                handled = true;
            }
        }
        if !handled {
            let is_url = {
                let tail = crate::text::suffix_from(text, i);
                vec_starts_with(&tail, &http) || vec_starts_with(&tail, &https)
            };
            if is_url {
                proof {
                    reveal_strlit("http://");
                    reveal_strlit("https://");
                    if starts_with(s, "http://"@) {
                        assert(s.subrange(0, 7)[0] == s[0]);
                    } else {
                        assert(s.subrange(0, 8)[0] == s[0]);
                    }
                    assert(s[0] == 'h');
                }
                let w = whitespace_in(text, i);
                proof {
                    assert(s.subrange(w - i, s.len() as int) == text@.subrange(
                        w as int,
                        text@.len() as int,
                    ));
                }
                i = w;
            } else {
                out.push(text[i]);
                i = i + 1;
                assert(out@ + strip_links(text@.subrange(i as int, text@.len() as int)) =~= out@.drop_last()
                    + strip_links(s));
            }
        }
    }
    assert(text@.subrange(i as int, text@.len() as int) =~= Seq::<char>::empty());
    assert(out@ + Seq::<char>::empty() =~= out@);
    out
}


fn prefix_of(v: &Vec<char>, n: usize) -> (r: Vec<char>)
    requires
        n <= v.len(),
    ensures
        r@ == v@.take(n as int),
{
    let mut r: Vec<char> = Vec::new();
    let mut i: usize = 0;
    while i < n
        invariant
            i <= n <= v.len(),
            r@ == v@.take(i as int),
        decreases n - i,
    {
        r.push(v[i]);
        i = i + 1;
        assert(r@ =~= v@.take(i as int));
    }
    r
}

/// Cleans a research note for speech.
pub fn clean_spoken_text(text: &str) -> (r: String)
    ensures
        r@ == spoken_text(text@),
{
    let chars = chars_of(text);
    let bound = if chars.len() <= MAX_SPOKEN_SOURCE_CHARS {
        chars.len()
    } else {
        MAX_SPOKEN_SOURCE_CHARS
    };
    let bounded = prefix_of(&chars, bound);
    let stripped = strip_markdown_links_and_urls(&bounded);
    let mut plain: Vec<char> = Vec::new();
    let mut i: usize = 0;
    while i < stripped.len()
        invariant
            i <= stripped.len(),
            plain@ == Seq::new(i as nat, |j: int| unmark(stripped@[j])),
        decreases stripped.len() - i,
    {
        let c = stripped[i];
        let d = if c == '*' || c == '_' || c == '`' || c == '#' || c == '>' || c == '[' || c == ']' {
            ' '
        } else {
            c
        };
        plain.push(d);
        i = i + 1;
        assert(plain@ =~= Seq::new(i as nat, |j: int| unmark(stripped@[j])));
    }
    let collapsed = collapse(&plain);
    string_from_chars(&collapsed)
}

/// Position `e` of the collapsed text `c` ends a whole word.
pub open spec fn word_end(c: Seq<char>, e: int) -> bool {
    0 < e <= c.len() && (e == c.len() || c[e] == ' ')
}

/// The longest run of whole words of `c` no longer than `limit`.
pub open spec fn fitted_words_len(c: Seq<char>, limit: int) -> int
    decreases limit,
{
    if limit <= 0 {
        0
    } else if word_end(c, limit) {
        limit
    } else {
        fitted_words_len(c, limit - 1)
    }
}

pub open spec fn is_closing_mark(c: char) -> bool {
    c == ' ' || c == ',' || c == ';' || c == ':' || c == '.'
}

pub open spec fn trim_closing_marks(s: Seq<char>) -> Seq<char>
    decreases s.len(),
{
    if s.len() > 0 && is_closing_mark(s.last()) {
        trim_closing_marks(s.drop_last())
    } else {
        s
    }
}

fn closing_mark(c: char) -> (r: bool)
    ensures
        r == is_closing_mark(c),
{
    c == ' ' || c == ',' || c == ';' || c == ':' || c == '.'
}

/// Text within `max_chars` characters stays as it is. Longer text becomes
/// its longest run of whole words that leaves room for a final period,
/// without trailing punctuation, ending in a period.
pub open spec fn shortened_text(s: Seq<char>, max_chars: nat) -> Seq<char> {
    if s.len() <= max_chars {
        s
    } else {
        let c = collapse_whitespace(s);
        let limit = if max_chars == 0 {
            0
        } else if c.len() < max_chars - 1 {
            c.len() as int
        } else {
            max_chars - 1
        };
        trim_closing_marks(c.take(fitted_words_len(c, limit))).push('.')
    }
}

/// Shortens spoken text on a word boundary.
pub fn truncate_spoken_text(text: &str, max_chars: usize) -> (r: String)
    ensures
        r@ == shortened_text(text@, max_chars as nat),
{
    let chars = chars_of(text);
    if chars.len() <= max_chars {
        return string_from_chars(&chars);
    }
    let c = collapse(&chars);
    let limit: usize = if max_chars == 0 {
        0
    } else if c.len() < max_chars - 1 {
        c.len()
    } else {
        max_chars - 1
    };
    let mut e: usize = limit;
    while e > 0 && !(e == c.len() || c[e] == ' ')
        invariant
            e <= limit <= c.len(),
            fitted_words_len(c@, limit as int) == fitted_words_len(c@, e as int),
        decreases e,
    {
        e = e - 1;
    }
    let mut kept = prefix_of(&c, e);
    while kept.len() > 0 && closing_mark(kept[kept.len() - 1])
        invariant
            trim_closing_marks(c@.take(e as int)) == trim_closing_marks(kept@),
        decreases kept.len(),
    {
        kept.pop();
    }
    kept.push('.');
    string_from_chars(&kept)
}

pub open spec fn key_source(s: Seq<char>) -> Seq<char>
    decreases s.len(),
{
    if s.len() == 0 {
        Seq::empty()
    } else {
        key_source(s.drop_last()) + if char_alphanumeric(s.last()) {
            char_lowercase(s.last())
        } else {
            seq![' ']
        }
    }
}

/// The comparison key of a note: letters and digits lowercased, everything
/// else a word break, words joined by single spaces.
pub open spec fn note_key(s: Seq<char>) -> Seq<char> {
    collapse_whitespace(key_source(s))
}

/// The comparison key used to recognize a repeated note.
pub fn utterance_key(text: &str) -> (r: String)
    ensures
        r@ == note_key(text@),
{
    let chars = chars_of(text);
    let mut source: Vec<char> = Vec::new();
    let mut i: usize = 0;
    while i < chars.len()
        invariant
            i <= chars.len(),
            source@ == key_source(chars@.take(i as int)),
        decreases chars.len() - i,
    {
        let c = chars[i];
        let ghost before = source@;
        if is_alphanumeric(c) {
            let lower = lowercase(c);
            let mut j: usize = 0;
            while j < lower.len()
                invariant
                    j <= lower.len(),
                    source@ == before + lower@.take(j as int),
                decreases lower.len() - j,
            {
                source.push(lower[j]);
                j = j + 1;
                assert(source@ =~= before + lower@.take(j as int));
            }
            assert(lower@.take(lower.len() as int) == lower@);
        } else {
            source.push(' ');
        }
        assert(chars@.take(i as int + 1).drop_last() == chars@.take(i as int));
        i = i + 1;
    }
    assert(chars@.take(chars.len() as int) == chars@);
    let collapsed = collapse(&source);
    string_from_chars(&collapsed)
}


/// Whether notes can be spoken at all.
#[derive(Clone, Debug, PartialEq, Eq)]
pub enum SpeechCapability {
    Ready,
    Disabled,
    Unavailable(String),
}

/// Limits on spoken notes. Durations are in nanoseconds.
#[derive(Clone, Copy, Debug, PartialEq, Eq)]
pub struct NotePolicy {
    pub note_interval: u64,
    pub note_limit: usize,
    pub note_max_chars: usize,
    pub dedupe_interval: u64,
}

/// The per-session memory that throttles, limits, and deduplicates notes.
/// Times are nanoseconds on one monotonic clock.
pub struct NoteGate {
    pub policy: NotePolicy,
    pub note_count: usize,
    pub last_note_at: Option<u64>,
    pub recent_note: Option<(String, u64)>,
}

/// A note cleared for speech, or the reason it was refused.
#[derive(Debug, PartialEq, Eq)]
pub enum NoteScreen {
    Refused(SpeechSubmit),
    Speak { text: String, key: String },
}

pub open spec fn elapsed(now: u64, since: u64) -> int {
    if now >= since {
        now - since
    } else {
        0
    }
}

impl NoteGate {
    pub fn new(policy: NotePolicy) -> (g: Self)
        ensures
            g.policy == policy,
            g.note_count == 0,
            g.last_note_at is None,
            g.recent_note is None,
    {
        NoteGate { policy, note_count: 0, last_note_at: None, recent_note: None }
    }

    /// Forgets the session's notes.
    pub fn reset_session(&mut self)
        ensures
            final(self).policy == old(self).policy,
            final(self).note_count == 0,
            final(self).last_note_at is None,
            final(self).recent_note is None,
    {
        self.note_count = 0;
        self.last_note_at = None;
        self.recent_note = None;
    }

    /// Refusal reasons, checked in this order: capability, empty text,
    /// a repeat of the last note within the dedupe interval, the session
    /// limit, the minimum interval since the last note.
    pub open spec fn refusal(self, capability: SpeechCapability, text: Seq<char>, now: u64) -> Option<
        SpeechSubmit,
    > {
        let spoken = shortened_text(spoken_text(text), self.policy.note_max_chars as nat);
        let key = note_key(spoken);
        match capability {
            SpeechCapability::Disabled => Some(SpeechSubmit::Disabled),
            SpeechCapability::Unavailable(reason) => Some(SpeechSubmit::Unavailable(reason)),
            SpeechCapability::Ready => if spoken_text(text).len() == 0 {
                Some(SpeechSubmit::Empty)
            } else if self.recent_note matches Some((previous, at)) && previous@ == key && elapsed(
                now,
                at,
            ) < self.policy.dedupe_interval {
                Some(SpeechSubmit::Duplicate)
            } else if self.note_count >= self.policy.note_limit {
                Some(SpeechSubmit::SessionLimit)
            } else if self.last_note_at matches Some(last) && elapsed(now, last)
                < self.policy.note_interval {
                Some(SpeechSubmit::Throttled)
            } else {
                None
            },
        }
    }

    /// Screens a note at time `now`: a passing note comes back cleaned and
    /// shortened, with its comparison key.
    pub fn screen(&self, capability: &SpeechCapability, text: &str, now: u64) -> (r: NoteScreen)
        ensures
            match self.refusal(*capability, text@, now) {
                Some(reason) => r == NoteScreen::Refused(reason),
                None => r matches NoteScreen::Speak { text: t, key: k } && t@ == shortened_text(
                    spoken_text(text@),
                    self.policy.note_max_chars as nat,
                ) && k@ == note_key(t@),
            },
    {
        match capability {
            SpeechCapability::Disabled => return NoteScreen::Refused(SpeechSubmit::Disabled),
            SpeechCapability::Unavailable(reason) => {
                return NoteScreen::Refused(SpeechSubmit::Unavailable(reason.clone()));
            },
            SpeechCapability::Ready => {},
        }
        let cleaned = clean_spoken_text(text);
        if cleaned.as_str().is_empty() {
            return NoteScreen::Refused(SpeechSubmit::Empty);
        }
        let spoken = truncate_spoken_text(cleaned.as_str(), self.policy.note_max_chars);
        let key = utterance_key(spoken.as_str());
        if let Some((previous, at)) = &self.recent_note {
            if *previous == key && now.saturating_sub(*at) < self.policy.dedupe_interval {
                return NoteScreen::Refused(SpeechSubmit::Duplicate);
            }
        }
        if self.note_count >= self.policy.note_limit {
            return NoteScreen::Refused(SpeechSubmit::SessionLimit);
        }
        if let Some(last) = self.last_note_at {
            if now.saturating_sub(last) < self.policy.note_interval {
                return NoteScreen::Refused(SpeechSubmit::Throttled);
            }
        }
        NoteScreen::Speak { text: spoken, key }
    }

    /// Records a note that was handed to the speech worker at `now`.
    pub fn record_queued(&mut self, key: String, now: u64)
        requires
            old(self).note_count < usize::MAX,
        ensures
            final(self).policy == old(self).policy,
            final(self).note_count == old(self).note_count + 1,
            final(self).last_note_at == Some(now),
            final(self).recent_note == Some((key, now)),
    {
        self.note_count = self.note_count + 1;
        self.last_note_at = Some(now);
        self.recent_note = Some((key, now));
    }
}

/// A program that plays a WAV file: the file's path follows `prefix`.
#[derive(Clone, Debug, PartialEq, Eq)]
pub struct PlayerCommand {
    pub program: String,
    pub prefix: Vec<String>,
}

/// The players looked for on `PATH`, in order, with their arguments.
pub open spec fn known_players() -> Seq<(Seq<char>, Seq<Seq<char>>)> {
    seq![
        ("ffplay"@, seq!["-nodisp"@, "-autoexit"@, "-loglevel"@, "quiet"@]),
        ("pw-play"@, Seq::empty()),
        ("aplay"@, seq!["-q"@]),
        ("paplay"@, Seq::empty()),
    ]
}

pub open spec fn prefix_texts(prefix: Seq<String>) -> Seq<Seq<char>> {
    Seq::new(prefix.len(), |i: int| prefix[i]@)
}

fn texts(values: &[&str]) -> (v: Vec<String>)
    ensures
        prefix_texts(v@) == Seq::new(values@.len(), |i: int| values@[i]@),
{
    let mut v: Vec<String> = Vec::new();
    let mut i: usize = 0;
    while i < values.len()
        invariant
            i <= values@.len(),
            v@.len() == i,
            forall|k: int| 0 <= k < i ==> (#[trigger] v@[k])@ == values@[k]@,
        decreases values@.len() - i,
    {
        let owned = values[i].to_owned();
        v.push(owned);
        i = i + 1;
    }
    assert(prefix_texts(v@) =~= Seq::new(values@.len(), |i: int| values@[i]@));
    v
}

/// The local WAV player: the one `AI_NEWS_AUDIO_PLAYER` names when it is
/// set and not empty; otherwise the first of ffplay, pw-play, aplay and
/// paplay found on `PATH`.
pub fn player_from_environment<P: ExecutableProbe>(ambient: &Vec<(String, String)>, probe: &P) -> (player: Option<
    PlayerCommand,
>)
    ensures
        (variable(environment_view(ambient@), "AI_NEWS_AUDIO_PLAYER"@) matches Some(p) && p.len() > 0) ==> (
        player matches Some(c) && c.program@ == variable(environment_view(ambient@), "AI_NEWS_AUDIO_PLAYER"@)->0
            && c.prefix@.len() == 0),
        !(variable(environment_view(ambient@), "AI_NEWS_AUDIO_PLAYER"@) matches Some(p) && p.len() > 0) ==> (
        player matches Some(c) ==> exists|k: int|
            0 <= k < 4 && prefix_texts(c.prefix@) == (#[trigger] known_players()[k]).1 && (variable(
                environment_view(ambient@),
                "PATH"@,
            ) matches Some(path) && path_candidates_of(known_players()[k].0, path).contains(c.program@))),
{
    match crate::agent::launch::lookup_variable(ambient, "AI_NEWS_AUDIO_PLAYER") {
        Some(program) => {
            if !program.as_str().is_empty() {
                return Some(PlayerCommand { program, prefix: Vec::new() });
            }
        },
        None => {},
    }
    let path = crate::agent::launch::lookup_variable(ambient, "PATH");
    let search = match &path {
        Some(p) => Some(p.as_str()),
        None => None,
    };
    proof {
        reveal_strlit("ffplay");
        reveal_strlit("pw-play");
        reveal_strlit("aplay");
        reveal_strlit("paplay");
        assert(!has_directory_part("ffplay"@));
        assert(!has_directory_part("pw-play"@));
        assert(!has_directory_part("aplay"@));
        assert(!has_directory_part("paplay"@));
    }
    let mut recorded = RecordedProbe::new(probe);
    match find_on_path("ffplay", search, &mut recorded) {
        Some(program) => {
            let prefix = texts(&["-nodisp", "-autoexit", "-loglevel", "quiet"]);
            assert(prefix_texts(prefix@) =~= known_players()[0].1);
            return Some(PlayerCommand { program, prefix });
        },
        None => {},
    }
    match find_on_path("pw-play", search, &mut recorded) {
        Some(program) => {
            let prefix: Vec<String> = Vec::new();
            assert(prefix_texts(prefix@) =~= known_players()[1].1);
            return Some(PlayerCommand { program, prefix });
        },
        None => {},
    }
    match find_on_path("aplay", search, &mut recorded) {
        Some(program) => {
            let prefix = texts(&["-q"]);
            assert(prefix_texts(prefix@) =~= known_players()[2].1);
            return Some(PlayerCommand { program, prefix });
        },
        None => {},
    }
    match find_on_path("paplay", search, &mut recorded) {
        Some(program) => {
            let prefix: Vec<String> = Vec::new();
            assert(prefix_texts(prefix@) =~= known_players()[3].1);
            return Some(PlayerCommand { program, prefix });
        },
        None => {},
    }
    None
}

/// Whether notes can be spoken: not when voice is switched off, nor without
/// a synthesis endpoint or a player.
pub fn speech_capability(enabled: bool, endpoint: &str, player_present: bool) -> (capability: SpeechCapability)
    ensures
        !enabled ==> capability == SpeechCapability::Disabled,
        enabled && endpoint@.len() == 0 ==> (capability matches SpeechCapability::Unavailable(reason) && reason@
            == "Kokoro synthesis has no configured endpoint"@),
        enabled && endpoint@.len() > 0 && !player_present ==> (capability matches SpeechCapability::Unavailable(
            reason,
        ) && reason@ == "no local WAV player is available"@),
        enabled && endpoint@.len() > 0 && player_present ==> capability == SpeechCapability::Ready,
{
    if !enabled {
        SpeechCapability::Disabled
    } else if endpoint.is_empty() {
        SpeechCapability::Unavailable("Kokoro synthesis has no configured endpoint".to_owned())
    } else if !player_present {
        SpeechCapability::Unavailable("no local WAV player is available".to_owned())
    } else {
        SpeechCapability::Ready
    }
}

/// ASCII lower case.
pub open spec fn ascii_lower_char(c: char) -> char {
    if 'A' <= c && c <= 'Z' {
        ((c as u32) + 32) as char
    } else {
        c
    }
}

/// Whether a switch's value leaves it on: anything but `0`, `false`, `no`
/// or `off`, in any case and around spaces; an unset switch keeps its
/// default.
pub open spec fn switch_on(value: Option<Seq<char>>, default: bool) -> bool {
    match value {
        None => default,
        Some(v) => {
            let word = Seq::new(crate::text::trim(v).len(), |i: int| ascii_lower_char(crate::text::trim(v)[i]));
            !(word == "0"@ || word == "false"@ || word == "no"@ || word == "off"@)
        },
    }
}

/// Reads an on/off switch.
pub fn env_switch(value: Option<&str>, default: bool) -> (on: bool)
    ensures
        on == switch_on(
            match value {
                Some(v) => Some(v@),
                None => None,
            },
            default,
        ),
{
    match value {
        None => default,
        Some(v) => {
            let word = crate::text::trimmed(v);
            let chars = chars_of(word.as_str());
            let mut lower: Vec<char> = Vec::new();
            let mut i: usize = 0;
            while i < chars.len()
                invariant
                    i <= chars@.len(),
                    lower@ == Seq::new(i as nat, |k: int| ascii_lower_char(chars@[k])),
                decreases chars@.len() - i,
            {
                let c = chars[i];
                let l = if 'A' <= c && c <= 'Z' {
                    ((c as u32) + 32) as u8 as char
                } else {
                    c
                };
                assert(l == ascii_lower_char(c)) by {
                    if 'A' <= c && c <= 'Z' {
                        assert(((c as u32) + 32) as u8 as char == ((c as u32) + 32) as char);
                    }
                }
                lower.push(l);
                i = i + 1;
                assert(lower@ =~= Seq::new(i as nat, |k: int| ascii_lower_char(chars@[k])));
            }
            let text = string_from_chars(&lower);
            let t = text.as_str();
            !(crate::text::same_text(t, "0") || crate::text::same_text(t, "false") || crate::text::same_text(t, "no")
                || crate::text::same_text(t, "off"))
        },
    }
}

/// The number written by the decimal digits `s`.
pub open spec fn digits_value(s: Seq<char>) -> nat
    decreases s.len(),
{
    if s.len() == 0 {
        0
    } else {
        digits_value(s.drop_last()) * 10 + ((s.last() as u32) - ('0' as u32)) as nat
    }
}

pub open spec fn all_digits(s: Seq<char>) -> bool {
    forall|i: int| 0 <= i < s.len() ==> '0' <= #[trigger] s[i] && s[i] <= '9'
}

/// `usize::from_str`: decimal digits after an optional `+`, within range.
pub open spec fn parsed_count(s: Seq<char>) -> Option<nat> {
    let body = if s.len() > 0 && s[0] == '+' {
        s.drop_first()
    } else {
        s
    };
    if body.len() > 0 && all_digits(body) && digits_value(body) <= usize::MAX {
        Some(digits_value(body))
    } else {
        None
    }
}

proof fn lemma_digits_grow(s: Seq<char>, i: int)
    requires
        0 <= i <= s.len(),
        all_digits(s),
    ensures
        digits_value(s.take(i)) <= digits_value(s),
    decreases s.len() - i,
{
    if i < s.len() {
        lemma_digits_grow(s, i + 1);
        assert(s.take(i + 1).drop_last() =~= s.take(i));
        assert(s.take(i + 1).last() == s[i]);
    } else {
        assert(s.take(i) =~= s);
    }
}

fn parse_count(text: &str) -> (n: Option<usize>)
    ensures
        match parsed_count(text@) {
            Some(v) => n == Some(v as usize),
            None => n is None,
        },
{
    let chars = chars_of(text);
    let start: usize = if chars.len() > 0 && chars[0] == '+' {
        1
    } else {
        0
    };
    let ghost body = if text@.len() > 0 && text@[0] == '+' {
        text@.drop_first()
    } else {
        text@
    };
    assert(body =~= chars@.skip(start as int));
    if start >= chars.len() {
        return None;
    }
    let mut value: usize = 0;
    let mut i: usize = start;
    while i < chars.len()
        invariant
            start <= i <= chars@.len(),
            body == chars@.skip(start as int),
            body == (if text@.len() > 0 && text@[0] == '+' {
                text@.drop_first()
            } else {
                text@
            }),
            body.len() > 0,
            value == digits_value(body.take(i - start)),
            all_digits(body.take(i - start)),
        decreases chars@.len() - i,
    {
        let c = chars[i];
        let ghost k = i - start;
        assert(body.take(k + 1).drop_last() =~= body.take(k));
        assert(body.take(k + 1).last() == c);
        if c < '0' || c > '9' {
            assert(!all_digits(body)) by {
                assert(body[k] == c);
            }
            return None;
        }
        let digit = ((c as u32) - ('0' as u32)) as usize;
        let tens = match value.checked_mul(10) {
            Some(t) => t,
            None => {
                proof {
                    if all_digits(body) {
                        lemma_digits_grow(body, k + 1);
                    }
                }
                return None;
            },
        };
        let next = match tens.checked_add(digit) {
            Some(v) => v,
            None => {
                proof {
                    if all_digits(body) {
                        lemma_digits_grow(body, k + 1);
                    }
                }
                return None;
            },
        };
        value = next;
        i = i + 1;
        assert(all_digits(body.take(i - start))) by {
            assert forall|j: int| 0 <= j < body.take(i - start).len() implies '0' <= #[trigger] body.take(
                i - start,
            )[j] && body.take(i - start)[j] <= '9' by {
                if j < k {
                    assert(body.take(i - start)[j] == body.take(k)[j]);
                }
            }
        }
    }
    assert(body.take(i - start) =~= body);
    Some(value)
}

/// Reads a count from the environment: a value that does not parse keeps
/// the default, and the result is clamped to the bounds.
pub fn env_count(value: Option<&str>, default: usize, minimum: usize, maximum: usize) -> (n: usize)
    requires
        minimum <= maximum,
    ensures
        ({
            let read = match value {
                Some(v) => match parsed_count(v@) {
                    Some(p) => p,
                    None => default as nat,
                },
                None => default as nat,
            };
            n == if read < minimum {
                minimum as nat
            } else if read > maximum {
                maximum as nat
            } else {
                read
            }
        }),
{
    let read = match value {
        Some(v) => match parse_count(v) {
            Some(p) => p,
            None => default,
        },
        None => default,
    };
    if read < minimum {
        minimum
    } else if read > maximum {
        maximum
    } else {
        read
    }
}

} // verus!
