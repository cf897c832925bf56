//! The rules of the application's text fields: how typed or pasted text is
//! admitted within a field's bounds, how a secret is shown, and how menu
//! rows are labelled and chosen from the keyboard.

use unicode_segmentation::UnicodeSegmentation;

use vstd::prelude::*;

use crate::agent::runner::ResearchTermination;
use crate::text::{
    append_str, chars_of, char_is_control, char_is_whitespace, is_control_char, is_whitespace_char,
    push_char, signed_decimal, signed_decimal_text, string_from_chars, utf8_len, utf8_length_within, lemma_utf8_len_push,
    utf8_width,
};

verus! {

pub const MAX_RESEARCH_CHARS: usize = 4096;

pub const MAX_RESEARCH_BYTES: usize = 16384;

pub const MAX_PREDICATE_CHARS: usize = 96;

pub const MAX_PREDICATE_BYTES: usize = 384;

pub const MAX_CREDENTIAL_CHARS: usize = 4096;

pub const MAX_CREDENTIAL_BYTES: usize = 16384;

/// How a field treats the characters it is given.
#[derive(Clone, Copy, Debug, PartialEq, Eq, Structural)]
pub enum FieldKind {
    /// Line breaks and tabs become spaces; other control characters are dropped.
    Text,
    /// Control and whitespace characters are dropped.
    Secret,
}

/// The character a field stores for `c`, or `None` when it drops `c`.
pub open spec fn admitted(c: char, kind: FieldKind) -> Option<char> {
    match kind {
        FieldKind::Text => if c == '\n' || c == '\r' || c == '\t' {
            Some(' ')
        } else if is_control_char(c) {
            None
        } else {
            Some(c)
        },
        FieldKind::Secret => if is_control_char(c) || is_whitespace_char(c) {
            None
        } else {
            Some(c)
        },
    }
}

/// The field's content after `text` is offered to a field that holds
/// `input`: characters are taken in order until one would exceed the
/// character or byte bound; dropped characters do not count.
pub open spec fn bounded_append(
    input: Seq<char>,
    text: Seq<char>,
    kind: FieldKind,
    max_chars: nat,
    max_bytes: nat,
) -> Seq<char>
    decreases text.len(),
{
    if text.len() == 0 {
        input
    } else {
        match admitted(text[0], kind) {
            None => bounded_append(input, text.drop_first(), kind, max_chars, max_bytes),
            Some(c) => if input.len() >= max_chars || utf8_len(input) + utf8_width(c) > max_bytes {
                input
            } else {
                bounded_append(input.push(c), text.drop_first(), kind, max_chars, max_bytes)
            },
        }
    }
}

fn field_char(c: char, kind: FieldKind) -> (r: Option<char>)
    ensures
        r == admitted(c, kind),
{
    match kind {
        FieldKind::Text => {
            if c == '\n' || c == '\r' || c == '\t' {
                Some(' ')
            } else if char_is_control(c) {
                None
            } else {
                Some(c)
            }
        },
        FieldKind::Secret => {
            if char_is_control(c) || char_is_whitespace(c) {
                None
            } else {
                Some(c)
            }
        },
    }
}

fn width_of(c: char) -> (w: usize)
    ensures
        w == utf8_width(c),
{
    let u = c as u32;
    if u < 0x80 {
        1
    } else if u < 0x800 {
        2
    } else if u < 0x10000 {
        3
    } else {
        4
    }
}

/// Offers `text` to a field that holds `input`.
pub fn append_bounded(input: &mut String, text: &str, kind: FieldKind, max_chars: usize, max_bytes: usize)
    ensures
        final(input)@ == bounded_append(old(input)@, text@, kind, max_chars as nat, max_bytes as nat),
{
    let current = chars_of(input.as_str());
    let mut bytes: usize = match utf8_length_within(&current, max_bytes) {
        Some(n) => n,
        None => {
            proof {
                lemma_bounded_append_full(input@, text@, kind, max_chars as nat, max_bytes as nat);
            }
            return;
        },
    };
    let mut count: usize = current.len();
    let offered = chars_of(text);
    let mut i: usize = 0;
    assert(offered@.skip(0) == offered@);
    while i < offered.len()
        invariant
            i <= offered@.len(),
            offered@ == text@,
            count == input@.len(),
            bytes == utf8_len(input@),
            bytes <= max_bytes,
            bounded_append(old(input)@, text@, kind, max_chars as nat, max_bytes as nat)
                == bounded_append(input@, offered@.skip(i as int), kind, max_chars as nat, max_bytes as nat),
        decreases offered@.len() - i,
    {
        assert(offered@.skip(i as int).drop_first() == offered@.skip(i as int + 1));
        assert(offered@.skip(i as int)[0] == offered@[i as int]);
        match field_char(offered[i], kind) {
            None => {},
            Some(c) => {
                let w = width_of(c);
                if count >= max_chars || w > max_bytes - bytes {
                    return;
                }
                proof {
                    lemma_utf8_len_push(input@, c);
                }
                push_char(input, c);
                count = count + 1;
                bytes = bytes + w;
            },
        }
        i = i + 1;
    }
    assert(offered@.skip(offered@.len() as int) == Seq::<char>::empty());
}

/// A field already beyond its byte bound takes nothing more.
proof fn lemma_bounded_append_full(
    input: Seq<char>,
    text: Seq<char>,
    kind: FieldKind,
    max_chars: nat,
    max_bytes: nat,
)
    requires
        utf8_len(input) > max_bytes,
    ensures
        bounded_append(input, text, kind, max_chars, max_bytes) == input,
    decreases text.len(),
{
    if text.len() > 0 {
        lemma_bounded_append_full(input, text.drop_first(), kind, max_chars, max_bytes);
    }
}

/// Offers text to the research composer.
pub fn append_bounded_text(input: &mut String, text: &str)
    ensures
        final(input)@ == bounded_append(
            old(input)@,
            text@,
            FieldKind::Text,
            MAX_RESEARCH_CHARS as nat,
            MAX_RESEARCH_BYTES as nat,
        ),
{
    append_bounded(input, text, FieldKind::Text, MAX_RESEARCH_CHARS, MAX_RESEARCH_BYTES);
}

/// Offers text to a relationship-predicate field.
pub fn append_bounded_predicate(input: &mut String, text: &str)
    ensures
        final(input)@ == bounded_append(
            old(input)@,
            text@,
            FieldKind::Text,
            MAX_PREDICATE_CHARS as nat,
            MAX_PREDICATE_BYTES as nat,
        ),
{
    append_bounded(input, text, FieldKind::Text, MAX_PREDICATE_CHARS, MAX_PREDICATE_BYTES);
}

/// Offers text to an API-key field.
pub fn append_bounded_secret(input: &mut String, text: &str)
    ensures
        final(input)@ == bounded_append(
            old(input)@,
            text@,
            FieldKind::Secret,
            MAX_CREDENTIAL_CHARS as nat,
            MAX_CREDENTIAL_BYTES as nat,
        ),
{
    append_bounded(input, text, FieldKind::Secret, MAX_CREDENTIAL_CHARS, MAX_CREDENTIAL_BYTES);
}

/// The number of extended grapheme clusters in `s` (Unicode UAX #29).
pub uninterp spec fn grapheme_count(s: Seq<char>) -> nat;

/// `s.graphemes(true).count()`.
#[verifier::external_body]
fn count_graphemes(s: &str) -> (n: usize)
    ensures
        n == grapheme_count(s@),
{
    s.graphemes(true).count()
}

/// The byte offset at which the last extended grapheme cluster of `s`
/// starts, or `None` when `s` is empty.
pub uninterp spec fn last_grapheme_offset(s: Seq<char>) -> Option<nat>;

/// `s.grapheme_indices(true).next_back()`, its offset.
#[verifier::external_body]
fn last_grapheme_start(s: &str) -> (r: Option<usize>)
    ensures
        r matches Some(n) ==> last_grapheme_offset(s@) == Some(n as nat),
        r is None ==> last_grapheme_offset(s@) is None,
{
    s.grapheme_indices(true).next_back().map(|(index, _)| index)
}

/// How a secret is shown: one dot per grapheme, at most 32, then an
/// ellipsis when there were more.
pub open spec fn mask(graphemes: nat) -> Seq<char> {
    let visible = if graphemes < 32 {
        graphemes
    } else {
        32
    };
    let dots = Seq::new(visible, |i: int| '●');
    if graphemes > visible {
        dots.push('…')
    } else {
        dots
    }
}

pub fn masked_secret(secret: &str) -> (m: String)
    ensures
        m@ == mask(grapheme_count(secret@)),
{
    let length = count_graphemes(secret);
    let visible: usize = if length < 32 {
        length
    } else {
        32
    };
    let mut masked = String::new();
    let mut i: usize = 0;
    while i < visible
        invariant
            i <= visible,
            masked@ == Seq::new(i as nat, |k: int| '●'),
        decreases visible - i,
    {
        push_char(&mut masked, '●');
        i = i + 1;
        assert(masked@ =~= Seq::new(i as nat, |k: int| '●'));
    }
    if length > visible {
        push_char(&mut masked, '…');
    }
    masked
}

/// The longest prefix of `s` whose UTF-8 length is at most `limit`.
pub open spec fn byte_prefix(s: Seq<char>, limit: nat) -> Seq<char>
    decreases s.len(),
{
    if s.len() == 0 || utf8_width(s[0]) > limit {
        Seq::empty()
    } else {
        seq![s[0]] + byte_prefix(s.drop_first(), (limit - utf8_width(s[0])) as nat)
    }
}

/// What Backspace leaves of a field: everything before its last grapheme
/// cluster.
pub open spec fn without_last_grapheme(s: Seq<char>) -> Seq<char> {
    match last_grapheme_offset(s) {
        Some(offset) => byte_prefix(s, offset),
        None => s,
    }
}

/// Removes the last grapheme cluster of `input`.
pub fn remove_last_grapheme(input: &mut String)
    ensures
        final(input)@ == without_last_grapheme(old(input)@),
{
    match last_grapheme_start(input.as_str()) {
        None => {},
        Some(offset) => {
            let chars = chars_of(input.as_str());
            let mut kept: Vec<char> = Vec::new();
            let mut room: usize = offset;
            let mut i: usize = 0;
            let mut stopped = false;
            assert(chars@.skip(0) == chars@);
            assert(kept@ + byte_prefix(chars@, offset as nat) == byte_prefix(chars@, offset as nat));
            while i < chars.len() && !stopped
                invariant
                    i <= chars@.len(),
                    byte_prefix(chars@, offset as nat) == kept@ + byte_prefix(
                        chars@.skip(i as int),
                        room as nat,
                    ),
                    stopped ==> byte_prefix(chars@.skip(i as int), room as nat) == Seq::<char>::empty(),
                decreases chars@.len() - i + (if stopped {
                    0int
                } else {
                    1int
                }),
            {
                let w = width_of(chars[i]);
                assert(chars@.skip(i as int).drop_first() == chars@.skip(i as int + 1));
                assert(chars@.skip(i as int)[0] == chars@[i as int]);
                if w > room {
                    stopped = true;
                } else {
                    let ghost rest = byte_prefix(chars@.skip(i as int + 1), (room - w) as nat);
                    assert(kept@ + (seq![chars@[i as int]] + rest) == kept@.push(chars@[i as int]) + rest);
                    kept.push(chars[i]);
                    room = room - w;
                    i = i + 1;
                }
            }
            proof {
                if !stopped {
                    assert(chars@.skip(i as int) == Seq::<char>::empty());
                }
                assert(kept@ + Seq::<char>::empty() == kept@);
            }
            *input = string_from_chars(&kept);
        },
    }
}

/// A menu label cut to `maximum` characters: a longer one keeps its first
/// `maximum - 1` characters and ends in an ellipsis.
pub open spec fn menu_label(value: Seq<char>, maximum: nat) -> Seq<char> {
    if value.len() <= maximum {
        value
    } else if maximum == 0 {
        seq!['…']
    } else {
        value.take(maximum - 1).push('…')
    }
}

pub fn menu_text(value: &str, maximum: usize) -> (r: String)
    ensures
        r@ == menu_label(value@, maximum as nat),
{
    let chars = chars_of(value);
    if chars.len() <= maximum {
        return value.to_owned();
    }
    let keep: usize = if maximum == 0 {
        0
    } else {
        maximum - 1
    };
    let mut out: Vec<char> = Vec::new();
    let mut i: usize = 0;
    while i < keep
        invariant
            i <= keep < chars@.len(),
            out@ == chars@.take(i as int),
        decreases keep - i,
    {
        out.push(chars[i]);
        i = i + 1;
        assert(out@ =~= chars@.take(i as int));
    }
    out.push('…');
    assert(maximum == 0 ==> out@ =~= seq!['…']);
    string_from_chars(&out)
}

/// The menu row that a digit key chooses: `1` to `9` choose rows 0 to 8.
pub open spec fn row_of_key(key: Seq<char>) -> Option<nat> {
    if key.len() == 1 && '1' <= key[0] && key[0] <= '9' {
        Some((key[0] as u32 - '1' as u32) as nat)
    } else {
        None
    }
}

pub fn menu_row_from_key(key: &str) -> (r: Option<usize>)
    ensures
        match row_of_key(key@) {
            Some(n) => r == Some(n as usize),
            None => r is None,
        },
{
    let chars = chars_of(key);
    if chars.len() == 1 && '1' <= chars[0] && chars[0] <= '9' {
        Some((chars[0] as u32 - '1' as u32) as usize)
    } else {
        None
    }
}

/// The status line that reports how a research process ended.
pub open spec fn termination_text(termination: ResearchTermination) -> Seq<char> {
    match termination {
        ResearchTermination::Completed => "Research completed."@,
        ResearchTermination::ExitFailure(code) => match code {
            None => "Research backend exited unsuccessfully."@,
            Some(c) => "Research backend exited with status "@ + signed_decimal(c as int) + "."@,
        },
        ResearchTermination::SpawnFailure(e) => "Research backend could not start: "@ + e@,
        ResearchTermination::Cancelled => "Research was cancelled."@,
        ResearchTermination::TimedOut => "Research exceeded its total time limit."@,
        ResearchTermination::IdleTimedOut => "Research backend stopped producing output and was terminated."@,
        ResearchTermination::OutputLimit => "Research backend exceeded its bounded output allowance."@,
        ResearchTermination::IoFailure(e) => "Research process communication failed: "@ + e@,
    }
}

pub fn termination_message(termination: &ResearchTermination) -> (m: String)
    ensures
        m@ == termination_text(*termination),
{
    match termination {
        ResearchTermination::Completed => "Research completed.".to_owned(),
        ResearchTermination::ExitFailure(code) => match code {
            None => "Research backend exited unsuccessfully.".to_owned(),
            Some(c) => {
                let mut m = "Research backend exited with status ".to_owned();
                let digits = signed_decimal_text(*c as i64);
                append_str(&mut m, digits.as_str());
                append_str(&mut m, ".");
                m
            },
        },
        ResearchTermination::SpawnFailure(e) => {
            let mut m = "Research backend could not start: ".to_owned();
            append_str(&mut m, e.as_str());
            m
        },
        ResearchTermination::Cancelled => "Research was cancelled.".to_owned(),
        ResearchTermination::TimedOut => "Research exceeded its total time limit.".to_owned(),
        ResearchTermination::IdleTimedOut => "Research backend stopped producing output and was terminated.".to_owned(),
        ResearchTermination::OutputLimit => "Research backend exceeded its bounded output allowance.".to_owned(),
        ResearchTermination::IoFailure(e) => {
            let mut m = "Research process communication failed: ".to_owned();
            append_str(&mut m, e.as_str());
            m
        },
    }
}

/// Bounds law: a field that is within its bounds stays within them,
/// whatever text is offered to it.
pub proof fn law_bounded_append_within_limits(
    input: Seq<char>,
    text: Seq<char>,
    kind: FieldKind,
    max_chars: nat,
    max_bytes: nat,
)
    requires
        input.len() <= max_chars,
        utf8_len(input) <= max_bytes,
    ensures
        bounded_append(input, text, kind, max_chars, max_bytes).len() <= max_chars,
        utf8_len(bounded_append(input, text, kind, max_chars, max_bytes)) <= max_bytes,
    decreases text.len(),
{
    if text.len() > 0 {
        match admitted(text[0], kind) {
            None => law_bounded_append_within_limits(input, text.drop_first(), kind, max_chars, max_bytes),
            Some(c) => if !(input.len() >= max_chars || utf8_len(input) + utf8_width(c) > max_bytes) {
                lemma_utf8_len_push(input, c);
                law_bounded_append_within_limits(input.push(c), text.drop_first(), kind, max_chars, max_bytes);
            },
        }
    }
}

/// Secret-field law: an API-key field never holds a control or whitespace
/// character that it did not already hold.
pub proof fn law_secret_fields_hold_no_whitespace(input: Seq<char>, text: Seq<char>, max_chars: nat, max_bytes: nat)
    requires
        forall|i: int| 0 <= i < input.len() ==> !is_whitespace_char(#[trigger] input[i]) && !is_control_char(input[i]),
    ensures
        ({
            let r = bounded_append(input, text, FieldKind::Secret, max_chars, max_bytes);
            forall|i: int| 0 <= i < r.len() ==> !is_whitespace_char(#[trigger] r[i]) && !is_control_char(r[i])
        }),
    decreases text.len(),
{
    let r = bounded_append(input, text, FieldKind::Secret, max_chars, max_bytes);
    if text.len() == 0 {
        assert(r == input);
    } else {
        match admitted(text[0], FieldKind::Secret) {
            None => {
                assert(r == bounded_append(input, text.drop_first(), FieldKind::Secret, max_chars, max_bytes));
                law_secret_fields_hold_no_whitespace(input, text.drop_first(), max_chars, max_bytes);
            },
            Some(c) => {
                if input.len() >= max_chars || utf8_len(input) + utf8_width(c) > max_bytes {
                    assert(r == input);
                } else {
                    let next = input.push(c);
                    assert(!is_whitespace_char(c) && !is_control_char(c));
                    assert(r == bounded_append(next, text.drop_first(), FieldKind::Secret, max_chars, max_bytes));
                    assert forall|i: int| 0 <= i < next.len() implies !is_whitespace_char(#[trigger] next[i])
                        && !is_control_char(next[i]) by {
                        if i < input.len() {
                            assert(next[i] == input[i]);
                        }
                    }
                    law_secret_fields_hold_no_whitespace(next, text.drop_first(), max_chars, max_bytes);
                }
            },
        }
    }
}

} // verus!
