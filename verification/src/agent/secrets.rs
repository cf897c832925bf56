//! Redaction of secrets from research output: the secrets a research run
//! was given, in every encoding a tool might echo them in, and the
//! credentials in the ambient environment.

use vstd::prelude::*;
use vstd::utf8::encode_utf8;

use crate::encoding::{base64_standard, base64_standard_unpadded, base64_text, base64_url_safe, base64_url_safe_unpadded, hex_encode, hex_text, percent_encode, percent_text};
use crate::text::{chars_of, contains_text, has_substring, same_text, string_from_chars, wipe_text};

verus! {

/// The text that stands in for a redacted secret.
pub open spec fn redaction() -> Seq<char> {
    "<redacted>"@
}

/// The length in bytes of the UTF-8 encoding of `s`.
pub open spec fn byte_len(s: Seq<char>) -> nat {
    encode_utf8(s).len()
}

/// `s` with every occurrence of the non-empty `pattern` replaced by `with`,
/// scanning from the left and never overlapping, as `str::replace`.
pub open spec fn replace_all(s: Seq<char>, pattern: Seq<char>, with: Seq<char>) -> Seq<char>
    decreases s.len(),
{
    if pattern.len() == 0 || s.len() < pattern.len() {
        s
    } else if s.take(pattern.len() as int) == pattern {
        with + replace_all(s.skip(pattern.len() as int), pattern, with)
    } else {
        seq![s[0]] + replace_all(s.drop_first(), pattern, with)
    }
}

/// `text` after each of `patterns`, in order, is replaced by the redaction.
pub open spec fn redact_all(text: Seq<char>, patterns: Seq<Seq<char>>) -> Seq<char>
    decreases patterns.len(),
{
    if patterns.len() == 0 {
        text
    } else {
        redact_all(replace_all(text, patterns[0], redaction()), patterns.drop_first())
    }
}

/// The patterns a secret contributes: none when its UTF-8 encoding is
/// shorter than eight bytes; otherwise its four base64 encodings, its URL
/// percent-encoding, its lower- and upper-case hexadecimal encodings, and
/// the secret itself.
pub open spec fn secret_patterns(secret: Seq<char>) -> Seq<Seq<char>> {
    let bytes = encode_utf8(secret);
    if bytes.len() < 8 {
        Seq::empty()
    } else {
        seq![
            base64_text(bytes, false, true),
            base64_text(bytes, false, false),
            base64_text(bytes, true, true),
            base64_text(bytes, true, false),
            percent_text(bytes),
            hex_text(bytes, false),
            hex_text(bytes, true),
            secret,
        ]
    }
}

/// The patterns of `secrets`, in order.
pub open spec fn all_secret_patterns(secrets: Seq<Seq<char>>) -> Seq<Seq<char>>
    decreases secrets.len(),
{
    if secrets.len() == 0 {
        Seq::empty()
    } else {
        all_secret_patterns(secrets.drop_last()) + secret_patterns(secrets.last())
    }
}

/// The first position in `sorted` whose pattern is shorter than `n` bytes.
pub open spec fn first_shorter(sorted: Seq<Seq<char>>, n: nat) -> nat
    decreases sorted.len(),
{
    if sorted.len() == 0 || byte_len(sorted[0]) < n {
        0
    } else {
        1 + first_shorter(sorted.drop_first(), n)
    }
}

/// `s` sorted by byte length, longest first, keeping the given order among
/// patterns of equal length (a stable sort).
pub open spec fn sort_by_length(s: Seq<Seq<char>>) -> Seq<Seq<char>>
    decreases s.len(),
{
    if s.len() == 0 {
        s
    } else {
        let sorted = sort_by_length(s.drop_last());
        sorted.insert(first_shorter(sorted, byte_len(s.last())) as int, s.last())
    }
}

/// `s` with each run of equal adjacent patterns reduced to one, as `Vec::dedup`.
pub open spec fn dedup(s: Seq<Seq<char>>) -> Seq<Seq<char>>
    decreases s.len(),
{
    if s.len() == 0 {
        s
    } else {
        let d = dedup(s.drop_last());
        if d.len() > 0 && d.last() == s.last() {
            d
        } else {
            d.push(s.last())
        }
    }
}

/// The secrets of a research run, as the patterns that redact them.
pub struct SecretFilter {
    patterns: Vec<String>,
}

impl SecretFilter {
    /// The patterns, in the order they are applied.
    pub closed spec fn texts(&self) -> Seq<Seq<char>> {
        Seq::new(self.patterns@.len(), |i: int| self.patterns@[i]@)
    }

    /// No pattern is empty.
    pub closed spec fn wf(&self) -> bool {
        forall|i: int| 0 <= i < self.patterns@.len() ==> (#[trigger] self.patterns@[i])@.len() > 0
    }

    pub fn new() -> (f: Self)
        ensures
            f.wf(),
            f.texts() == Seq::<Seq<char>>::empty(),
    {
        let f = SecretFilter { patterns: Vec::new() };
        assert(f.texts() =~= Seq::<Seq<char>>::empty());
        f
    }

    /// Adds the patterns of `secrets`, then orders all patterns longest
    /// first and drops adjacent duplicates.
    pub fn extend(&mut self, secrets: Vec<String>)
        requires
            old(self).wf(),
            forall|i: int| 0 <= i < secrets@.len() ==> byte_len((#[trigger] secrets@[i])@) <= usize::MAX / 2,
        ensures
            final(self).wf(),
            final(self).texts() == dedup(
                sort_by_length(
                    old(self).texts() + all_secret_patterns(
                        Seq::new(secrets@.len(), |i: int| secrets@[i]@),
                    ),
                ),
            ),
    {
        let ghost before = self.texts();
        let ghost given = Seq::new(secrets@.len(), |i: int| secrets@[i]@);
        let mut i: usize = 0;
        while i < secrets.len()
            invariant
                i <= secrets@.len(),
                given == Seq::new(secrets@.len(), |i: int| secrets@[i]@),
                forall|k: int| 0 <= k < secrets@.len() ==> byte_len((#[trigger] secrets@[k])@) <= usize::MAX / 2,
                self.wf(),
                self.texts() == before + all_secret_patterns(given.take(i as int)),
            decreases secrets@.len() - i,
        {
            let ghost prior = self.texts();
            let secret = &secrets[i];
            assert(given.take(i as int + 1).drop_last() == given.take(i as int));
            assert(given.take(i as int + 1).last() == secret@);
            let bytes = secret.as_str().as_bytes();
            if bytes.len() >= 8 {
                self.patterns.push(base64_standard(bytes));
                self.patterns.push(base64_standard_unpadded(bytes));
                self.patterns.push(base64_url_safe(bytes));
                self.patterns.push(base64_url_safe_unpadded(bytes));
                self.patterns.push(percent_encode(bytes));
                self.patterns.push(hex_encode(bytes, false));
                self.patterns.push(hex_encode(bytes, true));
                self.patterns.push(secret.clone());
                proof {
                    lemma_patterns_nonempty(secret@);
                    assert(self.texts() =~= prior + secret_patterns(secret@));
                }
            } else {
                assert(self.texts() =~= prior + secret_patterns(secret@));
            }
            i = i + 1;
        }
        assert(given.take(secrets@.len() as int) == given);
        self.sort_longest_first();
        self.dedup_adjacent();
    }

    /// Orders the patterns longest first, stably.
    fn sort_longest_first(&mut self)
        requires
            old(self).wf(),
        ensures
            final(self).wf(),
            final(self).texts() == sort_by_length(old(self).texts()),
    {
        let ghost original = self.texts();
        let mut pending: Vec<String> = Vec::new();
        std::mem::swap(&mut pending, &mut self.patterns);
        let ghost all = Seq::new(pending@.len(), |i: int| pending@[i]@);
        assert(all == original);
        let mut sorted: Vec<String> = Vec::new();
        let mut i: usize = 0;
        while i < pending.len()
            invariant
                i <= pending@.len(),
                all == Seq::new(pending@.len(), |i: int| pending@[i]@),
                forall|k: int| 0 <= k < pending@.len() ==> (#[trigger] pending@[k])@.len() > 0,
                forall|k: int| 0 <= k < sorted@.len() ==> (#[trigger] sorted@[k])@.len() > 0,
                Seq::new(sorted@.len(), |k: int| sorted@[k]@) == sort_by_length(all.take(i as int)),
            decreases pending@.len() - i,
        {
            let ghost view = Seq::new(sorted@.len(), |k: int| sorted@[k]@);
            let item = pending[i].clone();
            let n = item.as_str().as_bytes().len();
            let mut j: usize = 0;
            assert(view.skip(0) == view);
            while j < sorted.len() && sorted[j].as_str().as_bytes().len() >= n
                invariant
                    j <= sorted@.len(),
                    view == Seq::new(sorted@.len(), |k: int| sorted@[k]@),
                    n == byte_len(item@),
                    first_shorter(view, n as nat) == j + first_shorter(view.skip(j as int), n as nat),
                decreases sorted@.len() - j,
            {
                assert(view.skip(j as int).drop_first() == view.skip(j as int + 1));
                assert(view.skip(j as int)[0] == sorted@[j as int]@);
                j = j + 1;
            }
            proof {
                if j < sorted@.len() {
                    assert(view.skip(j as int)[0] == sorted@[j as int]@);
                }
                assert(first_shorter(view.skip(j as int), n as nat) == 0);
            }
            sorted.insert(j, item);
            proof {
                assert(all.take(i as int + 1).drop_last() == all.take(i as int));
                assert(all.take(i as int + 1).last() == pending@[i as int]@);
                assert(Seq::new(sorted@.len(), |k: int| sorted@[k]@) =~= view.insert(j as int, pending@[i as int]@));
            }
            i = i + 1;
        }
        assert(all.take(pending@.len() as int) == all);
        self.patterns = sorted;
    }

    /// Drops each pattern equal to the one before it.
    fn dedup_adjacent(&mut self)
        requires
            old(self).wf(),
        ensures
            final(self).wf(),
            final(self).texts() == dedup(old(self).texts()),
    {
        let ghost all = self.texts();
        let mut kept: Vec<String> = Vec::new();
        let mut i: usize = 0;
        while i < self.patterns.len()
            invariant
                i <= self.patterns@.len(),
                all == Seq::new(self.patterns@.len(), |k: int| self.patterns@[k]@),
                forall|k: int| 0 <= k < self.patterns@.len() ==> (#[trigger] self.patterns@[k])@.len() > 0,
                forall|k: int| 0 <= k < kept@.len() ==> (#[trigger] kept@[k])@.len() > 0,
                Seq::new(kept@.len(), |k: int| kept@[k]@) == dedup(all.take(i as int)),
            decreases self.patterns@.len() - i,
        {
            let ghost view = Seq::new(kept@.len(), |k: int| kept@[k]@);
            assert(all.take(i as int + 1).drop_last() == all.take(i as int));
            assert(all.take(i as int + 1).last() == self.patterns@[i as int]@);
            let repeat = kept.len() > 0 && same_text(kept[kept.len() - 1].as_str(), self.patterns[i].as_str());
            if !repeat {
                kept.push(self.patterns[i].clone());
                assert(Seq::new(kept@.len(), |k: int| kept@[k]@) =~= view.push(self.patterns@[i as int]@));
            }
            i = i + 1;
        }
        assert(all.take(self.patterns@.len() as int) == all);
        self.patterns = kept;
    }

    /// `text` with every pattern redacted, longest patterns first.
    pub fn sanitize(&self, text: &str) -> (r: String)
        requires
            self.wf(),
        ensures
            r@ == redact_all(text@, self.texts()),
    {
        let mut current = chars_of(text);
        let with = chars_of("<redacted>");
        let mut i: usize = 0;
        assert(self.texts().skip(0) == self.texts());
        while i < self.patterns.len()
            invariant
                i <= self.patterns@.len(),
                self.wf(),
                with@ == redaction(),
                redact_all(text@, self.texts()) == redact_all(current@, self.texts().skip(i as int)),
            decreases self.patterns@.len() - i,
        {
            assert(self.texts().skip(i as int).drop_first() == self.texts().skip(i as int + 1));
            assert(self.texts().skip(i as int)[0] == self.patterns@[i as int]@);
            let pattern = chars_of(self.patterns[i].as_str());
            current = replace_chars(&current, &pattern, &with);
            i = i + 1;
        }
        assert(self.texts().skip(self.patterns@.len() as int) == Seq::<Seq<char>>::empty());
        string_from_chars(&current)
    }

    /// Forgets every pattern.
    pub fn wipe(&mut self)
        ensures
            final(self).wf(),
            final(self).texts() == Seq::<Seq<char>>::empty(),
    {
        while self.patterns.len() > 0
            decreases self.patterns@.len(),
        {
            match self.patterns.pop() {
                Some(mut pattern) => wipe_text(&mut pattern),
                None => {},
            }
        }
        assert(self.texts() =~= Seq::<Seq<char>>::empty());
    }
}

proof fn lemma_patterns_nonempty(secret: Seq<char>)
    requires
        encode_utf8(secret).len() >= 8,
    ensures
        forall|k: int| 0 <= k < secret_patterns(secret).len() ==> (#[trigger] secret_patterns(secret)[k]).len() > 0,
{
    let bytes = encode_utf8(secret);
    assert(base64_text(bytes, false, true).len() > 0);
    assert(base64_text(bytes, false, false).len() > 0);
    assert(base64_text(bytes, true, true).len() > 0);
    assert(base64_text(bytes, true, false).len() > 0);
    lemma_percent_nonempty(bytes);
    lemma_hex_nonempty(bytes, false);
    lemma_hex_nonempty(bytes, true);
    assert(secret.len() > 0) by {
        if secret.len() == 0 {
            assert(encode_utf8(secret) =~= Seq::<u8>::empty());
        }
    }
}

proof fn lemma_percent_nonempty(bytes: Seq<u8>)
    requires
        bytes.len() > 0,
    ensures
        percent_text(bytes).len() > 0,
{
}

proof fn lemma_hex_nonempty(bytes: Seq<u8>, upper: bool)
    requires
        bytes.len() > 0,
    ensures
        hex_text(bytes, upper).len() > 0,
{
}

/// Whether `pattern` occurs in `text` at `at`.
fn matches_at(text: &Vec<char>, at: usize, pattern: &Vec<char>) -> (r: bool)
    requires
        at + pattern@.len() <= text@.len(),
    ensures
        r == (text@.skip(at as int).take(pattern@.len() as int) == pattern@),
{
    let mut k: usize = 0;
    let len = text.len();
    while k < pattern.len()
        invariant
            k <= pattern@.len(),
            len == text@.len(),
            at + pattern@.len() <= len,
            forall|m: int| 0 <= m < k ==> text@[at + m] == pattern@[m],
        decreases pattern@.len() - k,
    {
        if text[at + k] != pattern[k] {
            assert(text@.skip(at as int).take(pattern@.len() as int)[k as int] != pattern@[k as int]);
            return false;
        }
        k = k + 1;
    }
    assert(text@.skip(at as int).take(pattern@.len() as int) =~= pattern@);
    true
}

/// `str::replace` on character vectors, for a non-empty pattern.
pub fn replace_chars(text: &Vec<char>, pattern: &Vec<char>, with: &Vec<char>) -> (r: Vec<char>)
    requires
        pattern@.len() > 0,
    ensures
        r@ == replace_all(text@, pattern@, with@),
{
    let mut out: Vec<char> = Vec::new();
    let mut i: usize = 0;
    let len = text.len();
    assert(text@.skip(0) == text@);
    while i < len
        invariant
            len == text@.len(),
            i <= len,
            pattern@.len() > 0,
            replace_all(text@, pattern@, with@) == out@ + replace_all(text@.skip(i as int), pattern@, with@),
        decreases len - i,
    {
        let ghost rest = text@.skip(i as int);
        if pattern.len() <= len - i && matches_at(text, i, pattern) {
            let mut k: usize = 0;
            let ghost base = out@;
            while k < with.len()
                invariant
                    k <= with@.len(),
                    out@ == base + with@.take(k as int),
                decreases with@.len() - k,
            {
                out.push(with[k]);
                k = k + 1;
                assert(out@ =~= base + with@.take(k as int));
            }
            assert(with@.take(with@.len() as int) == with@);
            assert(rest.skip(pattern@.len() as int) == text@.skip(i + pattern@.len()));
            assert(base + (with@ + replace_all(text@.skip(i + pattern@.len()), pattern@, with@)) == out@
                + replace_all(text@.skip(i + pattern@.len()), pattern@, with@));
            i = i + pattern.len();
        } else {
            assert(rest.drop_first() == text@.skip(i + 1));
            assert(rest[0] == text@[i as int]);
            proof {
                if rest.len() < pattern@.len() {
                    assert(replace_all(rest.drop_first(), pattern@, with@) == rest.drop_first());
                    assert(rest == seq![rest[0]] + rest.drop_first());
                }
            }
            let ghost base = out@;
            out.push(text[i]);
            assert(base + (seq![text@[i as int]] + replace_all(text@.skip(i + 1), pattern@, with@)) == out@
                + replace_all(text@.skip(i + 1), pattern@, with@));
            i = i + 1;
        }
    }
    assert(text@.skip(len as int) == Seq::<char>::empty());
    assert(out@ + Seq::<char>::empty() == out@);
    out
}

/// `char::to_ascii_uppercase`.
pub open spec fn ascii_upper(c: char) -> char {
    if 'a' <= c && c <= 'z' {
        ((c as u32) - 32) as char
    } else {
        c
    }
}

/// Whether an environment variable's name marks it as a credential: its
/// upper-cased name contains `KEY`, `TOKEN`, `SECRET` or `PASSWORD`.
pub open spec fn credential_variable(name: Seq<char>) -> bool {
    let upper = Seq::new(name.len(), |i: int| ascii_upper(name[i]));
    has_substring(upper, "KEY"@) || has_substring(upper, "TOKEN"@) || has_substring(upper, "SECRET"@)
        || has_substring(upper, "PASSWORD"@)
}

/// `text` with the value of every credential variable of `environment`
/// that is at least eight bytes long redacted, in the environment's order.
pub open spec fn redact_environment(text: Seq<char>, environment: Seq<(Seq<char>, Seq<char>)>) -> Seq<char>
    decreases environment.len(),
{
    if environment.len() == 0 {
        text
    } else {
        let (name, value) = environment[0];
        let next = if credential_variable(name) && byte_len(value) >= 8 {
            replace_all(text, value, redaction())
        } else {
            text
        };
        redact_environment(next, environment.drop_first())
    }
}

/// `text` cut to `max_chars` characters, with an ellipsis when cut.
pub open spec fn bounded_chars(text: Seq<char>, max_chars: nat) -> Seq<char> {
    if text.len() <= max_chars {
        text
    } else {
        text.take(max_chars as int).push('…')
    }
}

/// The names and values of `environment`.
pub open spec fn environment_view(environment: Seq<(String, String)>) -> Seq<(Seq<char>, Seq<char>)> {
    Seq::new(environment.len(), |i: int| (environment[i].0@, environment[i].1@))
}

pub(crate) fn upper_chars(name: &Vec<char>) -> (r: Vec<char>)
    ensures
        r@ == Seq::new(name@.len(), |i: int| ascii_upper(name@[i])),
{
    let mut r: Vec<char> = Vec::new();
    let mut i: usize = 0;
    while i < name.len()
        invariant
            i <= name@.len(),
            r@ == Seq::new(i as nat, |k: int| ascii_upper(name@[k])),
        decreases name@.len() - i,
    {
        let c = name[i];
        let u = if 'a' <= c && c <= 'z' {
            ((c as u32) - 32) as u8 as char
        } else {
            c
        };
        assert(u == ascii_upper(c)) by {
            if 'a' <= c && c <= 'z' {
                assert(((c as u32) - 32) as u8 as char == ((c as u32) - 32) as char);
            }
        }
        r.push(u);
        i = i + 1;
        assert(r@ =~= Seq::new(i as nat, |k: int| ascii_upper(name@[k])));
    }
    r
}

fn is_credential_variable(name: &str) -> (r: bool)
    ensures
        r == credential_variable(name@),
{
    let upper = upper_chars(&chars_of(name));
    contains_text(&upper, &chars_of("KEY")) || contains_text(&upper, &chars_of("TOKEN"))
        || contains_text(&upper, &chars_of("SECRET")) || contains_text(&upper, &chars_of("PASSWORD"))
}

/// Redacts the credentials of the ambient `environment` from `text`, then
/// bounds it to `max_chars` characters.
pub fn redact_ambient(text: &str, max_chars: usize, environment: &Vec<(String, String)>) -> (r: String)
    ensures
        r@ == bounded_chars(redact_environment(text@, environment_view(environment@)), max_chars as nat),
{
    let ghost env = environment_view(environment@);
    let mut current = chars_of(text);
    let with = chars_of("<redacted>");
    let mut i: usize = 0;
    assert(env.skip(0) == env);
    while i < environment.len()
        invariant
            i <= environment@.len(),
            env == environment_view(environment@),
            with@ == redaction(),
            redact_environment(text@, env) == redact_environment(current@, env.skip(i as int)),
        decreases environment@.len() - i,
    {
        assert(env.skip(i as int).drop_first() == env.skip(i as int + 1));
        assert(env.skip(i as int)[0] == (environment@[i as int].0@, environment@[i as int].1@));
        let (name, value) = &environment[i];
        if is_credential_variable(name.as_str()) && value.as_str().as_bytes().len() >= 8 {
            let pattern = chars_of(value.as_str());
            assert(pattern@.len() > 0) by {
                if pattern@.len() == 0 {
                    assert(encode_utf8(value@) =~= Seq::<u8>::empty());
                }
            }
            current = replace_chars(&current, &pattern, &with);
        }
        i = i + 1;
    }
    assert(env.skip(environment@.len() as int) == Seq::<(Seq<char>, Seq<char>)>::empty());
    if current.len() <= max_chars {
        string_from_chars(&current)
    } else {
        let mut out: Vec<char> = Vec::new();
        let mut k: usize = 0;
        while k < max_chars
            invariant
                k <= max_chars < current@.len(),
                out@ == current@.take(k as int),
            decreases max_chars - k,
        {
            out.push(current[k]);
            k = k + 1;
            assert(out@ =~= current@.take(k as int));
        }
        out.push('…');
        string_from_chars(&out)
    }
}

impl SecretFilter {
    /// `text` with every pattern and every ambient credential redacted,
    /// bounded to `max_chars` characters.
    pub fn sanitize_bounded(&self, text: &str, max_chars: usize, environment: &Vec<(String, String)>) -> (r:
        String)
        requires
            self.wf(),
        ensures
            r@ == bounded_chars(
                redact_environment(redact_all(text@, self.texts()), environment_view(environment@)),
                max_chars as nat,
            ),
    {
        let clean = self.sanitize(text);
        redact_ambient(clean.as_str(), max_chars, environment)
    }
}

proof fn lemma_sort_keeps(s: Seq<Seq<char>>, x: Seq<char>)
    requires
        s.contains(x),
    ensures
        sort_by_length(s).contains(x),
    decreases s.len(),
{
    let sorted = sort_by_length(s.drop_last());
    let at = first_shorter(sorted, byte_len(s.last())) as int;
    lemma_first_shorter_bound(sorted, byte_len(s.last()));
    let result = sorted.insert(at, s.last());
    if x == s.last() {
        assert(result[at] == x);
    } else {
        let i = choose|i: int| 0 <= i < s.len() && s[i] == x;
        assert(s.drop_last()[i] == x);
        lemma_sort_keeps(s.drop_last(), x);
        let j = choose|j: int| 0 <= j < sorted.len() && sorted[j] == x;
        if j < at {
            assert(result[j] == x);
        } else {
            assert(result[j + 1] == x);
        }
    }
}

proof fn lemma_first_shorter_bound(sorted: Seq<Seq<char>>, n: nat)
    ensures
        first_shorter(sorted, n) <= sorted.len(),
        forall|i: int| 0 <= i < first_shorter(sorted, n) ==> byte_len(#[trigger] sorted[i]) >= n,
        first_shorter(sorted, n) < sorted.len() ==> byte_len(sorted[first_shorter(sorted, n) as int]) < n,
    decreases sorted.len(),
{
    if sorted.len() > 0 && byte_len(sorted[0]) >= n {
        lemma_first_shorter_bound(sorted.drop_first(), n);
        assert forall|i: int| 0 <= i < first_shorter(sorted, n) implies byte_len(#[trigger] sorted[i]) >= n by {
            if i > 0 {
                assert(sorted[i] == sorted.drop_first()[i - 1]);
            }
        }
    }
}

proof fn lemma_dedup_keeps(s: Seq<Seq<char>>, x: Seq<char>)
    requires
        s.contains(x),
    ensures
        dedup(s).contains(x),
    decreases s.len(),
{
    let d = dedup(s.drop_last());
    if x == s.last() {
        if d.len() > 0 && d.last() == s.last() {
            assert(d[d.len() - 1] == x);
        } else {
            assert(d.push(s.last())[d.len() as int] == x);
        }
    } else {
        let i = choose|i: int| 0 <= i < s.len() && s[i] == x;
        assert(s.drop_last()[i] == x);
        lemma_dedup_keeps(s.drop_last(), x);
        let j = choose|j: int| 0 <= j < d.len() && d[j] == x;
        if !(d.len() > 0 && d.last() == s.last()) {
            assert(d.push(s.last())[j] == x);
        }
    }
}

proof fn lemma_all_patterns_contain(secrets: Seq<Seq<char>>, k: int, j: int)
    requires
        0 <= k < secrets.len(),
        0 <= j < secret_patterns(secrets[k]).len(),
    ensures
        all_secret_patterns(secrets).contains(secret_patterns(secrets[k])[j]),
    decreases secrets.len(),
{
    let rest = all_secret_patterns(secrets.drop_last());
    let last = secret_patterns(secrets.last());
    if k == secrets.len() - 1 {
        assert((rest + last)[rest.len() + j] == last[j]);
    } else {
        assert(secrets.drop_last()[k] == secrets[k]);
        lemma_all_patterns_contain(secrets.drop_last(), k, j);
        let i = choose|i: int| 0 <= i < rest.len() && rest[i] == secret_patterns(secrets[k])[j];
        assert((rest + last)[i] == rest[i]);
    }
}

/// Redaction-coverage law: once a secret of at least eight bytes is given
/// to a filter, its exact text and each of its base64, percent and
/// hexadecimal encodings are among the filter's patterns, whatever else
/// the filter held.
pub proof fn law_every_encoding_of_a_secret_is_a_pattern(before: Seq<Seq<char>>, secrets: Seq<Seq<char>>, k: int, j: int)
    requires
        0 <= k < secrets.len(),
        0 <= j < secret_patterns(secrets[k]).len(),
    ensures
        dedup(sort_by_length(before + all_secret_patterns(secrets))).contains(secret_patterns(secrets[k])[j]),
{
    let x = secret_patterns(secrets[k])[j];
    lemma_all_patterns_contain(secrets, k, j);
    let all = all_secret_patterns(secrets);
    let i = choose|i: int| 0 <= i < all.len() && all[i] == x;
    assert((before + all)[before.len() + i] == x);
    lemma_sort_keeps(before + all, x);
    lemma_dedup_keeps(sort_by_length(before + all), x);
}

proof fn lemma_sorted_insert(sorted: Seq<Seq<char>>, x: Seq<char>)
    requires
        forall|a: int, b: int| 0 <= a < b < sorted.len() ==> byte_len(#[trigger] sorted[a]) >= byte_len(
            #[trigger] sorted[b],
        ),
    ensures
        ({
            let r = sorted.insert(first_shorter(sorted, byte_len(x)) as int, x);
            forall|a: int, b: int| 0 <= a < b < r.len() ==> byte_len(#[trigger] r[a]) >= byte_len(#[trigger] r[b])
        }),
{
    let n = byte_len(x);
    let at = first_shorter(sorted, n) as int;
    lemma_first_shorter_bound(sorted, n);
    let r = sorted.insert(at, x);
    assert forall|a: int, b: int| 0 <= a < b < r.len() implies byte_len(#[trigger] r[a]) >= byte_len(
        #[trigger] r[b],
    ) by {
        if a < at && b < at {
            assert(r[a] == sorted[a] && r[b] == sorted[b]);
        } else if a < at && b == at {
            assert(r[a] == sorted[a]);
        } else if a < at && b > at {
            assert(r[a] == sorted[a] && r[b] == sorted[b - 1]);
        } else if a == at {
            assert(r[b] == sorted[b - 1]);
            assert(byte_len(sorted[at]) < n);
            if b - 1 > at {
                assert(byte_len(sorted[at]) >= byte_len(sorted[b - 1]));
            }
        } else {
            assert(r[a] == sorted[a - 1] && r[b] == sorted[b - 1]);
        }
    }
}

/// Ordering law: the patterns that sorting yields are longest first, so a
/// secret is redacted whole before any shorter pattern inside it.
pub proof fn law_patterns_longest_first(s: Seq<Seq<char>>)
    ensures
        forall|a: int, b: int| 0 <= a < b < sort_by_length(s).len() ==> byte_len(
            #[trigger] sort_by_length(s)[a],
        ) >= byte_len(#[trigger] sort_by_length(s)[b]),
    decreases s.len(),
{
    if s.len() > 0 {
        law_patterns_longest_first(s.drop_last());
        lemma_sorted_insert(sort_by_length(s.drop_last()), s.last());
    }
}


/// `pattern` occurs somewhere in `s`.
pub open spec fn occurs(pattern: Seq<char>, s: Seq<char>) -> bool {
    exists|i: int| 0 <= i <= s.len() - pattern.len() && #[trigger] s.subrange(i, i + pattern.len()) == pattern
}

proof fn lemma_encode_concat(a: Seq<char>, b: Seq<char>)
    ensures
        encode_utf8(a + b) == encode_utf8(a) + encode_utf8(b),
    decreases a.len(),
{
    if a.len() == 0 {
        assert(a + b =~= b);
        assert(encode_utf8(a) + encode_utf8(b) =~= encode_utf8(b));
    } else {
        lemma_encode_concat(a.drop_first(), b);
        assert((a + b).drop_first() =~= a.drop_first() + b);
        assert((a + b)[0] == a[0]);
        assert(encode_utf8(a + b) =~= encode_utf8(a) + encode_utf8(b));
    }
}

proof fn lemma_byte_len_at_least_len(s: Seq<char>)
    ensures
        byte_len(s) >= s.len(),
    decreases s.len(),
{
    if s.len() > 0 {
        lemma_byte_len_at_least_len(s.drop_first());
    }
}

/// A pattern that occurs in `s` and is at least as long in bytes is `s`.
proof fn lemma_long_occurrence(q: Seq<char>, s: Seq<char>)
    requires
        occurs(q, s),
        byte_len(q) >= byte_len(s),
    ensures
        q == s,
{
    let i = choose|i: int| 0 <= i <= s.len() - q.len() && #[trigger] s.subrange(i, i + q.len()) == q;
    let a = s.take(i);
    let c = s.skip(i + q.len());
    assert(s =~= a + q + c);
    lemma_encode_concat(a, q);
    lemma_encode_concat(a + q, c);
    lemma_byte_len_at_least_len(a);
    lemma_byte_len_at_least_len(c);
    assert(a.len() == 0 && c.len() == 0);
    assert(s =~= q);
}

/// Replacing a pattern that does not occur leaves the text unchanged.
proof fn lemma_replace_absent(s: Seq<char>, p: Seq<char>, with: Seq<char>)
    requires
        p.len() > 0,
        !occurs(p, s),
    ensures
        replace_all(s, p, with) == s,
    decreases s.len(),
{
    if s.len() >= p.len() {
        assert(s.take(p.len() as int) != p) by {
            if s.take(p.len() as int) == p {
                assert(s.subrange(0, 0 + p.len() as int) =~= s.take(p.len() as int));
            }
        }
        let t = s.drop_first();
        assert(!occurs(p, t)) by {
            if occurs(p, t) {
                let i = choose|i: int| 0 <= i <= t.len() - p.len() && #[trigger] t.subrange(i, i + p.len()) == p;
                assert(s.subrange(i + 1, i + 1 + p.len()) =~= t.subrange(i, i + p.len()));
            }
        }
        lemma_replace_absent(t, p, with);
        assert(seq![s[0]] + t =~= s);
    }
}

/// A text that is exactly the pattern becomes the replacement.
proof fn lemma_replace_whole(p: Seq<char>, with: Seq<char>)
    requires
        p.len() > 0,
    ensures
        replace_all(p, p, with) == with,
{
    assert(p.take(p.len() as int) =~= p);
    assert(p.skip(p.len() as int).len() == 0);
    assert(replace_all(p.skip(p.len() as int), p, with) == p.skip(p.len() as int));
    assert(with + p.skip(p.len() as int) =~= with);
}

/// Redacting the marker with patterns that do not occur in it keeps it.
proof fn lemma_marker_survives(patterns: Seq<Seq<char>>)
    requires
        forall|i: int| 0 <= i < patterns.len() ==> (#[trigger] patterns[i]).len() > 0,
        forall|i: int| 0 <= i < patterns.len() ==> !occurs(#[trigger] patterns[i], redaction()),
    ensures
        redact_all(redaction(), patterns) == redaction(),
    decreases patterns.len(),
{
    if patterns.len() > 0 {
        lemma_replace_absent(redaction(), patterns[0], redaction());
        lemma_marker_survives(patterns.drop_first());
    }
}

/// Redaction law: a text that is exactly one of the patterns (a secret, or
/// one of its base64, percent or hexadecimal encodings) is shown as the
/// redaction marker alone, when the patterns are ordered longest first, as
/// a filter keeps them, and none of them occurs in the marker itself.
pub proof fn law_a_lone_secret_is_redacted(patterns: Seq<Seq<char>>, x: Seq<char>)
    requires
        patterns.contains(x),
        forall|i: int| 0 <= i < patterns.len() ==> (#[trigger] patterns[i]).len() > 0,
        forall|i: int, j: int|
            0 <= i < j < patterns.len() ==> byte_len(#[trigger] patterns[i]) >= byte_len(#[trigger] patterns[j]),
        forall|i: int| 0 <= i < patterns.len() ==> !occurs(#[trigger] patterns[i], redaction()),
    ensures
        redact_all(x, patterns) == redaction(),
    decreases patterns.len(),
{
    let q = patterns[0];
    let rest = patterns.drop_first();
    assert forall|i: int| 0 <= i < rest.len() implies (#[trigger] rest[i]).len() > 0 && !occurs(rest[i], redaction()) by {
        assert(rest[i] == patterns[i + 1]);
    }
    if q == x {
        lemma_replace_whole(x, redaction());
        lemma_marker_survives(rest);
    } else {
        let j = choose|j: int| 0 <= j < patterns.len() && patterns[j] == x;
        assert(j > 0);
        assert(byte_len(q) >= byte_len(x));
        if occurs(q, x) {
            lemma_long_occurrence(q, x);
        }
        lemma_replace_absent(x, q, redaction());
        assert(rest[j - 1] == x);
        assert forall|a: int, b: int| 0 <= a < b < rest.len() implies byte_len(#[trigger] rest[a]) >= byte_len(
            #[trigger] rest[b],
        ) by {
            assert(rest[a] == patterns[a + 1] && rest[b] == patterns[b + 1]);
        }
        law_a_lone_secret_is_redacted(rest, x);
    }
}


/// Every pattern that `dedup` keeps was in its input.
proof fn lemma_dedup_from(s: Seq<Seq<char>>, x: Seq<char>)
    requires
        dedup(s).contains(x),
    ensures
        s.contains(x),
    decreases s.len(),
{
    if s.len() > 0 {
        let d = dedup(s.drop_last());
        if x == s.last() {
            assert(s[s.len() - 1] == x);
        } else {
            if !(d.len() > 0 && d.last() == s.last()) {
                let j = choose|j: int| 0 <= j < d.push(s.last()).len() && d.push(s.last())[j] == x;
                assert(d[j] == x);
            }
            lemma_dedup_from(s.drop_last(), x);
            let i = choose|i: int| 0 <= i < s.drop_last().len() && s.drop_last()[i] == x;
            assert(s[i] == x);
        }
    }
}

/// `dedup` keeps patterns ordered longest first.
proof fn lemma_dedup_sorted(s: Seq<Seq<char>>)
    requires
        forall|i: int, j: int| 0 <= i < j < s.len() ==> byte_len(#[trigger] s[i]) >= byte_len(#[trigger] s[j]),
    ensures
        forall|i: int, j: int|
            0 <= i < j < dedup(s).len() ==> byte_len(#[trigger] dedup(s)[i]) >= byte_len(#[trigger] dedup(s)[j]),
    decreases s.len(),
{
    if s.len() > 0 {
        let u = s.drop_last();
        assert forall|i: int, j: int| 0 <= i < j < u.len() implies byte_len(#[trigger] u[i]) >= byte_len(
            #[trigger] u[j],
        ) by {
            assert(u[i] == s[i] && u[j] == s[j]);
        }
        lemma_dedup_sorted(u);
        let d = dedup(u);
        if !(d.len() > 0 && d.last() == s.last()) {
            let e = d.push(s.last());
            assert forall|i: int, j: int| 0 <= i < j < e.len() implies byte_len(#[trigger] e[i]) >= byte_len(
                #[trigger] e[j],
            ) by {
                if j == d.len() {
                    assert(d.contains(e[i])) by {
                        assert(d[i] == e[i]);
                    }
                    lemma_dedup_from(u, e[i]);
                    let k = choose|k: int| 0 <= k < u.len() && u[k] == e[i];
                    assert(s[k] == e[i]);
                    assert(s[s.len() - 1] == s.last());
                } else {
                    assert(e[i] == d[i] && e[j] == d[j]);
                }
            }
        }
    }
}

/// Redaction law for a filter: after a filter takes in secrets, a text that
/// is exactly one of their encodings (or a secret itself) is redacted to the
/// marker alone, when every pattern is non-empty and none occurs in the
/// marker.
pub proof fn law_filtered_secret_is_redacted(before: Seq<Seq<char>>, secrets: Seq<Seq<char>>, k: int, j: int)
    requires
        0 <= k < secrets.len(),
        0 <= j < secret_patterns(secrets[k]).len(),
        forall|i: int|
            0 <= i < dedup(sort_by_length(before + all_secret_patterns(secrets))).len() ==> (#[trigger] dedup(
                sort_by_length(before + all_secret_patterns(secrets)),
            )[i]).len() > 0 && !occurs(
                dedup(sort_by_length(before + all_secret_patterns(secrets)))[i],
                redaction(),
            ),
    ensures
        redact_all(
            secret_patterns(secrets[k])[j],
            dedup(sort_by_length(before + all_secret_patterns(secrets))),
        ) == redaction(),
{
    let sorted = sort_by_length(before + all_secret_patterns(secrets));
    law_every_encoding_of_a_secret_is_a_pattern(before, secrets, k, j);
    law_patterns_longest_first(before + all_secret_patterns(secrets));
    lemma_dedup_sorted(sorted);
    law_a_lone_secret_is_redacted(dedup(sorted), secret_patterns(secrets[k])[j]);
}


/// Redaction law: a text in which no pattern occurs is left as it is.
pub proof fn law_text_without_secrets_is_unchanged(text: Seq<char>, patterns: Seq<Seq<char>>)
    requires
        forall|i: int| 0 <= i < patterns.len() ==> (#[trigger] patterns[i]).len() > 0,
        forall|i: int| 0 <= i < patterns.len() ==> !occurs(#[trigger] patterns[i], text),
    ensures
        redact_all(text, patterns) == text,
    decreases patterns.len(),
{
    if patterns.len() > 0 {
        lemma_replace_absent(text, patterns[0], redaction());
        let rest = patterns.drop_first();
        assert forall|i: int| 0 <= i < rest.len() implies (#[trigger] rest[i]).len() > 0 && !occurs(rest[i], text) by {
            assert(rest[i] == patterns[i + 1]);
        }
        law_text_without_secrets_is_unchanged(text, rest);
    }
}

} // verus!
