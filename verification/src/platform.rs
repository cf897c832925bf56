//! Per-user directory rules, external URL launching, and presentation helpers
//! for the Windows and Linux window boundary.

use vstd::prelude::*;

use crate::text::{chars_of, string_from_chars};

verus! {

/// How a platform writes file paths.
#[derive(Clone, Copy, Debug, PartialEq, Eq, Structural)]
pub enum PathStyle {
    /// `/` separates components; a path is absolute when it starts with `/`.
    Unix,
    /// `\` and `/` separate components; a path is absolute when it starts
    /// with a drive letter, a colon, and a separator.
    Windows,
}

/// Why a platform path rule refused its input.
#[derive(Clone, Copy, Debug, PartialEq, Eq, Structural)]
pub enum PlatformPathError {
    /// The application identifier has a character other than a lowercase
    /// ASCII letter, a digit, or `-`, or is empty.
    InvalidApplicationId,
    /// Neither `XDG_DATA_HOME` nor `HOME` names an absolute directory.
    MissingDataHome,
    /// `HERMES_HOME` does not name an absolute directory.
    HermesHomeNotAbsolute,
    /// `HERMES_HOME` names a profile directory that has no Hermes root.
    HermesProfileWithoutRoot,
    /// A source URL whose scheme is not HTTP or HTTPS.
    UnsupportedUrlScheme,
}

pub open spec fn is_separator(c: char, style: PathStyle) -> bool {
    c == '/' || (style == PathStyle::Windows && c == '\\')
}

pub open spec fn is_drive_letter(c: char) -> bool {
    ('a' <= c && c <= 'z') || ('A' <= c && c <= 'Z')
}

/// The length of the root that starts an absolute path (zero when the path
/// is relative).
pub open spec fn root_len(s: Seq<char>, style: PathStyle) -> int {
    match style {
        PathStyle::Unix => if s.len() >= 1 && s[0] == '/' {
            1
        } else {
            0
        },
        PathStyle::Windows => if s.len() >= 3 && is_drive_letter(s[0]) && s[1] == ':'
            && is_separator(s[2], style) {
            3
        } else {
            0
        },
    }
}

pub open spec fn is_absolute(s: Seq<char>, style: PathStyle) -> bool {
    root_len(s, style) > 0
}

/// Whether the last character of `s` is a separator, or a `.` that forms a
/// component of its own; path components skip both.
pub open spec fn trailing_skippable(s: Seq<char>, style: PathStyle) -> bool {
    is_separator(s.last(), style) || (s.last() == '.' && (s.len() - 1 == root_len(s, style) || (s.len() >= 2
        && is_separator(s[s.len() - 2], style))))
}

/// `s` without separators and `.` components at its end, never cutting
/// into its root.
pub open spec fn without_trailing_separators(s: Seq<char>, style: PathStyle) -> Seq<char>
    decreases s.len(),
{
    if s.len() > root_len(s, style) && trailing_skippable(s, style) {
        without_trailing_separators(s.drop_last(), style)
    } else {
        s
    }
}

/// The position just after the last separator of `s` at or after the root,
/// or the root length when there is none.
pub open spec fn last_component_start(s: Seq<char>, style: PathStyle) -> int
    decreases s.len(),
{
    if s.len() <= root_len(s, style) {
        root_len(s, style)
    } else if is_separator(s.last(), style) {
        s.len() as int
    } else {
        last_component_start(s.drop_last(), style)
    }
}

/// The final component of an absolute path (empty for a bare root).
pub open spec fn last_component(s: Seq<char>, style: PathStyle) -> Seq<char> {
    let t = without_trailing_separators(s, style);
    t.subrange(last_component_start(t, style), t.len() as int)
}

/// The parent of an absolute path: everything before its final component,
/// without trailing separators; a bare root has none.
pub open spec fn parent(s: Seq<char>, style: PathStyle) -> Option<Seq<char>> {
    let t = without_trailing_separators(s, style);
    if t.len() <= root_len(s, style) {
        None
    } else {
        Some(without_trailing_separators(t.take(last_component_start(t, style)), style))
    }
}

/// Which Hermes root an explicit `HERMES_HOME` selects: none means the
/// native root; a profile directory (`.../profiles/<name>`) means the root
/// that holds it; any other absolute directory is the root itself.
pub open spec fn hermes_root_choice(
    override_root: Option<Seq<char>>,
    native_root: Seq<char>,
    style: PathStyle,
) -> Result<Seq<char>, PlatformPathError> {
    match override_root {
        None => Ok(native_root),
        Some(root) => if !is_absolute(root, style) {
            Err(PlatformPathError::HermesHomeNotAbsolute)
        } else {
            match parent(root, style) {
                Some(p) => if last_component(p, style) == "profiles"@ {
                    match parent(p, style) {
                        Some(q) => Ok(q),
                        None => Err(PlatformPathError::HermesProfileWithoutRoot),
                    }
                } else {
                    Ok(root)
                },
                None => Ok(root),
            }
        },
    }
}

fn separator(c: char, style: PathStyle) -> (r: bool)
    ensures
        r == is_separator(c, style),
{
    c == '/' || (style == PathStyle::Windows && c == '\\')
}

fn root_length(s: &Vec<char>, style: PathStyle) -> (r: usize)
    ensures
        r == root_len(s@, style),
{
    match style {
        PathStyle::Unix => if s.len() >= 1 && s[0] == '/' {
            1
        } else {
            0
        },
        PathStyle::Windows => {
            if s.len() >= 3 && (('a' <= s[0] && s[0] <= 'z') || ('A' <= s[0] && s[0] <= 'Z'))
                && s[1] == ':' && separator(s[2], style) {
                3
            } else {
                0
            }
        },
    }
}

proof fn lemma_root_len_prefix(s: Seq<char>, n: int, style: PathStyle)
    requires
        root_len(s, style) <= n <= s.len(),
    ensures
        root_len(s.take(n), style) == root_len(s, style),
{
    if style == PathStyle::Unix && root_len(s, style) == 1 {
        assert(s.take(n)[0] == s[0]);
    }
    if style == PathStyle::Windows && root_len(s, style) == 3 {
        assert(s.take(n)[0] == s[0] && s.take(n)[1] == s[1] && s.take(n)[2] == s[2]);
    }
    if root_len(s, style) == 0 && n >= 1 {
        assert(s.take(n)[0] == s[0]);
        if n >= 3 {
            assert(s.take(n)[1] == s[1] && s.take(n)[2] == s[2]);
        }
    }
}

fn strip_trailing_separators(s: &Vec<char>, style: PathStyle) -> (r: Vec<char>)
    ensures
        r@ == without_trailing_separators(s@, style),
        root_len(r@, style) == root_len(s@, style),
{
    let root = root_length(s, style);
    let mut n: usize = s.len();
    assert(s@.take(n as int) == s@);
    while n > root && (separator(s[n - 1], style) || (s[n - 1] == '.' && (n - 1 == root || (n >= 2 && separator(
        s[n - 2],
        style,
    )))))
        invariant
            root == root_len(s@, style),
            root <= n <= s.len(),
            without_trailing_separators(s@, style) == without_trailing_separators(s@.take(n as int), style),
        decreases n,
    {
        proof {
            lemma_root_len_prefix(s@, n as int, style);
            assert(s@.take(n as int).drop_last() == s@.take(n as int - 1));
            assert(s@.take(n as int).last() == s@[n - 1]);
            if n >= 2 {
                assert(s@.take(n as int)[n - 2] == s@[n - 2]);
            }
        }
        n = n - 1;
    }
    proof {
        lemma_root_len_prefix(s@, n as int, style);
        if n > root {
            assert(s@.take(n as int).last() == s@[n - 1]);
            if n >= 2 {
                assert(s@.take(n as int)[n - 2] == s@[n - 2]);
            }
        }
    }
    proof {
        lemma_root_len_prefix(s@, n as int, style);
    }
    let mut r: Vec<char> = Vec::new();
    let mut i: usize = 0;
    while i < n
        invariant
            i <= n <= s.len(),
            r@ == s@.take(i as int),
        decreases n - i,
    {
        r.push(s[i]);
        i = i + 1;
        assert(r@ =~= s@.take(i as int));
    }
    r
}

fn component_start(t: &Vec<char>, style: PathStyle) -> (r: usize)
    ensures
        r == last_component_start(t@, style),
        root_len(t@, style) <= r <= t.len() || (r == root_len(t@, style) && t.len() <= r),
{
    let root = root_length(t, style);
    let mut n: usize = t.len();
    assert(t@.take(n as int) == t@);
    while n > root && !separator(t[n - 1], style)
        invariant
            root == root_len(t@, style),
            root <= n <= t.len() || n == t.len(),
            last_component_start(t@, style) == last_component_start(t@.take(n as int), style),
        decreases n,
    {
        proof {
            lemma_root_len_prefix(t@, n as int, style);
            assert(t@.take(n as int).drop_last() == t@.take(n as int - 1));
        }
        n = n - 1;
    }
    proof {
        if n > root {
            lemma_root_len_prefix(t@, n as int, style);
        } else {
            lemma_root_len_prefix(t@, n as int, style);
        }
    }
    if n <= root {
        root
    } else {
        n
    }
}

fn parent_of(s: &Vec<char>, style: PathStyle) -> (r: Option<Vec<char>>)
    ensures
        match parent(s@, style) {
            Some(p) => r matches Some(q) && q@ == p,
            None => r is None,
        },
{
    let t = strip_trailing_separators(s, style);
    let root = root_length(s, style);
    if t.len() <= root {
        return None;
    }
    let start = component_start(&t, style);
    let mut head: Vec<char> = Vec::new();
    let mut i: usize = 0;
    while i < start
        invariant
            i <= start <= t.len(),
            head@ == t@.take(i as int),
        decreases start - i,
    {
        head.push(t[i]);
        i = i + 1;
        assert(head@ =~= t@.take(i as int));
    }
    Some(strip_trailing_separators(&head, style))
}

fn last_component_of(s: &Vec<char>, style: PathStyle) -> (r: Vec<char>)
    ensures
        r@ == last_component(s@, style),
{
    let t = strip_trailing_separators(s, style);
    let start = component_start(&t, style);
    let mut r: Vec<char> = Vec::new();
    let mut i: usize = start;
    while i < t.len()
        invariant
            start <= i <= t.len(),
            r@ == t@.subrange(start as int, i as int),
        decreases t.len() - i,
    {
        r.push(t[i]);
        i = i + 1;
        assert(r@ =~= t@.subrange(start as int, i as int));
    }
    r
}

fn equals_chars(a: &Vec<char>, b: &Vec<char>) -> (r: bool)
    ensures
        r == (a@ == b@),
{
    if a.len() != b.len() {
        return false;
    }
    let mut i: usize = 0;
    while i < a.len()
        invariant
            a.len() == b.len(),
            i <= a.len(),
            forall|j: int| 0 <= j < i ==> a@[j] == b@[j],
        decreases a.len() - i,
    {
        if a[i] != b[i] {
            return false;
        }
        i = i + 1;
    }
    assert(a@ =~= b@);
    true
}

/// Resolves the Hermes root from an explicit `HERMES_HOME`, if one is set,
/// without inspecting any profile configuration or credentials.
pub fn resolve_hermes_root(override_root: Option<&str>, native_root: &str, style: PathStyle) -> (result:
    Result<String, PlatformPathError>)
    ensures
        match (
            result,
            hermes_root_choice(
                match override_root {
                    Some(r) => Some(r@),
                    None => None,
                },
                native_root@,
                style,
            ),
        ) {
            (Ok(p), Ok(q)) => p@ == q,
            (Err(e), Err(f)) => e == f,
            _ => false,
        },
{
    let root = match override_root {
        None => return Ok(native_root.to_owned()),
        Some(r) => chars_of(r),
    };
    if root_length(&root, style) == 0 {
        return Err(PlatformPathError::HermesHomeNotAbsolute);
    }
    match parent_of(&root, style) {
        Some(p) => {
            let name = last_component_of(&p, style);
            let profiles = chars_of("profiles");
            if equals_chars(&name, &profiles) {
                match parent_of(&p, style) {
                    Some(q) => Ok(string_from_chars(&q)),
                    None => Err(PlatformPathError::HermesProfileWithoutRoot),
                }
            } else {
                Ok(string_from_chars(&root))
            }
        },
        None => Ok(string_from_chars(&root)),
    }
}


/// `base` joined with a relative `part`, with exactly one separator between.
pub open spec fn joined(base: Seq<char>, part: Seq<char>) -> Seq<char> {
    if base.len() > 0 && base.last() == '/' {
        base + part
    } else {
        base + seq!['/'] + part
    }
}

fn join_unix(base: &Vec<char>, part: &str) -> (r: Vec<char>)
    ensures
        r@ == joined(base@, part@),
{
    let mut r: Vec<char> = Vec::new();
    let mut i: usize = 0;
    while i < base.len()
        invariant
            i <= base.len(),
            r@ == base@.take(i as int),
        decreases base.len() - i,
    {
        r.push(base[i]);
        i = i + 1;
        assert(r@ =~= base@.take(i as int));
    }
    assert(base@.take(base.len() as int) == base@);
    if !(base.len() > 0 && base[base.len() - 1] == '/') {
        r.push('/');
    }
    let p = chars_of(part);
    let ghost head = r@;
    let mut j: usize = 0;
    while j < p.len()
        invariant
            j <= p.len(),
            r@ == head + p@.take(j as int),
        decreases p.len() - j,
    {
        r.push(p[j]);
        j = j + 1;
        assert(r@ =~= head + p@.take(j as int));
    }
    assert(p@.take(p.len() as int) == p@);
    r
}

/// An application identifier: nonempty, lowercase ASCII letters, digits,
/// and hyphens only.
pub open spec fn valid_application_id(id: Seq<char>) -> bool {
    id.len() > 0 && forall|i: int| 0 <= i < id.len() ==> {
        let c = #[trigger] id[i];
        ('a' <= c && c <= 'z') || ('0' <= c && c <= '9') || c == '-'
    }
}

/// Checks an application identifier before it names a directory.
pub fn check_application_id(id: &str) -> (result: Result<(), PlatformPathError>)
    ensures
        result is Ok <==> valid_application_id(id@),
        result matches Err(e) ==> e == PlatformPathError::InvalidApplicationId,
{
    let v = chars_of(id);
    if v.len() == 0 {
        return Err(PlatformPathError::InvalidApplicationId);
    }
    let mut i: usize = 0;
    while i < v.len()
        invariant
            v@ == id@,
            i <= v.len(),
            forall|j: int| 0 <= j < i ==> {
                let c = #[trigger] v@[j];
                ('a' <= c && c <= 'z') || ('0' <= c && c <= '9') || c == '-'
            },
        decreases v.len() - i,
    {
        let c = v[i];
        if !(('a' <= c && c <= 'z') || ('0' <= c && c <= '9') || c == '-') {
            return Err(PlatformPathError::InvalidApplicationId);
        }
        i = i + 1;
    }
    Ok(())
}

/// The Linux per-user data directory of an application: under an absolute
/// `XDG_DATA_HOME`, else under `.local/share` of an absolute `HOME`.
pub open spec fn linux_data_choice(
    application_id: Seq<char>,
    xdg_data_home: Option<Seq<char>>,
    home: Option<Seq<char>>,
) -> Result<Seq<char>, PlatformPathError> {
    if xdg_data_home is Some && is_absolute(xdg_data_home.unwrap(), PathStyle::Unix) {
        Ok(joined(xdg_data_home.unwrap(), application_id))
    } else if home is Some && is_absolute(home.unwrap(), PathStyle::Unix) {
        Ok(joined(joined(home.unwrap(), ".local/share"@), application_id))
    } else {
        Err(PlatformPathError::MissingDataHome)
    }
}

/// An absolute Unix path, when there is one.
pub open spec fn absolute_path(p: Option<Seq<char>>) -> bool {
    p is Some && p.unwrap().len() > 0 && p.unwrap()[0] == '/'
}

/// Data-directory law: with an absolute `XDG_DATA_HOME` the directory is
/// the application's under it; when it is unset or relative and `HOME` is
/// absolute, it is `HOME/.local/share/<application>`; only when neither is
/// absolute is there none.
pub proof fn law_data_directory_under_home(
    application_id: Seq<char>,
    xdg_data_home: Option<Seq<char>>,
    home: Option<Seq<char>>,
)
    ensures
        absolute_path(xdg_data_home) && xdg_data_home.unwrap().last() != '/' ==> linux_data_choice(
            application_id,
            xdg_data_home,
            home,
        ) == Ok::<Seq<char>, PlatformPathError>(xdg_data_home.unwrap() + "/"@ + application_id),
        !absolute_path(xdg_data_home) && absolute_path(home) && home.unwrap().last() != '/' ==> linux_data_choice(
            application_id,
            xdg_data_home,
            home,
        ) == Ok::<Seq<char>, PlatformPathError>(home.unwrap() + "/.local/share/"@ + application_id),
        !absolute_path(xdg_data_home) && absolute_path(home) ==> linux_data_choice(
            application_id,
            xdg_data_home,
            home,
        ) is Ok,
        linux_data_choice(application_id, xdg_data_home, home) is Err <==> (!absolute_path(xdg_data_home)
            && !absolute_path(home)),
        linux_data_choice(application_id, xdg_data_home, home) is Err ==> linux_data_choice(
            application_id,
            xdg_data_home,
            home,
        ) == Err::<Seq<char>, PlatformPathError>(PlatformPathError::MissingDataHome),
{
    reveal_strlit("/");
    reveal_strlit(".local/share");
    reveal_strlit("/.local/share/");
    if absolute_path(xdg_data_home) && xdg_data_home.unwrap().last() != '/' {
        let x = xdg_data_home.unwrap();
        assert(joined(x, application_id) =~= x + "/"@ + application_id);
    }
    if absolute_path(home) && home.unwrap().last() != '/' {
        let h = home.unwrap();
        let share = joined(h, ".local/share"@);
        assert(share =~= h + seq!['/'] + ".local/share"@);
        assert(share.last() == 'e');
        assert(joined(share, application_id) =~= h + "/.local/share/"@ + application_id);
    }
}

pub fn linux_data_directory(application_id: &str, xdg_data_home: Option<&str>, home: Option<&str>) -> (result:
    Result<String, PlatformPathError>)
    ensures
        match (
            result,
            linux_data_choice(
                application_id@,
                match xdg_data_home {
                    Some(x) => Some(x@),
                    None => None,
                },
                match home {
                    Some(h) => Some(h@),
                    None => None,
                },
            ),
        ) {
            (Ok(p), Ok(q)) => p@ == q,
            (Err(e), Err(f)) => e == f,
            _ => false,
        },
        xdg_data_home is None && home is Some && home.unwrap()@.len() > 0 && home.unwrap()@[0] == '/'
            && home.unwrap()@.last() != '/' ==> (result is Ok && result.unwrap()@ == home.unwrap()@
            + "/.local/share/"@ + application_id@),
        result is Err ==> result == Err::<String, PlatformPathError>(PlatformPathError::MissingDataHome),
{
    proof {
        let x = match xdg_data_home {
            Some(x) => Some(x@),
            None => None,
        };
        let h = match home {
            Some(h) => Some(h@),
            None => None,
        };
        law_data_directory_under_home(application_id@, x, h);
    }
    if let Some(xdg) = xdg_data_home {
        let base = chars_of(xdg);
        if root_length(&base, PathStyle::Unix) > 0 {
            let full = join_unix(&base, application_id);
            return Ok(string_from_chars(&full));
        }
    }
    if let Some(h) = home {
        let base = chars_of(h);
        if root_length(&base, PathStyle::Unix) > 0 {
            let share = join_unix(&base, ".local/share");
            let full = join_unix(&share, application_id);
            return Ok(string_from_chars(&full));
        }
    }
    Err(PlatformPathError::MissingDataHome)
}

pub open spec fn ascii_lower(c: char) -> char {
    if 'A' <= c && c <= 'Z' {
        (((c as u32) + 32) as u8) as char
    } else {
        c
    }
}

/// The text before the first `:` of `url`, if it has one.
pub open spec fn url_scheme(url: Seq<char>) -> Option<Seq<char>>
    decreases url.len(),
{
    if url.len() == 0 {
        None
    } else if url[0] == ':' {
        Some(Seq::empty())
    } else {
        match url_scheme(url.drop_first()) {
            Some(rest) => Some(seq![url[0]] + rest),
            None => None,
        }
    }
}

/// The scheme is `http` or `https`, in any ASCII letter case.
pub open spec fn is_web_scheme(scheme: Seq<char>) -> bool {
    let lower = Seq::new(scheme.len(), |i: int| ascii_lower(scheme[i]));
    lower == "http"@ || lower == "https"@
}

/// The command that opens an HTTP(S) source with the desktop's registered
/// handler: the URL is one whole argument and no shell is involved.
pub open spec fn external_url_argv(url: Seq<char>, style: PathStyle) -> Result<Seq<Seq<char>>, PlatformPathError> {
    match url_scheme(url) {
        Some(scheme) => if is_web_scheme(scheme) {
            match style {
                PathStyle::Unix => Ok(seq!["xdg-open"@, url]),
                PathStyle::Windows => Ok(seq!["rundll32"@, "url.dll,FileProtocolHandler"@, url]),
            }
        } else {
            Err(PlatformPathError::UnsupportedUrlScheme)
        },
        None => Err(PlatformPathError::UnsupportedUrlScheme),
    }
}

/// The program and arguments that open `url` externally.
pub fn external_url_command(url: &str, style: PathStyle) -> (result: Result<Vec<String>, PlatformPathError>)
    ensures
        match (result, external_url_argv(url@, style)) {
            (Ok(v), Ok(w)) => v@.len() == w.len() && forall|i: int| 0 <= i < w.len() ==> (#[trigger] v@[i])@ == w[i],
            (Err(e), Err(f)) => e == f,
            _ => false,
        },
{
    let v = chars_of(url);
    let mut colon: usize = 0;
    assert(v@.subrange(0, 0) + Seq::<char>::empty() =~= Seq::<char>::empty());
    assert(v@.subrange(0, v.len() as int) == v@);
    assert forall|r: Seq<char>| #![auto] v@.subrange(0, 0) + r == r by {
        assert(v@.subrange(0, 0) + r =~= r);
    }
    while colon < v.len() && v[colon] != ':'
        invariant
            colon <= v.len(),
            forall|j: int| 0 <= j < colon ==> v@[j] != ':',
            url_scheme(v@) == (match url_scheme(v@.subrange(colon as int, v.len() as int)) {
                Some(rest) => Some(v@.subrange(0, colon as int) + rest),
                None => None,
            }),
        decreases v.len() - colon,
    {
        let ghost rest = v@.subrange(colon as int, v.len() as int);
        assert(rest.drop_first() == v@.subrange(colon as int + 1, v.len() as int));
        assert(v@.subrange(0, colon as int) + seq![v@[colon as int]] == v@.subrange(0, colon as int + 1));
        colon = colon + 1;
        proof {
            assert forall|r: Seq<char>| #![auto] v@.subrange(0, colon as int - 1) + (seq![v@[colon as int - 1]] + r)
                == v@.subrange(0, colon as int) + r by {
                assert(v@.subrange(0, colon as int - 1) + (seq![v@[colon as int - 1]] + r) =~= v@.subrange(0, colon as int) + r);
            }
        }
    }
    if colon == v.len() {
        return Err(PlatformPathError::UnsupportedUrlScheme);
    }
    assert(v@.subrange(0, colon as int) + Seq::<char>::empty() =~= v@.subrange(0, colon as int));
    let mut lower: Vec<char> = Vec::new();
    let mut i: usize = 0;
    while i < colon
        invariant
            i <= colon < v.len(),
            lower@ == Seq::new(i as nat, |j: int| ascii_lower(v@[j])),
        decreases colon - i,
    {
        let c = v[i];
        let d = if 'A' <= c && c <= 'Z' {
            (((c as u32) + 32) as u8) as char
        } else {
            c
        };
        lower.push(d);
        i = i + 1;
        assert(lower@ =~= Seq::new(i as nat, |j: int| ascii_lower(v@[j])));
    }
    let http = chars_of("http");
    let https = chars_of("https");
    assert(lower@ =~= Seq::new(v@.subrange(0, colon as int).len(), |j: int| ascii_lower(v@.subrange(0, colon as int)[j])));
    if !(equals_chars(&lower, &http) || equals_chars(&lower, &https)) {
        return Err(PlatformPathError::UnsupportedUrlScheme);
    }
    let mut argv: Vec<String> = Vec::new();
    match style {
        PathStyle::Unix => {
            argv.push("xdg-open".to_owned());
        },
        PathStyle::Windows => {
            argv.push("rundll32".to_owned());
            argv.push("url.dll,FileProtocolHandler".to_owned());
        },
    }
    argv.push(url.to_owned());
    Ok(argv)
}

/// Packs an RGBA pixel into the `0x00RRGGBB` word of a software buffer.
pub fn rgba_to_xrgb(rgba: &[u8]) -> (r: u32)
    requires
        rgba@.len() >= 3,
    ensures
        r == rgba@[0] * 0x1_0000 + rgba@[1] * 0x100 + rgba@[2],
{
    let red = rgba[0] as u32;
    let green = rgba[1] as u32;
    let blue = rgba[2] as u32;
    assert((red << 16u32 | green << 8u32 | blue) == red * 0x1_0000 + green * 0x100 + blue) by (bit_vector)
        requires
            red < 256,
            green < 256,
            blue < 256,
    ;
    red << 16u32 | green << 8u32 | blue
}

/// A surface extent that a native surface accepts: zero becomes one.
pub fn nonzero_extent(value: u32) -> (r: u32)
    ensures
        r == (if value == 0 { 1 } else { value }),
        r >= 1,
{
    if value == 0 {
        1
    } else {
        value
    }
}

/// The kinds of presentation failure a GPU context can report.
#[derive(Clone, Copy, Debug, PartialEq, Eq, Structural)]
pub enum SurfaceErrorKind {
    BadContext,
    BadContextState,
    BadCurrentSurface,
    BadSurface,
    ContextLost,
    /// Any failure that rebuilding the surface cannot repair.
    Fatal,
}

pub open spec fn recoverable(kind: SurfaceErrorKind) -> bool {
    kind != SurfaceErrorKind::Fatal
}

/// Bounds consecutive surface rebuilds between successful presentations.
#[derive(Clone, Copy, Debug, PartialEq, Eq, Structural)]
pub struct RecoveryBudget {
    pub consecutive: u8,
}

pub const RECOVERY_LIMIT: u8 = 2;

impl RecoveryBudget {
    pub fn new() -> (b: Self)
        ensures
            b.consecutive == 0,
    {
        RecoveryBudget { consecutive: 0 }
    }

    /// A frame reached the screen: the budget is whole again.
    pub fn presented(&mut self)
        ensures
            final(self).consecutive == 0,
    {
        self.consecutive = 0;
    }

    /// Whether a failure of this kind may be repaired by rebuilding; a
    /// permitted rebuild spends one unit of the budget.
    pub fn permits(&mut self, kind: SurfaceErrorKind) -> (r: bool)
        ensures
            r == (recoverable(kind) && old(self).consecutive < RECOVERY_LIMIT),
            r ==> final(self).consecutive == old(self).consecutive + 1,
            !r ==> final(self).consecutive == old(self).consecutive,
    {
        let fatal = match kind {
            SurfaceErrorKind::Fatal => true,
            _ => false,
        };
        if fatal || self.consecutive >= RECOVERY_LIMIT {
            return false;
        }
        self.consecutive = self.consecutive + 1;
        true
    }
}

/// What the window does after a frame. Deadlines are nanoseconds on the
/// frame clock.
#[derive(Clone, Copy, Debug, PartialEq, Eq, Structural)]
pub enum FrameSchedule {
    Wait,
    RedrawAt(u64),
    Exit,
}

#[derive(Clone, Debug, PartialEq, Eq)]
pub enum PlatformError {
    EventLoop(String),
    Display(String),
    Icon(String),
    MissingWindow,
    WindowHandle(String),
    Context(String),
    WindowSurface(String),
    CurrentContext(String),
    SkiaInterface,
    SkiaContext,
    SkiaSurface,
    Present(String),
    RendererUnavailable { gpu: String, software: String },
    Run(String),
}

} // verus!
