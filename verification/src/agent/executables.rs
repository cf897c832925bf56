//! Finding a program as the shell would: a path with a directory part names
//! itself; a bare name is looked up in each directory of `PATH`, in order.

use vstd::prelude::*;

use crate::text::{chars_of, string_from_chars};

verus! {

/// Whether a path names a file that may be run as a program. It asks the
/// file system.
pub trait ExecutableProbe {
    fn is_executable(&self, path: &str) -> bool;
}

/// A probe together with the record of every question put to it: the path
/// asked about and the answer.
pub struct RecordedProbe<'a, P> {
    probe: &'a P,
    answers: Ghost<Seq<(Seq<char>, bool)>>,
}

impl<'a, P: ExecutableProbe> RecordedProbe<'a, P> {
    /// The questions asked so far, oldest first.
    pub closed spec fn log(&self) -> Seq<(Seq<char>, bool)> {
        self.answers@
    }

    pub closed spec fn probe(&self) -> &'a P {
        self.probe
    }

    /// The probe, with nothing yet asked of it.
    pub fn new(probe: &'a P) -> (r: Self)
        ensures
            r.probe() == probe,
            r.log() == Seq::<(Seq<char>, bool)>::empty(),
    {
        RecordedProbe { probe, answers: Ghost(Seq::empty()) }
    }

    /// Asks whether `path` names a program.
    pub fn is_executable(&mut self, path: &str) -> (r: bool)
        ensures
            final(self).probe() == old(self).probe(),
            final(self).log() == old(self).log().push((path@, r)),
    {
        let r = self.probe.is_executable(path);
        proof {
            self.answers@ = self.answers@.push((path@, r));
        }
        r
    }
}

/// The paths a search for `name` asks about, in order: the name itself when
/// it has a directory part, then each candidate of `PATH`.
pub open spec fn probe_order(name: Seq<char>, path: Option<Seq<char>>) -> Seq<Seq<char>> {
    (if has_directory_part(name) {
        seq![name]
    } else {
        Seq::empty()
    }) + match path {
        Some(p) => path_candidates_of(name, p),
        None => Seq::empty(),
    }
}

/// `asked` puts the paths of `order` to the probe in order, stopping at the
/// first that is a program.
pub open spec fn probed_in_order(order: Seq<Seq<char>>, asked: Seq<(Seq<char>, bool)>) -> bool {
    &&& asked.len() <= order.len()
    &&& forall|i: int| 0 <= i < asked.len() ==> (#[trigger] asked[i]).0 == order[i]
    &&& forall|i: int| 0 <= i < asked.len() - 1 ==> !(#[trigger] asked[i]).1
    &&& asked.len() < order.len() ==> asked.len() > 0 && asked.last().1
}

/// What a search found, given what it asked: the last path asked when the
/// probe accepted it.
pub open spec fn search_result(asked: Seq<(Seq<char>, bool)>) -> Option<Seq<char>> {
    if asked.len() > 0 && asked.last().1 {
        Some(asked.last().0)
    } else {
        None
    }
}

/// The view of an optional text.
pub open spec fn text_view(s: Option<&str>) -> Option<Seq<char>> {
    match s {
        Some(t) => Some(t@),
        None => None,
    }
}

/// Whether position `i` starts a named component: a run of characters other
/// than `/` that is not a lone `.`.
pub open spec fn named_start(s: Seq<char>, i: int) -> bool {
    &&& 0 <= i < s.len()
    &&& s[i] != '/'
    &&& i == 0 || s[i - 1] == '/'
    &&& !(s[i] == '.' && (i + 1 == s.len() || s[i + 1] == '/'))
}

/// A path that begins at the root, or at the current directory.
pub open spec fn anchored(s: Seq<char>) -> bool {
    s.len() > 0 && (s[0] == '/' || (s[0] == '.' && (s.len() == 1 || s[1] == '/')))
}

/// Whether the path has more than one component, so that it names a file
/// through a directory rather than a program to look up.
pub open spec fn has_directory_part(s: Seq<char>) -> bool {
    ||| exists|i: int, j: int| i < j && named_start(s, i) && named_start(s, j)
    ||| anchored(s) && exists|i: int| named_start(s, i)
}

/// The entries of a `PATH` value, split at each `:`; an empty entry is kept.
pub open spec fn path_entries(path: Seq<char>) -> Seq<Seq<char>>
    decreases path.len(),
{
    if path.len() == 0 {
        seq![Seq::empty()]
    } else {
        let earlier = path_entries(path.drop_last());
        if path.last() == ':' {
            earlier.push(Seq::empty())
        } else {
            earlier.update(earlier.len() - 1, earlier.last().push(path.last()))
        }
    }
}

/// `name` joined onto `directory`: an absolute name stands alone, and a
/// separator goes between unless the directory is empty or ends in one.
pub open spec fn joined_path(directory: Seq<char>, name: Seq<char>) -> Seq<char> {
    if name.len() > 0 && name[0] == '/' {
        name
    } else if directory.len() == 0 || directory.last() == '/' {
        directory + name
    } else {
        directory + seq!['/'] + name
    }
}

/// Where a program named `name` is looked for, in order.
pub open spec fn path_candidates_of(name: Seq<char>, path: Seq<char>) -> Seq<Seq<char>> {
    path_entries(path).map_values(|directory: Seq<char>| joined_path(directory, name))
}

proof fn lemma_entries_nonempty(path: Seq<char>)
    ensures
        path_entries(path).len() > 0,
    decreases path.len(),
{
    if path.len() > 0 {
        lemma_entries_nonempty(path.drop_last());
    }
}

fn directory_part(name: &Vec<char>) -> (r: bool)
    ensures
        r == has_directory_part(name@),
{
    let n = name.len();
    let anchor = n > 0 && (name[0] == '/' || (name[0] == '.' && (n == 1 || name[1] == '/')));
    let mut first: Option<usize> = None;
    let mut second = false;
    let mut i: usize = 0;
    while i < n
        invariant
            n == name@.len(),
            i <= n,
            first is None ==> forall|k: int| 0 <= k < i ==> !named_start(name@, k),
            first matches Some(f) ==> f < i && named_start(name@, f as int),
            second == exists|a: int, b: int| a < b < i && named_start(name@, a) && named_start(name@, b),
        decreases n - i,
    {
        let starts = name[i] != '/' && (i == 0 || name[i - 1] == '/') && !(name[i] == '.' && (i + 1 == n
            || name[i + 1] == '/'));
        assert(starts == named_start(name@, i as int));
        let ghost first_before = first;
        let ghost second_before = second;
        if starts {
            match first {
                Some(f) => {
                    second = true;
                    assert(named_start(name@, f as int) && named_start(name@, i as int));
                },
                None => {
                    first = Some(i);
                },
            }
        }
        proof {
            if !second {
                assert forall|a: int, b: int| a < b < i + 1 && named_start(name@, a) implies !named_start(
                    name@,
                    b,
                ) by {
                    if b == i {
                        assert(first_before is Some);
                    } else {
                        assert(!second_before);
                    }
                }
            }
        }
        i = i + 1;
    }
    proof {
        if second {
            let (a, b) = choose|a: int, b: int| a < b < n && named_start(name@, a) && named_start(name@, b);
            assert(named_start(name@, a) && named_start(name@, b));
        }
        if anchor && first is Some {
            assert(named_start(name@, first->0 as int));
        }
        if !second {
            assert forall|a: int, b: int| a < b && named_start(name@, a) implies !named_start(name@, b) by {}
        }
    }
    second || (anchor && first.is_some())
}

/// `name` joined onto `directory`, as `Path::join` does.
pub fn join_path(directory: &str, name: &str) -> (joined: String)
    ensures
        joined@ == joined_path(directory@, name@),
{
    let directory_chars = chars_of(directory);
    let name_chars = chars_of(name);
    let mut out: Vec<char> = Vec::new();
    if !(name_chars.len() > 0 && name_chars[0] == '/') {
        let mut m: usize = 0;
        while m < directory_chars.len()
            invariant
                m <= directory_chars@.len(),
                out@ == directory_chars@.take(m as int),
            decreases directory_chars@.len() - m,
        {
            out.push(directory_chars[m]);
            m = m + 1;
            assert(out@ =~= directory_chars@.take(m as int));
        }
        assert(directory_chars@.take(directory_chars@.len() as int) =~= directory_chars@);
        if directory_chars.len() > 0 && directory_chars[directory_chars.len() - 1] != '/' {
            out.push('/');
        }
    }
    let ghost prefix = out@;
    let mut m: usize = 0;
    while m < name_chars.len()
        invariant
            m <= name_chars@.len(),
            out@ == prefix + name_chars@.take(m as int),
        decreases name_chars@.len() - m,
    {
        out.push(name_chars[m]);
        m = m + 1;
        assert(out@ =~= prefix + name_chars@.take(m as int));
    }
    assert(name_chars@.take(name_chars@.len() as int) =~= name_chars@);
    assert(out@ =~= joined_path(directory@, name@));
    string_from_chars(&out)
}

/// The directories of a `PATH` value, each joined with `name`, in order.
pub fn path_candidates(name: &str, path: &str) -> (candidates: Vec<String>)
    ensures
        candidates@.len() == path_candidates_of(name@, path@).len(),
        forall|k: int| 0 <= k < candidates@.len() ==> (#[trigger] candidates@[k])@ == path_candidates_of(name@, path@)[k],
{
    let chars = chars_of(path);
    let n = chars.len();
    let mut entries: Vec<Vec<char>> = Vec::new();
    let mut current: Vec<char> = Vec::new();
    let mut i: usize = 0;
    assert(chars@.take(0) =~= Seq::<char>::empty());
    while i < n
        invariant
            n == chars@.len(),
            i <= n,
            entries@.len() + 1 == path_entries(chars@.take(i as int)).len(),
            forall|k: int| 0 <= k < entries@.len() ==> (#[trigger] entries@[k])@ == path_entries(chars@.take(i as int))[k],
            current@ == path_entries(chars@.take(i as int)).last(),
        decreases n - i,
    {
        let ghost before = chars@.take(i as int);
        assert(chars@.take(i + 1).drop_last() =~= before);
        assert(chars@.take(i + 1).last() == chars@[i as int]);
        proof {
            lemma_entries_nonempty(before);
        }
        if chars[i] == ':' {
            let finished = current;
            entries.push(finished);
            current = Vec::new();
        } else {
            current.push(chars[i]);
        }
        i = i + 1;
        proof {
            let now = path_entries(chars@.take(i as int));
            assert(current@ == now.last());
            assert forall|k: int| 0 <= k < entries@.len() implies (#[trigger] entries@[k])@ == now[k] by {}
        }
    }
    assert(chars@.take(n as int) =~= chars@);
    entries.push(current);
    let ghost all = path_entries(path@);
    let mut candidates: Vec<String> = Vec::new();
    let mut k: usize = 0;
    while k < entries.len()
        invariant
            entries@.len() == all.len(),
            forall|j: int| 0 <= j < entries@.len() ==> (#[trigger] entries@[j])@ == all[j],
            all == path_entries(path@),
            k <= entries@.len(),
            candidates@.len() == k,
            forall|j: int| 0 <= j < k ==> (#[trigger] candidates@[j])@ == joined_path(all[j], name@),
        decreases entries@.len() - k,
    {
        let directory = string_from_chars(&entries[k]);
        candidates.push(join_path(directory.as_str(), name));
        k = k + 1;
    }
    candidates
}

/// Finds the program named `name`, given the `PATH` value if there is one.
/// A name with a directory part is taken as is when it is a program; else
/// the first candidate of `PATH` that is a program is found.
pub fn find_on_path<P: ExecutableProbe>(name: &str, path: Option<&str>, probe: &mut RecordedProbe<P>) -> (found: Option<
    String,
>)
    ensures
        final(probe).probe() == old(probe).probe(),
        exists|asked: Seq<(Seq<char>, bool)>|
            {
                &&& final(probe).log() == old(probe).log() + asked
                &&& #[trigger] probed_in_order(probe_order(name@, text_view(path)), asked)
                &&& match found {
                    Some(program) => search_result(asked) == Some(program@),
                    None => search_result(asked) is None,
                }
            },
        found matches Some(program) ==> (has_directory_part(name@) && program@ == name@) || (path matches Some(
            p,
        ) && path_candidates_of(name@, p@).contains(program@)),
        path is None && !has_directory_part(name@) ==> found is None,
{
    let ghost start = probe.log();
    let ghost order = probe_order(name@, text_view(path));
    let name_chars = chars_of(name);
    let direct = directory_part(&name_chars);
    let ghost skipped: nat = if direct { 1 } else { 0 };
    if direct {
        if probe.is_executable(name) {
            let ghost asked = probe.log().skip(start.len() as int);
            assert(probe.log() == start + asked);
            assert(asked =~= seq![(name@, true)]);
            assert(order[0] == name@);
            assert(probed_in_order(probe_order(name@, text_view(path)), asked));
            assert(search_result(asked) == Some(name@));
            return Some(name.to_owned());
        }
    }
    let ghost prefix = probe.log().skip(start.len() as int);
    assert(probe.log() == start + prefix);
    assert(prefix.len() == skipped);
    let text = match path {
        Some(p) => p,
        None => {
            assert(order.len() == skipped);
            assert forall|i: int| 0 <= i < prefix.len() implies (#[trigger] prefix[i]).0 == order[i] by {
                assert(prefix[i] == probe.log()[start.len() + i]);
                assert(order[0] == name@);
            }
            assert(prefix.len() > 0 ==> !prefix.last().1) by {
                if prefix.len() > 0 {
                    assert(prefix.last() == probe.log()[start.len() as int]);
                }
            }
            assert(probed_in_order(probe_order(name@, text_view(path)), prefix));
            return None;
        },
    };
    let candidates = path_candidates(name, text);
    assert(order == (if direct { seq![name@] } else { Seq::<Seq<char>>::empty() }) + path_candidates_of(name@, text@));
    let mut k: usize = 0;
    while k < candidates.len()
        invariant
            path == Some(text),
            k <= candidates@.len(),
            candidates@.len() == path_candidates_of(name@, text@).len(),
            forall|j: int| 0 <= j < candidates@.len() ==> (#[trigger] candidates@[j])@ == path_candidates_of(name@, text@)[j],
            order == (if direct { seq![name@] } else { Seq::<Seq<char>>::empty() }) + path_candidates_of(name@, text@),
            order == probe_order(name@, text_view(path)),
            skipped == (if direct { 1nat } else { 0nat }),
            probe.probe() == old(probe).probe(),
            start == old(probe).log(),
            probe.log().len() == start.len() + skipped + k,
            probe.log().take(start.len() as int) == start,
            forall|i: int| 0 <= i < skipped + k ==> (#[trigger] probe.log()[start.len() + i]).0 == order[i],
            forall|i: int| 0 <= i < skipped + k ==> !(#[trigger] probe.log()[start.len() + i]).1,
        decreases candidates@.len() - k,
    {
        let ghost before = probe.log();
        let accepted = probe.is_executable(candidates[k].as_str());
        assert(probe.log() == before.push((candidates@[k as int]@, accepted)));
        assert(order[skipped + k] == path_candidates_of(name@, text@)[k as int]);
        if accepted {
            let program = candidates[k].clone();
            let ghost asked = probe.log().skip(start.len() as int);
            assert(probe.log() =~= start + asked);
            assert(asked.len() == skipped + k + 1);
            assert(order.len() == skipped + candidates@.len());
            assert forall|i: int| 0 <= i < asked.len() implies (#[trigger] asked[i]).0 == order[i] by {
                assert(asked[i] == probe.log()[start.len() + i]);
                if i < skipped + k {
                    assert(probe.log()[start.len() + i] == before[start.len() + i]);
                }
            }
            assert forall|i: int| 0 <= i < asked.len() - 1 implies !(#[trigger] asked[i]).1 by {
                assert(asked[i] == probe.log()[start.len() + i]);
                assert(probe.log()[start.len() + i] == before[start.len() + i]);
            }
            assert(asked.last() == probe.log()[start.len() + (skipped + k)]);
            assert(probed_in_order(probe_order(name@, text_view(path)), asked));
            assert(search_result(asked) == Some(program@));
            assert(path_candidates_of(name@, text@)[k as int] == program@);
            return Some(program);
        }
        k = k + 1;
    }
    let ghost asked = probe.log().skip(start.len() as int);
    assert(probe.log() =~= start + asked);
    assert forall|i: int| 0 <= i < asked.len() implies (#[trigger] asked[i]).0 == order[i] by {
        assert(asked[i] == probe.log()[start.len() + i]);
    }
    assert forall|i: int| 0 <= i < asked.len() - 1 implies !(#[trigger] asked[i]).1 by {
        assert(asked[i] == probe.log()[start.len() + i]);
    }
    assert(asked.len() > 0 ==> !asked.last().1) by {
        if asked.len() > 0 {
            let i = asked.len() - 1;
            assert(asked.last() == probe.log()[start.len() + i]);
            assert(!probe.log()[start.len() + i].1);
        }
    }
    assert(probed_in_order(probe_order(name@, text_view(path)), asked));
    None
}

/// Whether a `hermes` program is on `PATH`.
pub fn hermes_is_available<P: ExecutableProbe>(path: Option<&str>, probe: &mut RecordedProbe<P>) -> (available: bool)
    ensures
        final(probe).probe() == old(probe).probe(),
        exists|asked: Seq<(Seq<char>, bool)>|
            {
                &&& final(probe).log() == old(probe).log() + asked
                &&& #[trigger] probed_in_order(probe_order("hermes"@, text_view(path)), asked)
                &&& available == search_result(asked) is Some
            },
        path is None ==> !available,
{
    proof {
        reveal_strlit("hermes");
        assert(!has_directory_part("hermes"@));
    }
    find_on_path("hermes", path, probe).is_some()
}

/// Whether a `browse` program is on `PATH`.
pub fn browse_is_available<P: ExecutableProbe>(path: Option<&str>, probe: &mut RecordedProbe<P>) -> (available: bool)
    ensures
        final(probe).probe() == old(probe).probe(),
        exists|asked: Seq<(Seq<char>, bool)>|
            {
                &&& final(probe).log() == old(probe).log() + asked
                &&& #[trigger] probed_in_order(probe_order("browse"@, text_view(path)), asked)
                &&& available == search_result(asked) is Some
            },
        path is None ==> !available,
{
    proof {
        reveal_strlit("browse");
        assert(!has_directory_part("browse"@));
    }
    find_on_path("browse", path, probe).is_some()
}

/// Whether a `curl` program is on `PATH`.
pub fn curl_is_available<P: ExecutableProbe>(path: Option<&str>, probe: &mut RecordedProbe<P>) -> (available: bool)
    ensures
        final(probe).probe() == old(probe).probe(),
        exists|asked: Seq<(Seq<char>, bool)>|
            {
                &&& final(probe).log() == old(probe).log() + asked
                &&& #[trigger] probed_in_order(probe_order("curl"@, text_view(path)), asked)
                &&& available == search_result(asked) is Some
            },
        path is None ==> !available,
{
    proof {
        reveal_strlit("curl");
        assert(!has_directory_part("curl"@));
    }
    find_on_path("curl", path, probe).is_some()
}

} // verus!
