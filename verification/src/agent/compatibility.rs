//! The decisions around the Hermes ACP self-check and the tool probes: which
//! outcome each observed run yields, the cache of executable/profile pairs
//! that already passed, and the identity that keys that cache.

use sha2::{Digest, Sha256};

use vstd::prelude::*;

use crate::agent::executables::{
    find_on_path, probe_order, probed_in_order, search_result, text_view, ExecutableProbe, RecordedProbe,
};
use crate::encoding::{hex_encode, hex_text};

use crate::text::{append_str, decode_lossy, same_text, signed_decimal, signed_decimal_text, trim, trimmed, utf8_lossy};

verus! {

/// Evidence that a Hermes executable passed the exact ACP self-check.
#[derive(Clone, Debug, PartialEq, Eq)]
pub struct HermesCompatibility {
    pub executable: String,
    pub evidence: &'static str,
    pub cached: bool,
}

/// Why the Hermes ACP self-check did not pass. Operating-system errors are
/// kept as their messages.
#[derive(Clone, Debug, PartialEq, Eq)]
pub enum HermesCompatibilityError {
    Missing,
    ProfileHome(String),
    Spawn(String),
    Observe(String),
    Timeout,
    Failed { code: String, detail: String },
}

/// Why a tool's version probe did not pass.
#[derive(Clone, Debug, PartialEq, Eq)]
pub enum ToolCapabilityError {
    Missing { tool: String },
    Spawn { tool: String, source: String },
    Timeout { tool: String },
    Failed { tool: String, code: String },
    Observe { tool: String, source: String },
}

/// How an observed probe process ended, as its supervisor saw it.
#[derive(Clone, Debug, PartialEq, Eq)]
pub enum ProbeRun {
    /// The process could not be started.
    SpawnFailed(String),
    /// Waiting on the process failed.
    ObserveFailed(String),
    /// The process outlived its deadline and was killed.
    TimedOut,
    /// The process exited; `stderr` and `stdout` hold what was captured of
    /// each stream, when it was captured.
    Exited { success: bool, code: Option<i32>, stderr: Option<Vec<u8>>, stdout: Option<Vec<u8>> },
}

pub open spec fn compatibility_message(e: HermesCompatibilityError) -> Seq<char> {
    match e {
        HermesCompatibilityError::Missing => "Hermes executable is absent or not executable on PATH"@,
        HermesCompatibilityError::ProfileHome(m) => "Hermes profile-local runtime directories are unavailable: "@
            + m@,
        HermesCompatibilityError::Spawn(m) => "Hermes ACP compatibility check could not start: "@ + m@,
        HermesCompatibilityError::Observe(m) => "Hermes ACP compatibility check could not be observed: "@
            + m@,
        HermesCompatibilityError::Timeout => "Hermes ACP compatibility check exceeded eight seconds"@,
        HermesCompatibilityError::Failed { code, detail } => "Hermes ACP compatibility check failed"@
            + code@ + ": "@ + detail@,
    }
}

impl HermesCompatibilityError {
    /// The error's message, as the application shows it.
    pub fn message(&self) -> (m: String)
        ensures
            m@ == compatibility_message(*self),
    {
        match self {
            HermesCompatibilityError::Missing => "Hermes executable is absent or not executable on PATH".to_owned(),
            HermesCompatibilityError::ProfileHome(e) => {
                let mut m = "Hermes profile-local runtime directories are unavailable: ".to_owned();
                append_str(&mut m, e.as_str());
                m
            },
            HermesCompatibilityError::Spawn(e) => {
                let mut m = "Hermes ACP compatibility check could not start: ".to_owned();
                append_str(&mut m, e.as_str());
                m
            },
            HermesCompatibilityError::Observe(e) => {
                let mut m = "Hermes ACP compatibility check could not be observed: ".to_owned();
                append_str(&mut m, e.as_str());
                m
            },
            HermesCompatibilityError::Timeout => "Hermes ACP compatibility check exceeded eight seconds".to_owned(),
            HermesCompatibilityError::Failed { code, detail } => {
                let mut m = "Hermes ACP compatibility check failed".to_owned();
                append_str(&mut m, code.as_str());
                append_str(&mut m, ": ");
                append_str(&mut m, detail.as_str());
                m
            },
        }
    }
}

pub open spec fn tool_message(e: ToolCapabilityError) -> Seq<char> {
    match e {
        ToolCapabilityError::Missing { tool } => tool@ + " executable is absent or not executable on PATH"@,
        ToolCapabilityError::Spawn { tool, source } => tool@ + " capability probe could not start: "@
            + source@,
        ToolCapabilityError::Timeout { tool } => tool@ + " capability probe exceeded three seconds"@,
        ToolCapabilityError::Failed { tool, code } => tool@ + " capability probe exited unsuccessfully"@
            + code@,
        ToolCapabilityError::Observe { tool, source } => tool@
            + " capability probe could not be observed: "@ + source@,
    }
}

impl ToolCapabilityError {
    /// The error's message, as the application shows it.
    pub fn message(&self) -> (m: String)
        ensures
            m@ == tool_message(*self),
    {
        match self {
            ToolCapabilityError::Missing { tool } => {
                let mut m = tool.clone();
                append_str(&mut m, " executable is absent or not executable on PATH");
                m
            },
            ToolCapabilityError::Spawn { tool, source } => {
                let mut m = tool.clone();
                append_str(&mut m, " capability probe could not start: ");
                append_str(&mut m, source.as_str());
                m
            },
            ToolCapabilityError::Timeout { tool } => {
                let mut m = tool.clone();
                append_str(&mut m, " capability probe exceeded three seconds");
                m
            },
            ToolCapabilityError::Failed { tool, code } => {
                let mut m = tool.clone();
                append_str(&mut m, " capability probe exited unsuccessfully");
                append_str(&mut m, code.as_str());
                m
            },
            ToolCapabilityError::Observe { tool, source } => {
                let mut m = tool.clone();
                append_str(&mut m, " capability probe could not be observed: ");
                append_str(&mut m, source.as_str());
                m
            },
        }
    }
}

/// ` with exit code N` when the process reported an exit code; nothing when
/// a signal ended it.
pub open spec fn exit_code_suffix(code: Option<i32>) -> Seq<char> {
    match code {
        Some(c) => " with exit code "@ + signed_decimal(c as int),
        None => Seq::empty(),
    }
}

pub fn exit_code_text(code: Option<i32>) -> (r: String)
    ensures
        r@ == exit_code_suffix(code),
{
    match code {
        Some(c) => {
            let mut r = " with exit code ".to_owned();
            let digits = signed_decimal_text(c as i64);
            append_str(&mut r, digits.as_str());
            r
        },
        None => String::new(),
    }
}

/// The diagnostic bytes of a failed check: the captured standard error,
/// or the captured standard output when standard error held nothing.
pub open spec fn diagnostic_bytes(stderr: Option<Vec<u8>>, stdout: Option<Vec<u8>>) -> Seq<u8> {
    let first = match stderr {
        Some(b) => b@,
        None => Seq::empty(),
    };
    if first.len() > 0 {
        first
    } else {
        match stdout {
            Some(b) => b@,
            None => Seq::empty(),
        }
    }
}

/// The trimmed text of a failed check's diagnostic output.
pub fn bounded_child_output(stderr: Option<Vec<u8>>, stdout: Option<Vec<u8>>) -> (r: String)
    ensures
        r@ == trim(utf8_lossy(diagnostic_bytes(stderr, stdout))),
{
    let ghost expected = diagnostic_bytes(stderr, stdout);
    let mut bytes: Vec<u8> = match stderr {
        Some(b) => b,
        None => Vec::new(),
    };
    if bytes.len() == 0 {
        bytes = match stdout {
            Some(b) => b,
            None => Vec::new(),
        };
    }
    assert(bytes@ == expected);
    let text = decode_lossy(bytes.as_slice());
    trimmed(text.as_str())
}

/// The executable/profile identities whose ACP self-check already passed in
/// this process.
pub struct CompatibilityCache {
    identities: Vec<String>,
}

impl CompatibilityCache {
    /// Whether `identity` passed before.
    pub closed spec fn holds(&self, identity: Seq<char>) -> bool {
        exists|i: int| 0 <= i < self.identities@.len() && (#[trigger] self.identities@[i])@ == identity
    }

    pub fn new() -> (c: Self)
        ensures
            forall|s: Seq<char>| !c.holds(s),
    {
        CompatibilityCache { identities: Vec::new() }
    }

    pub fn contains(&self, identity: &str) -> (r: bool)
        ensures
            r == self.holds(identity@),
    {
        let mut i: usize = 0;
        while i < self.identities.len()
            invariant
                i <= self.identities@.len(),
                forall|k: int| 0 <= k < i ==> (#[trigger] self.identities@[k])@ != identity@,
            decreases self.identities@.len() - i,
        {
            if same_text(self.identities[i].as_str(), identity) {
                return true;
            }
            i = i + 1;
        }
        false
    }

    /// Remembers that `identity` passed.
    pub fn record(&mut self, identity: String)
        ensures
            forall|s: Seq<char>| final(self).holds(s) <==> (old(self).holds(s) || s == identity@),
    {
        if !self.contains(identity.as_str()) {
            let ghost before = self.identities@;
            self.identities.push(identity);
            assert forall|s: Seq<char>| self.holds(s) <==> (old(self).holds(s) || s == identity@) by {
                if old(self).holds(s) {
                    let i = choose|i: int| 0 <= i < before.len() && (#[trigger] before[i])@ == s;
                    assert(self.identities@[i] == before[i]);
                }
                if self.holds(s) {
                    let i = choose|i: int| 0 <= i < self.identities@.len() && (#[trigger] self.identities@[i])@ == s;
                    if i < before.len() {
                        assert(before[i] == self.identities@[i]);
                    }
                }
                if s == identity@ {
                    assert(self.identities@[before.len() as int] == identity);
                }
            }
        }
    }
}

/// The evidence of a pass remembered from an earlier check, if `identity`
/// passed before.
pub fn cached_compatibility(cache: &CompatibilityCache, executable: &str, identity: &str) -> (r:
    Option<HermesCompatibility>)
    ensures
        cache.holds(identity@) ==> (r matches Some(c) && c.executable@ == executable@ && c.evidence@
            == "cached executable/profile ACP self-check"@ && c.cached),
        !cache.holds(identity@) ==> r is None,
{
    if cache.contains(identity) {
        Some(
            HermesCompatibility {
                executable: executable.to_owned(),
                evidence: "cached executable/profile ACP self-check",
                cached: true,
            },
        )
    } else {
        None
    }
}

/// Finds the Hermes executable for a self-check: the first `PATH`
/// candidate the probe accepts; with none, the check fails as missing.
pub fn locate_hermes<P: ExecutableProbe>(path: Option<&str>, probe: &mut RecordedProbe<P>) -> (r: Result<
    String,
    HermesCompatibilityError,
>)
    ensures
        exists|asked: Seq<(Seq<char>, bool)>|
            {
                &&& final(probe).log() == old(probe).log() + asked
                &&& #[trigger] probed_in_order(probe_order("hermes"@, text_view(path)), asked)
                &&& match r {
                    Ok(program) => search_result(asked) == Some(program@),
                    Err(e) => search_result(asked) is None && e == HermesCompatibilityError::Missing,
                }
            },
{
    match find_on_path("hermes", path, probe) {
        Some(program) => Ok(program),
        None => Err(HermesCompatibilityError::Missing),
    }
}

/// Decides what an ACP self-check run of `executable` establishes. A pass
/// is remembered in `cache` under `identity`, the hash of the executable,
/// the profile configuration and the policy version.
pub fn check_hermes_compatibility(
    cache: &mut CompatibilityCache,
    executable: String,
    identity: String,
    run: ProbeRun,
) -> (r: Result<HermesCompatibility, HermesCompatibilityError>)
    ensures
        run matches ProbeRun::SpawnFailed(e) ==> r == Err::<HermesCompatibility, _>(
            HermesCompatibilityError::Spawn(e),
        ),
        run matches ProbeRun::ObserveFailed(e) ==> r == Err::<HermesCompatibility, _>(
            HermesCompatibilityError::Observe(e),
        ),
        run is TimedOut ==> r == Err::<HermesCompatibility, _>(HermesCompatibilityError::Timeout),
        run matches ProbeRun::Exited { success, code, stderr, stdout } ==> if success {
            &&& r matches Ok(c)
            &&& c.executable == executable
            &&& c.evidence@ == "executable/profile ACP self-check"@
            &&& !c.cached
        } else {
            let detail = trim(utf8_lossy(diagnostic_bytes(stderr, stdout)));
            &&& r matches Err(HermesCompatibilityError::Failed { code: text, detail: shown })
            &&& text@ == exit_code_suffix(code)
            &&& shown@ == (if detail.len() == 0 {
                "no diagnostic was emitted"@
            } else {
                detail
            })
        },
        (run matches ProbeRun::Exited { success, .. } && success) ==> forall|s: Seq<char>|
            final(cache).holds(s) <==> (old(cache).holds(s) || s == identity@),
        !(run matches ProbeRun::Exited { success, .. } && success) ==> forall|s: Seq<char>|
            final(cache).holds(s) == old(cache).holds(s),
{
    match run {
        ProbeRun::SpawnFailed(e) => Err(HermesCompatibilityError::Spawn(e)),
        ProbeRun::ObserveFailed(e) => Err(HermesCompatibilityError::Observe(e)),
        ProbeRun::TimedOut => Err(HermesCompatibilityError::Timeout),
        ProbeRun::Exited { success, code, stderr, stdout } => {
            if success {
                cache.record(identity);
                Ok(
                    HermesCompatibility {
                        executable,
                        evidence: "executable/profile ACP self-check",
                        cached: false,
                    },
                )
            } else {
                let detail = bounded_child_output(stderr, stdout);
                let detail = if detail.as_str().is_empty() {
                    "no diagnostic was emitted".to_owned()
                } else {
                    detail
                };
                Err(HermesCompatibilityError::Failed { code: exit_code_text(code), detail })
            }
        },
    }
}

/// Decides what a version probe of `tool` establishes: a missing executable,
/// a failed start or observation, a timeout, or a nonzero exit is an error;
/// a successful exit yields the executable's path.
pub fn check_tool_capability(tool: &str, executable: Option<String>, run: ProbeRun) -> (r: Result<
    String,
    ToolCapabilityError,
>)
    ensures
        executable is None ==> (r matches Err(ToolCapabilityError::Missing { tool: t }) && t@
            == tool@),
        executable matches Some(path) ==> match run {
            ProbeRun::SpawnFailed(e) => r matches Err(ToolCapabilityError::Spawn { tool: t, source })
                && t@ == tool@ && source == e,
            ProbeRun::ObserveFailed(e) => r matches Err(
                ToolCapabilityError::Observe { tool: t, source },
            ) && t@ == tool@ && source == e,
            ProbeRun::TimedOut => r matches Err(ToolCapabilityError::Timeout { tool: t }) && t@
                == tool@,
            ProbeRun::Exited { success, code, .. } => if success {
                r == Ok::<String, ToolCapabilityError>(path)
            } else {
                r matches Err(ToolCapabilityError::Failed { tool: t, code: text }) && t@ == tool@
                    && text@ == exit_code_suffix(code)
            },
        },
{
    let path = match executable {
        Some(path) => path,
        None => {
            return Err(ToolCapabilityError::Missing { tool: tool.to_owned() });
        },
    };
    match run {
        ProbeRun::SpawnFailed(e) => Err(ToolCapabilityError::Spawn { tool: tool.to_owned(), source: e }),
        ProbeRun::ObserveFailed(e) => Err(
            ToolCapabilityError::Observe { tool: tool.to_owned(), source: e },
        ),
        ProbeRun::TimedOut => Err(ToolCapabilityError::Timeout { tool: tool.to_owned() }),
        ProbeRun::Exited { success, code, .. } => {
            if success {
                Ok(path)
            } else {
                Err(ToolCapabilityError::Failed { tool: tool.to_owned(), code: exit_code_text(code) })
            }
        },
    }
}

/// The SHA-256 digest of `bytes`.
pub uninterp spec fn sha256(bytes: Seq<u8>) -> Seq<u8>;

/// `Sha256::digest`: the 32-byte SHA-256 digest of `bytes`.
#[verifier::external_body]
fn sha256_digest(bytes: &[u8]) -> (d: Vec<u8>)
    ensures
        d@ == sha256(bytes@),
        d@.len() == 32,
{
    Sha256::digest(bytes).to_vec()
}

/// `u32::to_le_bytes`.
pub open spec fn le_bytes(v: u32) -> Seq<u8> {
    seq![(v % 256) as u8, ((v / 256) % 256) as u8, ((v / 65536) % 256) as u8, (v / 16777216) as u8]
}

/// The bytes hashed into a compatibility identity: the executable, a zero
/// byte, the profile configuration, and the policy version in little-endian.
pub open spec fn identity_input(executable: Seq<u8>, config: Seq<u8>, policy_version: u32) -> Seq<u8> {
    executable + seq![0u8] + config + le_bytes(policy_version)
}

/// The cache key of an ACP self-check: the lower-case hexadecimal SHA-256
/// of the executable's bytes, the profile configuration's bytes and the
/// owned policy version.
pub fn compatibility_identity(executable: Vec<u8>, config: Vec<u8>, policy_version: u32) -> (r:
    String)
    ensures
        r@ == hex_text(sha256(identity_input(executable@, config@, policy_version)), false),
{
    let ghost expected = identity_input(executable@, config@, policy_version);
    let mut input = executable;
    let mut rest = config;
    input.push(0u8);
    input.append(&mut rest);
    input.push((policy_version % 256) as u8);
    input.push(((policy_version / 256) % 256) as u8);
    input.push(((policy_version / 65536) % 256) as u8);
    input.push((policy_version / 16777216) as u8);
    assert(input@ =~= expected);
    let digest = sha256_digest(input.as_slice());
    hex_encode(digest.as_slice(), false)
}

} // verus!
