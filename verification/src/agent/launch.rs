//! How a research process is launched: the program and its arguments, and a
//! child environment built afresh from a few inherited runtime variables and
//! the profile's private home, never from the account's own.

use vstd::prelude::*;

use crate::agent::executables::{
    find_on_path, has_directory_part, join_path, joined_path, path_candidates_of, ExecutableProbe, RecordedProbe,
};
use crate::agent::runner::{HermesDashboardError, OutputProtocol, ProcessLimits, ResearchBackend, ResearchLaunchError};
use crate::agent::secrets::{
    all_secret_patterns, ascii_upper, byte_len, dedup, environment_view, sort_by_length, upper_chars, SecretFilter,
};
use crate::text::{chars_of, contains_text, has_substring, is_blank, same_text, str_is_blank};

verus! {

/// The runtime variables a research child keeps from the ambient
/// environment: the search path, locale, time zone, certificates, proxies,
/// and the temporary directory.
pub open spec fn inherited_name(name: Seq<char>) -> bool {
    ||| name == "PATH"@
    ||| name == "LANG"@
    ||| name == "LC_ALL"@
    ||| name == "LC_CTYPE"@
    ||| name == "TZ"@
    ||| name == "SSL_CERT_FILE"@
    ||| name == "SSL_CERT_DIR"@
    ||| name == "HTTP_PROXY"@
    ||| name == "HTTPS_PROXY"@
    ||| name == "ALL_PROXY"@
    ||| name == "NO_PROXY"@
    ||| name == "http_proxy"@
    ||| name == "https_proxy"@
    ||| name == "all_proxy"@
    ||| name == "no_proxy"@
    ||| name == "TMPDIR"@
    ||| name == "SYSTEMROOT"@
    ||| name == "SystemRoot"@
    ||| name == "WINDIR"@
    ||| name == "COMSPEC"@
    ||| name == "PATHEXT"@
}

/// The inherited entries of `ambient`, in order.
pub open spec fn kept_variables(ambient: Seq<(Seq<char>, Seq<char>)>) -> Seq<(Seq<char>, Seq<char>)>
    decreases ambient.len(),
{
    if ambient.len() == 0 {
        Seq::empty()
    } else {
        let kept = kept_variables(ambient.drop_last());
        if inherited_name(ambient.last().0) {
            kept.push(ambient.last())
        } else {
            kept
        }
    }
}

/// The environment of a child confined to `home`: the inherited runtime
/// variables, then `HOME` and the four XDG directories under `home/.xdg`.
pub open spec fn isolated_environment(ambient: Seq<(Seq<char>, Seq<char>)>, home: Seq<char>) -> Seq<
    (Seq<char>, Seq<char>),
> {
    let xdg = joined_path(home, ".xdg"@);
    kept_variables(ambient) + seq![
        ("HOME"@, home),
        ("XDG_CONFIG_HOME"@, joined_path(xdg, "config"@)),
        ("XDG_DATA_HOME"@, joined_path(xdg, "data"@)),
        ("XDG_STATE_HOME"@, joined_path(xdg, "state"@)),
        ("XDG_CACHE_HOME"@, joined_path(xdg, "cache"@)),
    ]
}

/// Whether a variable's upper-cased name mentions a proxy.
pub open spec fn proxy_name(name: Seq<char>) -> bool {
    has_substring(Seq::new(name.len(), |i: int| ascii_upper(name[i])), "PROXY"@)
}

/// The values of the proxy variables of `environment`, in order; a proxy
/// address may carry credentials, so these are redacted from output.
pub open spec fn proxy_values(environment: Seq<(Seq<char>, Seq<char>)>) -> Seq<Seq<char>>
    decreases environment.len(),
{
    if environment.len() == 0 {
        Seq::empty()
    } else {
        let earlier = proxy_values(environment.drop_last());
        if proxy_name(environment.last().0) {
            earlier.push(environment.last().1)
        } else {
            earlier
        }
    }
}

/// The value of the first variable of `environment` named `name`.
pub open spec fn variable(environment: Seq<(Seq<char>, Seq<char>)>, name: Seq<char>) -> Option<Seq<char>>
    decreases environment.len(),
{
    if environment.len() == 0 {
        None
    } else if environment[0].0 == name {
        Some(environment[0].1)
    } else {
        variable(environment.drop_first(), name)
    }
}

/// Every value of `environment` fits twice over in memory.
pub open spec fn values_fit(environment: Seq<(Seq<char>, Seq<char>)>) -> bool {
    forall|i: int| 0 <= i < environment.len() ==> byte_len((#[trigger] environment[i]).1) <= usize::MAX / 2
}

/// The variables a Hermes research child adds to its confined environment.
pub open spec fn hermes_variables(hermes_root: Seq<char>, max_turns: Seq<char>) -> Seq<(Seq<char>, Seq<char>)> {
    seq![
        ("HERMES_HOME"@, hermes_root),
        ("HERMES_MAX_ITERATIONS"@, max_turns),
        ("HERMES_YOLO_MODE"@, "1"@),
        ("HERMES_ACCEPT_HOOKS"@, "1"@),
        ("TERMINAL_HOME_MODE"@, "profile"@),
    ]
}

/// A pair of texts held as strings.
pub open spec fn texts_of(values: Seq<String>) -> Seq<Seq<char>> {
    Seq::new(values.len(), |i: int| values[i]@)
}

/// A resolved set of extra variables for a child, with the secrets among
/// them that its output must never show.
pub struct ResolvedEnvironment {
    pub variables: Vec<(String, String)>,
    pub secrets: Vec<String>,
}

impl ResolvedEnvironment {
    pub fn new(variables: Vec<(String, String)>, secrets: Vec<String>) -> (environment: Self)
        ensures
            environment.variables == variables,
            environment.secrets == secrets,
    {
        ResolvedEnvironment { variables, secrets }
    }
}

/// Everything needed to start one research process.
pub struct ResearchLaunch {
    pub backend: ResearchBackend,
    pub program: String,
    pub arguments: Vec<String>,
    pub current_directory: String,
    pub environment: Vec<(String, String)>,
    pub inherit_environment: bool,
    pub secret_filter: SecretFilter,
    pub protocol: OutputProtocol,
    pub acp_prompt: Option<String>,
    pub limits: ProcessLimits,
}

/// The launch of Hermes in ACP mode for `profile_id`, confined to `home`
/// and started in `scratch`, with `program` as the executable.
pub open spec fn hermes_launch(
    launch: ResearchLaunch,
    program: Seq<char>,
    prompt: Seq<char>,
    scratch: Seq<char>,
    hermes_root: Seq<char>,
    profile_id: Seq<char>,
    home: Seq<char>,
    ambient: Seq<(Seq<char>, Seq<char>)>,
) -> bool {
    let confined = isolated_environment(ambient, home);
    let max_turns = match variable(ambient, "HERMES_MAX_TURNS"@) {
        Some(turns) => turns,
        None => "12"@,
    };
    &&& launch.backend == ResearchBackend::Hermes
    &&& launch.program@ == program
    &&& texts_of(launch.arguments@) == seq!["-p"@, profile_id, "acp"@]
    &&& launch.current_directory@ == scratch
    &&& environment_view(launch.environment@) == confined + hermes_variables(hermes_root, max_turns)
    &&& !launch.inherit_environment
    &&& launch.secret_filter.wf()
    &&& launch.secret_filter.texts() == dedup(sort_by_length(all_secret_patterns(proxy_values(kept_variables(ambient)))))
    &&& launch.protocol == OutputProtocol::HermesAcp
    &&& launch.acp_prompt matches Some(p) && p@ == prompt
    &&& launch.limits == ProcessLimits { max_lines: 131_072u64, ..ProcessLimits::default_limits() }
}

impl ProcessLimits {
    /// The default limits, as a value for contracts.
    pub open spec fn default_limits() -> ProcessLimits {
        ProcessLimits {
            total_timeout: 1_200_000u64,
            idle_timeout: 180_000u64,
            max_line_bytes: 1_048_576usize,
            max_output_bytes: 33_554_432u64,
            max_lines: 8192u64,
        }
    }
}

fn is_inherited(name: &str) -> (r: bool)
    ensures
        r == inherited_name(name@),
{
    same_text(name, "PATH") || same_text(name, "LANG") || same_text(name, "LC_ALL") || same_text(name, "LC_CTYPE")
        || same_text(name, "TZ") || same_text(name, "SSL_CERT_FILE") || same_text(name, "SSL_CERT_DIR")
        || same_text(name, "HTTP_PROXY") || same_text(name, "HTTPS_PROXY") || same_text(name, "ALL_PROXY")
        || same_text(name, "NO_PROXY") || same_text(name, "http_proxy") || same_text(name, "https_proxy")
        || same_text(name, "all_proxy") || same_text(name, "no_proxy") || same_text(name, "TMPDIR")
        || same_text(name, "SYSTEMROOT") || same_text(name, "SystemRoot") || same_text(name, "WINDIR")
        || same_text(name, "COMSPEC") || same_text(name, "PATHEXT")
}

fn names_proxy(name: &str) -> (r: bool)
    ensures
        r == proxy_name(name@),
{
    let upper = upper_chars(&chars_of(name));
    contains_text(&upper, &chars_of("PROXY"))
}

fn pair(name: &str, value: String) -> (p: (String, String))
    ensures
        p.0@ == name@,
        p.1 == value,
{
    (name.to_owned(), value)
}

fn kept_runtime_variables(ambient: &Vec<(String, String)>) -> (kept: Vec<(String, String)>)
    ensures
        environment_view(kept@) == kept_variables(environment_view(ambient@)),
{
    let ghost all = environment_view(ambient@);
    let mut kept: Vec<(String, String)> = Vec::new();
    let mut i: usize = 0;
    assert(all.take(0) =~= Seq::<(Seq<char>, Seq<char>)>::empty());
    assert(environment_view(kept@) =~= Seq::<(Seq<char>, Seq<char>)>::empty());
    while i < ambient.len()
        invariant
            i <= ambient@.len(),
            all == environment_view(ambient@),
            environment_view(kept@) == kept_variables(all.take(i as int)),
        decreases ambient@.len() - i,
    {
        assert(all.take(i + 1).drop_last() =~= all.take(i as int));
        assert(all.take(i + 1).last() == all[i as int]);
        let (name, value) = &ambient[i];
        if is_inherited(name.as_str()) {
            let ghost before = environment_view(kept@);
            kept.push((name.clone(), value.clone()));
            assert(environment_view(kept@) =~= before.push(all[i as int]));
        }
        i = i + 1;
    }
    assert(all.take(ambient@.len() as int) =~= all);
    kept
}

fn confine(mut environment: Vec<(String, String)>, home: &str) -> (confined: Vec<(String, String)>)
    ensures
        environment_view(confined@) == environment_view(environment@) + seq![
            ("HOME"@, home@),
            ("XDG_CONFIG_HOME"@, joined_path(joined_path(home@, ".xdg"@), "config"@)),
            ("XDG_DATA_HOME"@, joined_path(joined_path(home@, ".xdg"@), "data"@)),
            ("XDG_STATE_HOME"@, joined_path(joined_path(home@, ".xdg"@), "state"@)),
            ("XDG_CACHE_HOME"@, joined_path(joined_path(home@, ".xdg"@), "cache"@)),
        ],
{
    let ghost before = environment_view(environment@);
    let xdg = join_path(home, ".xdg");
    environment.push(pair("HOME", home.to_owned()));
    environment.push(pair("XDG_CONFIG_HOME", join_path(xdg.as_str(), "config")));
    environment.push(pair("XDG_DATA_HOME", join_path(xdg.as_str(), "data")));
    environment.push(pair("XDG_STATE_HOME", join_path(xdg.as_str(), "state")));
    environment.push(pair("XDG_CACHE_HOME", join_path(xdg.as_str(), "cache")));
    assert(environment_view(environment@) =~= before + seq![
        ("HOME"@, home@),
        ("XDG_CONFIG_HOME"@, joined_path(joined_path(home@, ".xdg"@), "config"@)),
        ("XDG_DATA_HOME"@, joined_path(joined_path(home@, ".xdg"@), "data"@)),
        ("XDG_STATE_HOME"@, joined_path(joined_path(home@, ".xdg"@), "state"@)),
        ("XDG_CACHE_HOME"@, joined_path(joined_path(home@, ".xdg"@), "cache"@)),
    ]);
    environment
}

/// The environment of a child confined to `home`, built from the ambient
/// environment's inherited runtime variables.
pub fn isolated_runtime_environment(ambient: &Vec<(String, String)>, home: &str) -> (environment: Vec<(String, String)>)
    ensures
        environment_view(environment@) == isolated_environment(environment_view(ambient@), home@),
{
    let kept = kept_runtime_variables(ambient);
    confine(kept, home)
}

proof fn lemma_kept_values_fit(ambient: Seq<(Seq<char>, Seq<char>)>)
    requires
        values_fit(ambient),
    ensures
        values_fit(kept_variables(ambient)),
    decreases ambient.len(),
{
    if ambient.len() > 0 {
        lemma_kept_values_fit(ambient.drop_last());
        assert(values_fit(ambient.drop_last()));
    }
}

fn proxy_secrets(environment: &Vec<(String, String)>) -> (secrets: Vec<String>)
    requires
        values_fit(environment_view(environment@)),
    ensures
        texts_of(secrets@) == proxy_values(environment_view(environment@)),
        forall|i: int| 0 <= i < secrets@.len() ==> byte_len((#[trigger] secrets@[i])@) <= usize::MAX / 2,
{
    let ghost all = environment_view(environment@);
    let mut secrets: Vec<String> = Vec::new();
    let mut i: usize = 0;
    assert(all.take(0) =~= Seq::<(Seq<char>, Seq<char>)>::empty());
    assert(texts_of(secrets@) =~= Seq::<Seq<char>>::empty());
    while i < environment.len()
        invariant
            i <= environment@.len(),
            all == environment_view(environment@),
            values_fit(all),
            texts_of(secrets@) == proxy_values(all.take(i as int)),
            forall|k: int| 0 <= k < secrets@.len() ==> byte_len((#[trigger] secrets@[k])@) <= usize::MAX / 2,
        decreases environment@.len() - i,
    {
        assert(all.take(i + 1).drop_last() =~= all.take(i as int));
        assert(all.take(i + 1).last() == all[i as int]);
        let (name, value) = &environment[i];
        if names_proxy(name.as_str()) {
            let ghost before = texts_of(secrets@);
            assert(byte_len(all[i as int].1) <= usize::MAX / 2);
            secrets.push(value.clone());
            assert(texts_of(secrets@) =~= before.push(all[i as int].1));
        }
        i = i + 1;
    }
    assert(all.take(environment@.len() as int) =~= all);
    secrets
}

fn lookup(environment: &Vec<(String, String)>, name: &str) -> (value: Option<String>)
    ensures
        text_option(value) == variable(environment_view(environment@), name@),
{
    let ghost all = environment_view(environment@);
    let mut i: usize = 0;
    assert(all.skip(0) =~= all);
    while i < environment.len()
        invariant
            i <= environment@.len(),
            all == environment_view(environment@),
            variable(all, name@) == variable(all.skip(i as int), name@),
        decreases environment@.len() - i,
    {
        assert(all.skip(i as int)[0] == all[i as int]);
        assert(all.skip(i as int).drop_first() =~= all.skip(i + 1));
        if same_text(environment[i].0.as_str(), name) {
            return Some(environment[i].1.clone());
        }
        i = i + 1;
    }
    assert(all.skip(environment@.len() as int) =~= Seq::<(Seq<char>, Seq<char>)>::empty());
    None
}

/// The value of the first variable of `environment` named `name`.
pub fn lookup_variable(environment: &Vec<(String, String)>, name: &str) -> (value: Option<String>)
    ensures
        text_option(value) == variable(environment_view(environment@), name@),
{
    lookup(environment, name)
}

pub open spec fn text_option(value: Option<String>) -> Option<Seq<char>> {
    match value {
        Some(v) => Some(v@),
        None => None,
    }
}

impl ResearchLaunch {
    /// A plain launch of `program` with `arguments`: it inherits the ambient
    /// environment and redacts nothing.
    pub fn command(
        backend: ResearchBackend,
        program: String,
        arguments: Vec<String>,
        current_directory: String,
        protocol: OutputProtocol,
        limits: ProcessLimits,
    ) -> (launch: Self)
        ensures
            launch.backend == backend,
            launch.program == program,
            launch.arguments == arguments,
            launch.current_directory == current_directory,
            launch.environment@.len() == 0,
            launch.inherit_environment,
            launch.secret_filter.wf(),
            launch.secret_filter.texts() == Seq::<Seq<char>>::empty(),
            launch.protocol == protocol,
            launch.acp_prompt is None,
            launch.limits == limits,
    {
        ResearchLaunch {
            backend,
            program,
            arguments,
            current_directory,
            environment: Vec::new(),
            inherit_environment: true,
            secret_filter: SecretFilter::new(),
            protocol,
            acp_prompt: None,
            limits,
        }
    }

    /// The Hermes ACP launch for `profile_id`: its child is confined to
    /// `isolated_home`, keeps only the inherited runtime variables of
    /// `ambient`, and has any proxy addresses redacted from its output.
    pub fn hermes(
        program: String,
        prompt: &str,
        scratch_directory: String,
        hermes_root: String,
        profile_id: &str,
        isolated_home: &str,
        ambient: &Vec<(String, String)>,
    ) -> (launch: Self)
        requires
            values_fit(environment_view(ambient@)),
        ensures
            hermes_launch(
                launch,
                program@,
                prompt@,
                scratch_directory@,
                hermes_root@,
                profile_id@,
                isolated_home@,
                environment_view(ambient@),
            ),
    {
        let ghost program_text = program@;
        let ghost root_text = hermes_root@;
        let ghost scratch_text = scratch_directory@;
        let max_turns = match lookup(ambient, "HERMES_MAX_TURNS") {
            Some(turns) => turns,
            None => "12".to_owned(),
        };
        let kept = kept_runtime_variables(ambient);
        proof {
            lemma_kept_values_fit(environment_view(ambient@));
        }
        let proxies = proxy_secrets(&kept);
        let mut secret_filter = SecretFilter::new();
        secret_filter.extend(proxies);
        let mut environment = confine(kept, isolated_home);
        let ghost confined = environment_view(environment@);
        environment.push(pair("HERMES_HOME", hermes_root));
        environment.push(pair("HERMES_MAX_ITERATIONS", max_turns));
        environment.push(pair("HERMES_YOLO_MODE", "1".to_owned()));
        environment.push(pair("HERMES_ACCEPT_HOOKS", "1".to_owned()));
        environment.push(pair("TERMINAL_HOME_MODE", "profile".to_owned()));
        let mut arguments: Vec<String> = Vec::new();
        arguments.push("-p".to_owned());
        arguments.push(profile_id.to_owned());
        arguments.push("acp".to_owned());
        let launch = ResearchLaunch {
            backend: ResearchBackend::Hermes,
            program,
            arguments,
            current_directory: scratch_directory,
            environment,
            inherit_environment: false,
            secret_filter,
            protocol: OutputProtocol::HermesAcp,
            acp_prompt: Some(prompt.to_owned()),
            limits: ProcessLimits::for_acp(),
        };
        assert(texts_of(launch.arguments@) =~= seq!["-p"@, profile_id@, "acp"@]);
        assert(environment_view(launch.environment@) =~= confined + hermes_variables(
            root_text,
            match variable(environment_view(ambient@), "HERMES_MAX_TURNS"@) {
                Some(turns) => turns,
                None => "12"@,
            },
        ));
        launch
    }
}

/// Creates a directory and its missing parents, private to the user.
pub trait PrivateDirectories {
    fn create_private_dir_all(&mut self, path: &str) -> Result<(), String>;
}

/// Directory creation together with the record of every path asked for
/// and its outcome.
pub struct RecordedDirectories<'a, D> {
    directories: &'a mut D,
    requests: Ghost<Seq<(Seq<char>, Result<(), String>)>>,
}

impl<'a, D: PrivateDirectories> RecordedDirectories<'a, D> {
    /// The paths asked for so far, oldest first, with their outcomes.
    pub closed spec fn log(&self) -> Seq<(Seq<char>, Result<(), String>)> {
        self.requests@
    }

    /// The directories, with nothing yet asked of them.
    pub fn new(directories: &'a mut D) -> (r: Self)
        ensures
            r.log() == Seq::<(Seq<char>, Result<(), String>)>::empty(),
    {
        RecordedDirectories { directories, requests: Ghost(Seq::empty()) }
    }

    /// Creates `path` and its missing parents, private to the user.
    pub fn create_private_dir_all(&mut self, path: &str) -> (r: Result<(), String>)
        ensures
            final(self).log() == old(self).log().push((path@, r)),
    {
        let r = self.directories.create_private_dir_all(path);
        proof {
            self.requests@ = self.requests@.push((path@, r));
        }
        r
    }
}

/// The private home of a profile under the Hermes root.
pub open spec fn isolated_home_of(hermes_root: Seq<char>, profile_id: Seq<char>) -> Seq<char> {
    joined_path(joined_path(joined_path(hermes_root, "profiles"@), profile_id), "home"@)
}

/// The directories of an isolated home, in the order they are created:
/// the home, then its XDG configuration, data, state and cache directories.
pub open spec fn home_directories(home: Seq<char>) -> Seq<Seq<char>> {
    let xdg = joined_path(home, ".xdg"@);
    seq![
        home,
        joined_path(xdg, "config"@),
        joined_path(xdg, "data"@),
        joined_path(xdg, "state"@),
        joined_path(xdg, "cache"@),
    ]
}

/// `requests` asks for `paths` in order, stopping at the first refusal;
/// `r` is that refusal, or success when none was refused.
pub open spec fn created_in_order(
    paths: Seq<Seq<char>>,
    requests: Seq<(Seq<char>, Result<(), String>)>,
    r: Result<(), String>,
) -> bool {
    &&& 0 < requests.len() <= paths.len()
    &&& forall|i: int| 0 <= i < requests.len() ==> (#[trigger] requests[i]).0 == paths[i]
    &&& forall|i: int| 0 <= i < requests.len() - 1 ==> (#[trigger] requests[i]).1 is Ok
    &&& if requests.last().1 is Err {
        r == requests.last().1
    } else {
        requests.len() == paths.len() && r is Ok
    }
}

/// Creates the profile's private home and its XDG directories, stopping at
/// the first failure.
pub fn prepare_isolated_home<D: PrivateDirectories>(directories: &mut RecordedDirectories<D>, home: &str) -> (result:
    Result<(), String>)
    ensures
        exists|requests: Seq<(Seq<char>, Result<(), String>)>|
            {
                &&& final(directories).log() == old(directories).log() + requests
                &&& #[trigger] created_in_order(home_directories(home@), requests, result)
            },
{
    let ghost start = directories.log();
    let ghost paths = home_directories(home@);
    let xdg = join_path(home, ".xdg");
    let config = join_path(xdg.as_str(), "config");
    let data = join_path(xdg.as_str(), "data");
    let state = join_path(xdg.as_str(), "state");
    let cache = join_path(xdg.as_str(), "cache");
    assert(paths =~= seq![home@, config@, data@, state@, cache@]);
    let r0 = directories.create_private_dir_all(home);
    if r0.is_err() {
        proof {
            assert(directories.log() =~= start + seq![(home@, r0)]);
            assert(created_in_order(paths, seq![(home@, r0)], r0));
        }
        return r0;
    }
    let r1 = directories.create_private_dir_all(config.as_str());
    if r1.is_err() {
        proof {
            let q = seq![(home@, r0), (config@, r1)];
            assert(directories.log() =~= start + q);
            assert(created_in_order(paths, q, r1));
        }
        return r1;
    }
    let r2 = directories.create_private_dir_all(data.as_str());
    if r2.is_err() {
        proof {
            let q = seq![(home@, r0), (config@, r1), (data@, r2)];
            assert(directories.log() =~= start + q);
            assert(created_in_order(paths, q, r2));
        }
        return r2;
    }
    let r3 = directories.create_private_dir_all(state.as_str());
    if r3.is_err() {
        proof {
            let q = seq![(home@, r0), (config@, r1), (data@, r2), (state@, r3)];
            assert(directories.log() =~= start + q);
            assert(created_in_order(paths, q, r3));
        }
        return r3;
    }
    let r4 = directories.create_private_dir_all(cache.as_str());
    proof {
        let q = seq![(home@, r0), (config@, r1), (data@, r2), (state@, r3), (cache@, r4)];
        assert(directories.log() =~= start + q);
        assert(created_in_order(paths, q, r4));
    }
    r4
}

/// The Hermes ACP launch bound to the installed profile `profile_id`.
/// Provider, model and credential choices stay inside that profile; the
/// launch names no backend or model of its own.
pub fn for_hermes_profile<P: ExecutableProbe, D: PrivateDirectories>(
    prompt: &str,
    scratch_directory: String,
    hermes_root: String,
    profile_id: &str,
    ambient: &Vec<(String, String)>,
    probe: &P,
    directories: &mut D,
) -> (result: Result<ResearchLaunch, ResearchLaunchError>)
    requires
        values_fit(environment_view(ambient@)),
    ensures
        is_blank(prompt@) ==> result == Err::<ResearchLaunch, ResearchLaunchError>(ResearchLaunchError::EmptyQuestion),
        !is_blank(prompt@) && variable(environment_view(ambient@), "PATH"@) is None ==> result == Err::<
            ResearchLaunch,
            ResearchLaunchError,
        >(ResearchLaunchError::MissingHermes),
        result matches Ok(launch) ==> {
            &&& variable(environment_view(ambient@), "PATH"@) matches Some(path) && path_candidates_of(
                "hermes"@,
                path,
            ).contains(launch.program@)
            &&& hermes_launch(
                launch,
                launch.program@,
                prompt@,
                scratch_directory@,
                hermes_root@,
                profile_id@,
                isolated_home_of(hermes_root@, profile_id@),
                environment_view(ambient@),
            )
        },
{
    if str_is_blank(prompt) {
        return Err(ResearchLaunchError::EmptyQuestion);
    }
    let path = lookup(ambient, "PATH");
    let search = match &path {
        Some(p) => Some(p.as_str()),
        None => None,
    };
    proof {
        reveal_strlit("hermes");
        assert(!has_directory_part("hermes"@));
    }
    let program = match find_on_path("hermes", search, &mut RecordedProbe::new(probe)) {
        Some(program) => program,
        None => {
            return Err(ResearchLaunchError::MissingHermes);
        },
    };
    match directories.create_private_dir_all(scratch_directory.as_str()) {
        Ok(()) => {},
        Err(error) => {
            return Err(ResearchLaunchError::Scratch(error));
        },
    }
    let profiles = join_path(hermes_root.as_str(), "profiles");
    let profile = join_path(profiles.as_str(), profile_id);
    let isolated_home = join_path(profile.as_str(), "home");
    match prepare_isolated_home(&mut RecordedDirectories::new(directories), isolated_home.as_str()) {
        Ok(()) => {},
        Err(error) => {
            return Err(ResearchLaunchError::IsolatedHome(error));
        },
    }
    Ok(ResearchLaunch::hermes(program, prompt, scratch_directory, hermes_root, profile_id, isolated_home.as_str(), ambient))
}

impl ResearchLaunch {
    /// Adds a resolved environment: its secrets join the redaction patterns
    /// and its variables follow those already set.
    pub fn with_resolved_environment(self, environment: ResolvedEnvironment) -> (launch: Self)
        requires
            self.secret_filter.wf(),
            forall|i: int| 0 <= i < environment.secrets@.len() ==> byte_len((#[trigger] environment.secrets@[i])@)
                <= usize::MAX / 2,
        ensures
            launch.backend == self.backend,
            launch.program == self.program,
            launch.arguments == self.arguments,
            launch.current_directory == self.current_directory,
            launch.environment@ == self.environment@ + environment.variables@,
            launch.inherit_environment == self.inherit_environment,
            launch.secret_filter.wf(),
            launch.secret_filter.texts() == dedup(
                sort_by_length(self.secret_filter.texts() + all_secret_patterns(texts_of(environment.secrets@))),
            ),
            launch.protocol == self.protocol,
            launch.acp_prompt == self.acp_prompt,
            launch.limits == self.limits,
    {
        let ResolvedEnvironment { mut variables, secrets } = environment;
        let ghost given = secrets@;
        assert(Seq::new(given.len(), |i: int| given[i]@) =~= texts_of(given));
        let mut launch = self;
        launch.secret_filter.extend(secrets);
        launch.environment.append(&mut variables);
        launch
    }
}

/// The command that opens Hermes's own dashboard for a profile, where its
/// provider, model and credentials are managed.
pub struct DashboardCommand {
    pub program: String,
    pub arguments: Vec<String>,
    pub environment: Vec<(String, String)>,
}

/// The dashboard command of `profile_id` under `hermes_root`, with Hermes
/// found on the ambient `PATH`.
pub fn hermes_dashboard_command<P: ExecutableProbe>(
    hermes_root: String,
    profile_id: &str,
    ambient: &Vec<(String, String)>,
    probe: &P,
) -> (result: Result<DashboardCommand, HermesDashboardError>)
    ensures
        variable(environment_view(ambient@), "PATH"@) is None ==> result == Err::<
            DashboardCommand,
            HermesDashboardError,
        >(HermesDashboardError::Missing),
        result matches Ok(command) ==> {
            &&& variable(environment_view(ambient@), "PATH"@) matches Some(path) && path_candidates_of(
                "hermes"@,
                path,
            ).contains(command.program@)
            &&& texts_of(command.arguments@) == seq!["-p"@, profile_id@, "dashboard"@]
            &&& environment_view(command.environment@) == seq![("HERMES_HOME"@, hermes_root@)]
        },
        result matches Err(error) ==> error == HermesDashboardError::Missing,
{
    let path = lookup(ambient, "PATH");
    let search = match &path {
        Some(p) => Some(p.as_str()),
        None => None,
    };
    proof {
        reveal_strlit("hermes");
        assert(!has_directory_part("hermes"@));
    }
    let program = match find_on_path("hermes", search, &mut RecordedProbe::new(probe)) {
        Some(program) => program,
        None => {
            return Err(HermesDashboardError::Missing);
        },
    };
    let ghost root = hermes_root@;
    let mut arguments: Vec<String> = Vec::new();
    arguments.push("-p".to_owned());
    arguments.push(profile_id.to_owned());
    arguments.push("dashboard".to_owned());
    let mut environment: Vec<(String, String)> = Vec::new();
    environment.push(pair("HERMES_HOME", hermes_root));
    assert(texts_of(arguments@) =~= seq!["-p"@, profile_id@, "dashboard"@]);
    assert(environment_view(environment@) =~= seq![("HERMES_HOME"@, root)]);
    Ok(DashboardCommand { program, arguments, environment })
}

} // verus!
