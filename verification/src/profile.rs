//! The application-owned Hermes profile: how ownership is recognised, the
//! decisions that install or advance it without ever adopting a directory
//! that is not provably its own, and what a complete erase may remove.

use vstd::prelude::*;

use crate::text::{append_str, same_text};

verus! {

/// The name of the application's Hermes profile.
pub const PROFILE_ID: &'static str = "not-news";

/// The version of the profile policy that this release installs.
pub const POLICY_VERSION: u32 = 2;

/// The ownership marker of a profile written by the first release.
pub const OWNERSHIP_MARKER_V1: &'static str = "not-news-profile-v1\n";

/// The ownership marker that this release writes.
pub const OWNERSHIP_MARKER_V2: &'static str = "not-news-profile-v2\n";

/// The contents of the version-two policy marker.
pub const POLICY_MARKER_V2: &'static str = "not-news-policy-v2\nterminal.home_mode=profile\n";

/// The file that holds a profile's ownership marker.
pub const OWNERSHIP_MARKER_FILE: &'static str = ".not-news-profile";

/// The file that holds a profile's policy marker.
pub const POLICY_MARKER_FILE: &'static str = ".not-news-policy-v2";

/// The staging directory, beside the profile, of an installation in progress.
pub const INSTALLING_DIRECTORY: &'static str = ".not-news.installing";

/// The lock file that serializes installation and erasure.
pub const INSTALL_LOCK: &'static str = ".not-news.install.lock";

/// The installed profile: the Hermes root, the profile's home, and the
/// policy version in force.
#[derive(Clone, Debug, PartialEq, Eq)]
pub struct InstalledProfile {
    pub root: String,
    pub home: String,
    pub policy_version: u32,
}

/// A profile directory as it was found.
#[derive(Clone, Debug, PartialEq, Eq)]
pub enum Entry {
    /// Nothing exists at the path.
    Absent,
    /// A directory; `marker` holds its ownership marker file's text when
    /// that file could be read.
    Directory { marker: Option<String> },
    /// Something other than a directory.
    Other,
}

/// Why a profile operation was refused. The kind matches the operating
/// system error kind that reports it.
#[derive(Clone, Debug, PartialEq, Eq)]
pub enum ProfileError {
    AlreadyExists(String),
    PermissionDenied(String),
    InvalidData(String),
    Io(String),
}

/// A marker is an ownership marker of either version, exactly.
pub open spec fn owned_marker(marker: Option<String>) -> bool {
    match marker {
        Some(m) => m@ == OWNERSHIP_MARKER_V1@ || m@ == OWNERSHIP_MARKER_V2@,
        None => false,
    }
}

/// An entry is a directory that carries an exact ownership marker.
pub open spec fn owned(entry: Entry) -> bool {
    match entry {
        Entry::Directory { marker } => owned_marker(marker),
        _ => false,
    }
}

/// Whether a marker file's text proves ownership.
pub fn profile_is_owned(marker: Option<&str>) -> (r: bool)
    ensures
        r == match marker {
            Some(m) => m@ == OWNERSHIP_MARKER_V1@ || m@ == OWNERSHIP_MARKER_V2@,
            None => false,
        },
{
    match marker {
        Some(m) => same_text(m, OWNERSHIP_MARKER_V1) || same_text(m, OWNERSHIP_MARKER_V2),
        None => false,
    }
}

fn entry_is_owned(entry: &Entry) -> (r: bool)
    ensures
        r == owned(*entry),
{
    match entry {
        Entry::Directory { marker } => match marker {
            Some(m) => profile_is_owned(Some(m.as_str())),
            None => false,
        },
        _ => false,
    }
}

fn quoted(before: &str, path: &str, after: &str) -> (m: String)
    ensures
        m@ == before@ + path@ + after@,
{
    let mut m = before.to_owned();
    append_str(&mut m, path);
    append_str(&mut m, after);
    m
}

/// The refusal of a profile directory that is not provably owned.
pub open spec fn unowned_profile_text(home: Seq<char>) -> Seq<char> {
    "Hermes profile '"@ + home + "' exists without an unambiguous Not News ownership marker"@
}

/// The refusal of a staging directory that is not provably owned.
pub open spec fn unowned_stage_text(stage: Seq<char>) -> Seq<char> {
    "interrupted profile stage '"@ + stage + "' is not provably owned by Not News"@
}

/// Where an interrupted or legacy installation can be continued from.
#[derive(Clone, Copy, Debug, PartialEq, Eq, Structural)]
pub enum LegacySource {
    /// The legacy root's `profiles/not-news`.
    NamedProfile,
    /// The legacy root's pre-profile `ainews` home.
    PreProfileHome,
}

/// The legacy home to migrate: the named profile when it is a directory,
/// else the pre-profile home when it is one.
pub fn legacy_profile_source(named_is_dir: bool, pre_profile_is_dir: bool) -> (r: Option<LegacySource>)
    ensures
        named_is_dir ==> r == Some(LegacySource::NamedProfile),
        !named_is_dir && pre_profile_is_dir ==> r == Some(LegacySource::PreProfileHome),
        !named_is_dir && !pre_profile_is_dir ==> r is None,
{
    if named_is_dir {
        Some(LegacySource::NamedProfile)
    } else if pre_profile_is_dir {
        Some(LegacySource::PreProfileHome)
    } else {
        None
    }
}

/// How the profile comes to exist.
#[derive(Clone, Copy, Debug, PartialEq, Eq, Structural)]
pub enum InstallPlan {
    /// The profile already exists and is owned; it is only advanced.
    UseHome,
    /// An owned stage from an interrupted installation is completed.
    AdoptStage,
    /// A legacy home is marked, moved to the stage, and completed.
    MigrateLegacy(LegacySource),
    /// A new stage is created, marked, and completed.
    CreateStage,
}

/// The plan for a profile whose home and stage were found as given. An
/// existing home must be owned; when there is none, an existing stage must
/// be owned. Nothing that is not provably owned is ever adopted.
pub open spec fn install_plan(home: Entry, stage: Entry, legacy: Option<LegacySource>) -> Option<InstallPlan> {
    if !(home is Absent) {
        if owned(home) {
            Some(InstallPlan::UseHome)
        } else {
            None
        }
    } else if !(stage is Absent) {
        if owned(stage) {
            Some(InstallPlan::AdoptStage)
        } else {
            None
        }
    } else {
        match legacy {
            Some(source) => Some(InstallPlan::MigrateLegacy(source)),
            None => Some(InstallPlan::CreateStage),
        }
    }
}

/// Decides how to install the profile; refuses an unowned home or stage.
pub fn plan_install(
    home_path: &str,
    home: &Entry,
    stage_path: &str,
    stage: &Entry,
    legacy: Option<LegacySource>,
) -> (r: Result<InstallPlan, ProfileError>)
    ensures
        match install_plan(*home, *stage, legacy) {
            Some(p) => r == Ok::<InstallPlan, ProfileError>(p),
            None => if !(*home is Absent) {
                r matches Err(ProfileError::AlreadyExists(m)) && m@ == unowned_profile_text(home_path@)
            } else {
                r matches Err(ProfileError::AlreadyExists(m)) && m@ == unowned_stage_text(stage_path@)
            },
        },
{
    match home {
        Entry::Absent => {},
        _ => {
            if entry_is_owned(home) {
                return Ok(InstallPlan::UseHome);
            } else {
                return Err(
                    ProfileError::AlreadyExists(
                        quoted(
                            "Hermes profile '",
                            home_path,
                            "' exists without an unambiguous Not News ownership marker",
                        ),
                    ),
                );
            }
        },
    }
    match stage {
        Entry::Absent => {},
        _ => {
            if entry_is_owned(stage) {
                return Ok(InstallPlan::AdoptStage);
            } else {
                return Err(
                    ProfileError::AlreadyExists(
                        quoted("interrupted profile stage '", stage_path, "' is not provably owned by Not News"),
                    ),
                );
            }
        },
    }
    match legacy {
        Some(source) => Ok(InstallPlan::MigrateLegacy(source)),
        None => Ok(InstallPlan::CreateStage),
    }
}

/// Checks the profile once it is in place: it must be an owned directory.
pub fn check_installed(home_path: &str, home: &Entry) -> (r: Result<(), ProfileError>)
    ensures
        owned(*home) ==> r is Ok,
        !owned(*home) ==> (r matches Err(ProfileError::AlreadyExists(m)) && m@ == unowned_profile_text(
            home_path@,
        )),
{
    if entry_is_owned(home) {
        Ok(())
    } else {
        Err(
            ProfileError::AlreadyExists(
                quoted(
                    "Hermes profile '",
                    home_path,
                    "' exists without an unambiguous Not News ownership marker",
                ),
            ),
        )
    }
}

/// What the policy marker asks for.
#[derive(Clone, Copy, Debug, PartialEq, Eq, Structural)]
pub enum PolicyAction {
    /// The current policy is already recorded.
    Keep,
    /// No marker exists; the current one is written.
    Write,
}

/// Decides about the policy marker, given its text (`None` when there is
/// no marker file): the current marker is kept, a missing one is written,
/// and any other text is refused rather than overwritten.
pub fn policy_marker_action(marker_path: &str, contents: Option<&str>) -> (r: Result<PolicyAction, ProfileError>)
    ensures
        contents is None ==> r == Ok::<PolicyAction, ProfileError>(PolicyAction::Write),
        contents matches Some(c) ==> if c@ == POLICY_MARKER_V2@ {
            r == Ok::<PolicyAction, ProfileError>(PolicyAction::Keep)
        } else {
            r matches Err(ProfileError::InvalidData(m)) && m@ == "owned policy marker '"@ + marker_path@
                + "' has unknown contents"@
        },
{
    match contents {
        None => Ok(PolicyAction::Write),
        Some(c) => {
            if same_text(c, POLICY_MARKER_V2) {
                Ok(PolicyAction::Keep)
            } else {
                Err(ProfileError::InvalidData(quoted("owned policy marker '", marker_path, "' has unknown contents")))
            }
        },
    }
}

/// The owned profile's home, if there is one: nothing when it is absent,
/// the home when it is an owned directory, and a refusal otherwise.
pub fn owned_profile(home_path: &str, home: &Entry) -> (r: Result<Option<String>, ProfileError>)
    ensures
        *home is Absent ==> r == Ok::<Option<String>, ProfileError>(None),
        owned(*home) ==> (r matches Ok(Some(h)) && h@ == home_path@),
        !(*home is Absent) && !owned(*home) ==> (r matches Err(ProfileError::PermissionDenied(m)) && m@
            == "refusing to treat '"@ + home_path@ + "' as Not News state without its ownership marker"@),
{
    match home {
        Entry::Absent => Ok(None),
        _ => {
            if entry_is_owned(home) {
                Ok(Some(home_path.to_owned()))
            } else {
                Err(
                    ProfileError::PermissionDenied(
                        quoted("refusing to treat '", home_path, "' as Not News state without its ownership marker"),
                    ),
                )
            }
        },
    }
}

/// What a complete erase removes: the home and the stage, each only when
/// present; any present one that is not owned stops the erase untouched.
pub fn erase_plan(home_path: &str, home: &Entry, stage_path: &str, stage: &Entry) -> (r: Result<
    (bool, bool),
    ProfileError,
>)
    ensures
        !(*home is Absent) && !owned(*home) ==> (r matches Err(ProfileError::PermissionDenied(m)) && m@
            == "refusing to treat '"@ + home_path@ + "' as Not News state without its ownership marker"@),
        (*home is Absent || owned(*home)) && !(*stage is Absent) && !owned(*stage) ==> (r matches Err(
            ProfileError::PermissionDenied(m),
        ) && m@ == "refusing complete erase because '"@ + stage_path@
            + "' lacks an exact Not News ownership marker"@),
        (*home is Absent || owned(*home)) && (*stage is Absent || owned(*stage)) ==> r == Ok::<
            (bool, bool),
            ProfileError,
        >((!(*home is Absent), !(*stage is Absent))),
{
    let home_owned = match owned_profile(home_path, home) {
        Ok(h) => h.is_some(),
        Err(e) => {
            return Err(e);
        },
    };
    match stage {
        Entry::Absent => Ok((home_owned, false)),
        _ => {
            if entry_is_owned(stage) {
                Ok((home_owned, true))
            } else {
                Err(
                    ProfileError::PermissionDenied(
                        quoted(
                            "refusing complete erase because '",
                            stage_path,
                            "' lacks an exact Not News ownership marker",
                        ),
                    ),
                )
            }
        },
    }
}

/// The places that installation works on.
#[derive(Clone, Copy, Debug, PartialEq, Eq, Structural)]
pub enum ProfilePath {
    /// The Hermes root.
    Root,
    /// The root's `profiles` directory.
    Profiles,
    /// The profile's home, `profiles/not-news`.
    Home,
    /// The staging directory beside the home.
    Stage,
    /// A legacy home that can be migrated.
    Legacy(LegacySource),
}

/// The file system under the Hermes root, as installation uses it. Every
/// operation reports a failure as the error to return.
pub trait ProfileFiles {
    /// The path's text, as messages show it.
    fn display(&self, path: ProfilePath) -> String;

    /// Creates the directory and its missing parents, private to the user.
    fn create_private_dir_all(&mut self, path: ProfilePath) -> Result<(), ProfileError>;

    /// Creates the directory, private to the user; an existing directory is fine.
    fn create_private_dir(&mut self, path: ProfilePath) -> Result<(), ProfileError>;

    /// Takes the installation lock, waiting for any other holder.
    fn lock(&mut self) -> Result<(), ProfileError>;

    /// What is at the path.
    fn inspect(&mut self, path: ProfilePath) -> Entry;

    /// Whether the legacy root (if one was given) holds a named profile
    /// directory, and whether it holds a pre-profile home directory.
    fn legacy_directories(&mut self) -> (bool, bool);

    /// Writes `contents` to the new private file `name` in the directory,
    /// unless that file already exists.
    fn install_once(&mut self, path: ProfilePath, name: &str, contents: &str) -> Result<(), ProfileError>;

    /// Moves a directory.
    fn rename(&mut self, from: ProfilePath, to: ProfilePath) -> Result<(), ProfileError>;

    /// Adds the profile's bundled files and directories that are missing;
    /// existing files are left as they are.
    fn prepare_owned_profile(&mut self, path: ProfilePath) -> Result<(), ProfileError>;

    /// The text of the directory's policy marker, or `None` when there is none.
    fn read_policy_marker(&mut self, path: ProfilePath) -> Result<Option<String>, ProfileError>;

    /// Writes the current policy marker through a temporary file and a rename.
    fn write_policy_marker(&mut self, path: ProfilePath, contents: &str) -> Result<(), ProfileError>;

    /// Flushes the directory's entries to storage.
    fn sync(&mut self, path: ProfilePath) -> Result<(), ProfileError>;
}

/// A change that installation asks of the file system.
pub enum ProfileRequest {
    CreateAll(ProfilePath),
    Create(ProfilePath),
    Lock,
    InstallOnce(ProfilePath, Seq<char>, Seq<char>),
    Rename(ProfilePath, ProfilePath),
    Prepare(ProfilePath),
    WriteMarker(ProfilePath, Seq<char>),
    Sync(ProfilePath),
}

/// One exchange with the file system: a change and its outcome, or a
/// question and its answer.
pub enum ProfileOp {
    Done { request: ProfileRequest, reply: Result<(), ProfileError> },
    Inspect { path: ProfilePath, entry: Entry },
    Legacy { named: bool, pre_profile: bool },
    ReadMarker { path: ProfilePath, reply: Result<Option<String>, ProfileError> },
}

/// The file system together with the record of every exchange with it.
pub struct RecordedFiles<F> {
    files: F,
    ops: Ghost<Seq<ProfileOp>>,
}

impl<F: ProfileFiles> RecordedFiles<F> {
    /// The exchanges so far, oldest first.
    pub closed spec fn log(&self) -> Seq<ProfileOp> {
        self.ops@
    }

    /// The file system, with nothing yet asked of it.
    pub fn new(files: F) -> (r: Self)
        ensures
            r.log() == Seq::<ProfileOp>::empty(),
    {
        RecordedFiles { files, ops: Ghost(Seq::empty()) }
    }

    /// The file system.
    pub fn files(&self) -> &F {
        &self.files
    }

    /// The file system, given back.
    pub fn into_files(self) -> F {
        self.files
    }

    fn display(&self, path: ProfilePath) -> String {
        self.files.display(path)
    }

    fn done(&mut self, request: Ghost<ProfileRequest>, reply: Result<(), ProfileError>) -> (r: Result<(), ProfileError>)
        ensures
            r == reply,
            final(self).log() == old(self).log().push(ProfileOp::Done { request: request@, reply }),
    {
        proof {
            self.ops@ = self.ops@.push(ProfileOp::Done { request: request@, reply });
        }
        reply
    }

    fn create_private_dir_all(&mut self, path: ProfilePath) -> (r: Result<(), ProfileError>)
        ensures
            final(self).log() == old(self).log().push(ProfileOp::Done { request: ProfileRequest::CreateAll(path), reply: r }),
    {
        let reply = self.files.create_private_dir_all(path);
        self.done(Ghost(ProfileRequest::CreateAll(path)), reply)
    }

    fn create_private_dir(&mut self, path: ProfilePath) -> (r: Result<(), ProfileError>)
        ensures
            final(self).log() == old(self).log().push(ProfileOp::Done { request: ProfileRequest::Create(path), reply: r }),
    {
        let reply = self.files.create_private_dir(path);
        self.done(Ghost(ProfileRequest::Create(path)), reply)
    }

    fn lock(&mut self) -> (r: Result<(), ProfileError>)
        ensures
            final(self).log() == old(self).log().push(ProfileOp::Done { request: ProfileRequest::Lock, reply: r }),
    {
        let reply = self.files.lock();
        self.done(Ghost(ProfileRequest::Lock), reply)
    }

    fn inspect(&mut self, path: ProfilePath) -> (entry: Entry)
        ensures
            final(self).log() == old(self).log().push(ProfileOp::Inspect { path, entry }),
    {
        let entry = self.files.inspect(path);
        proof {
            self.ops@ = self.ops@.push(ProfileOp::Inspect { path, entry });
        }
        entry
    }

    fn legacy_directories(&mut self) -> (found: (bool, bool))
        ensures
            final(self).log() == old(self).log().push(ProfileOp::Legacy { named: found.0, pre_profile: found.1 }),
    {
        let found = self.files.legacy_directories();
        proof {
            self.ops@ = self.ops@.push(ProfileOp::Legacy { named: found.0, pre_profile: found.1 });
        }
        found
    }

    fn install_once(&mut self, path: ProfilePath, name: &str, contents: &str) -> (r: Result<(), ProfileError>)
        ensures
            final(self).log() == old(self).log().push(
                ProfileOp::Done { request: ProfileRequest::InstallOnce(path, name@, contents@), reply: r },
            ),
    {
        let reply = self.files.install_once(path, name, contents);
        self.done(Ghost(ProfileRequest::InstallOnce(path, name@, contents@)), reply)
    }

    fn rename(&mut self, from: ProfilePath, to: ProfilePath) -> (r: Result<(), ProfileError>)
        ensures
            final(self).log() == old(self).log().push(ProfileOp::Done { request: ProfileRequest::Rename(from, to), reply: r }),
    {
        let reply = self.files.rename(from, to);
        self.done(Ghost(ProfileRequest::Rename(from, to)), reply)
    }

    fn prepare_owned_profile(&mut self, path: ProfilePath) -> (r: Result<(), ProfileError>)
        ensures
            final(self).log() == old(self).log().push(ProfileOp::Done { request: ProfileRequest::Prepare(path), reply: r }),
    {
        let reply = self.files.prepare_owned_profile(path);
        self.done(Ghost(ProfileRequest::Prepare(path)), reply)
    }

    fn read_policy_marker(&mut self, path: ProfilePath) -> (r: Result<Option<String>, ProfileError>)
        ensures
            final(self).log() == old(self).log().push(ProfileOp::ReadMarker { path, reply: r }),
    {
        let r = self.files.read_policy_marker(path);
        proof {
            self.ops@ = self.ops@.push(ProfileOp::ReadMarker { path, reply: r });
        }
        r
    }

    fn write_policy_marker(&mut self, path: ProfilePath, contents: &str) -> (r: Result<(), ProfileError>)
        ensures
            final(self).log() == old(self).log().push(
                ProfileOp::Done { request: ProfileRequest::WriteMarker(path, contents@), reply: r },
            ),
    {
        let reply = self.files.write_policy_marker(path, contents);
        self.done(Ghost(ProfileRequest::WriteMarker(path, contents@)), reply)
    }

    fn sync(&mut self, path: ProfilePath) -> (r: Result<(), ProfileError>)
        ensures
            final(self).log() == old(self).log().push(ProfileOp::Done { request: ProfileRequest::Sync(path), reply: r }),
    {
        let reply = self.files.sync(path);
        self.done(Ghost(ProfileRequest::Sync(path)), reply)
    }
}

/// `op` is the change `request`.
pub open spec fn did(op: ProfileOp, request: ProfileRequest) -> bool {
    op matches ProfileOp::Done { request: asked, .. } && asked == request
}

/// The outcome of a change.
pub open spec fn outcome(op: ProfileOp) -> Result<(), ProfileError> {
    match op {
        ProfileOp::Done { reply, .. } => reply,
        _ => Ok(()),
    }
}

/// `d` begins with the change `request`; when it fails, nothing follows and
/// its error is the result.
pub open spec fn step(d: Seq<ProfileOp>, request: ProfileRequest, r: Result<(), ProfileError>) -> bool {
    &&& d.len() >= 1
    &&& did(d[0], request)
    &&& outcome(d[0]) is Err ==> d.len() == 1 && r == outcome(d[0])
}

/// How many exchanges a successful completion of a profile takes: three
/// when its policy marker is current, four when the marker is written.
pub open spec fn completion_len(d: Seq<ProfileOp>) -> int {
    if d.len() > 1 && d[1] matches ProfileOp::ReadMarker { reply: Ok(None), .. } {
        4
    } else {
        3
    }
}

/// `d` begins with a successful completion of the profile at `p`: its
/// bundled files, its policy marker (kept when current, written when
/// missing), and a sync.
pub open spec fn completion_ok(d: Seq<ProfileOp>, p: ProfilePath) -> bool {
    &&& d.len() >= completion_len(d)
    &&& did(d[0], ProfileRequest::Prepare(p)) && outcome(d[0]) is Ok
    &&& {
        ||| (d[1] matches ProfileOp::ReadMarker { path, reply: Ok(Some(c)) } && path == p && c@ == POLICY_MARKER_V2@
            && did(d[2], ProfileRequest::Sync(p)) && outcome(d[2]) is Ok)
        ||| (d[1] matches ProfileOp::ReadMarker { path, reply: Ok(None) } && path == p && did(
            d[2],
            ProfileRequest::WriteMarker(p, POLICY_MARKER_V2@),
        ) && outcome(d[2]) is Ok && did(d[3], ProfileRequest::Sync(p)) && outcome(d[3]) is Ok)
    }
}

/// `d` is a completion of the profile at `p` that failed, with result `r`:
/// a failed change, a failed read of the marker, or a marker with unknown
/// contents, which is refused rather than overwritten.
pub open spec fn completion_fails(d: Seq<ProfileOp>, p: ProfilePath, r: Result<(), ProfileError>) -> bool {
    &&& d.len() >= 1
    &&& did(d[0], ProfileRequest::Prepare(p))
    &&& if outcome(d[0]) is Err {
        d.len() == 1 && r == outcome(d[0])
    } else {
        &&& d.len() >= 2
        &&& d[1] matches ProfileOp::ReadMarker { path, reply } && path == p && match reply {
            Err(e) => d.len() == 2 && r == Err::<(), ProfileError>(e),
            Ok(Some(c)) => if c@ == POLICY_MARKER_V2@ {
                d.len() == 3 && did(d[2], ProfileRequest::Sync(p)) && outcome(d[2]) is Err && r == outcome(d[2])
            } else {
                d.len() == 2 && r matches Err(ProfileError::InvalidData(_))
            },
            Ok(None) => d.len() >= 3 && did(d[2], ProfileRequest::WriteMarker(p, POLICY_MARKER_V2@)) && if outcome(
                d[2],
            ) is Err {
                d.len() == 3 && r == outcome(d[2])
            } else {
                d.len() == 4 && did(d[3], ProfileRequest::Sync(p)) && outcome(d[3]) is Err && r == outcome(d[3])
            },
        }
    }
}

/// `d` settles on the profile found as `home`: an owned home is completed,
/// anything else is refused with nothing changed.
pub open spec fn settle(d: Seq<ProfileOp>, home: Entry, r: Result<(), ProfileError>) -> bool {
    if owned(home) {
        if r is Ok {
            completion_ok(d, ProfilePath::Home) && d.len() == completion_len(d)
        } else {
            completion_fails(d, ProfilePath::Home, r)
        }
    } else {
        d.len() == 0 && r matches Err(ProfileError::AlreadyExists(_))
    }
}

/// `d` moves the completed stage into place, syncs the profiles directory,
/// and settles on what is then found at the home.
pub open spec fn moved(d: Seq<ProfileOp>, r: Result<(), ProfileError>) -> bool {
    &&& step(d, ProfileRequest::Rename(ProfilePath::Stage, ProfilePath::Home), r)
    &&& outcome(d[0]) is Ok ==> {
        &&& step(d.skip(1), ProfileRequest::Sync(ProfilePath::Profiles), r)
        &&& outcome(d[1]) is Ok ==> (d[2] matches ProfileOp::Inspect { path: ProfilePath::Home, entry } && d.len()
            >= 3 && settle(d.skip(3), entry, r))
    }
}

/// `d` completes the stage, then moves it into place.
pub open spec fn after_stage(d: Seq<ProfileOp>, r: Result<(), ProfileError>) -> bool {
    if completion_ok(d, ProfilePath::Stage) {
        moved(d.skip(completion_len(d)), r)
    } else {
        completion_fails(d, ProfilePath::Stage, r)
    }
}

/// `d` fills an empty stage: a legacy home is marked as owned and moved
/// (not copied) into the stage; without one, a new stage is created and
/// marked. Then the stage is completed and moved into place.
pub open spec fn staged(d: Seq<ProfileOp>, r: Result<(), ProfileError>) -> bool {
    &&& d.len() >= 1
    &&& d[0] matches ProfileOp::Legacy { named, pre_profile } && match install_source(named, pre_profile) {
        Some(source) => {
            &&& step(d.skip(1), ProfileRequest::InstallOnce(
                ProfilePath::Legacy(source),
                OWNERSHIP_MARKER_FILE@,
                OWNERSHIP_MARKER_V2@,
            ), r)
            &&& outcome(d[1]) is Ok ==> {
                &&& step(d.skip(2), ProfileRequest::Rename(ProfilePath::Legacy(source), ProfilePath::Stage), r)
                &&& outcome(d[2]) is Ok ==> after_stage(d.skip(3), r)
            }
        },
        None => {
            &&& step(d.skip(1), ProfileRequest::Create(ProfilePath::Stage), r)
            &&& outcome(d[1]) is Ok ==> {
                &&& step(d.skip(2), ProfileRequest::InstallOnce(
                    ProfilePath::Stage,
                    OWNERSHIP_MARKER_FILE@,
                    OWNERSHIP_MARKER_V2@,
                ), r)
                &&& outcome(d[2]) is Ok ==> after_stage(d.skip(3), r)
            }
        },
    }
}

/// The legacy home a migration would move.
pub open spec fn install_source(named: bool, pre_profile: bool) -> Option<LegacySource> {
    if named {
        Some(LegacySource::NamedProfile)
    } else if pre_profile {
        Some(LegacySource::PreProfileHome)
    } else {
        None
    }
}

/// `d` installs with no profile at the home: an owned stage is adopted, an
/// unowned one is refused with nothing changed, and an empty stage is
/// filled.
pub open spec fn from_stage(d: Seq<ProfileOp>, r: Result<(), ProfileError>) -> bool {
    &&& d.len() >= 1
    &&& d[0] matches ProfileOp::Inspect { path: ProfilePath::Stage, entry } && if entry is Absent {
        staged(d.skip(1), r)
    } else if owned(entry) {
        after_stage(d.skip(1), r)
    } else {
        d.len() == 1 && r matches Err(ProfileError::AlreadyExists(_))
    }
}

/// The whole exchange of an installation with the file system: the Hermes
/// root and its `profiles` directory are created and the lock is taken,
/// each failure ending the run; then the home is inspected. A missing home
/// is installed through the stage; any home is then settled.
pub open spec fn install_run(d: Seq<ProfileOp>, r: Result<(), ProfileError>) -> bool {
    &&& step(d, ProfileRequest::CreateAll(ProfilePath::Root), r)
    &&& outcome(d[0]) is Ok ==> {
        &&& step(d.skip(1), ProfileRequest::CreateAll(ProfilePath::Profiles), r)
        &&& outcome(d[1]) is Ok ==> {
            &&& step(d.skip(2), ProfileRequest::Lock, r)
            &&& outcome(d[2]) is Ok ==> (d[3] matches ProfileOp::Inspect { path: ProfilePath::Home, entry } && d.len()
                >= 4 && if entry is Absent {
                from_stage(d.skip(4), r)
            } else {
                settle(d.skip(4), entry, r)
            })
        }
    }
}

/// What an installation's result says, without the profile it gives.
pub open spec fn unit_result(r: Result<InstalledProfile, ProfileError>) -> Result<(), ProfileError> {
    match r {
        Ok(_) => Ok(()),
        Err(e) => Err(e),
    }
}

/// The exchanges made since `before`.
pub open spec fn added(before: Seq<ProfileOp>, after: Seq<ProfileOp>) -> Seq<ProfileOp> {
    after.skip(before.len() as int)
}

/// `after` extends `before`.
pub open spec fn extends(before: Seq<ProfileOp>, after: Seq<ProfileOp>) -> bool {
    before.len() <= after.len() && after.take(before.len() as int) == before
}

proof fn lemma_extend_one(a: Seq<ProfileOp>, b: Seq<ProfileOp>, op: ProfileOp)
    requires
        extends(a, b),
    ensures
        extends(a, b.push(op)),
        added(a, b.push(op)) == added(a, b).push(op),
{
    assert(b.push(op).take(a.len() as int) =~= b.take(a.len() as int));
    assert(added(a, b.push(op)) =~= added(a, b).push(op));
}

proof fn lemma_extend_trans(a: Seq<ProfileOp>, b: Seq<ProfileOp>, c: Seq<ProfileOp>)
    requires
        extends(a, b),
        extends(b, c),
    ensures
        extends(a, c),
        added(a, c) == added(a, b) + added(b, c),
{
    assert(c.take(a.len() as int) =~= b.take(a.len() as int));
    assert(added(a, c) =~= added(a, b) + added(b, c));
}

proof fn lemma_extend_self(a: Seq<ProfileOp>)
    ensures
        extends(a, a),
        added(a, a) == Seq::<ProfileOp>::empty(),
{
    assert(a.take(a.len() as int) =~= a);
    assert(added(a, a) =~= Seq::<ProfileOp>::empty());
}

/// Records the current policy in the directory, refusing a marker with
/// unknown contents.
fn install_policy_marker<F: ProfileFiles>(files: &mut RecordedFiles<F>, path: ProfilePath) -> (r: Result<(), ProfileError>)
    ensures
        extends(old(files).log(), final(files).log()),
        ({
            let d = added(old(files).log(), final(files).log());
            &&& d.len() >= 1
            &&& d[0] matches ProfileOp::ReadMarker { path: asked, reply } && asked == path && match reply {
                Err(e) => d.len() == 1 && r == Err::<(), ProfileError>(e),
                Ok(Some(c)) => d.len() == 1 && if c@ == POLICY_MARKER_V2@ {
                    r is Ok
                } else {
                    r matches Err(ProfileError::InvalidData(_))
                },
                Ok(None) => d.len() == 2 && d[1] == ProfileOp::Done {
                    request: ProfileRequest::WriteMarker(path, POLICY_MARKER_V2@),
                    reply: r,
                },
            }
        }),
{
    let ghost start = files.log();
    proof {
        lemma_extend_self(start);
    }
    let contents = files.read_policy_marker(path);
    proof {
        lemma_extend_one(start, start, ProfileOp::ReadMarker { path, reply: contents });
    }
    let ghost read = files.log();
    let c = match contents {
        Ok(c) => c,
        Err(e) => {
            return Err(e);
        },
    };
    let mut marker = files.display(path);
    append_str(&mut marker, "/");
    append_str(&mut marker, POLICY_MARKER_FILE);
    let action = match &c {
        Some(c) => policy_marker_action(marker.as_str(), Some(c.as_str())),
        None => policy_marker_action(marker.as_str(), None),
    };
    match action {
        Ok(PolicyAction::Keep) => Ok(()),
        Ok(PolicyAction::Write) => {
            let r = files.write_policy_marker(path, POLICY_MARKER_V2);
            proof {
                lemma_extend_one(start, read, ProfileOp::Done {
                    request: ProfileRequest::WriteMarker(path, POLICY_MARKER_V2@),
                    reply: r,
                });
            }
            r
        },
        Err(e) => Err(e),
    }
}

/// Completes the profile at `path`: its bundled files, its policy, and a sync.
fn complete<F: ProfileFiles>(files: &mut RecordedFiles<F>, path: ProfilePath) -> (r: Result<(), ProfileError>)
    ensures
        extends(old(files).log(), final(files).log()),
        r is Ok ==> completion_ok(added(old(files).log(), final(files).log()), path) && added(
            old(files).log(),
            final(files).log(),
        ).len() == completion_len(added(old(files).log(), final(files).log())),
        r is Err ==> completion_fails(added(old(files).log(), final(files).log()), path, r),
{
    let ghost start = files.log();
    proof {
        lemma_extend_self(start);
    }
    let prepared = files.prepare_owned_profile(path);
    let ghost op0 = ProfileOp::Done { request: ProfileRequest::Prepare(path), reply: prepared };
    proof {
        lemma_extend_one(start, start, op0);
    }
    let ghost one = files.log();
    match prepared {
        Ok(()) => {},
        Err(e) => {
            assert(added(start, files.log()) =~= seq![op0]);
            return Err(e);
        },
    }
    let marked = install_policy_marker(files, path);
    let ghost two = files.log();
    proof {
        lemma_extend_trans(start, one, two);
    }
    let ghost m = added(one, two);
    match marked {
        Ok(()) => {},
        Err(e) => {
            proof {
                assert(added(start, files.log()) =~= seq![op0] + m);
                let d = added(start, files.log());
                assert(d[0] == op0);
                assert(d.len() >= 2 ==> d[1] == m[0]);
                assert(d.len() >= 3 ==> d[2] == m[1]);
            }
            return Err(e);
        },
    }
    let synced = files.sync(path);
    let ghost op_sync = ProfileOp::Done { request: ProfileRequest::Sync(path), reply: synced };
    proof {
        lemma_extend_one(start, two, op_sync);
        let d = added(start, files.log());
        assert(d =~= seq![op0] + m + seq![op_sync]);
        assert(d[0] == op0);
        assert(d[1] == m[0]);
        assert(m.len() == 2 ==> d[2] == m[1] && d[3] == op_sync);
        assert(m.len() == 1 ==> d[2] == op_sync);
    }
    synced
}

/// Installs or advances the application-owned profile under the lock. A
/// home or stage that is not provably owned stops installation before
/// anything in it is changed; an interrupted owned stage is completed; a
/// legacy home is marked and moved into place; otherwise a new profile is
/// created.
pub fn install<F: ProfileFiles>(files: &mut RecordedFiles<F>, root: String, home: String) -> (r: Result<InstalledProfile, ProfileError>)
    ensures
        extends(old(files).log(), final(files).log()),
        install_run(added(old(files).log(), final(files).log()), unit_result(r)),
        r matches Ok(p) ==> p == (InstalledProfile { root, home, policy_version: POLICY_VERSION }),
{
    let ghost start = files.log();
    proof {
        lemma_extend_self(start);
    }
    let created_root = files.create_private_dir_all(ProfilePath::Root);
    let ghost op0 = ProfileOp::Done { request: ProfileRequest::CreateAll(ProfilePath::Root), reply: created_root };
    proof {
        lemma_extend_one(start, start, op0);
    }
    let ghost l1 = files.log();
    match created_root {
        Ok(()) => {},
        Err(e) => {
            assert(added(start, files.log()) =~= seq![op0]);
            return Err(e);
        },
    }
    let created_profiles = files.create_private_dir_all(ProfilePath::Profiles);
    let ghost op1 = ProfileOp::Done { request: ProfileRequest::CreateAll(ProfilePath::Profiles), reply: created_profiles };
    proof {
        lemma_extend_one(start, l1, op1);
    }
    let ghost l2 = files.log();
    match created_profiles {
        Ok(()) => {},
        Err(e) => {
            proof {
                let d = added(start, files.log());
                assert(d =~= seq![op0, op1]);
                assert(d.skip(1) =~= seq![op1]);
            }
            return Err(e);
        },
    }
    let locked = files.lock();
    let ghost op2 = ProfileOp::Done { request: ProfileRequest::Lock, reply: locked };
    proof {
        lemma_extend_one(start, l2, op2);
    }
    let ghost l3 = files.log();
    match locked {
        Ok(()) => {},
        Err(e) => {
            proof {
                let d = added(start, files.log());
                assert(d =~= seq![op0, op1, op2]);
                assert(d.skip(1) =~= seq![op1, op2]);
                assert(d.skip(2) =~= seq![op2]);
            }
            return Err(e);
        },
    }
    let home_path = files.display(ProfilePath::Home);
    let found = files.inspect(ProfilePath::Home);
    let ghost op3 = ProfileOp::Inspect { path: ProfilePath::Home, entry: found };
    proof {
        lemma_extend_one(start, l3, op3);
    }
    let ghost l4 = files.log();
    let result = match found {
        Entry::Absent => install_from_stage(files, home_path.as_str()),
        _ => settle_home(files, home_path.as_str(), &found),
    };
    proof {
        let last = files.log();
        lemma_extend_trans(start, l4, last);
        let d = added(start, last);
        let rest = added(l4, last);
        assert(d =~= seq![op0, op1, op2, op3] + rest);
        assert(d.skip(1) =~= seq![op1, op2, op3] + rest);
        assert(d.skip(2) =~= seq![op2, op3] + rest);
        assert(d.skip(4) =~= rest);
    }
    match result {
        Ok(()) => Ok(InstalledProfile { root, home, policy_version: POLICY_VERSION }),
        Err(e) => Err(e),
    }
}

/// Completes an owned home; refuses anything else unchanged.
fn settle_home<F: ProfileFiles>(files: &mut RecordedFiles<F>, home_path: &str, entry: &Entry) -> (r: Result<(), ProfileError>)
    ensures
        extends(old(files).log(), final(files).log()),
        settle(added(old(files).log(), final(files).log()), *entry, r),
{
    let ghost start = files.log();
    proof {
        lemma_extend_self(start);
    }
    match check_installed(home_path, entry) {
        Ok(()) => {},
        Err(e) => {
            return Err(e);
        },
    }
    complete(files, ProfilePath::Home)
}

/// Moves the completed stage into place, syncs, and settles on the home.
fn move_into_place<F: ProfileFiles>(files: &mut RecordedFiles<F>, home_path: &str) -> (r: Result<(), ProfileError>)
    ensures
        extends(old(files).log(), final(files).log()),
        moved(added(old(files).log(), final(files).log()), r),
{
    let ghost start = files.log();
    proof {
        lemma_extend_self(start);
    }
    let renamed = files.rename(ProfilePath::Stage, ProfilePath::Home);
    let ghost op0 = ProfileOp::Done { request: ProfileRequest::Rename(ProfilePath::Stage, ProfilePath::Home), reply: renamed };
    proof {
        lemma_extend_one(start, start, op0);
    }
    let ghost l1 = files.log();
    match renamed {
        Ok(()) => {},
        Err(e) => {
            assert(added(start, files.log()) =~= seq![op0]);
            return Err(e);
        },
    }
    let synced = files.sync(ProfilePath::Profiles);
    let ghost op1 = ProfileOp::Done { request: ProfileRequest::Sync(ProfilePath::Profiles), reply: synced };
    proof {
        lemma_extend_one(start, l1, op1);
    }
    let ghost l2 = files.log();
    match synced {
        Ok(()) => {},
        Err(e) => {
            proof {
                let d = added(start, files.log());
                assert(d =~= seq![op0, op1]);
                assert(d.skip(1) =~= seq![op1]);
            }
            return Err(e);
        },
    }
    let settled = files.inspect(ProfilePath::Home);
    let ghost op2 = ProfileOp::Inspect { path: ProfilePath::Home, entry: settled };
    proof {
        lemma_extend_one(start, l2, op2);
    }
    let ghost l3 = files.log();
    let r = settle_home(files, home_path, &settled);
    proof {
        let last = files.log();
        lemma_extend_trans(start, l3, last);
        let d = added(start, last);
        let rest = added(l3, last);
        assert(d =~= seq![op0, op1, op2] + rest);
        assert(d.skip(1) =~= seq![op1, op2] + rest);
        assert(d.skip(3) =~= rest);
    }
    r
}

/// A completion followed by more exchanges is still that completion.
proof fn lemma_completion_prefix(c: Seq<ProfileOp>, m: Seq<ProfileOp>, p: ProfilePath)
    requires
        completion_ok(c, p),
        c.len() == completion_len(c),
    ensures
        completion_ok(c + m, p),
        completion_len(c + m) == c.len(),
        (c + m).skip(c.len() as int) == m,
{
    assert((c + m)[0] == c[0]);
    assert((c + m)[1] == c[1]);
    assert((c + m)[2] == c[2]);
    if c.len() == 4 {
        assert((c + m)[3] == c[3]);
    }
    assert((c + m).skip(c.len() as int) =~= m);
}

/// Completes the stage, then moves it into place.
fn finish_stage<F: ProfileFiles>(files: &mut RecordedFiles<F>, home_path: &str) -> (r: Result<(), ProfileError>)
    ensures
        extends(old(files).log(), final(files).log()),
        after_stage(added(old(files).log(), final(files).log()), r),
{
    let ghost start = files.log();
    let completed = complete(files, ProfilePath::Stage);
    let ghost l1 = files.log();
    match completed {
        Ok(()) => {},
        Err(e) => {
            return Err(e);
        },
    }
    let r = move_into_place(files, home_path);
    proof {
        let last = files.log();
        lemma_extend_trans(start, l1, last);
        let c = added(start, l1);
        let m = added(l1, last);
        lemma_completion_prefix(c, m, ProfilePath::Stage);
    }
    r
}

/// Fills an empty stage from a legacy home or anew, then finishes it.
fn fill_stage<F: ProfileFiles>(files: &mut RecordedFiles<F>, home_path: &str) -> (r: Result<(), ProfileError>)
    ensures
        extends(old(files).log(), final(files).log()),
        staged(added(old(files).log(), final(files).log()), r),
{
    let ghost start = files.log();
    proof {
        lemma_extend_self(start);
    }
    let (named, pre_profile) = files.legacy_directories();
    let ghost op0 = ProfileOp::Legacy { named, pre_profile };
    proof {
        lemma_extend_one(start, start, op0);
    }
    let ghost l1 = files.log();
    let legacy = legacy_profile_source(named, pre_profile);
    let first = match legacy {
        Some(source) => files.install_once(ProfilePath::Legacy(source), OWNERSHIP_MARKER_FILE, OWNERSHIP_MARKER_V2),
        None => files.create_private_dir(ProfilePath::Stage),
    };
    let ghost op1 = match legacy {
        Some(source) => ProfileOp::Done {
            request: ProfileRequest::InstallOnce(ProfilePath::Legacy(source), OWNERSHIP_MARKER_FILE@, OWNERSHIP_MARKER_V2@),
            reply: first,
        },
        None => ProfileOp::Done { request: ProfileRequest::Create(ProfilePath::Stage), reply: first },
    };
    proof {
        lemma_extend_one(start, l1, op1);
    }
    let ghost l2 = files.log();
    match first {
        Ok(()) => {},
        Err(e) => {
            proof {
                let d = added(start, files.log());
                assert(d =~= seq![op0, op1]);
                assert(d.skip(1) =~= seq![op1]);
            }
            return Err(e);
        },
    }
    let second = match legacy {
        Some(source) => files.rename(ProfilePath::Legacy(source), ProfilePath::Stage),
        None => files.install_once(ProfilePath::Stage, OWNERSHIP_MARKER_FILE, OWNERSHIP_MARKER_V2),
    };
    let ghost op2 = match legacy {
        Some(source) => ProfileOp::Done {
            request: ProfileRequest::Rename(ProfilePath::Legacy(source), ProfilePath::Stage),
            reply: second,
        },
        None => ProfileOp::Done {
            request: ProfileRequest::InstallOnce(ProfilePath::Stage, OWNERSHIP_MARKER_FILE@, OWNERSHIP_MARKER_V2@),
            reply: second,
        },
    };
    proof {
        lemma_extend_one(start, l2, op2);
    }
    let ghost l3 = files.log();
    match second {
        Ok(()) => {},
        Err(e) => {
            proof {
                let d = added(start, files.log());
                assert(d =~= seq![op0, op1, op2]);
                assert(d.skip(1) =~= seq![op1, op2]);
                assert(d.skip(2) =~= seq![op2]);
            }
            return Err(e);
        },
    }
    let r = finish_stage(files, home_path);
    proof {
        let last = files.log();
        lemma_extend_trans(start, l3, last);
        let d = added(start, last);
        let rest = added(l3, last);
        assert(d =~= seq![op0, op1, op2] + rest);
        assert(d.skip(1) =~= seq![op1, op2] + rest);
        assert(d.skip(2) =~= seq![op2] + rest);
        assert(d.skip(3) =~= rest);
    }
    r
}

/// Installs when no profile is at the home: through an owned stage, a
/// filled empty stage, or a refusal of an unowned stage.
fn install_from_stage<F: ProfileFiles>(files: &mut RecordedFiles<F>, home_path: &str) -> (r: Result<(), ProfileError>)
    ensures
        extends(old(files).log(), final(files).log()),
        from_stage(added(old(files).log(), final(files).log()), r),
{
    let ghost start = files.log();
    proof {
        lemma_extend_self(start);
    }
    let stage_path = files.display(ProfilePath::Stage);
    let stage = files.inspect(ProfilePath::Stage);
    let ghost op0 = ProfileOp::Inspect { path: ProfilePath::Stage, entry: stage };
    proof {
        lemma_extend_one(start, start, op0);
    }
    let ghost l1 = files.log();
    let r = match stage {
        Entry::Absent => fill_stage(files, home_path),
        _ => match plan_install(home_path, &Entry::Absent, stage_path.as_str(), &stage, None) {
            Ok(_) => finish_stage(files, home_path),
            Err(e) => Err(e),
        },
    };
    proof {
        let last = files.log();
        if stage is Absent || owned(stage) {
            lemma_extend_trans(start, l1, last);
        } else {
            lemma_extend_self(l1);
        }
        let d = added(start, last);
        let rest = added(l1, last);
        assert(d =~= seq![op0] + rest);
        assert(d.skip(1) =~= rest);
    }
    r
}

/// The entry that the exchange `op` found at `path`, when it is an
/// inspection of that path.
pub open spec fn found_at(op: ProfileOp, path: ProfilePath) -> Option<Entry> {
    match op {
        ProfileOp::Inspect { path: asked, entry } => if asked == path {
            Some(entry)
        } else {
            None
        },
        _ => None,
    }
}

/// Something is there, and it is not a provably owned profile.
pub open spec fn foreign(entry: Option<Entry>) -> bool {
    entry matches Some(e) && !(e is Absent) && !owned(e)
}

/// Refusal law: an installation that finds at the home something that is
/// not a provably owned profile refuses it, having changed nothing but the
/// Hermes root and `profiles` directories and the lock; so does one that
/// finds no home and an unowned stage.
pub proof fn law_unowned_profile_is_refused_unchanged(d: Seq<ProfileOp>, r: Result<(), ProfileError>)
    requires
        install_run(d, r),
        d.len() >= 4,
        foreign(found_at(d[3], ProfilePath::Home)) || (found_at(d[3], ProfilePath::Home) == Some(Entry::Absent)
            && d.len() >= 5 && foreign(found_at(d[4], ProfilePath::Stage))),
    ensures
        (r matches Err(ProfileError::AlreadyExists(_))),
        foreign(found_at(d[3], ProfilePath::Home)) ==> d.len() == 4,
        !foreign(found_at(d[3], ProfilePath::Home)) ==> d.len() == 5,
{
    assert(d.skip(1)[0] == d[1]);
    assert(d.skip(2)[0] == d[2]);
    assert(d.skip(4).len() == d.len() - 4);
    if d.len() >= 5 {
        assert(d.skip(4)[0] == d[4]);
    }
}

/// Migration law: a successful installation that finds neither a home nor
/// a stage, but a legacy home, marks that home as owned and then renames
/// it into the stage: it is moved, not copied.
pub proof fn law_legacy_home_is_moved(d: Seq<ProfileOp>, r: Result<(), ProfileError>, source: LegacySource)
    requires
        install_run(d, r),
        r is Ok,
        d.len() >= 6,
        found_at(d[3], ProfilePath::Home) == Some(Entry::Absent),
        found_at(d[4], ProfilePath::Stage) == Some(Entry::Absent),
        d[5] is Legacy,
        install_source(d[5]->named, d[5]->pre_profile) == Some(source),
    ensures
        did(d[6], ProfileRequest::InstallOnce(ProfilePath::Legacy(source), OWNERSHIP_MARKER_FILE@, OWNERSHIP_MARKER_V2@)),
        did(d[7], ProfileRequest::Rename(ProfilePath::Legacy(source), ProfilePath::Stage)),
{
    assert(d.skip(1)[0] == d[1]);
    assert(d.skip(2)[0] == d[2]);
    let s = d.skip(4);
    assert(s[0] == d[4]);
    let t = s.skip(1);
    assert(t[0] == d[5]);
    assert(t.skip(1)[0] == d[6]);
    assert(t.skip(2)[0] == d[7]);
}

/// Ownership law: installation proceeds only on a home that is provably
/// owned or absent, and adopts a stage only when it is provably owned; an
/// existing home or stage that is not owned is refused.
pub proof fn law_unowned_directories_are_never_adopted(home: Entry, stage: Entry, legacy: Option<LegacySource>)
    ensures
        install_plan(home, stage, legacy) matches Some(p) ==> (p == InstallPlan::UseHome <==> !(home is Absent)),
        install_plan(home, stage, legacy) == Some(InstallPlan::UseHome) ==> owned(home),
        install_plan(home, stage, legacy) == Some(InstallPlan::AdoptStage) ==> owned(stage),
        !(home is Absent) && !owned(home) ==> install_plan(home, stage, legacy) is None,
        home is Absent && !(stage is Absent) && !owned(stage) ==> install_plan(home, stage, legacy) is None,
{
}

} // verus!
