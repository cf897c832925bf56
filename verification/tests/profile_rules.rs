use std::collections::BTreeMap;

use not_news::profile::{
    check_installed, erase_plan, install, legacy_profile_source, owned_profile, plan_install,
    policy_marker_action, profile_is_owned, Entry, InstallPlan, LegacySource, PolicyAction, ProfileError,
    ProfileFiles, ProfilePath, RecordedFiles, InstalledProfile, OWNERSHIP_MARKER_V1, OWNERSHIP_MARKER_V2, POLICY_MARKER_V2, POLICY_VERSION,
};

/// An in-memory profile tree: directories and the files inside them.
#[derive(Default)]
struct MemoryFiles {
    directories: BTreeMap<String, BTreeMap<String, String>>,
    writes: Vec<String>,
    legacy: (bool, bool),
}

fn key(path: ProfilePath) -> String {
    match path {
        ProfilePath::Root => "root".into(),
        ProfilePath::Profiles => "root/profiles".into(),
        ProfilePath::Home => "root/profiles/not-news".into(),
        ProfilePath::Stage => "root/profiles/.not-news.installing".into(),
        ProfilePath::Legacy(LegacySource::NamedProfile) => "legacy/profiles/not-news".into(),
        ProfilePath::Legacy(LegacySource::PreProfileHome) => "legacy/ainews".into(),
    }
}

impl ProfileFiles for MemoryFiles {
    fn display(&self, path: ProfilePath) -> String {
        key(path)
    }

    fn create_private_dir_all(&mut self, path: ProfilePath) -> Result<(), ProfileError> {
        self.directories.entry(key(path)).or_default();
        Ok(())
    }

    fn create_private_dir(&mut self, path: ProfilePath) -> Result<(), ProfileError> {
        self.writes.push(format!("mkdir {}", key(path)));
        self.directories.entry(key(path)).or_default();
        Ok(())
    }

    fn lock(&mut self) -> Result<(), ProfileError> {
        Ok(())
    }

    fn inspect(&mut self, path: ProfilePath) -> Entry {
        match self.directories.get(&key(path)) {
            None => Entry::Absent,
            Some(files) => Entry::Directory { marker: files.get(".not-news-profile").cloned() },
        }
    }

    fn legacy_directories(&mut self) -> (bool, bool) {
        self.legacy
    }

    fn install_once(&mut self, path: ProfilePath, name: &str, contents: &str) -> Result<(), ProfileError> {
        self.writes.push(format!("install {}/{name}", key(path)));
        let files = self.directories.get_mut(&key(path)).expect("directory exists");
        files.entry(name.to_owned()).or_insert_with(|| contents.to_owned());
        Ok(())
    }

    fn rename(&mut self, from: ProfilePath, to: ProfilePath) -> Result<(), ProfileError> {
        self.writes.push(format!("rename {} {}", key(from), key(to)));
        let files = self.directories.remove(&key(from)).expect("source exists");
        self.directories.insert(key(to), files);
        Ok(())
    }

    fn prepare_owned_profile(&mut self, path: ProfilePath) -> Result<(), ProfileError> {
        self.writes.push(format!("prepare {}", key(path)));
        let files = self.directories.get_mut(&key(path)).expect("directory exists");
        files.entry("config.yaml".into()).or_insert_with(|| "terminal:\n  home_mode: profile\n".into());
        Ok(())
    }

    fn read_policy_marker(&mut self, path: ProfilePath) -> Result<Option<String>, ProfileError> {
        Ok(self.directories[&key(path)].get(".not-news-policy-v2").cloned())
    }

    fn write_policy_marker(&mut self, path: ProfilePath, contents: &str) -> Result<(), ProfileError> {
        self.writes.push(format!("policy {}", key(path)));
        self.directories.get_mut(&key(path)).unwrap().insert(".not-news-policy-v2".into(), contents.into());
        Ok(())
    }

    fn sync(&mut self, _path: ProfilePath) -> Result<(), ProfileError> {
        Ok(())
    }
}

/// Installs into the in-memory tree through a recorded file system.
fn run_install(files: &mut MemoryFiles) -> Result<InstalledProfile, ProfileError> {
    let mut recorded = RecordedFiles::new(std::mem::take(files));
    let result = install(&mut recorded, "root".into(), "root/profiles/not-news".into());
    *files = recorded.into_files();
    result
}

#[test]
fn a_first_install_creates_a_marked_profile_with_its_policy() {
    let mut files = MemoryFiles::default();
    let installed = run_install(&mut files).unwrap();
    assert_eq!(installed.policy_version, POLICY_VERSION);
    let home = &files.directories["root/profiles/not-news"];
    assert_eq!(home[".not-news-profile"], OWNERSHIP_MARKER_V2);
    assert_eq!(home[".not-news-policy-v2"], POLICY_MARKER_V2);
    assert!(!files.directories.contains_key("root/profiles/.not-news.installing"));

    let again = run_install(&mut files).unwrap();
    assert_eq!(again, installed);
}

#[test]
fn user_edits_survive_a_reinstall() {
    let mut files = MemoryFiles::default();
    run_install(&mut files).unwrap();
    files
        .directories
        .get_mut("root/profiles/not-news")
        .unwrap()
        .insert("config.yaml".into(), "model:\n  provider: user-choice\n".into());
    run_install(&mut files).unwrap();
    assert_eq!(files.directories["root/profiles/not-news"]["config.yaml"], "model:\n  provider: user-choice\n");
}

#[test]
fn unowned_profiles_and_stages_are_refused_without_writes() {
    for (directory, expected) in [
        (
            "root/profiles/not-news",
            "Hermes profile 'root/profiles/not-news' exists without an unambiguous Not News ownership marker",
        ),
        (
            "root/profiles/.not-news.installing",
            "interrupted profile stage 'root/profiles/.not-news.installing' is not provably owned by Not News",
        ),
    ] {
        let mut files = MemoryFiles::default();
        files
            .directories
            .insert(directory.into(), BTreeMap::from([("config.yaml".to_owned(), "belongs-to-someone-else".to_owned())]));
        let error = run_install(&mut files).unwrap_err();
        assert_eq!(error, ProfileError::AlreadyExists(expected.into()));
        assert!(files.writes.is_empty(), "{:?}", files.writes);
    }
}

#[test]
fn an_interrupted_owned_stage_is_completed() {
    let mut files = MemoryFiles::default();
    files.directories.insert(
        "root/profiles/.not-news.installing".into(),
        BTreeMap::from([(".not-news-profile".to_owned(), OWNERSHIP_MARKER_V2.to_owned())]),
    );
    let installed = run_install(&mut files).unwrap();
    assert_eq!(installed.home, "root/profiles/not-news");
    assert!(files.directories["root/profiles/not-news"].contains_key("config.yaml"));
    assert!(!files.directories.contains_key("root/profiles/.not-news.installing"));
}

#[test]
fn a_legacy_home_is_migrated_with_its_state() {
    let mut files = MemoryFiles { legacy: (false, true), ..MemoryFiles::default() };
    files
        .directories
        .insert("legacy/ainews".into(), BTreeMap::from([("state.db".to_owned(), "durable-session-history".to_owned())]));
    run_install(&mut files).unwrap();
    assert!(!files.directories.contains_key("legacy/ainews"));
    assert_eq!(files.directories["root/profiles/not-news"]["state.db"], "durable-session-history");
    assert_eq!(files.directories["root/profiles/not-news"][".not-news-profile"], OWNERSHIP_MARKER_V2);
}

#[test]
fn a_version_one_profile_advances_its_policy() {
    let mut files = MemoryFiles::default();
    files.directories.insert(
        "root/profiles/not-news".into(),
        BTreeMap::from([
            (".not-news-profile".to_owned(), OWNERSHIP_MARKER_V1.to_owned()),
            ("config.yaml".to_owned(), "user-authored-config".to_owned()),
        ]),
    );
    run_install(&mut files).unwrap();
    let home = &files.directories["root/profiles/not-news"];
    assert_eq!(home["config.yaml"], "user-authored-config");
    assert_eq!(home[".not-news-policy-v2"], POLICY_MARKER_V2);
}

#[test]
fn ownership_and_policy_decisions() {
    assert!(profile_is_owned(Some("not-news-profile-v1\n")));
    assert!(profile_is_owned(Some("not-news-profile-v2\n")));
    assert!(!profile_is_owned(Some("not-news-profile-v2")));
    assert!(!profile_is_owned(None));
    assert_eq!(legacy_profile_source(true, true), Some(LegacySource::NamedProfile));
    assert_eq!(legacy_profile_source(false, true), Some(LegacySource::PreProfileHome));
    assert_eq!(legacy_profile_source(false, false), None);
    assert_eq!(
        plan_install("h", &Entry::Absent, "s", &Entry::Absent, None),
        Ok(InstallPlan::CreateStage)
    );
    assert_eq!(check_installed("h", &Entry::Other), Err(ProfileError::AlreadyExists(
        "Hermes profile 'h' exists without an unambiguous Not News ownership marker".into()
    )));
    assert_eq!(policy_marker_action("m", None), Ok(PolicyAction::Write));
    assert_eq!(policy_marker_action("m", Some(POLICY_MARKER_V2)), Ok(PolicyAction::Keep));
    assert_eq!(
        policy_marker_action("m", Some("other")),
        Err(ProfileError::InvalidData("owned policy marker 'm' has unknown contents".into()))
    );
}

#[test]
fn complete_erase_requires_ownership() {
    let owned = Entry::Directory { marker: Some(OWNERSHIP_MARKER_V2.into()) };
    let unowned = Entry::Directory { marker: None };
    assert_eq!(owned_profile("h", &Entry::Absent), Ok(None));
    assert_eq!(owned_profile("h", &owned), Ok(Some("h".into())));
    assert_eq!(
        owned_profile("h", &unowned),
        Err(ProfileError::PermissionDenied(
            "refusing to treat 'h' as Not News state without its ownership marker".into()
        ))
    );
    assert_eq!(erase_plan("h", &owned, "s", &Entry::Absent), Ok((true, false)));
    assert_eq!(erase_plan("h", &Entry::Absent, "s", &owned), Ok((false, true)));
    assert_eq!(
        erase_plan("h", &owned, "s", &Entry::Other),
        Err(ProfileError::PermissionDenied(
            "refusing complete erase because 's' lacks an exact Not News ownership marker".into()
        ))
    );
}
