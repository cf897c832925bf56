use not_news::agent::executables::{
    browse_is_available, curl_is_available, find_on_path, hermes_is_available, path_candidates, ExecutableProbe, RecordedProbe,
};

struct Installed(Vec<&'static str>);

impl ExecutableProbe for Installed {
    fn is_executable(&self, path: &str) -> bool {
        self.0.contains(&path)
    }
}

#[test]
fn path_entries_are_joined_in_order_and_empty_entries_kept() {
    assert_eq!(
        path_candidates("hermes", "/usr/local/bin:/usr/bin/::relative"),
        vec!["/usr/local/bin/hermes", "/usr/bin/hermes", "hermes", "relative/hermes"]
    );
    assert_eq!(path_candidates("hermes", ""), vec!["hermes"]);
    assert_eq!(path_candidates("/opt/hermes", "/usr/bin"), vec!["/opt/hermes"]);
}

#[test]
fn the_first_executable_candidate_wins() {
    let probe = Installed(vec!["/usr/bin/hermes", "/opt/bin/hermes"]);
    assert_eq!(
        find_on_path("hermes", Some("/usr/local/bin:/opt/bin:/usr/bin"), &mut RecordedProbe::new(&probe)),
        Some("/opt/bin/hermes".to_owned())
    );
    assert_eq!(find_on_path("hermes", None, &mut RecordedProbe::new(&probe)), None);
    assert_eq!(find_on_path("hermes", Some("/nowhere"), &mut RecordedProbe::new(&probe)), None);
}

#[test]
fn a_path_with_a_directory_names_itself() {
    let probe = Installed(vec!["./tools/hermes", "/srv/hermes"]);
    assert_eq!(find_on_path("./tools/hermes", None, &mut RecordedProbe::new(&probe)), Some("./tools/hermes".to_owned()));
    assert_eq!(find_on_path("/srv/hermes", Some("/usr/bin"), &mut RecordedProbe::new(&probe)), Some("/srv/hermes".to_owned()));
    let dotted = Installed(vec!["/bin/./"]);
    assert_eq!(find_on_path("./", Some("/bin"), &mut RecordedProbe::new(&dotted)), Some("/bin/./".to_owned()));
}

#[test]
fn availability_asks_for_each_program_by_name() {
    let probe = Installed(vec!["/usr/bin/curl", "/home/u/.local/bin/browse"]);
    let path = Some("/home/u/.local/bin:/usr/bin");
    assert!(!hermes_is_available(path, &mut RecordedProbe::new(&probe)));
    assert!(browse_is_available(path, &mut RecordedProbe::new(&probe)));
    assert!(curl_is_available(path, &mut RecordedProbe::new(&probe)));
    assert!(!curl_is_available(None, &mut RecordedProbe::new(&probe)));
}
