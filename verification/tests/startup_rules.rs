use not_news::startup::{startup_options, StartupError};

fn arguments(values: &[&str]) -> Vec<String> {
    values.iter().map(|value| (*value).to_owned()).collect()
}

#[test]
fn startup_arguments_separate_import_source_from_destination() {
    let options =
        startup_options(&arguments(&["--database", "destination.sqlite", "--import-legacy", "legacy.sqlite"]))
            .unwrap();
    assert_eq!(options.database.unwrap(), "destination.sqlite");
    assert_eq!(options.import_legacy, Some("legacy.sqlite".to_owned()));
    assert!(startup_options(&arguments(&["--import-legacy"])).is_err());

    let licenses = startup_options(&arguments(&["--licenses"])).unwrap();
    assert!(licenses.show_licenses);
    assert!(startup_options(&arguments(&["--licenses", "--database", "destination.sqlite"])).is_err());

    let performance = startup_options(&arguments(&["--performance-check", "reference.sqlite"])).unwrap();
    assert_eq!(performance.performance_source, Some("reference.sqlite".to_owned()));
    assert!(startup_options(&arguments(&[
        "--performance-check",
        "reference.sqlite",
        "--database",
        "destination.sqlite"
    ]))
    .is_err());

    let capabilities = startup_options(&arguments(&["--capability-check", "empty-data"])).unwrap();
    assert_eq!(capabilities.capability_root, Some("empty-data".to_owned()));
}

#[test]
fn a_lone_path_names_the_graph_and_no_arguments_mean_the_default() {
    let options = startup_options(&arguments(&["graph.sqlite"])).unwrap();
    assert_eq!(options.database, Some("graph.sqlite".to_owned()));
    let default = startup_options(&Vec::new()).unwrap();
    assert_eq!(default.database, None);
    assert!(!default.show_licenses);
}

#[test]
fn each_refusal_names_its_reason() {
    let missing = startup_options(&arguments(&["--import-legacy"])).unwrap_err();
    assert_eq!(missing, StartupError::MissingValue("--import-legacy".into()));
    assert_eq!(missing.message(), "--import-legacy requires a path");
    let repeated = startup_options(&arguments(&["--database", "a", "--database", "b"])).unwrap_err();
    assert_eq!(repeated, StartupError::UnknownOption("--database".into()));
    assert_eq!(repeated.message(), "unknown or repeated option --database");
    let unknown = startup_options(&arguments(&["--verbose", "x"])).unwrap_err();
    assert_eq!(unknown, StartupError::UnknownOption("--verbose".into()));
    let twice = startup_options(&arguments(&["--licenses", "--licenses"])).unwrap_err();
    assert_eq!(twice, StartupError::MissingValue("--licenses".into()));
    let both = startup_options(&arguments(&["--release-self-check", "r", "--capability-check", "c"])).unwrap_err();
    assert_eq!(both, StartupError::ExclusiveChecks);
    assert_eq!(both.message(), "release, performance, and capability checks are exclusive");
}
