use not_news::graph_files::{graph_family_paths, migration_backup};

#[test]
fn a_graph_is_removed_with_its_journals() {
    assert_eq!(
        graph_family_paths("/data/graph.sqlite"),
        vec![
            "/data/graph.sqlite".to_owned(),
            "/data/graph.sqlite-wal".to_owned(),
            "/data/graph.sqlite-shm".to_owned(),
            "/data/graph.sqlite-journal".to_owned(),
        ]
    );
}

#[test]
fn only_migration_backups_of_the_same_graph_are_removed() {
    assert!(migration_backup("graph", "graph.pre-rust-v4-1-1.sqlite"));
    assert!(migration_backup("graph", "graph.pre-rust-v4.sqlite.tmp"));
    assert!(!migration_backup("graph", "other.pre-rust-v4.sqlite"));
    assert!(!migration_backup("graph", "graph.pre-rust-v4.sqlite.bak"));
    assert!(!migration_backup("graph", "graph.sqlite"));
}
