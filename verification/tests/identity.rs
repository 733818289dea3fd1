use mixtape_sync::descriptor::PlaylistInfo;
use mixtape_sync::identity::{resolve, PlaylistRecord, Resolution};

fn record(id: &str, name: &str, is_public: Option<bool>) -> PlaylistRecord {
    PlaylistRecord { id: id.to_owned(), name: name.to_owned(), is_public }
}

fn info(title: &str) -> PlaylistInfo {
    PlaylistInfo::new(title, None, None)
}

#[test]
fn public_playlist_is_skipped() {
    let snapshot = vec![record("pb", "X", Some(true))];
    assert_eq!(resolve(&snapshot, &info("X")), Resolution::SkipAlreadyPublic);
}

#[test]
fn private_playlist_is_used() {
    let snapshot = vec![record("pb", "X", Some(false))];
    assert_eq!(resolve(&snapshot, &info("X")), Resolution::UseExisting("pb".to_owned()));
}

#[test]
fn unknown_visibility_counts_as_private() {
    let snapshot = vec![record("pb", "X", None)];
    assert_eq!(resolve(&snapshot, &info("X")), Resolution::UseExisting("pb".to_owned()));
}

#[test]
fn empty_snapshot_creates() {
    assert_eq!(resolve(&Vec::new(), &info("X")), Resolution::CreateNew);
}

#[test]
fn other_names_do_not_match() {
    let snapshot = vec![
        record("pb", "x", Some(true)),
        record("pc", "X ", Some(false)),
        record("X", "Y", Some(false)),
    ];
    assert_eq!(resolve(&snapshot, &info("X")), Resolution::CreateNew);
}

#[test]
fn first_of_several_matches_wins() {
    let snapshot = vec![
        record("pa", "Other", Some(true)),
        record("pb", "X", Some(false)),
        record("pc", "X", Some(true)),
    ];
    assert_eq!(resolve(&snapshot, &info("X")), Resolution::UseExisting("pb".to_owned()));
    let snapshot = vec![record("pc", "X", Some(true)), record("pb", "X", Some(false))];
    assert_eq!(resolve(&snapshot, &info("X")), Resolution::SkipAlreadyPublic);
}
