use mixtape_sync::descriptor::PlaylistInfo;

#[test]
fn description_is_empty_without_url_and_date() {
    let info = PlaylistInfo::new("Show", None, None);
    assert_eq!(info.title, "Show");
    assert_eq!(info.description, "");
}

#[test]
fn description_is_the_url_alone() {
    let info = PlaylistInfo::new("Show", Some("https://example.org/1"), None);
    assert_eq!(info.description, "https://example.org/1");
}

#[test]
fn description_is_the_date_alone() {
    let info = PlaylistInfo::new("Show", None, Some("Wed, 01 Jan 2020 00:00:00 GMT"));
    assert_eq!(info.description, "Posted at Wed, 01 Jan 2020 00:00:00 GMT");
}

#[test]
fn url_takes_precedence_over_date() {
    let info = PlaylistInfo::new("Show", Some("https://example.org/1"), Some("2020-01-01"));
    assert_eq!(info.description, "https://example.org/1");
    assert_eq!(info.title, "Show");
}

#[test]
fn empty_date_still_counts() {
    assert_eq!(PlaylistInfo::new("", None, Some("")).description, "Posted at ");
    assert_eq!(PlaylistInfo::new("", Some(""), Some("x")).description, "");
}
