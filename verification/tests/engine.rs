use mixtape_sync::engine::{Action, EntryRun, Event, FeedEntry, Outcome, Phase};
use mixtape_sync::engine::{PLAYLIST_PAGE_SIZE, SEARCH_PAGE_SIZE};
use mixtape_sync::identity::PlaylistRecord;

/// A catalog held in memory, which notes every call made to it.
struct Catalog {
    playlists: Vec<PlaylistRecord>,
    descriptions: Vec<(String, String)>,
    contents: Vec<(String, Vec<String>)>,
    tracks: Vec<(String, Vec<String>)>,
    calls: Vec<String>,
    failing: Vec<String>,
}

impl Catalog {
    fn new() -> Catalog {
        Catalog {
            playlists: Vec::new(),
            descriptions: Vec::new(),
            contents: Vec::new(),
            tracks: Vec::new(),
            calls: Vec::new(),
            failing: Vec::new(),
        }
    }

    fn fails(&self, call: &str) -> bool {
        self.failing.iter().any(|f| f == call)
    }

    fn perform(&mut self, action: &Action) -> Option<Event> {
        match action {
            Action::ListPlaylists { limit } => {
                assert_eq!(*limit, PLAYLIST_PAGE_SIZE);
                self.calls.push("list".to_owned());
                if self.fails("list") {
                    return Some(Event::Playlists(None));
                }
                Some(Event::Playlists(Some(self.playlists.clone())))
            }
            Action::UpdateDetails { playlist, name, description } => {
                self.calls.push(format!("update {} {} {}", playlist, name, description));
                if self.fails("update") {
                    return Some(Event::Updated(false));
                }
                self.descriptions.push((playlist.clone(), description.clone()));
                Some(Event::Updated(true))
            }
            Action::CreatePlaylist { name, public } => {
                assert!(!*public);
                self.calls.push(format!("create {}", name));
                if self.fails("create") {
                    return Some(Event::Created(None));
                }
                let id = format!("id{}", self.playlists.len());
                self.playlists.push(PlaylistRecord {
                    id: id.clone(),
                    name: name.clone(),
                    is_public: Some(*public),
                });
                Some(Event::Created(Some(id)))
            }
            Action::SearchTrack { text, limit } => {
                assert_eq!(*limit, SEARCH_PAGE_SIZE);
                self.calls.push(format!("search {}", text));
                if self.fails(&format!("search {}", text)) {
                    return Some(Event::Searched(None));
                }
                let found = self.tracks.iter().find(|t| &t.0 == text);
                Some(Event::Searched(Some(found.map(|t| t.1.clone()).unwrap_or_default())))
            }
            Action::AddTracks { playlist, tracks } => {
                self.calls.push(format!("add {} {}", playlist, tracks.join(",")));
                if self.fails("add") {
                    return Some(Event::Added(false));
                }
                self.contents.push((playlist.clone(), tracks.clone()));
                Some(Event::Added(true))
            }
            Action::Publish { playlist } => {
                self.calls.push(format!("publish {}", playlist));
                if self.fails("publish") {
                    return Some(Event::Published(false));
                }
                for p in self.playlists.iter_mut() {
                    if &p.id == playlist {
                        p.is_public = Some(true);
                    }
                }
                Some(Event::Published(true))
            }
            Action::Stop(_) => None,
        }
    }
}

fn run_entry(entry: &FeedEntry, catalog: &mut Catalog) -> (EntryRun, Outcome) {
    let (mut run, mut action) = EntryRun::begin(entry);
    loop {
        if let Action::Stop(outcome) = action {
            return (run, outcome);
        }
        let event = catalog.perform(&action).unwrap();
        action = run.step(event);
    }
}

fn show(description: &str) -> FeedEntry {
    FeedEntry {
        title: Some("Show 2020-01-01".to_owned()),
        description: description.to_owned(),
        published_at: Some("Wed, 01 Jan 2020".to_owned()),
        source_url: Some("https://example.org/show/1".to_owned()),
    }
}

fn two_tracks() -> &'static str {
    "Tonight:\n1 Alpha -- First (1991)\n2 Beta -- Second (1992)\n"
}

fn stocked() -> Catalog {
    let mut catalog = Catalog::new();
    catalog.tracks.push(("Alpha First".to_owned(), vec!["t1".to_owned(), "t1b".to_owned()]));
    catalog.tracks.push(("Beta Second".to_owned(), vec!["t2".to_owned()]));
    catalog
}

fn record(id: &str, name: &str, is_public: Option<bool>) -> PlaylistRecord {
    PlaylistRecord { id: id.to_owned(), name: name.to_owned(), is_public }
}

#[test]
fn page_sizes() {
    assert_eq!(PLAYLIST_PAGE_SIZE, 50);
    assert_eq!(SEARCH_PAGE_SIZE, 10);
}

#[test]
fn new_entry_is_created_filled_and_published() {
    let mut catalog = stocked();
    let (run, outcome) = run_entry(&show(two_tracks()), &mut catalog);
    assert_eq!(outcome, Outcome::Published);
    assert_eq!(run.phase(), Phase::Finished(Outcome::Published));
    assert!(!run.update_failed());
    assert_eq!(
        catalog.calls,
        vec![
            "list",
            "create Show 2020-01-01",
            "search Alpha First",
            "search Beta Second",
            "add id0 t1,t2",
            "publish id0",
        ]
    );
    assert_eq!(catalog.playlists, vec![record("id0", "Show 2020-01-01", Some(true))]);
    assert!(catalog.descriptions.is_empty());
}

#[test]
fn second_run_makes_no_further_calls() {
    let mut catalog = stocked();
    let entry = show(two_tracks());
    let (_, first) = run_entry(&entry, &mut catalog);
    assert_eq!(first, Outcome::Published);
    let before = catalog.calls.len();
    let (run, second) = run_entry(&entry, &mut catalog);
    assert_eq!(second, Outcome::AlreadyPublic);
    assert_eq!(run.phase(), Phase::Finished(Outcome::AlreadyPublic));
    assert_eq!(catalog.calls[before..], ["list"]);
    assert_eq!(catalog.contents.len(), 1);
}

#[test]
fn public_playlist_gets_no_update() {
    let mut catalog = stocked();
    catalog.playlists.push(record("pz", "Show 2020-01-01", Some(true)));
    let (_, outcome) = run_entry(&show(two_tracks()), &mut catalog);
    assert_eq!(outcome, Outcome::AlreadyPublic);
    assert_eq!(catalog.calls, vec!["list"]);
}

#[test]
fn private_playlist_gets_one_update() {
    let mut catalog = stocked();
    catalog.playlists.push(record("pz", "Show 2020-01-01", Some(false)));
    let (run, outcome) = run_entry(&show(two_tracks()), &mut catalog);
    assert_eq!(outcome, Outcome::Published);
    assert!(!run.update_failed());
    assert_eq!(
        catalog.calls,
        vec![
            "list",
            "update pz Show 2020-01-01 https://example.org/show/1",
            "search Alpha First",
            "search Beta Second",
            "add pz t1,t2",
            "publish pz",
        ]
    );
    assert_eq!(
        catalog.descriptions,
        vec![("pz".to_owned(), "https://example.org/show/1".to_owned())]
    );
}

#[test]
fn playlist_of_unknown_visibility_is_used() {
    let mut catalog = stocked();
    catalog.playlists.push(record("pz", "Show 2020-01-01", None));
    let mut entry = show(two_tracks());
    entry.source_url = None;
    let (_, outcome) = run_entry(&entry, &mut catalog);
    assert_eq!(outcome, Outcome::Published);
    assert_eq!(catalog.calls[1], "update pz Show 2020-01-01 Posted at Wed, 01 Jan 2020");
}

#[test]
fn empty_snapshot_creates_without_update() {
    let (mut run, action) = EntryRun::begin(&show(""));
    assert_eq!(action, Action::ListPlaylists { limit: 50 });
    assert_eq!(run.phase(), Phase::AwaitPlaylists);
    let action = run.step(Event::Playlists(Some(Vec::new())));
    assert_eq!(action, Action::CreatePlaylist { name: "Show 2020-01-01".to_owned(), public: false });
    assert_eq!(run.phase(), Phase::AwaitCreate);
}

#[test]
fn entry_without_title_is_passed_over() {
    let mut catalog = stocked();
    let mut entry = show(two_tracks());
    entry.title = None;
    let (run, outcome) = run_entry(&entry, &mut catalog);
    assert_eq!(outcome, Outcome::Untitled);
    assert_eq!(run.phase(), Phase::Finished(Outcome::Untitled));
    assert!(catalog.calls.is_empty());
}

#[test]
fn failed_update_is_noted_and_the_run_goes_on() {
    let mut catalog = stocked();
    catalog.playlists.push(record("pz", "Show 2020-01-01", Some(false)));
    catalog.failing.push("update".to_owned());
    let (run, outcome) = run_entry(&show(two_tracks()), &mut catalog);
    assert_eq!(outcome, Outcome::Published);
    assert!(run.update_failed());
    assert_eq!(catalog.contents, vec![("pz".to_owned(), vec!["t1".to_owned(), "t2".to_owned()])]);
}

#[test]
fn failed_listing_ends_the_run() {
    let mut catalog = stocked();
    catalog.failing.push("list".to_owned());
    let (_, outcome) = run_entry(&show(two_tracks()), &mut catalog);
    assert_eq!(outcome, Outcome::ListingFailed);
    assert_eq!(catalog.calls, vec!["list"]);
}

#[test]
fn failed_create_ends_the_run() {
    let mut catalog = stocked();
    catalog.failing.push("create".to_owned());
    let (_, outcome) = run_entry(&show(two_tracks()), &mut catalog);
    assert_eq!(outcome, Outcome::CreateFailed);
    assert_eq!(catalog.calls, vec!["list", "create Show 2020-01-01"]);
}

#[test]
fn failed_add_leaves_the_playlist_private() {
    let mut catalog = stocked();
    catalog.failing.push("add".to_owned());
    let (_, outcome) = run_entry(&show(two_tracks()), &mut catalog);
    assert_eq!(outcome, Outcome::AddFailed);
    assert_eq!(catalog.calls.last().unwrap(), "add id0 t1,t2");
    assert_eq!(catalog.playlists, vec![record("id0", "Show 2020-01-01", Some(false))]);
}

#[test]
fn failed_publish_leaves_the_playlist_private() {
    let mut catalog = stocked();
    catalog.failing.push("publish".to_owned());
    let (_, outcome) = run_entry(&show(two_tracks()), &mut catalog);
    assert_eq!(outcome, Outcome::PublishFailed);
    assert_eq!(catalog.playlists[0].is_public, Some(false));
    let (_, again) = run_entry(&show(two_tracks()), &mut catalog);
    assert_eq!(again, Outcome::PublishFailed);
    assert_eq!(catalog.calls.len(), 12);
}

#[test]
fn failed_search_drops_that_track_only() {
    let mut catalog = stocked();
    catalog.failing.push("search Alpha First".to_owned());
    let (_, outcome) = run_entry(&show(two_tracks()), &mut catalog);
    assert_eq!(outcome, Outcome::Published);
    assert_eq!(catalog.contents, vec![("id0".to_owned(), vec!["t2".to_owned()])]);
}

#[test]
fn search_without_results_drops_that_track_only() {
    let mut catalog = stocked();
    let text = "1 Alpha -- First (1991)\n2 Gamma -- Third (1993)\n3 Beta -- Second (1992)";
    let (_, outcome) = run_entry(&show(text), &mut catalog);
    assert_eq!(outcome, Outcome::Published);
    assert_eq!(catalog.calls[2..5], ["search Alpha First", "search Gamma Third", "search Beta Second"]);
    assert_eq!(catalog.contents, vec![("id0".to_owned(), vec!["t1".to_owned(), "t2".to_owned()])]);
}

#[test]
fn tracks_found_twice_are_added_twice() {
    let mut catalog = stocked();
    let text = "1 Alpha -- First (1991)\n2 Alpha -- First (1991)";
    let (_, outcome) = run_entry(&show(text), &mut catalog);
    assert_eq!(outcome, Outcome::Published);
    assert_eq!(catalog.contents, vec![("id0".to_owned(), vec!["t1".to_owned(), "t1".to_owned()])]);
}

#[test]
fn entry_without_listing_adds_nothing_and_is_published() {
    let mut catalog = stocked();
    let (_, outcome) = run_entry(&show("no tracks this week"), &mut catalog);
    assert_eq!(outcome, Outcome::Published);
    assert_eq!(catalog.calls, vec!["list", "create Show 2020-01-01", "add id0 ", "publish id0"]);
    assert_eq!(catalog.contents, vec![("id0".to_owned(), Vec::<String>::new())]);
}

#[test]
fn event_out_of_turn_ends_the_run() {
    let (mut run, _) = EntryRun::begin(&show(two_tracks()));
    assert_eq!(run.step(Event::Added(true)), Action::Stop(Outcome::OutOfTurn));
    assert_eq!(run.phase(), Phase::Finished(Outcome::OutOfTurn));

    let (mut run, _) = EntryRun::begin(&show(two_tracks()));
    run.step(Event::Playlists(Some(Vec::new())));
    assert_eq!(run.step(Event::Updated(true)), Action::Stop(Outcome::OutOfTurn));
}

#[test]
fn finished_run_stays_finished() {
    let mut catalog = stocked();
    let (mut run, outcome) = run_entry(&show(two_tracks()), &mut catalog);
    assert_eq!(outcome, Outcome::Published);
    assert_eq!(run.step(Event::Added(false)), Action::Stop(Outcome::Published));
    assert_eq!(run.step(Event::Playlists(None)), Action::Stop(Outcome::Published));
    assert_eq!(run.phase(), Phase::Finished(Outcome::Published));
}

#[test]
fn steps_of_a_run_one_by_one() {
    let (mut run, action) = EntryRun::begin(&show(two_tracks()));
    assert_eq!(action, Action::ListPlaylists { limit: 50 });
    let snapshot = vec![record("a", "Other", Some(true)), record("b", "Show 2020-01-01", None)];
    assert_eq!(
        run.step(Event::Playlists(Some(snapshot))),
        Action::UpdateDetails {
            playlist: "b".to_owned(),
            name: "Show 2020-01-01".to_owned(),
            description: "https://example.org/show/1".to_owned(),
        }
    );
    assert_eq!(run.phase(), Phase::AwaitUpdate);
    assert_eq!(
        run.step(Event::Updated(true)),
        Action::SearchTrack { text: "Alpha First".to_owned(), limit: 10 }
    );
    assert_eq!(run.phase(), Phase::AwaitSearch);
    assert_eq!(
        run.step(Event::Searched(Some(vec!["x".to_owned(), "y".to_owned()]))),
        Action::SearchTrack { text: "Beta Second".to_owned(), limit: 10 }
    );
    assert_eq!(
        run.step(Event::Searched(Some(Vec::new()))),
        Action::AddTracks { playlist: "b".to_owned(), tracks: vec!["x".to_owned()] }
    );
    assert_eq!(run.phase(), Phase::AwaitAdd);
    assert_eq!(run.step(Event::Added(true)), Action::Publish { playlist: "b".to_owned() });
    assert_eq!(run.phase(), Phase::AwaitPublish);
    assert_eq!(run.step(Event::Published(true)), Action::Stop(Outcome::Published));
}
