//! The reconciliation of one feed entry, as a state machine.
//!
//! The catalog is reached by calls that this crate does not make. A run
//! therefore proceeds in turns: it names the next call as an [`Action`], the
//! caller makes it and hands back what came of it as an [`Event`], and the
//! run answers with the action after that, until it stops with an
//! [`Outcome`].

use vstd::prelude::*;
use vstd::string::*;
use crate::descriptor::{derived_description, text_of, PlaylistInfo};
use crate::identity::{
    record_views, resolution_of, resolve, PlaylistRecord, RecordView, Resolution, ResolutionView,
};
use crate::listing::{listing, parse_tracks, search_text_of, views, QueryView, TrackQuery};

verus! {

/// How many playlists the snapshot asked of the catalog holds at most.
pub const PLAYLIST_PAGE_SIZE: u32 = 50;

/// How many results a track search asks for.
pub const SEARCH_PAGE_SIZE: u32 = 10;

/// One published mixtape, as the feed gives it.
#[derive(Clone, Debug, PartialEq, Eq)]
pub struct FeedEntry {
    pub title: Option<String>,
    pub description: String,
    pub published_at: Option<String>,
    pub source_url: Option<String>,
}

pub struct FeedEntryView {
    pub title: Option<Seq<char>>,
    pub description: Seq<char>,
    pub published_at: Option<Seq<char>>,
    pub source_url: Option<Seq<char>>,
}

/// The characters of an optional string.
pub open spec fn optional_text(text: Option<String>) -> Option<Seq<char>> {
    match text {
        Some(t) => Some(t@),
        None => None,
    }
}

/// The characters of each string of a sequence.
pub open spec fn texts(strings: Seq<String>) -> Seq<Seq<char>> {
    strings.map_values(|s: String| s@)
}

impl View for FeedEntry {
    type V = FeedEntryView;

    open spec fn view(&self) -> FeedEntryView {
        FeedEntryView {
            title: optional_text(self.title),
            description: self.description@,
            published_at: optional_text(self.published_at),
            source_url: optional_text(self.source_url),
        }
    }
}

/// How the run of one entry ended.
#[derive(Clone, Copy, Debug, PartialEq, Eq, Structural)]
pub enum Outcome {
    /// The entry has no title and was passed over.
    Untitled,
    /// The entry's playlist is public already: nothing was done.
    AlreadyPublic,
    /// The playlist was filled and made public.
    Published,
    /// The snapshot of playlists could not be had.
    ListingFailed,
    /// The playlist could not be created.
    CreateFailed,
    /// The tracks could not be added; the playlist stays private.
    AddFailed,
    /// The playlist could not be made public; it stays private.
    PublishFailed,
    /// An event came that the run was not waiting for.
    OutOfTurn,
}

/// What a run is waiting for.
#[derive(Clone, Copy, Debug, PartialEq, Eq, Structural)]
pub enum Phase {
    AwaitPlaylists,
    AwaitUpdate,
    AwaitCreate,
    AwaitSearch,
    AwaitAdd,
    AwaitPublish,
    Finished(Outcome),
}

/// What came of the call that the last action named.
#[derive(Clone, Debug, PartialEq, Eq)]
pub enum Event {
    /// The user's playlists, or `None` where the call failed.
    Playlists(Option<Vec<PlaylistRecord>>),
    /// Whether the playlist's details were updated.
    Updated(bool),
    /// The new playlist's id, or `None` where the call failed.
    Created(Option<String>),
    /// The ids of the tracks found, best first, or `None` where the call failed.
    Searched(Option<Vec<String>>),
    /// Whether the tracks were added.
    Added(bool),
    /// Whether the playlist was made public.
    Published(bool),
}

pub enum EventView {
    Playlists(Option<Seq<RecordView>>),
    Updated(bool),
    Created(Option<Seq<char>>),
    Searched(Option<Seq<Seq<char>>>),
    Added(bool),
    Published(bool),
}

impl View for Event {
    type V = EventView;

    open spec fn view(&self) -> EventView {
        match self {
            Event::Playlists(Some(records)) => EventView::Playlists(Some(record_views(records@))),
            Event::Playlists(None) => EventView::Playlists(None),
            Event::Updated(ok) => EventView::Updated(*ok),
            Event::Created(id) => EventView::Created(optional_text(*id)),
            Event::Searched(Some(ids)) => EventView::Searched(Some(texts(ids@))),
            Event::Searched(None) => EventView::Searched(None),
            Event::Added(ok) => EventView::Added(*ok),
            Event::Published(ok) => EventView::Published(*ok),
        }
    }
}

/// The call that the caller is to make next.
#[derive(Clone, Debug, PartialEq, Eq)]
pub enum Action {
    /// Fetch the first page of the user's playlists, of `limit` at most.
    ListPlaylists { limit: u32 },
    /// Set name and description of an existing playlist.
    UpdateDetails { playlist: String, name: String, description: String },
    /// Create a playlist of this name, without a description, public or not.
    CreatePlaylist { name: String, public: bool },
    /// Search the catalog's tracks for this text, and take the first page
    /// of the results, of `limit` at most.
    SearchTrack { text: String, limit: u32 },
    /// Add these tracks to the playlist, in one call, as they stand.
    AddTracks { playlist: String, tracks: Vec<String> },
    /// Make the playlist public.
    Publish { playlist: String },
    /// Make no further call: the run is over.
    Stop(Outcome),
}

pub enum ActionView {
    ListPlaylists { limit: u32 },
    UpdateDetails { playlist: Seq<char>, name: Seq<char>, description: Seq<char> },
    CreatePlaylist { name: Seq<char>, public: bool },
    SearchTrack { text: Seq<char>, limit: u32 },
    AddTracks { playlist: Seq<char>, tracks: Seq<Seq<char>> },
    Publish { playlist: Seq<char> },
    Stop(Outcome),
}

impl View for Action {
    type V = ActionView;

    open spec fn view(&self) -> ActionView {
        match self {
            Action::ListPlaylists { limit } => ActionView::ListPlaylists { limit: *limit },
            Action::UpdateDetails { playlist, name, description } => ActionView::UpdateDetails {
                playlist: playlist@,
                name: name@,
                description: description@,
            },
            Action::CreatePlaylist { name, public } => ActionView::CreatePlaylist {
                name: name@,
                public: *public,
            },
            Action::SearchTrack { text, limit } => ActionView::SearchTrack {
                text: text@,
                limit: *limit,
            },
            Action::AddTracks { playlist, tracks } => ActionView::AddTracks {
                playlist: playlist@,
                tracks: texts(tracks@),
            },
            Action::Publish { playlist } => ActionView::Publish { playlist: playlist@ },
            Action::Stop(outcome) => ActionView::Stop(*outcome),
        }
    }
}

/// The run of one entry: what it waits for and what it has gathered.
#[derive(Debug)]
pub struct EntryRun {
    phase: Phase,
    info: PlaylistInfo,
    text: String,
    playlist: String,
    queries: Vec<TrackQuery>,
    next: usize,
    tracks: Vec<String>,
    update_failed: bool,
}

pub struct RunView {
    pub phase: Phase,
    /// The playlist's name.
    pub title: Seq<char>,
    /// The playlist's description.
    pub description: Seq<char>,
    /// The entry's text, which holds the track listing.
    pub text: Seq<char>,
    /// The id of the playlist, once it is known.
    pub playlist: Seq<char>,
    /// The listing's queries, once the text has been read.
    pub queries: Seq<QueryView>,
    /// How many of the queries have been searched.
    pub next: int,
    /// The ids of the tracks found so far, in the order of their queries.
    pub tracks: Seq<Seq<char>>,
    /// Whether the update of an existing playlist's details failed.
    pub update_failed: bool,
}

impl View for EntryRun {
    type V = RunView;

    closed spec fn view(&self) -> RunView {
        RunView {
            phase: self.phase,
            title: self.info.title@,
            description: self.info.description@,
            text: self.text@,
            playlist: self.playlist@,
            queries: views(self.queries@),
            next: self.next as int,
            tracks: texts(self.tracks@),
            update_failed: self.update_failed,
        }
    }
}

/// What holds of every run: no more queries are counted as searched than
/// there are, and a run that waits for a search has a query to search.
pub open spec fn run_is_valid(run: RunView) -> bool {
    &&& 0 <= run.next <= run.queries.len()
    &&& run.phase == Phase::AwaitSearch ==> run.next < run.queries.len()
}

/// The run is over, with this outcome.
pub open spec fn finish(run: RunView, outcome: Outcome) -> (RunView, ActionView) {
    (RunView { phase: Phase::Finished(outcome), ..run }, ActionView::Stop(outcome))
}

/// The next query is searched; when none is left, the tracks are added.
pub open spec fn proceed(run: RunView) -> (RunView, ActionView) {
    if 0 <= run.next < run.queries.len() {
        (
            RunView { phase: Phase::AwaitSearch, ..run },
            ActionView::SearchTrack {
                text: search_text_of(run.queries[run.next]),
                limit: SEARCH_PAGE_SIZE,
            },
        )
    } else {
        (
            RunView { phase: Phase::AwaitAdd, ..run },
            ActionView::AddTracks { playlist: run.playlist, tracks: run.tracks },
        )
    }
}

/// The playlist is known: the listing is read and the searches begin.
pub open spec fn start_search(run: RunView) -> (RunView, ActionView) {
    proceed(
        RunView { queries: listing(run.text), next: 0, tracks: Seq::<Seq<char>>::empty(), ..run },
    )
}

/// The track that a search resolves to: the first of its results, if the
/// search came back and found any.
pub open spec fn first_result(result: Option<Seq<Seq<char>>>) -> Option<Seq<char>> {
    match result {
        Some(ids) => if ids.len() > 0 {
            Some(ids[0])
        } else {
            None
        },
        None => None,
    }
}

/// The tracks after one more search.
pub open spec fn with_result(tracks: Seq<Seq<char>>, result: Option<Seq<Seq<char>>>) -> Seq<
    Seq<char>,
> {
    match first_result(result) {
        Some(id) => tracks.push(id),
        None => tracks,
    }
}

/// The first turn of an entry's run.
pub open spec fn begin_of(entry: FeedEntryView) -> (RunView, ActionView) {
    let blank = RunView {
        phase: Phase::Finished(Outcome::Untitled),
        title: Seq::<char>::empty(),
        description: Seq::<char>::empty(),
        text: entry.description,
        playlist: Seq::<char>::empty(),
        queries: Seq::<QueryView>::empty(),
        next: 0,
        tracks: Seq::<Seq<char>>::empty(),
        update_failed: false,
    };
    match entry.title {
        None => (blank, ActionView::Stop(Outcome::Untitled)),
        Some(title) => (
            RunView {
                phase: Phase::AwaitPlaylists,
                title: title,
                description: derived_description(entry.source_url, entry.published_at),
                ..blank
            },
            ActionView::ListPlaylists { limit: PLAYLIST_PAGE_SIZE },
        ),
    }
}

/// One turn: the run after an event, and the action it answers with.
///
/// A run that is over stays as it is. A failed update of an existing
/// playlist's details is noted and the run goes on; every other failed call
/// ends the run. An event that the run was not waiting for ends it too.
pub open spec fn step_of(run: RunView, event: EventView) -> (RunView, ActionView) {
    match (run.phase, event) {
        (Phase::Finished(outcome), _) => (run, ActionView::Stop(outcome)),
        (Phase::AwaitPlaylists, EventView::Playlists(Some(records))) => match resolution_of(
            records,
            run.title,
        ) {
            ResolutionView::SkipAlreadyPublic => finish(run, Outcome::AlreadyPublic),
            ResolutionView::UseExisting(id) => (
                RunView { phase: Phase::AwaitUpdate, playlist: id, ..run },
                ActionView::UpdateDetails {
                    playlist: id,
                    name: run.title,
                    description: run.description,
                },
            ),
            ResolutionView::CreateNew => (
                RunView { phase: Phase::AwaitCreate, ..run },
                ActionView::CreatePlaylist { name: run.title, public: false },
            ),
        },
        (Phase::AwaitPlaylists, EventView::Playlists(None)) => finish(run, Outcome::ListingFailed),
        (Phase::AwaitUpdate, EventView::Updated(ok)) => start_search(
            RunView { update_failed: !ok, ..run },
        ),
        (Phase::AwaitCreate, EventView::Created(Some(id))) => start_search(
            RunView { playlist: id, ..run },
        ),
        (Phase::AwaitCreate, EventView::Created(None)) => finish(run, Outcome::CreateFailed),
        (Phase::AwaitSearch, EventView::Searched(result)) => proceed(
            RunView { next: run.next + 1, tracks: with_result(run.tracks, result), ..run },
        ),
        (Phase::AwaitAdd, EventView::Added(true)) => (
            RunView { phase: Phase::AwaitPublish, ..run },
            ActionView::Publish { playlist: run.playlist },
        ),
        (Phase::AwaitAdd, EventView::Added(false)) => finish(run, Outcome::AddFailed),
        (Phase::AwaitPublish, EventView::Published(true)) => finish(run, Outcome::Published),
        (Phase::AwaitPublish, EventView::Published(false)) => finish(run, Outcome::PublishFailed),
        _ => finish(run, Outcome::OutOfTurn),
    }
}

fn as_text(text: &Option<String>) -> (r: Option<&str>)
    ensures
        text_of(r) == optional_text(*text),
{
    match text {
        Some(t) => Some(t.as_str()),
        None => None,
    }
}

fn copy_texts(strings: &Vec<String>) -> (copy: Vec<String>)
    ensures
        texts(copy@) == texts(strings@),
{
    let mut copy: Vec<String> = Vec::new();
    let mut i: usize = 0;
    while i < strings.len()
        invariant
            i <= strings.len(),
            texts(copy@) == texts(strings@.take(i as int)),
        decreases strings.len() - i,
    {
        let ghost before = texts(copy@);
        copy.push(strings[i].clone());
        proof {
            assert(texts(copy@) =~= before.push(strings@[i as int]@));
            assert(texts(strings@.take(i + 1)) =~= texts(strings@.take(i as int)).push(
                strings@[i as int]@,
            ));
        }
        i += 1;
    }
    proof {
        assert(strings@.take(i as int) =~= strings@);
    }
    copy
}

impl EntryRun {
    /// Whether the run holds together; see [`run_is_valid`].
    pub closed spec fn wf(&self) -> bool {
        run_is_valid(self@)
    }

    /// Starts the run of an entry. An entry without a title is over at once;
    /// any other asks for the user's playlists first.
    pub fn begin(entry: &FeedEntry) -> (started: (EntryRun, Action))
        ensures
            started.0.wf(),
            (started.0@, started.1@) == begin_of(entry@),
    {
        match &entry.title {
            None => {
                let run = EntryRun {
                    phase: Phase::Finished(Outcome::Untitled),
                    info: PlaylistInfo { title: String::new(), description: String::new() },
                    text: entry.description.clone(),
                    playlist: String::new(),
                    queries: Vec::new(),
                    next: 0,
                    tracks: Vec::new(),
                    update_failed: false,
                };
                proof {
                    assert(run@.queries =~= Seq::<QueryView>::empty());
                    assert(run@.tracks =~= Seq::<Seq<char>>::empty());
                }
                (run, Action::Stop(Outcome::Untitled))
            },
            Some(title) => {
                let info = PlaylistInfo::new(
                    title.as_str(),
                    as_text(&entry.source_url),
                    as_text(&entry.published_at),
                );
                let run = EntryRun {
                    phase: Phase::AwaitPlaylists,
                    info,
                    text: entry.description.clone(),
                    playlist: String::new(),
                    queries: Vec::new(),
                    next: 0,
                    tracks: Vec::new(),
                    update_failed: false,
                };
                proof {
                    assert(run@.queries =~= Seq::<QueryView>::empty());
                    assert(run@.tracks =~= Seq::<Seq<char>>::empty());
                }
                (run, Action::ListPlaylists { limit: PLAYLIST_PAGE_SIZE })
            },
        }
    }

    /// What the run is waiting for.
    pub fn phase(&self) -> (phase: Phase)
        ensures
            phase == self@.phase,
    {
        self.phase
    }

    /// Whether the update of an existing playlist's details failed. The run
    /// goes on after such a failure; this is where it is reported.
    pub fn update_failed(&self) -> (failed: bool)
        ensures
            failed == self@.update_failed,
    {
        self.update_failed
    }

    fn finish(&mut self, outcome: Outcome) -> (action: Action)
        requires
            old(self).wf(),
        ensures
            final(self).wf(),
            (final(self)@, action@) == finish(old(self)@, outcome),
    {
        self.phase = Phase::Finished(outcome);
        Action::Stop(outcome)
    }

    fn proceed(&mut self) -> (action: Action)
        requires
            old(self).next <= old(self).queries.len(),
        ensures
            final(self).wf(),
            (final(self)@, action@) == proceed(old(self)@),
    {
        if self.next < self.queries.len() {
            self.phase = Phase::AwaitSearch;
            Action::SearchTrack {
                text: self.queries[self.next].search_text(),
                limit: SEARCH_PAGE_SIZE,
            }
        } else {
            self.phase = Phase::AwaitAdd;
            Action::AddTracks { playlist: self.playlist.clone(), tracks: copy_texts(&self.tracks) }
        }
    }

    fn start_search(&mut self) -> (action: Action)
        ensures
            final(self).wf(),
            (final(self)@, action@) == start_search(old(self)@),
    {
        self.queries = parse_tracks(self.text.as_str());
        self.next = 0;
        self.tracks = Vec::new();
        proof {
            assert(texts(self.tracks@) =~= Seq::<Seq<char>>::empty());
        }
        self.proceed()
    }

    /// Takes what came of the last action's call and names the next call.
    pub fn step(&mut self, event: Event) -> (action: Action)
        requires
            old(self).wf(),
        ensures
            final(self).wf(),
            (final(self)@, action@) == step_of(old(self)@, event@),
    {
        let phase = self.phase;
        match phase {
            Phase::Finished(outcome) => Action::Stop(outcome),
            Phase::AwaitPlaylists => match event {
                Event::Playlists(Some(records)) => match resolve(&records, &self.info) {
                    Resolution::SkipAlreadyPublic => self.finish(Outcome::AlreadyPublic),
                    Resolution::UseExisting(id) => {
                        self.phase = Phase::AwaitUpdate;
                        self.playlist = id;
                        Action::UpdateDetails {
                            playlist: self.playlist.clone(),
                            name: self.info.title.clone(),
                            description: self.info.description.clone(),
                        }
                    },
                    Resolution::CreateNew => {
                        self.phase = Phase::AwaitCreate;
                        Action::CreatePlaylist { name: self.info.title.clone(), public: false }
                    },
                },
                Event::Playlists(None) => self.finish(Outcome::ListingFailed),
                _ => self.finish(Outcome::OutOfTurn),
            },
            Phase::AwaitUpdate => match event {
                Event::Updated(ok) => {
                    self.update_failed = !ok;
                    self.start_search()
                },
                _ => self.finish(Outcome::OutOfTurn),
            },
            Phase::AwaitCreate => match event {
                Event::Created(Some(id)) => {
                    self.playlist = id;
                    self.start_search()
                },
                Event::Created(None) => self.finish(Outcome::CreateFailed),
                _ => self.finish(Outcome::OutOfTurn),
            },
            Phase::AwaitSearch => match event {
                Event::Searched(result) => {
                    let ghost before = texts(self.tracks@);
                    match result {
                        Some(ids) => {
                            if ids.len() > 0 {
                                self.tracks.push(ids[0].clone());
                                proof {
                                    assert(texts(self.tracks@) =~= before.push(ids@[0]@));
                                }
                            }
                        },
                        None => {},
                    }
                    proof {
                        vstd::std_specs::vec::axiom_spec_len(&self.queries);
                        assert(views(self.queries@).len() == self.queries@.len());
                    }
                    self.next = self.next + 1;
                    self.proceed()
                },
                _ => self.finish(Outcome::OutOfTurn),
            },
            Phase::AwaitAdd => match event {
                Event::Added(true) => {
                    self.phase = Phase::AwaitPublish;
                    Action::Publish { playlist: self.playlist.clone() }
                },
                Event::Added(false) => self.finish(Outcome::AddFailed),
                _ => self.finish(Outcome::OutOfTurn),
            },
            Phase::AwaitPublish => match event {
                Event::Published(true) => self.finish(Outcome::Published),
                Event::Published(false) => self.finish(Outcome::PublishFailed),
                _ => self.finish(Outcome::OutOfTurn),
            },
        }
    }
}

/// The actions that a run answers a sequence of events with, one each.
pub open spec fn actions_of(run: RunView, events: Seq<EventView>) -> Seq<ActionView>
    decreases events.len(),
{
    if events.len() == 0 {
        Seq::<ActionView>::empty()
    } else {
        seq![step_of(run, events[0]).1] + actions_of(step_of(run, events[0]).0, events.drop_first())
    }
}

/// Every turn leaves a valid run valid.
pub proof fn step_keeps_run_valid(run: RunView, event: EventView)
    requires
        run_is_valid(run),
    ensures
        run_is_valid(step_of(run, event).0),
{
}

/// A run that is over makes no further call, whatever it is told.
pub proof fn finished_run_only_stops(run: RunView, outcome: Outcome, events: Seq<EventView>)
    requires
        run.phase == Phase::Finished(outcome),
    ensures
        actions_of(run, events).len() == events.len(),
        forall|i: int|
            0 <= i < events.len() ==> actions_of(run, events)[i] == ActionView::Stop(outcome),
    decreases events.len(),
{
    if events.len() > 0 {
        finished_run_only_stops(run, outcome, events.drop_first());
    }
}

/// Once the playlists have been looked through, no turn asks for them again
/// and none updates a playlist's details.
pub proof fn resolution_happens_once(run: RunView, events: Seq<EventView>)
    requires
        run.phase != Phase::AwaitPlaylists,
    ensures
        actions_of(run, events).len() == events.len(),
        forall|i: int|
            0 <= i < events.len() ==> !(actions_of(run, events)[i] is UpdateDetails) && !(
            actions_of(run, events)[i] is ListPlaylists),
    decreases events.len(),
{
    if events.len() > 0 {
        resolution_happens_once(step_of(run, events[0]).0, events.drop_first());
    }
}

/// An entry whose playlist is public already is done: its run stops at the
/// snapshot, makes no call before it but the one for the snapshot, and none
/// after it, so nothing is updated, searched, added or published again.
pub proof fn public_playlist_is_left_alone(
    entry: FeedEntryView,
    records: Seq<RecordView>,
    later: Seq<EventView>,
)
    requires
        entry.title is Some,
        resolution_of(records, entry.title->0) == ResolutionView::SkipAlreadyPublic,
    ensures
        begin_of(entry).1 == (ActionView::ListPlaylists { limit: PLAYLIST_PAGE_SIZE }),
        forall|i: int|
            0 <= i <= later.len() ==> (#[trigger] actions_of(
                begin_of(entry).0,
                seq![EventView::Playlists(Some(records))] + later,
            )[i]) == ActionView::Stop(Outcome::AlreadyPublic),
{
    let run = begin_of(entry).0;
    let events = seq![EventView::Playlists(Some(records))] + later;
    assert(events.drop_first() =~= later);
    finished_run_only_stops(step_of(run, events[0]).0, Outcome::AlreadyPublic, later);
}

/// An entry whose playlist exists and is not public has that playlist's
/// details updated, once: the first call after the snapshot sets the
/// entry's title and derived description on it, and no later call of the
/// run updates anything.
pub proof fn private_playlist_is_updated_once(
    entry: FeedEntryView,
    records: Seq<RecordView>,
    id: Seq<char>,
    later: Seq<EventView>,
)
    requires
        entry.title is Some,
        resolution_of(records, entry.title->0) == ResolutionView::UseExisting(id),
    ensures
        ({
            let actions = actions_of(
                begin_of(entry).0,
                seq![EventView::Playlists(Some(records))] + later,
            );
            &&& actions.len() == later.len() + 1
            &&& actions[0] == (ActionView::UpdateDetails {
                playlist: id,
                name: entry.title->0,
                description: derived_description(entry.source_url, entry.published_at),
            })
            &&& forall|i: int| 1 <= i <= later.len() ==> !(#[trigger] actions[i] is UpdateDetails)
        }),
{
    let run = begin_of(entry).0;
    let events = seq![EventView::Playlists(Some(records))] + later;
    assert(events.drop_first() =~= later);
    resolution_happens_once(step_of(run, events[0]).0, later);
}

/// An entry of whose title the snapshot holds no playlist, the empty
/// snapshot among them, has one created under its title, and the run never
/// updates a playlist's details.
pub proof fn missing_playlist_is_created(
    entry: FeedEntryView,
    records: Seq<RecordView>,
    later: Seq<EventView>,
)
    requires
        entry.title is Some,
        forall|k: int| 0 <= k < records.len() ==> records[k].name != entry.title->0,
    ensures
        ({
            let actions = actions_of(
                begin_of(entry).0,
                seq![EventView::Playlists(Some(records))] + later,
            );
            &&& actions.len() == later.len() + 1
            &&& actions[0] == (ActionView::CreatePlaylist { name: entry.title->0, public: false })
            &&& forall|i: int| 0 <= i <= later.len() ==> !(#[trigger] actions[i] is UpdateDetails)
        }),
{
    let run = begin_of(entry).0;
    let events = seq![EventView::Playlists(Some(records))] + later;
    assert(events.drop_first() =~= later);
    crate::identity::create_iff_no_record_named(records, entry.title->0);
    resolution_happens_once(step_of(run, events[0]).0, later);
}

/// The tracks gathered from the results of several searches in a row.
pub open spec fn collected(tracks: Seq<Seq<char>>, results: Seq<Option<Seq<Seq<char>>>>) -> Seq<
    Seq<char>,
>
    decreases results.len(),
{
    if results.len() == 0 {
        tracks
    } else {
        collected(with_result(tracks, results[0]), results.drop_first())
    }
}

/// Searches only add to what was found before them, in their order, and
/// each adds one track at most.
pub proof fn searches_add_one_track_each_at_most(
    tracks: Seq<Seq<char>>,
    results: Seq<Option<Seq<Seq<char>>>>,
)
    ensures
        tracks.len() <= collected(tracks, results).len() <= tracks.len() + results.len(),
        collected(tracks, results).take(tracks.len() as int) == tracks,
    decreases results.len(),
{
    if results.len() == 0 {
        assert(tracks.take(tracks.len() as int) =~= tracks);
    } else {
        let grown = with_result(tracks, results[0]);
        searches_add_one_track_each_at_most(grown, results.drop_first());
        let all = collected(tracks, results);
        assert(all.take(tracks.len() as int) =~= all.take(grown.len() as int).take(
            tracks.len() as int,
        ));
        assert(grown.take(tracks.len() as int) =~= tracks);
    }
}

/// The events that hand a run the results of several searches in a row.
pub open spec fn searched(results: Seq<Option<Seq<Seq<char>>>>) -> Seq<EventView> {
    results.map_values(|r: Option<Seq<Seq<char>>>| EventView::Searched(r))
}

/// A run searches its queries one by one in the listing's order, and when
/// the last result is in, it adds in one call what the searches found: for
/// each query in turn the first result, nothing for a search that failed
/// or found nothing, and nothing dropped for being there twice.
pub proof fn searches_follow_listing(run: RunView, results: Seq<Option<Seq<Seq<char>>>>)
    requires
        run_is_valid(run),
        run.phase == Phase::AwaitSearch,
        results.len() == run.queries.len() - run.next,
    ensures
        ({
            let actions = actions_of(run, searched(results));
            let last = results.len() - 1;
            &&& actions.len() == results.len()
            &&& forall|i: int|
                0 <= i < last ==> #[trigger] actions[i] == (ActionView::SearchTrack {
                    text: search_text_of(run.queries[run.next + 1 + i]),
                    limit: SEARCH_PAGE_SIZE,
                })
            &&& actions[last] == (ActionView::AddTracks {
                playlist: run.playlist,
                tracks: collected(run.tracks, results),
            })
        }),
    decreases results.len(),
{
    let events = searched(results);
    let after = step_of(run, events[0]).0;
    let rest = results.drop_first();
    assert(events.drop_first() =~= searched(rest));
    assert(collected(run.tracks, results) == collected(after.tracks, rest));
    if results.len() == 1 {
        assert(actions_of(after, searched(rest)) =~= Seq::<ActionView>::empty());
        assert(collected(after.tracks, rest) == after.tracks);
    } else {
        searches_follow_listing(after, rest);
        let actions = actions_of(run, events);
        let tail = actions_of(after, searched(rest));
        assert forall|i: int| 0 <= i < results.len() - 1 implies #[trigger] actions[i] == (
        ActionView::SearchTrack {
            text: search_text_of(run.queries[run.next + 1 + i]),
            limit: SEARCH_PAGE_SIZE,
        }) by {
            if i > 0 {
                assert(actions[i] == tail[i - 1]);
            }
        }
        assert(actions[results.len() - 1] == tail[results.len() - 2]);
    }
}

/// The run after a sequence of events.
pub open spec fn run_after(run: RunView, events: Seq<EventView>) -> RunView
    decreases events.len(),
{
    if events.len() == 0 {
        run
    } else {
        run_after(step_of(run, events[0]).0, events.drop_first())
    }
}

/// The actions of a sequence of events in two parts are those of the first
/// part, then those that the run after the first part gives the second.
pub proof fn actions_of_joined_events(run: RunView, first: Seq<EventView>, second: Seq<EventView>)
    ensures
        actions_of(run, first + second) == actions_of(run, first) + actions_of(
            run_after(run, first),
            second,
        ),
    decreases first.len(),
{
    if first.len() == 0 {
        assert(first + second =~= second);
        assert(actions_of(run, first) + actions_of(run, second) =~= actions_of(run, second));
    } else {
        let after = step_of(run, first[0]).0;
        assert((first + second).drop_first() =~= first.drop_first() + second);
        actions_of_joined_events(after, first.drop_first(), second);
        assert(actions_of(run, first + second) =~= actions_of(run, first) + actions_of(
            run_after(run, first),
            second,
        ));
    }
}

/// When the last search result is in, the run waits for the tracks to be
/// added, holds what the searches found, and is otherwise as it was.
pub proof fn run_after_searches(run: RunView, results: Seq<Option<Seq<Seq<char>>>>)
    requires
        run_is_valid(run),
        run.phase == Phase::AwaitSearch,
        results.len() == run.queries.len() - run.next,
    ensures
        run_after(run, searched(results)) == (RunView {
            phase: Phase::AwaitAdd,
            next: run.queries.len() as int,
            tracks: collected(run.tracks, results),
            ..run
        }),
    decreases results.len(),
{
    let events = searched(results);
    let after = step_of(run, events[0]).0;
    let rest = results.drop_first();
    assert(events.drop_first() =~= searched(rest));
    assert(collected(run.tracks, results) == collected(after.tracks, rest));
    if results.len() == 1 {
        assert(run_after(after, searched(rest)) == after);
        assert(collected(after.tracks, rest) == after.tracks);
    } else {
        run_after_searches(after, rest);
    }
}

/// Once the playlist is known and no call fails, the run searches every
/// query of the entry's listing in the listing's order, then adds in one
/// call what the searches found, then makes the playlist public, and stops
/// as published.
pub proof fn unhindered_run_publishes(run: RunView, results: Seq<Option<Seq<Seq<char>>>>)
    requires
        results.len() == listing(run.text).len(),
    ensures
        ({
            let started = start_search(run);
            let events = searched(results) + seq![
                EventView::Added(true),
                EventView::Published(true),
            ];
            let actions = seq![started.1] + actions_of(started.0, events);
            let n = results.len() as int;
            &&& actions.len() == n + 3
            &&& forall|i: int|
                0 <= i < n ==> #[trigger] actions[i] == (ActionView::SearchTrack {
                    text: search_text_of(listing(run.text)[i]),
                    limit: SEARCH_PAGE_SIZE,
                })
            &&& actions[n] == (ActionView::AddTracks {
                playlist: run.playlist,
                tracks: collected(Seq::<Seq<char>>::empty(), results),
            })
            &&& actions[n + 1] == (ActionView::Publish { playlist: run.playlist })
            &&& actions[n + 2] == ActionView::Stop(Outcome::Published)
        }),
{
    let started = start_search(run);
    let closing = seq![EventView::Added(true), EventView::Published(true)];
    let events = searched(results) + closing;
    let n = results.len() as int;
    let adding = run_after(started.0, searched(results));
    actions_of_joined_events(started.0, searched(results), closing);
    if n == 0 {
        assert(adding == started.0);
        assert(actions_of(started.0, searched(results)) =~= Seq::<ActionView>::empty());
    } else {
        searches_follow_listing(started.0, results);
        run_after_searches(started.0, results);
    }
    assert(adding.phase == Phase::AwaitAdd);
    assert(adding.playlist == run.playlist);
    let publishing = step_of(adding, closing[0]).0;
    assert(closing.drop_first() =~= seq![EventView::Published(true)]);
    assert(closing.drop_first().drop_first() =~= Seq::<EventView>::empty());
    assert(actions_of(publishing, closing.drop_first()) =~= seq![
        ActionView::Stop(Outcome::Published),
    ]) by {
        let end = step_of(publishing, closing.drop_first()[0]).0;
        assert(actions_of(end, closing.drop_first().drop_first()) =~= Seq::<ActionView>::empty());
    }
    assert(actions_of(adding, closing) =~= seq![
        ActionView::Publish { playlist: run.playlist },
        ActionView::Stop(Outcome::Published),
    ]);
}

/// An entry that has no playlist yet, and whose every call succeeds, gets
/// one created under its title, has every query of its listing searched in
/// the listing's order, gets what was found added in one call, and is then
/// made public.
pub proof fn new_entry_is_filled_and_published(
    entry: FeedEntryView,
    records: Seq<RecordView>,
    id: Seq<char>,
    results: Seq<Option<Seq<Seq<char>>>>,
)
    requires
        entry.title is Some,
        forall|k: int| 0 <= k < records.len() ==> records[k].name != entry.title->0,
        results.len() == listing(entry.description).len(),
    ensures
        ({
            let events = seq![
                EventView::Playlists(Some(records)),
                EventView::Created(Some(id)),
            ] + (searched(results) + seq![EventView::Added(true), EventView::Published(true)]);
            let actions = actions_of(begin_of(entry).0, events);
            let n = results.len() as int;
            &&& begin_of(entry).1 == (ActionView::ListPlaylists { limit: PLAYLIST_PAGE_SIZE })
            &&& actions.len() == n + 4
            &&& actions[0] == (ActionView::CreatePlaylist { name: entry.title->0, public: false })
            &&& forall|i: int|
                0 <= i < n ==> #[trigger] actions[1 + i] == (ActionView::SearchTrack {
                    text: search_text_of(listing(entry.description)[i]),
                    limit: SEARCH_PAGE_SIZE,
                })
            &&& actions[n + 1] == (ActionView::AddTracks {
                playlist: id,
                tracks: collected(Seq::<Seq<char>>::empty(), results),
            })
            &&& actions[n + 2] == (ActionView::Publish { playlist: id })
            &&& actions[n + 3] == ActionView::Stop(Outcome::Published)
        }),
{
    let run = begin_of(entry).0;
    let opening = seq![EventView::Playlists(Some(records)), EventView::Created(Some(id))];
    let rest = searched(results) + seq![EventView::Added(true), EventView::Published(true)];
    let events = opening + rest;
    crate::identity::create_iff_no_record_named(records, entry.title->0);
    let creating = step_of(run, events[0]).0;
    let known = RunView { playlist: id, ..creating };
    assert(events.drop_first() =~= seq![EventView::Created(Some(id))] + rest);
    assert(events.drop_first().drop_first() =~= rest);
    assert(step_of(creating, events.drop_first()[0]) == start_search(known));
    unhindered_run_publishes(known, results);
    let tail = seq![start_search(known).1] + actions_of(start_search(known).0, rest);
    let actions = actions_of(run, events);
    assert(actions_of(creating, events.drop_first()) =~= tail);
    assert(actions =~= seq![ActionView::CreatePlaylist { name: entry.title->0, public: false }] + tail);
    assert forall|i: int| 0 <= i < results.len() implies #[trigger] actions[1 + i] == (
    ActionView::SearchTrack {
        text: search_text_of(listing(entry.description)[i]),
        limit: SEARCH_PAGE_SIZE,
    }) by {
        assert(actions[1 + i] == tail[i]);
    }
}

/// An entry whose playlist exists and is not public, and whose calls all
/// succeed but perhaps the update, has that playlist's details updated,
/// every query of its listing searched in the listing's order, what was
/// found added in one call to that playlist, and the playlist made public.
pub proof fn private_entry_is_filled_and_published(
    entry: FeedEntryView,
    records: Seq<RecordView>,
    id: Seq<char>,
    updated: bool,
    results: Seq<Option<Seq<Seq<char>>>>,
)
    requires
        entry.title is Some,
        resolution_of(records, entry.title->0) == ResolutionView::UseExisting(id),
        results.len() == listing(entry.description).len(),
    ensures
        ({
            let events = seq![EventView::Playlists(Some(records)), EventView::Updated(updated)] + (
            searched(results) + seq![EventView::Added(true), EventView::Published(true)]);
            let actions = actions_of(begin_of(entry).0, events);
            let n = results.len() as int;
            &&& actions.len() == n + 4
            &&& actions[0] == (ActionView::UpdateDetails {
                playlist: id,
                name: entry.title->0,
                description: derived_description(entry.source_url, entry.published_at),
            })
            &&& forall|i: int|
                0 <= i < n ==> #[trigger] actions[1 + i] == (ActionView::SearchTrack {
                    text: search_text_of(listing(entry.description)[i]),
                    limit: SEARCH_PAGE_SIZE,
                })
            &&& actions[n + 1] == (ActionView::AddTracks {
                playlist: id,
                tracks: collected(Seq::<Seq<char>>::empty(), results),
            })
            &&& actions[n + 2] == (ActionView::Publish { playlist: id })
            &&& actions[n + 3] == ActionView::Stop(Outcome::Published)
        }),
{
    let run = begin_of(entry).0;
    let opening = seq![EventView::Playlists(Some(records)), EventView::Updated(updated)];
    let rest = searched(results) + seq![EventView::Added(true), EventView::Published(true)];
    let events = opening + rest;
    let updating = step_of(run, events[0]).0;
    let known = RunView { update_failed: !updated, ..updating };
    assert(events.drop_first() =~= seq![EventView::Updated(updated)] + rest);
    assert(events.drop_first().drop_first() =~= rest);
    assert(step_of(updating, events.drop_first()[0]) == start_search(known));
    unhindered_run_publishes(known, results);
    let tail = seq![start_search(known).1] + actions_of(start_search(known).0, rest);
    let actions = actions_of(run, events);
    assert(actions_of(updating, events.drop_first()) =~= tail);
    assert(actions =~= seq![step_of(run, events[0]).1] + tail);
    assert forall|i: int| 0 <= i < results.len() implies #[trigger] actions[1 + i] == (
    ActionView::SearchTrack {
        text: search_text_of(listing(entry.description)[i]),
        limit: SEARCH_PAGE_SIZE,
    }) by {
        assert(actions[1 + i] == tail[i]);
    }
}

} // verus!
