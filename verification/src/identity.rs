//! Which playlist belongs to a feed entry.
//!
//! A playlist is the entry's own where its name equals the entry's title,
//! character for character. Nothing else is compared. Among several of one
//! name the first in the snapshot counts.

use vstd::prelude::*;
use vstd::string::*;
use crate::descriptor::PlaylistInfo;

verus! {

/// A playlist as the catalog reports it.
#[derive(Clone, Debug, PartialEq, Eq)]
pub struct PlaylistRecord {
    pub id: String,
    pub name: String,
    /// `None` where the catalog does not say.
    pub is_public: Option<bool>,
}

pub struct RecordView {
    pub id: Seq<char>,
    pub name: Seq<char>,
    pub is_public: Option<bool>,
}

impl View for PlaylistRecord {
    type V = RecordView;

    open spec fn view(&self) -> RecordView {
        RecordView { id: self.id@, name: self.name@, is_public: self.is_public }
    }
}

/// What to do about an entry's playlist.
#[derive(Clone, Debug, PartialEq, Eq)]
pub enum Resolution {
    /// A playlist of that name exists and is not public yet: fill this one.
    UseExisting(String),
    /// No playlist of that name exists.
    CreateNew,
    /// A playlist of that name exists and is public: the entry is done.
    SkipAlreadyPublic,
}

pub enum ResolutionView {
    UseExisting(Seq<char>),
    CreateNew,
    SkipAlreadyPublic,
}

impl View for Resolution {
    type V = ResolutionView;

    open spec fn view(&self) -> ResolutionView {
        match self {
            Resolution::UseExisting(id) => ResolutionView::UseExisting(id@),
            Resolution::CreateNew => ResolutionView::CreateNew,
            Resolution::SkipAlreadyPublic => ResolutionView::SkipAlreadyPublic,
        }
    }
}

/// The views of a snapshot's records.
pub open spec fn record_views(records: Seq<PlaylistRecord>) -> Seq<RecordView> {
    records.map_values(|r: PlaylistRecord| r@)
}

/// The first position at or after `from` of a record named `title`, or the
/// snapshot's length where there is none.
pub open spec fn first_named(records: Seq<RecordView>, title: Seq<char>, from: int) -> int
    decreases records.len() - from,
{
    if from < 0 || from >= records.len() {
        records.len() as int
    } else if records[from].name == title {
        from
    } else {
        first_named(records, title, from + 1)
    }
}

/// The resolution of a title against a snapshot.
pub open spec fn resolution_of(records: Seq<RecordView>, title: Seq<char>) -> ResolutionView {
    let at = first_named(records, title, 0);
    if at >= records.len() {
        ResolutionView::CreateNew
    } else if records[at].is_public == Some(true) {
        ResolutionView::SkipAlreadyPublic
    } else {
        ResolutionView::UseExisting(records[at].id)
    }
}

/// Decides, from a snapshot of the user's playlists, what to do about the
/// playlist that `info` describes.
pub fn resolve(records: &Vec<PlaylistRecord>, info: &PlaylistInfo) -> (resolution: Resolution)
    ensures
        resolution@ == resolution_of(record_views(records@), info.title@),
{
    let ghost views = record_views(records@);
    let mut i: usize = 0;
    while i < records.len()
        invariant
            i <= records.len(),
            views == record_views(records@),
            first_named(views, info.title@, i as int) == first_named(views, info.title@, 0),
        decreases records.len() - i,
    {
        if records[i].name == info.title {
            return match records[i].is_public {
                Some(true) => Resolution::SkipAlreadyPublic,
                _ => Resolution::UseExisting(records[i].id.clone()),
            };
        }
        i += 1;
    }
    Resolution::CreateNew
}

/// `first_named` finds a record of the title, and the first one.
pub proof fn first_named_is_first(records: Seq<RecordView>, title: Seq<char>, from: int)
    requires
        0 <= from <= records.len(),
    ensures
        from <= first_named(records, title, from) <= records.len(),
        forall|k: int| from <= k < first_named(records, title, from) ==> records[k].name != title,
        first_named(records, title, from) < records.len() ==> records[first_named(
            records,
            title,
            from,
        )].name == title,
    decreases records.len() - from,
{
    if from < records.len() && records[from].name != title {
        first_named_is_first(records, title, from + 1);
    }
}

/// A new playlist is called for exactly where no record bears the title.
pub proof fn create_iff_no_record_named(records: Seq<RecordView>, title: Seq<char>)
    ensures
        resolution_of(records, title) == ResolutionView::CreateNew <==> forall|k: int|
            0 <= k < records.len() ==> records[k].name != title,
{
    first_named_is_first(records, title, 0);
}

/// Where the first record of the title stands at `at`, its visibility
/// decides: public skips the entry, anything else uses that playlist.
pub proof fn first_record_named_decides(records: Seq<RecordView>, title: Seq<char>, at: int)
    requires
        0 <= at < records.len(),
        records[at].name == title,
        forall|k: int| 0 <= k < at ==> records[k].name != title,
    ensures
        records[at].is_public == Some(true) ==> resolution_of(records, title)
            == ResolutionView::SkipAlreadyPublic,
        records[at].is_public != Some(true) ==> resolution_of(records, title)
            == ResolutionView::UseExisting(records[at].id),
{
    first_named_is_first(records, title, 0);
}

} // verus!
