//! The target metadata of the playlist that belongs to one feed entry.

use vstd::prelude::*;
use vstd::string::*;

verus! {

/// The description a playlist gets, derived from the entry's source URL and
/// its publication date: the URL where there is one, else the date behind
/// the words "Posted at ", else nothing.
pub open spec fn derived_description(
    url: Option<Seq<char>>,
    published_at: Option<Seq<char>>,
) -> Seq<char> {
    match (url, published_at) {
        (Some(u), _) => u,
        (None, Some(d)) => "Posted at "@ + d,
        (None, None) => Seq::<char>::empty(),
    }
}

/// The characters of an optional text.
pub open spec fn text_of(text: Option<&str>) -> Option<Seq<char>> {
    match text {
        Some(t) => Some(t@),
        None => None,
    }
}

/// Title and description that the playlist of one feed entry should carry.
/// The title is the key by which existing playlists are matched.
#[derive(Clone, Debug, PartialEq, Eq)]
pub struct PlaylistInfo {
    pub title: String,
    pub description: String,
}

impl PlaylistInfo {
    pub fn new(title: &str, url: Option<&str>, published_at: Option<&str>) -> (info: Self)
        ensures
            info.title@ == title@,
            info.description@ == derived_description(text_of(url), text_of(published_at)),
    {
        let description = match url {
            Some(u) => u.to_owned(),
            None => match published_at {
                Some(d) => "Posted at ".to_owned().concat(d),
                None => String::new(),
            },
        };
        PlaylistInfo { title: title.to_owned(), description }
    }
}

} // verus!
