//! The media record: the catalog's description of one discovered file.

use vstd::prelude::*;

verus! {

/// The mathematical value of a [`Media`] record.
pub struct MediaView {
    pub id: Seq<char>,
    pub name: Seq<char>,
    pub path: Seq<char>,
    pub alias: Option<Seq<char>>,
}

/// One cataloged file. `id` is its key and never changes, `name` is the
/// file's base name, `path` is where it was found, and `alias` is the label
/// a user may give it.
#[derive(Clone, Debug, PartialEq, Eq)]
pub struct Media {
    pub id: String,
    pub name: String,
    pub path: String,
    pub alias: Option<String>,
}

/// The view of an optional text.
pub open spec fn opt_text(alias: Option<String>) -> Option<Seq<char>> {
    match alias {
        Some(text) => Some(text@),
        None => None,
    }
}

impl View for Media {
    type V = MediaView;

    open spec fn view(&self) -> MediaView {
        MediaView { id: self.id@, name: self.name@, path: self.path@, alias: opt_text(self.alias) }
    }
}

/// The record as it stands right after discovery: the given key, name and
/// path, and an empty label.
pub open spec fn discovered(id: Seq<char>, name: Seq<char>, path: Seq<char>) -> MediaView {
    MediaView { id, name, path, alias: Some(Seq::<char>::empty()) }
}

/// The record `m` with its label replaced by `alias`.
pub open spec fn relabelled(m: MediaView, alias: Seq<char>) -> MediaView {
    MediaView { id: m.id, name: m.name, path: m.path, alias: Some(alias) }
}

impl Media {
    /// Builds the record of a newly discovered file, with an empty label.
    pub fn discovered(id: String, name: String, path: String) -> (m: Media)
        ensures
            m@ == discovered(id@, name@, path@),
    {
        Media { id, name, path, alias: Some(String::new()) }
    }

    /// An independent copy of this record.
    pub fn duplicate(&self) -> (m: Media)
        ensures
            m@ == self@,
    {
        let alias = match &self.alias {
            Some(text) => Some(text.clone()),
            None => None,
        };
        Media { id: self.id.clone(), name: self.name.clone(), path: self.path.clone(), alias }
    }

    /// This record with its label set to `alias`; everything else is kept.
    pub fn with_alias(&self, alias: String) -> (m: Media)
        ensures
            m@ == relabelled(self@, alias@),
    {
        Media { id: self.id.clone(), name: self.name.clone(), path: self.path.clone(), alias: Some(alias) }
    }
}

} // verus!
