//! Bookmarked places. The instant at which a bookmark is made is
//! handed in by whoever reads the clock.

use vstd::prelude::*;
use vstd::string::*;
use crate::file_item::Timestamp;
use crate::file_manager::home_directory;
use crate::text::same_text;

verus! {

/// A place to return to.
#[derive(Clone, Debug)]
pub struct Bookmark {
    pub name: String,
    pub path: String,
    pub icon: Option<String>,
    pub created_at: Timestamp,
}

/// Calls `dirs::desktop_dir`. The answer depends on the environment of
/// the process, so nothing is claimed about it.
#[verifier::external_body]
fn desktop_directory() -> (r: Option<String>) {
    dirs::desktop_dir().map(|p| p.to_string_lossy().to_string())
}

/// Calls `dirs::document_dir`. The answer depends on the environment of
/// the process, so nothing is claimed about it.
#[verifier::external_body]
fn document_directory() -> (r: Option<String>) {
    dirs::document_dir().map(|p| p.to_string_lossy().to_string())
}

/// Calls `dirs::download_dir`. The answer depends on the environment of
/// the process, so nothing is claimed about it.
#[verifier::external_body]
fn download_directory() -> (r: Option<String>) {
    dirs::download_dir().map(|p| p.to_string_lossy().to_string())
}

/// Calls `dirs::picture_dir`. The answer depends on the environment of
/// the process, so nothing is claimed about it.
#[verifier::external_body]
fn picture_directory() -> (r: Option<String>) {
    dirs::picture_dir().map(|p| p.to_string_lossy().to_string())
}

/// Calls `dirs::audio_dir`. The answer depends on the environment of
/// the process, so nothing is claimed about it.
#[verifier::external_body]
fn audio_directory() -> (r: Option<String>) {
    dirs::audio_dir().map(|p| p.to_string_lossy().to_string())
}

/// Calls `dirs::video_dir`. The answer depends on the environment of
/// the process, so nothing is claimed about it.
#[verifier::external_body]
fn video_directory() -> (r: Option<String>) {
    dirs::video_dir().map(|p| p.to_string_lossy().to_string())
}


impl Bookmark {
    /// A bookmark without an icon, made at the instant `created_at`.
    pub fn new(name: String, path: String, created_at: Timestamp) -> (b: Bookmark)
        ensures
            b == (Bookmark { name, path, icon: None, created_at }),
    {
        Bookmark { name, path, icon: None, created_at }
    }

    /// The same bookmark with an icon.
    pub fn with_icon(self, icon: String) -> (b: Bookmark)
        ensures
            b == (Bookmark { icon: Some(icon), ..self }),
    {
        let mut b = self;
        b.icon = Some(icon);
        b
    }
}

/// The places that the system knows of for a user.
#[derive(Clone, Debug)]
pub struct KnownPlaces {
    pub home: Option<String>,
    pub desktop: Option<String>,
    pub documents: Option<String>,
    pub downloads: Option<String>,
    pub pictures: Option<String>,
    pub music: Option<String>,
    pub videos: Option<String>,
}

/// The name and the path of each bookmark, in order.
pub open spec fn bookmark_texts(entries: Seq<Bookmark>) -> Seq<(Seq<char>, Seq<char>)> {
    Seq::new(entries.len(), |i: int| (entries[i].name@, entries[i].path@))
}

/// The entry for a place called `name`, if there is such a place.
pub open spec fn place_entry(name: Seq<char>, place: Option<String>) -> Seq<
    (Seq<char>, Seq<char>),
> {
    match place {
        Some(path) => seq![(name, path@)],
        None => Seq::empty(),
    }
}

/// The bookmarks that a session starts with, by name and path: the
/// known ones of home, desktop, documents, downloads, pictures,
/// music and videos, in this order, and the root behind them.
pub open spec fn default_places(places: KnownPlaces) -> Seq<(Seq<char>, Seq<char>)> {
    place_entry("Home"@, places.home) + place_entry("Desktop"@, places.desktop) + place_entry(
        "Documents"@,
        places.documents,
    ) + place_entry("Downloads"@, places.downloads) + place_entry("Pictures"@, places.pictures)
        + place_entry("Music"@, places.music) + place_entry("Videos"@, places.videos) + seq![
        ("Root"@, "/"@),
    ]
}

/// Whether every one of `entries` is without an icon and was made
/// at the instant `at`.
pub open spec fn plain_entries(entries: Seq<Bookmark>, at: Timestamp) -> bool {
    forall|i: int|
        0 <= i < entries.len() ==> (#[trigger] entries[i]).icon.is_none() && entries[i].created_at
            == at
}

/// Whether one of `entries` leads to `path`.
pub open spec fn holds_path(entries: Seq<Bookmark>, path: Seq<char>) -> bool {
    exists|i: int| 0 <= i < entries.len() && (#[trigger] entries[i]).path@ == path
}

pub struct BookmarkManager {
    bookmarks: Vec<Bookmark>,
}

impl Default for BookmarkManager {
    fn default() -> (m: BookmarkManager)
        ensures
            m.entries().len() == 0,
    {
        BookmarkManager { bookmarks: Vec::new() }
    }
}

impl BookmarkManager {
    /// The bookmarks, in the order in which they were added.
    pub closed spec fn entries(&self) -> Seq<Bookmark> {
        self.bookmarks@
    }

    /// Adds a bookmark called `name` for `place`, made at the instant
    /// `now`, if there is such a place.
    pub fn add_place(&mut self, name: &str, place: Option<String>, now: Timestamp)
        ensures
            bookmark_texts(final(self).entries()) == bookmark_texts(old(self).entries())
                + place_entry(name@, place),
            plain_entries(old(self).entries(), now) ==> plain_entries(final(self).entries(), now),
    {
        match place {
            Some(path) => {
                let b = Bookmark::new(String::from_str(name), path, now);
                self.bookmarks.push(b);
                assert(bookmark_texts(self.bookmarks@) =~= bookmark_texts(old(self).bookmarks@)
                    + place_entry(name@, place));
            },
            None => {
                assert(bookmark_texts(self.bookmarks@) =~= bookmark_texts(old(self).bookmarks@)
                    + place_entry(name@, place));
            },
        }
    }

    /// The bookmarks that a session starts with, for the places
    /// given, all made at the instant `now`.
    pub fn from_places(places: KnownPlaces, now: Timestamp) -> (m: BookmarkManager)
        ensures
            bookmark_texts(m.entries()) == default_places(places),
            plain_entries(m.entries(), now),
    {
        let mut m = BookmarkManager { bookmarks: Vec::new() };
        assert(bookmark_texts(m.bookmarks@) =~= Seq::<(Seq<char>, Seq<char>)>::empty());
        m.add_place("Home", places.home, now);
        m.add_place("Desktop", places.desktop, now);
        m.add_place("Documents", places.documents, now);
        m.add_place("Downloads", places.downloads, now);
        m.add_place("Pictures", places.pictures, now);
        m.add_place("Music", places.music, now);
        m.add_place("Videos", places.videos, now);
        let root = Some(String::from_str("/"));
        m.add_place("Root", root, now);
        assert(place_entry("Root"@, root) =~= seq![("Root"@, "/"@)]);
        assert(bookmark_texts(m.bookmarks@) =~= default_places(places));
        m
    }

    /// The bookmarks that a session starts with, all made at the
    /// instant `now`: those of `from_places` for the places that the
    /// system knows of.
    pub fn new(now: Timestamp) -> (m: BookmarkManager)
        ensures
            exists|places: KnownPlaces| bookmark_texts(m.entries()) == #[trigger] default_places(
                places,
            ),
            plain_entries(m.entries(), now),
            m.entries().len() >= 1,
            m.entries().last().name@ == "Root"@,
            m.entries().last().path@ == "/"@,
    {
        let places = KnownPlaces {
            home: home_directory(),
            desktop: desktop_directory(),
            documents: document_directory(),
            downloads: download_directory(),
            pictures: picture_directory(),
            music: audio_directory(),
            videos: video_directory(),
        };
        let ghost known = places;
        let m = BookmarkManager::from_places(places, now);
        assert(bookmark_texts(m.entries()) == default_places(known));
        assert(default_places(known).last() == ("Root"@, "/"@));
        assert(bookmark_texts(m.entries()).last() == (
            m.entries().last().name@,
            m.entries().last().path@,
        ));
        m
    }

    /// Adds `bookmark` unless a bookmark for its path is there
    /// already.
    pub fn add_bookmark(&mut self, bookmark: Bookmark)
        ensures
            final(self).entries() == (if holds_path(old(self).entries(), bookmark.path@) {
                old(self).entries()
            } else {
                old(self).entries().push(bookmark)
            }),
    {
        let n: usize = self.bookmarks.len();
        let mut i: usize = 0;
        while i < n
            invariant
                n == self.bookmarks@.len(),
                i <= n,
                *self == *old(self),
                forall|j: int| 0 <= j < i ==> (#[trigger] self.bookmarks@[j]).path@ != bookmark.path@,
            decreases n - i,
        {
            if same_text(self.bookmarks[i].path.as_str(), bookmark.path.as_str()) {
                return ;
            }
            i += 1;
        }
        self.bookmarks.push(bookmark);
    }

    /// Removes the bookmark at `index`, if there is one.
    pub fn remove_bookmark(&mut self, index: usize)
        ensures
            final(self).entries() == (if index < old(self).entries().len() {
                old(self).entries().remove(index as int)
            } else {
                old(self).entries()
            }),
    {
        if index < self.bookmarks.len() {
            let _ = self.bookmarks.remove(index);
        }
    }

    pub fn get_bookmarks(&self) -> (b: &Vec<Bookmark>)
        ensures
            b@ == self.entries(),
    {
        &self.bookmarks
    }

    pub fn get_bookmark(&self, index: usize) -> (b: Option<&Bookmark>)
        ensures
            b.is_some() == (index < self.entries().len()),
            b.is_some() ==> *b.unwrap() == self.entries()[index as int],
    {
        if index < self.bookmarks.len() {
            Some(&self.bookmarks[index])
        } else {
            None
        }
    }
}

} // verus!
