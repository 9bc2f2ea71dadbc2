//! The navigation state of one browser session: the current
//! directory and its snapshot, the history with its cursor, the
//! selection, the display policy and the queue of change signals.
//!
//! The state never touches the disk. Whoever drives it reads the
//! directory and hands the outcome in; each operation then decides
//! what the state becomes.

use vstd::prelude::*;
use crate::arrange::{build_snapshot, directories_lead, snapshot_of};
use crate::file_item::{FileItem, SortBy, SortOrder};
use crate::paths::{parent, parent_of};
use crate::text::same_text;

verus! {

/// What a path was found to name on disk.
#[derive(Clone, Copy, Debug, PartialEq, Eq, Structural)]
pub enum PathProbe {
    Missing,
    NotDirectory,
    Directory,
}

/// Why a directory could not be read.
#[derive(Clone, Copy, Debug, PartialEq, Eq, Structural)]
pub enum IoFault {
    PermissionDenied,
    Other,
}

/// Why a navigation request was turned down.
#[derive(Clone, Copy, Debug, PartialEq, Eq, Structural)]
pub enum NavError {
    NotFound,
    NotADirectory,
    PermissionDenied,
    IoError,
    InvalidSelection,
    WatchFailure,
}

/// The nature of a change that the watcher saw.
#[derive(Clone, Copy, Debug, PartialEq, Eq, Structural)]
pub enum ChangeKind {
    Any,
    Access,
    Create,
    Modify,
    Remove,
    Other,
}

/// One change that the watcher saw in the watched directory.
#[derive(Clone, Debug)]
pub struct ChangeEvent {
    pub kind: ChangeKind,
    pub paths: Vec<String>,
}

/// What the watcher delivers: a change, or word that it failed.
#[derive(Clone, Debug)]
pub enum WatchSignal {
    Changed(ChangeEvent),
    Failed,
}

/// A history of visited paths with the position of the one on
/// display.
pub struct Trail {
    pub paths: Seq<Seq<char>>,
    pub cursor: int,
}

impl Trail {
    /// The cursor points into a history that is not empty, and no
    /// path of the history stands next to itself.
    pub open spec fn wf(self) -> bool {
        &&& 0 <= self.cursor < self.paths.len()
        &&& forall|i: int|
            0 <= i < self.paths.len() - 1 ==> #[trigger] self.paths[i] != self.paths[i + 1]
    }

    /// The path on display.
    pub open spec fn current(self) -> Seq<char> {
        self.paths[self.cursor]
    }

    /// The trail after a visit to `path`: what lay beyond the cursor
    /// is dropped, and `path` is appended unless the trail already
    /// ends with it.
    pub open spec fn push(self, path: Seq<char>) -> Trail {
        let kept = self.paths.subrange(0, self.cursor + 1);
        if kept.last() == path {
            Trail { paths: kept, cursor: self.cursor }
        } else {
            Trail { paths: kept.push(path), cursor: self.cursor + 1 }
        }
    }

    pub open spec fn can_go_back(self) -> bool {
        self.cursor > 0
    }

    pub open spec fn can_go_forward(self) -> bool {
        self.cursor < self.paths.len() - 1
    }

    /// The trail after one step back, which leaves it alone at the
    /// start.
    pub open spec fn back(self) -> Trail {
        if self.can_go_back() {
            Trail { paths: self.paths, cursor: self.cursor - 1 }
        } else {
            self
        }
    }

    /// The trail after one step forward, which leaves it alone at
    /// the end.
    pub open spec fn forward(self) -> Trail {
        if self.can_go_forward() {
            Trail { paths: self.paths, cursor: self.cursor + 1 }
        } else {
            self
        }
    }
}

/// The error that a failed directory read is reported as.
pub open spec fn fault_error(f: IoFault) -> NavError {
    match f {
        IoFault::PermissionDenied => NavError::PermissionDenied,
        IoFault::Other => NavError::IoError,
    }
}

/// Whether a visit to a path is carried out, given what the path
/// names and how reading it went.
pub open spec fn visit_outcome(probe: PathProbe, listing: Result<Vec<FileItem>, IoFault>) -> Result<
    (),
    NavError,
> {
    match probe {
        PathProbe::Missing => Err(NavError::NotFound),
        PathProbe::NotDirectory => Err(NavError::NotADirectory),
        PathProbe::Directory => match listing {
            Ok(_) => Ok(()),
            Err(f) => Err(fault_error(f)),
        },
    }
}

/// Whether a re-read of the directory on display is carried out.
pub open spec fn reread_outcome(listing: Result<Vec<FileItem>, IoFault>) -> Result<(), NavError> {
    match listing {
        Ok(_) => Ok(()),
        Err(f) => Err(fault_error(f)),
    }
}

pub open spec fn other_than(index: usize) -> spec_fn(usize) -> bool {
    |x: usize| x != index
}

/// A selection after `index` was picked: alone, or toggled within
/// what was selected before.
pub open spec fn picked(selection: Seq<usize>, index: usize, additive: bool) -> Seq<usize> {
    if !additive {
        seq![index]
    } else if selection.contains(index) {
        selection.filter(other_than(index))
    } else {
        selection.push(index)
    }
}

/// The changes among a run of watcher signals, in order.
pub open spec fn changes_of(signals: Seq<WatchSignal>) -> Seq<ChangeEvent>
    decreases signals.len(),
{
    if signals.len() == 0 {
        Seq::empty()
    } else {
        match signals.last() {
            WatchSignal::Changed(e) => changes_of(signals.drop_last()).push(e),
            WatchSignal::Failed => changes_of(signals.drop_last()),
        }
    }
}

pub struct FileManager {
    current_path: String,
    items: Vec<FileItem>,
    selected_items: Vec<usize>,
    history: Vec<String>,
    history_index: usize,
    sort_by: SortBy,
    sort_order: SortOrder,
    show_hidden: bool,
    watched: Option<String>,
    signals: Vec<WatchSignal>,
}

/// Calls `dirs::home_dir`. The answer depends on the environment of
/// the process, so nothing is claimed about it.
#[verifier::external_body]
pub(crate) fn home_directory() -> (r: Option<String>) {
    dirs::home_dir().map(|p| p.to_string_lossy().to_string())
}

fn report(f: IoFault) -> (e: NavError)
    ensures
        e == fault_error(f),
{
    match f {
        IoFault::PermissionDenied => NavError::PermissionDenied,
        IoFault::Other => NavError::IoError,
    }
}

impl FileManager {
    /// The path on display.
    pub closed spec fn current(&self) -> Seq<char> {
        self.current_path@
    }

    /// The history and its cursor.
    pub closed spec fn trail(&self) -> Trail {
        Trail {
            paths: Seq::new(self.history@.len(), |i: int| self.history@[i]@),
            cursor: self.history_index as int,
        }
    }

    /// The entries on display, in display order.
    pub closed spec fn snapshot(&self) -> Seq<FileItem> {
        self.items@
    }

    /// The selected positions of the snapshot.
    pub closed spec fn selection(&self) -> Seq<usize> {
        self.selected_items@
    }

    pub closed spec fn sort_key(&self) -> SortBy {
        self.sort_by
    }

    pub closed spec fn sort_direction(&self) -> SortOrder {
        self.sort_order
    }

    pub closed spec fn hidden_shown(&self) -> bool {
        self.show_hidden
    }

    /// The one path that is watched, if any.
    pub closed spec fn watched_path(&self) -> Option<Seq<char>> {
        match self.watched {
            Some(p) => Some(p@),
            None => None,
        }
    }

    /// The watcher signals that were queued and not yet drained.
    pub closed spec fn queued(&self) -> Seq<WatchSignal> {
        self.signals@
    }

    /// The cursor points into the history, at the path on display,
    /// and no path of the history stands next to itself.
    pub closed spec fn wf(&self) -> bool {
        &&& self.trail().wf()
        &&& self.trail().current() == self.current()
    }

    /// What a well-formed state gives: the cursor points into the
    /// history, at the path on display, and no path of the history
    /// stands next to itself.
    pub proof fn lemma_wf(&self)
        requires
            self.wf(),
        ensures
            self.trail().wf(),
            self.trail().current() == self.current(),
    {
    }

    /// The display policy, the selection aside.
    pub open spec fn same_policy(&self, other: &FileManager) -> bool {
        &&& self.sort_key() == other.sort_key()
        &&& self.sort_direction() == other.sort_direction()
        &&& self.hidden_shown() == other.hidden_shown()
    }

    /// A session that starts in `home`, with nothing read yet.
    pub fn starting_at(home: String) -> (fm: FileManager)
        ensures
            fm.wf(),
            fm.current() == home@,
            fm.trail().paths == seq![home@],
            fm.trail().cursor == 0,
            fm.snapshot().len() == 0,
            fm.selection().len() == 0,
            fm.sort_key() == SortBy::Name,
            fm.sort_direction() == SortOrder::Ascending,
            !fm.hidden_shown(),
            fm.watched_path().is_none(),
            fm.queued().len() == 0,
    {
        let mut history: Vec<String> = Vec::new();
        history.push(home.clone());
        let fm = FileManager {
            current_path: home,
            items: Vec::new(),
            selected_items: Vec::new(),
            history,
            history_index: 0,
            sort_by: SortBy::Name,
            sort_order: SortOrder::Ascending,
            show_hidden: false,
            watched: None,
            signals: Vec::new(),
        };
        assert(fm.trail().paths =~= seq![home@]);
        fm
    }

    /// A session that starts in the user's home directory, or in the
    /// root where no home directory is known.
    pub fn new() -> (fm: FileManager)
        ensures
            fm.wf(),
            fm.trail().paths == seq![fm.current()],
            fm.trail().cursor == 0,
            fm.snapshot().len() == 0,
            fm.selection().len() == 0,
            fm.sort_key() == SortBy::Name,
            fm.sort_direction() == SortOrder::Ascending,
            !fm.hidden_shown(),
            fm.watched_path().is_none(),
            fm.queued().len() == 0,
    {
        match home_directory() {
            Some(home) => FileManager::starting_at(home),
            None => FileManager::starting_at("/".to_owned()),
        }
    }

    fn install_snapshot(&mut self, entries: Vec<FileItem>)
        ensures
            final(self).items@ == snapshot_of(
                entries@,
                old(self).show_hidden,
                old(self).sort_by,
                old(self).sort_order,
            ),
            directories_lead(final(self).items@),
            final(self).selected_items@.len() == 0,
            final(self).current_path == old(self).current_path,
            final(self).history == old(self).history,
            final(self).history_index == old(self).history_index,
            final(self).sort_by == old(self).sort_by,
            final(self).sort_order == old(self).sort_order,
            final(self).show_hidden == old(self).show_hidden,
            final(self).watched == old(self).watched,
            final(self).signals == old(self).signals,
    {
        self.items = build_snapshot(entries, self.show_hidden, self.sort_by, self.sort_order);
        self.selected_items = Vec::new();
    }

    /// Visits `path`. `probe` says what the path names, `listing` is
    /// the outcome of reading it, and `watcher_installed` says
    /// whether a watcher could be put on it.
    ///
    /// A missing path, one that is no directory, or a failed read
    /// turns the visit down and leaves the state as it was.
    /// Otherwise the path goes on display and onto the history, which
    /// loses what lay beyond the cursor; the snapshot is rebuilt, the
    /// selection cleared, and the watch moves to `path`, or ends
    /// where no watcher could be installed.
    pub fn navigate_to(
        &mut self,
        path: &str,
        probe: PathProbe,
        listing: Result<Vec<FileItem>, IoFault>,
        watcher_installed: bool,
    ) -> (r: Result<(), NavError>)
        requires
            old(self).wf(),
        ensures
            final(self).wf(),
            final(self).trail().wf(),
            final(self).current() == final(self).trail().current(),
            r == visit_outcome(probe, listing),
            r.is_err() ==> *final(self) == *old(self),
            r.is_ok() ==> {
                &&& final(self).current() == path@
                &&& final(self).trail() == old(self).trail().push(path@)
                &&& final(self).snapshot() == snapshot_of(
                    listing.unwrap()@,
                    old(self).hidden_shown(),
                    old(self).sort_key(),
                    old(self).sort_direction(),
                )
                &&& directories_lead(final(self).snapshot())
                &&& final(self).selection().len() == 0
                &&& final(self).same_policy(old(self))
                &&& final(self).watched_path() == (if watcher_installed {
                    Some(path@)
                } else {
                    None::<Seq<char>>
                })
                &&& final(self).queued().len() == 0
            },
    {
        match probe {
            PathProbe::Missing => {
                return Err(NavError::NotFound);
            },
            PathProbe::NotDirectory => {
                return Err(NavError::NotADirectory);
            },
            PathProbe::Directory => {},
        }
        let entries = match listing {
            Ok(v) => v,
            Err(f) => {
                return Err(report(f));
            },
        };
        let ghost before = self.trail();
        let held: usize = self.history.len();
        assert(before.paths.len() == held);
        self.current_path = path.to_owned();
        self.history.truncate(self.history_index + 1);
        let n: usize = self.history.len();
        if !same_text(self.history[n - 1].as_str(), path) {
            self.history.push(path.to_owned());
            self.history_index = self.history.len() - 1;
        }
        proof {
            let kept = before.paths.subrange(0, before.cursor + 1);
            if kept.last() == path@ {
                assert(self.trail().paths =~= kept);
            } else {
                assert(self.trail().paths =~= kept.push(path@));
            }
        }
        self.install_snapshot(entries);
        self.watched = if watcher_installed {
            Some(path.to_owned())
        } else {
            None
        };
        self.signals = Vec::new();
        Ok(())
    }

    /// Re-reads the directory on display. A failed read is reported
    /// and changes nothing; otherwise the snapshot is rebuilt under
    /// the policy in force and the selection is cleared. The history
    /// is never touched.
    pub fn refresh_items(&mut self, listing: Result<Vec<FileItem>, IoFault>) -> (r: Result<
        (),
        NavError,
    >)
        requires
            old(self).wf(),
        ensures
            final(self).wf(),
            final(self).trail().wf(),
            final(self).current() == final(self).trail().current(),
            r == reread_outcome(listing),
            r.is_err() ==> *final(self) == *old(self),
            final(self).current() == old(self).current(),
            final(self).trail() == old(self).trail(),
            final(self).same_policy(old(self)),
            final(self).watched_path() == old(self).watched_path(),
            final(self).queued() == old(self).queued(),
            r.is_ok() ==> {
                &&& final(self).snapshot() == snapshot_of(
                    listing.unwrap()@,
                    old(self).hidden_shown(),
                    old(self).sort_key(),
                    old(self).sort_direction(),
                )
                &&& directories_lead(final(self).snapshot())
                &&& final(self).selection().len() == 0
            },
    {
        match listing {
            Ok(entries) => {
                self.install_snapshot(entries);
                Ok(())
            },
            Err(f) => Err(report(f)),
        }
    }

    pub fn get_current_path(&self) -> (p: String)
        ensures
            p@ == self.current(),
    {
        self.current_path.clone()
    }

    pub fn get_items(&self) -> (items: &Vec<FileItem>)
        ensures
            items@ == self.snapshot(),
    {
        &self.items
    }

    pub fn get_selected_items(&self) -> (sel: &Vec<usize>)
        ensures
            sel@ == self.selection(),
    {
        &self.selected_items
    }

    pub fn get_show_hidden(&self) -> (b: bool)
        ensures
            b == self.hidden_shown(),
    {
        self.show_hidden
    }

    pub fn get_sort(&self) -> (policy: (SortBy, SortOrder))
        ensures
            policy.0 == self.sort_key(),
            policy.1 == self.sort_direction(),
    {
        (self.sort_by, self.sort_order)
    }

    /// The path that is watched for changes, if a watcher is in
    /// place.
    pub fn get_watched_path(&self) -> (p: Option<String>)
        ensures
            p.is_some() == self.watched_path().is_some(),
            p.is_some() ==> p.unwrap()@ == self.watched_path().unwrap(),
    {
        match &self.watched {
            Some(w) => Some(w.clone()),
            None => None,
        }
    }

    /// Whether live updates can be expected: a watcher is in place,
    /// or its installation failed and changes show only on the next
    /// re-read.
    pub fn watch_health(&self) -> (r: Result<(), NavError>)
        ensures
            r == (if self.watched_path().is_some() {
                Ok::<(), NavError>(())
            } else {
                Err::<(), NavError>(NavError::WatchFailure)
            }),
    {
        if self.watched.is_some() {
            Ok(())
        } else {
            Err(NavError::WatchFailure)
        }
    }

    pub fn can_go_back(&self) -> (b: bool)
        ensures
            b == self.trail().can_go_back(),
    {
        self.history_index > 0
    }

    pub fn can_go_forward(&self) -> (b: bool)
        requires
            self.wf(),
        ensures
            b == self.trail().can_go_forward(),
    {
        self.history_index < self.history.len() - 1
    }

    /// The path that a step back would put on display.
    pub fn back_target(&self) -> (p: Option<String>)
        requires
            self.wf(),
        ensures
            p.is_some() == self.trail().can_go_back(),
            p.is_some() ==> p.unwrap()@ == self.trail().back().current(),
    {
        if self.history_index > 0 {
            Some(self.history[self.history_index - 1].clone())
        } else {
            None
        }
    }

    /// The path that a step forward would put on display.
    pub fn forward_target(&self) -> (p: Option<String>)
        requires
            self.wf(),
        ensures
            p.is_some() == self.trail().can_go_forward(),
            p.is_some() ==> p.unwrap()@ == self.trail().forward().current(),
    {
        if self.history_index < self.history.len() - 1 {
            Some(self.history[self.history_index + 1].clone())
        } else {
            None
        }
    }

    /// The parent of the path on display, if it has one.
    pub fn up_target(&self) -> (p: Option<String>)
        ensures
            p.is_some() == parent_of(self.current()).is_some(),
            p.is_some() ==> p.unwrap()@ == parent_of(self.current()).unwrap(),
    {
        parent(self.current_path.as_str())
    }

    /// Steps back in the history. At its start nothing happens and
    /// `listing` is not looked at. Otherwise `listing` is the outcome
    /// of reading the path before the cursor: a failed read is
    /// reported and changes nothing; else the cursor moves, that path
    /// goes on display, the snapshot is rebuilt and the selection
    /// cleared. The paths of the history stay as they are.
    pub fn go_back(&mut self, listing: Result<Vec<FileItem>, IoFault>) -> (r: Result<(), NavError>)
        requires
            old(self).wf(),
        ensures
            final(self).wf(),
            final(self).trail().wf(),
            final(self).current() == final(self).trail().current(),
            r == (if old(self).trail().can_go_back() {
                reread_outcome(listing)
            } else {
                Ok(())
            }),
            r.is_err() || !old(self).trail().can_go_back() ==> *final(self) == *old(self),
            r.is_ok() ==> final(self).trail() == old(self).trail().back(),
            final(self).same_policy(old(self)),
            final(self).watched_path() == old(self).watched_path(),
            final(self).queued() == old(self).queued(),
            r.is_ok() && old(self).trail().can_go_back() ==> {
                &&& final(self).snapshot() == snapshot_of(
                    listing.unwrap()@,
                    old(self).hidden_shown(),
                    old(self).sort_key(),
                    old(self).sort_direction(),
                )
                &&& directories_lead(final(self).snapshot())
                &&& final(self).selection().len() == 0
            },
    {
        if self.history_index == 0 {
            return Ok(());
        }
        match listing {
            Ok(entries) => {
                self.history_index = self.history_index - 1;
                self.current_path = self.history[self.history_index].clone();
                self.install_snapshot(entries);
                Ok(())
            },
            Err(f) => Err(report(f)),
        }
    }

    /// Steps forward in the history. At its end nothing happens and
    /// `listing` is not looked at. Otherwise `listing` is the outcome
    /// of reading the path behind the cursor: a failed read is
    /// reported and changes nothing; else the cursor moves, that path
    /// goes on display, the snapshot is rebuilt and the selection
    /// cleared. The paths of the history stay as they are.
    pub fn go_forward(&mut self, listing: Result<Vec<FileItem>, IoFault>) -> (r: Result<
        (),
        NavError,
    >)
        requires
            old(self).wf(),
        ensures
            final(self).wf(),
            final(self).trail().wf(),
            final(self).current() == final(self).trail().current(),
            r == (if old(self).trail().can_go_forward() {
                reread_outcome(listing)
            } else {
                Ok(())
            }),
            r.is_err() || !old(self).trail().can_go_forward() ==> *final(self) == *old(self),
            r.is_ok() ==> final(self).trail() == old(self).trail().forward(),
            final(self).same_policy(old(self)),
            final(self).watched_path() == old(self).watched_path(),
            final(self).queued() == old(self).queued(),
            r.is_ok() && old(self).trail().can_go_forward() ==> {
                &&& final(self).snapshot() == snapshot_of(
                    listing.unwrap()@,
                    old(self).hidden_shown(),
                    old(self).sort_key(),
                    old(self).sort_direction(),
                )
                &&& directories_lead(final(self).snapshot())
                &&& final(self).selection().len() == 0
            },
    {
        if self.history_index >= self.history.len() - 1 {
            return Ok(());
        }
        match listing {
            Ok(entries) => {
                self.history_index = self.history_index + 1;
                self.current_path = self.history[self.history_index].clone();
                self.install_snapshot(entries);
                Ok(())
            },
            Err(f) => Err(report(f)),
        }
    }

    /// Visits the parent of the path on display, as `navigate_to`
    /// would; where there is no parent nothing happens and the other
    /// arguments are not looked at.
    pub fn go_up(
        &mut self,
        probe: PathProbe,
        listing: Result<Vec<FileItem>, IoFault>,
        watcher_installed: bool,
    ) -> (r: Result<(), NavError>)
        requires
            old(self).wf(),
        ensures
            final(self).wf(),
            final(self).trail().wf(),
            final(self).current() == final(self).trail().current(),
            r == (if parent_of(old(self).current()).is_some() {
                visit_outcome(probe, listing)
            } else {
                Ok(())
            }),
            r.is_err() || parent_of(old(self).current()).is_none() ==> *final(self) == *old(self),
            r.is_ok() && parent_of(old(self).current()).is_some() ==> {
                &&& final(self).current() == parent_of(old(self).current()).unwrap()
                &&& final(self).trail() == old(self).trail().push(
                    parent_of(old(self).current()).unwrap(),
                )
                &&& final(self).snapshot() == snapshot_of(
                    listing.unwrap()@,
                    old(self).hidden_shown(),
                    old(self).sort_key(),
                    old(self).sort_direction(),
                )
                &&& directories_lead(final(self).snapshot())
                &&& final(self).selection().len() == 0
                &&& final(self).same_policy(old(self))
                &&& final(self).watched_path() == (if watcher_installed {
                    Some(parent_of(old(self).current()).unwrap())
                } else {
                    None::<Seq<char>>
                })
                &&& final(self).queued().len() == 0
            },
    {
        match parent(self.current_path.as_str()) {
            Some(up) => self.navigate_to(up.as_str(), probe, listing, watcher_installed),
            None => Ok(()),
        }
    }

    /// Sets the sort policy, then re-reads the directory on display
    /// as `refresh_items` does. The policy is set even where the read
    /// failed.
    pub fn set_sort(
        &mut self,
        sort_by: SortBy,
        sort_order: SortOrder,
        listing: Result<Vec<FileItem>, IoFault>,
    ) -> (r: Result<(), NavError>)
        requires
            old(self).wf(),
        ensures
            final(self).wf(),
            final(self).trail().wf(),
            final(self).current() == final(self).trail().current(),
            r == reread_outcome(listing),
            final(self).sort_key() == sort_by,
            final(self).sort_direction() == sort_order,
            final(self).hidden_shown() == old(self).hidden_shown(),
            final(self).current() == old(self).current(),
            final(self).trail() == old(self).trail(),
            final(self).watched_path() == old(self).watched_path(),
            final(self).queued() == old(self).queued(),
            r.is_err() ==> final(self).snapshot() == old(self).snapshot() && final(self).selection() == old(self).selection(),
            r.is_ok() ==> {
                &&& final(self).snapshot() == snapshot_of(
                    listing.unwrap()@,
                    old(self).hidden_shown(),
                    sort_by,
                    sort_order,
                )
                &&& directories_lead(final(self).snapshot())
                &&& final(self).selection().len() == 0
            },
    {
        self.sort_by = sort_by;
        self.sort_order = sort_order;
        self.refresh_items(listing)
    }

    /// Flips whether hidden entries are shown, then re-reads the
    /// directory on display as `refresh_items` does. The flag is
    /// flipped even where the read failed.
    pub fn toggle_show_hidden(&mut self, listing: Result<Vec<FileItem>, IoFault>) -> (r: Result<
        (),
        NavError,
    >)
        requires
            old(self).wf(),
        ensures
            final(self).wf(),
            final(self).trail().wf(),
            final(self).current() == final(self).trail().current(),
            r == reread_outcome(listing),
            final(self).hidden_shown() == !old(self).hidden_shown(),
            final(self).sort_key() == old(self).sort_key(),
            final(self).sort_direction() == old(self).sort_direction(),
            final(self).current() == old(self).current(),
            final(self).trail() == old(self).trail(),
            final(self).watched_path() == old(self).watched_path(),
            final(self).queued() == old(self).queued(),
            r.is_err() ==> final(self).snapshot() == old(self).snapshot() && final(self).selection() == old(self).selection(),
            r.is_ok() ==> {
                &&& final(self).snapshot() == snapshot_of(
                    listing.unwrap()@,
                    !old(self).hidden_shown(),
                    old(self).sort_key(),
                    old(self).sort_direction(),
                )
                &&& directories_lead(final(self).snapshot())
                &&& final(self).selection().len() == 0
            },
    {
        self.show_hidden = !self.show_hidden;
        self.refresh_items(listing)
    }

    /// Picks the entry at `index`. Alone, it becomes the whole
    /// selection; added to the selection, it joins it, or leaves it
    /// if it was part of it. Positions beyond the snapshot are taken
    /// as they come.
    pub fn select_item(&mut self, index: usize, multiple: bool)
        ensures
            final(self).selection() == picked(old(self).selection(), index, multiple),
            final(self).snapshot() == old(self).snapshot(),
            final(self).current() == old(self).current(),
            final(self).trail() == old(self).trail(),
            final(self).same_policy(old(self)),
            final(self).watched_path() == old(self).watched_path(),
            final(self).queued() == old(self).queued(),
            final(self).wf() == old(self).wf(),
    {
        if !multiple {
            let mut one: Vec<usize> = Vec::new();
            one.push(index);
            self.selected_items = one;
            return ;
        }
        let n: usize = self.selected_items.len();
        let mut kept: Vec<usize> = Vec::new();
        let mut found = false;
        let mut i: usize = 0;
        while i < n
            invariant
                n == self.selected_items@.len(),
                i <= n,
                *self == *old(self),
                kept@ == self.selected_items@.subrange(0, i as int).filter(other_than(index)),
                found == self.selected_items@.subrange(0, i as int).contains(index),
            decreases n - i,
        {
            let x: usize = self.selected_items[i];
            proof {
                reveal_with_fuel(Seq::filter, 1);
                let upto = self.selected_items@.subrange(0, i + 1);
                assert(upto.drop_last() =~= self.selected_items@.subrange(0, i as int));
                assert(upto.last() == x);
                if x == index {
                    assert(upto[i as int] == index);
                } else if upto.contains(index) {
                    let j = choose|j: int| 0 <= j < upto.len() && upto[j] == index;
                    assert(upto.drop_last()[j] == index);
                }
            }
            if x == index {
                found = true;
            } else {
                kept.push(x);
            }
            i += 1;
        }
        assert(self.selected_items@.subrange(0, n as int) =~= self.selected_items@);
        if found {
            self.selected_items = kept;
        } else {
            self.selected_items.push(index);
        }
    }

    /// Picks the entry at `index` as `select_item` does, but turns
    /// down a position that the snapshot does not have.
    pub fn select_checked(&mut self, index: usize, multiple: bool) -> (r: Result<(), NavError>)
        ensures
            r.is_ok() == (index < old(self).snapshot().len()),
            r.is_err() ==> r == Err::<(), NavError>(NavError::InvalidSelection) && *final(self)
                == *old(self),
            r.is_ok() ==> final(self).selection() == picked(
                old(self).selection(),
                index,
                multiple,
            ),
            final(self).snapshot() == old(self).snapshot(),
            final(self).current() == old(self).current(),
            final(self).trail() == old(self).trail(),
            final(self).same_policy(old(self)),
            final(self).watched_path() == old(self).watched_path(),
            final(self).queued() == old(self).queued(),
            final(self).wf() == old(self).wf(),
    {
        if index < self.items.len() {
            self.select_item(index, multiple);
            Ok(())
        } else {
            Err(NavError::InvalidSelection)
        }
    }

    /// Selects every entry of the snapshot, in display order.
    pub fn select_all(&mut self)
        ensures
            final(self).selection() == Seq::new(
                old(self).snapshot().len(),
                |i: int| i as usize,
            ),
            final(self).snapshot() == old(self).snapshot(),
            final(self).current() == old(self).current(),
            final(self).trail() == old(self).trail(),
            final(self).same_policy(old(self)),
            final(self).watched_path() == old(self).watched_path(),
            final(self).queued() == old(self).queued(),
            final(self).wf() == old(self).wf(),
    {
        let n: usize = self.items.len();
        let mut all: Vec<usize> = Vec::new();
        let mut i: usize = 0;
        while i < n
            invariant
                i <= n,
                all@ == Seq::new(i as nat, |k: int| k as usize),
            decreases n - i,
        {
            all.push(i);
            i += 1;
            assert(all@ =~= Seq::new(i as nat, |k: int| k as usize));
        }
        self.selected_items = all;
    }

    /// Empties the selection.
    pub fn clear_selection(&mut self)
        ensures
            final(self).selection().len() == 0,
            final(self).snapshot() == old(self).snapshot(),
            final(self).current() == old(self).current(),
            final(self).trail() == old(self).trail(),
            final(self).same_policy(old(self)),
            final(self).watched_path() == old(self).watched_path(),
            final(self).queued() == old(self).queued(),
            final(self).wf() == old(self).wf(),
    {
        self.selected_items = Vec::new();
    }

    /// Queues a signal from the watcher. Without a watcher in place
    /// the signal is dropped.
    pub fn record_signal(&mut self, signal: WatchSignal)
        ensures
            final(self).queued() == (if old(self).watched_path().is_some() {
                old(self).queued().push(signal)
            } else {
                old(self).queued()
            }),
            final(self).snapshot() == old(self).snapshot(),
            final(self).selection() == old(self).selection(),
            final(self).current() == old(self).current(),
            final(self).trail() == old(self).trail(),
            final(self).same_policy(old(self)),
            final(self).watched_path() == old(self).watched_path(),
            final(self).wf() == old(self).wf(),
    {
        if self.watched.is_some() {
            self.signals.push(signal);
        }
    }

    /// Drains the queue of watcher signals and hands out the changes
    /// among them, oldest first. A caller that gets any re-reads the
    /// directory.
    pub fn check_file_changes(&mut self) -> (events: Vec<ChangeEvent>)
        ensures
            events@ == changes_of(old(self).queued()),
            final(self).queued().len() == 0,
            final(self).snapshot() == old(self).snapshot(),
            final(self).selection() == old(self).selection(),
            final(self).current() == old(self).current(),
            final(self).trail() == old(self).trail(),
            final(self).same_policy(old(self)),
            final(self).watched_path() == old(self).watched_path(),
            final(self).wf() == old(self).wf(),
    {
        let ghost all = self.signals@;
        let mut events: Vec<ChangeEvent> = Vec::new();
        let mut newest_first: Vec<ChangeEvent> = Vec::new();
        let mut src: Vec<WatchSignal> = Vec::new();
        std::mem::swap(&mut self.signals, &mut src);
        while src.len() > 0
            invariant
                src@.len() <= all.len(),
                src@ == all.subrange(0, src@.len() as int),
                changes_of(all) == changes_of(src@) + newest_first@.reverse(),
                self.signals@.len() == 0,
                self.items == old(self).items,
                self.selected_items == old(self).selected_items,
                self.current_path == old(self).current_path,
                self.history == old(self).history,
                self.history_index == old(self).history_index,
                self.sort_by == old(self).sort_by,
                self.sort_order == old(self).sort_order,
                self.show_hidden == old(self).show_hidden,
                self.watched == old(self).watched,
            decreases src.len(),
        {
            let ghost before = src@;
            let ghost done = newest_first@;
            let signal = src.pop().unwrap();
            assert(src@ =~= before.drop_last());
            assert(src@ =~= all.subrange(0, src@.len() as int));
            match signal {
                WatchSignal::Changed(e) => {
                    newest_first.push(e);
                    assert(newest_first@.reverse() =~= seq![e] + done.reverse());
                    assert(changes_of(before) + done.reverse() =~= changes_of(src@)
                        + newest_first@.reverse());
                },
                WatchSignal::Failed => {},
            }
        }
        assert(all.subrange(0, all.len() as int) =~= all);
        assert(changes_of(src@) =~= Seq::<ChangeEvent>::empty());
        while newest_first.len() > 0
            invariant
                changes_of(all) == events@ + newest_first@.reverse(),
            decreases newest_first.len(),
        {
            let ghost before = newest_first@;
            let ghost done = events@;
            let e = newest_first.pop().unwrap();
            events.push(e);
            assert(before.reverse() =~= seq![e] + newest_first@.reverse());
            assert(done + before.reverse() =~= events@ + newest_first@.reverse());
        }
        assert(events@ + newest_first@.reverse() =~= events@);
        events
    }
}

impl Default for FileManager {
    fn default() -> (fm: FileManager)
        ensures
            fm.wf(),
    {
        FileManager::new()
    }
}

/// After a visit to `a` and then to another path `b`, one step back
/// puts `a` on display again, and one step forward from there `b`.
pub proof fn law_back_and_forward_round_trip(t: Trail, a: Seq<char>, b: Seq<char>)
    requires
        t.wf(),
        a != b,
    ensures
        t.push(a).push(b).wf(),
        t.push(a).push(b).current() == b,
        t.push(a).push(b).back().current() == a,
        t.push(a).push(b).back().forward().current() == b,
        t.push(a).push(b).back().forward() == t.push(a).push(b),
{
}

/// A visit always leaves the cursor on the last path of the history:
/// whatever lay beyond the cursor before, and so whatever a step
/// back had left to return to, is gone, while the history up to the
/// cursor is kept.
pub proof fn law_visit_discards_forward_history(t: Trail, p: Seq<char>)
    requires
        t.wf(),
    ensures
        t.push(p).wf(),
        !t.push(p).can_go_forward(),
        t.push(p).current() == p,
        t.push(p).paths.subrange(0, t.cursor + 1) == t.paths.subrange(0, t.cursor + 1),
        t.push(p).paths.len() <= t.cursor + 2,
        t.back().push(p).paths.len() <= t.back().cursor + 2,
        !t.back().push(p).can_go_forward(),
        t.can_go_back() && t.paths[t.cursor - 1] != p ==> t.back().push(p).paths == t.paths.subrange(
            0,
            t.cursor as int,
        ).push(p),
{
    let kept = t.paths.subrange(0, t.cursor + 1);
    assert(t.push(p).paths.subrange(0, t.cursor + 1) =~= kept);
    if t.can_go_back() && t.paths[t.cursor - 1] != p {
        assert(t.back().paths.subrange(0, t.back().cursor + 1) =~= t.paths.subrange(
            0,
            t.cursor as int,
        ));
    }
}

} // verus!
