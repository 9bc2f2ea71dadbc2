//! Open tabs and which of them is active.

use vstd::prelude::*;
use crate::file_item::display_name;
use crate::paths::file_name;

verus! {

/// One open tab.
#[derive(Clone, Debug)]
pub struct Tab {
    pub id: u128,
    pub title: String,
    pub path: String,
    pub is_active: bool,
}

/// Calls `uuid::Uuid::new_v4` and reads the identifier as a number.
/// The identifier is random, so nothing is claimed about it.
#[verifier::external_body]
fn fresh_id() -> (id: u128) {
    uuid::Uuid::new_v4().as_u128()
}

impl Tab {
    /// An inactive tab with the given identifier.
    pub fn with_id(id: u128, title: String, path: String) -> (t: Tab)
        ensures
            t == (Tab { id, title, path, is_active: false }),
    {
        Tab { id, title, path, is_active: false }
    }

    /// An inactive tab with a fresh identifier.
    pub fn new(title: String, path: String) -> (t: Tab)
        ensures
            t.title == title,
            t.path == path,
            !t.is_active,
    {
        Tab::with_id(fresh_id(), title, path)
    }
}

/// The tabs with exactly those marked active that carry `id`.
pub open spec fn activated(tabs: Seq<Tab>, id: u128) -> Seq<Tab> {
    Seq::new(tabs.len(), |i: int| Tab { is_active: tabs[i].id == id, ..tabs[i] })
}

/// Whether the tab at `i` is the first that carries `id`.
pub open spec fn first_with_id(tabs: Seq<Tab>, id: u128, i: int) -> bool {
    &&& 0 <= i < tabs.len()
    &&& tabs[i].id == id
    &&& forall|j: int| 0 <= j < i ==> (#[trigger] tabs[j]).id != id
}

/// Whether no tab carries `id`.
pub open spec fn no_tab_with_id(tabs: Seq<Tab>, id: u128) -> bool {
    forall|j: int| 0 <= j < tabs.len() ==> (#[trigger] tabs[j]).id != id
}

pub struct TabManager {
    tabs: Vec<Tab>,
    active_tab_id: Option<u128>,
}

impl Default for TabManager {
    fn default() -> (m: TabManager)
        ensures
            m.open_tabs().len() == 0,
            m.active_id().is_none(),
    {
        TabManager::new()
    }
}

impl TabManager {
    /// The open tabs, in the order in which they were opened.
    pub closed spec fn open_tabs(&self) -> Seq<Tab> {
        self.tabs@
    }

    /// The identifier of the active tab, if one is active.
    pub closed spec fn active_id(&self) -> Option<u128> {
        self.active_tab_id
    }

    pub fn new() -> (m: TabManager)
        ensures
            m.open_tabs().len() == 0,
            m.active_id().is_none(),
    {
        TabManager { tabs: Vec::new(), active_tab_id: None }
    }

    pub fn get_tabs(&self) -> (t: &Vec<Tab>)
        ensures
            t@ == self.open_tabs(),
    {
        &self.tabs
    }

    pub fn get_active_id(&self) -> (id: Option<u128>)
        ensures
            id == self.active_id(),
    {
        self.active_tab_id
    }

    /// Makes the tabs that carry `tab_id` the active ones.
    pub fn activate_tab(&mut self, tab_id: u128)
        ensures
            final(self).active_id() == Some(tab_id),
            final(self).open_tabs() == activated(old(self).open_tabs(), tab_id),
    {
        self.active_tab_id = Some(tab_id);
        let n: usize = self.tabs.len();
        let mut i: usize = 0;
        while i < n
            invariant
                n == self.tabs@.len(),
                n == old(self).tabs@.len(),
                i <= n,
                self.active_tab_id == Some(tab_id),
                forall|j: int| 0 <= j < i ==> self.tabs@[j] == activated(old(self).tabs@, tab_id)[j],
                forall|j: int| i <= j < n ==> self.tabs@[j] == old(self).tabs@[j],
            decreases n - i,
        {
            let updated = Tab {
                id: self.tabs[i].id,
                title: self.tabs[i].title.clone(),
                path: self.tabs[i].path.clone(),
                is_active: self.tabs[i].id == tab_id,
            };
            self.tabs.set(i, updated);
            i += 1;
        }
        assert(self.tabs@ =~= activated(old(self).tabs@, tab_id));
    }

    /// Opens a tab with the given identifier at the end and makes it
    /// active.
    pub fn add_tab_with_id(&mut self, id: u128, title: String, path: String)
        ensures
            final(self).active_id() == Some(id),
            final(self).open_tabs() == activated(
                old(self).open_tabs().push(Tab { id, title, path, is_active: false }),
                id,
            ),
    {
        self.tabs.push(Tab::with_id(id, title, path));
        self.activate_tab(id);
    }

    /// Opens a tab at the end, under a fresh identifier, and makes it
    /// active.
    pub fn add_tab(&mut self, title: String, path: String)
        ensures
            final(self).active_id().is_some(),
            final(self).open_tabs() == activated(
                old(self).open_tabs().push(
                    Tab { id: final(self).active_id().unwrap(), title, path, is_active: false },
                ),
                final(self).active_id().unwrap(),
            ),
    {
        self.add_tab_with_id(fresh_id(), title, path);
    }

    fn position(&self, tab_id: u128) -> (r: Option<usize>)
        ensures
            r.is_none() ==> no_tab_with_id(self.open_tabs(), tab_id),
            r.is_some() ==> first_with_id(self.open_tabs(), tab_id, r.unwrap() as int),
    {
        let n: usize = self.tabs.len();
        let mut i: usize = 0;
        while i < n
            invariant
                n == self.tabs@.len(),
                i <= n,
                forall|j: int| 0 <= j < i ==> (#[trigger] self.tabs@[j]).id != tab_id,
            decreases n - i,
        {
            if self.tabs[i].id == tab_id {
                return Some(i);
            }
            i += 1;
        }
        None
    }

    /// Closes the first tab that carries `tab_id`; without such a
    /// tab nothing happens. Where the closed tab was the active one,
    /// the tab before it becomes active, or the first where it was
    /// the first itself, or none where no tab is left.
    pub fn close_tab(&mut self, tab_id: u128)
        ensures
            no_tab_with_id(old(self).open_tabs(), tab_id) ==> *final(self) == *old(self),
            forall|i: int| #[trigger]
                first_with_id(old(self).open_tabs(), tab_id, i) ==> {
                    let rest = old(self).open_tabs().remove(i);
                    if old(self).active_id() != Some(tab_id) {
                        &&& final(self).open_tabs() == rest
                        &&& final(self).active_id() == old(self).active_id()
                    } else if rest.len() == 0 {
                        &&& final(self).open_tabs() == rest
                        &&& final(self).active_id().is_none()
                    } else {
                        let heir = rest[if i > 0 { i - 1 } else { 0 }].id;
                        &&& final(self).open_tabs() == activated(rest, heir)
                        &&& final(self).active_id() == Some(heir)
                    }
                },
    {
        let found = self.position(tab_id);
        match found {
            None => {
                assert forall|i: int| first_with_id(old(self).open_tabs(), tab_id, i) implies false by {
                    assert(old(self).open_tabs()[i].id != tab_id);
                }
            },
            Some(index) => {
                assert forall|i: int| #[trigger]
                    first_with_id(old(self).open_tabs(), tab_id, i) implies i == index by {
                    if i < index {
                        assert(old(self).open_tabs()[i].id != tab_id);
                    } else if index < i {
                        assert(old(self).open_tabs()[index as int].id != tab_id);
                    }
                }
                assert(!no_tab_with_id(old(self).open_tabs(), tab_id)) by {
                    assert(old(self).open_tabs()[index as int].id == tab_id);
                }
                let _ = self.tabs.remove(index);
                let was_active = match self.active_tab_id {
                    Some(active) => active == tab_id,
                    None => false,
                };
                if was_active {
                    if self.tabs.len() > 0 {
                        let heir_index: usize = if index > 0 { index - 1 } else { 0 };
                        let heir: u128 = self.tabs[heir_index].id;
                        self.activate_tab(heir);
                    } else {
                        self.active_tab_id = None;
                    }
                }
            },
        }
    }

    /// The first tab that carries the active identifier.
    pub fn get_active_tab(&self) -> (t: Option<&Tab>)
        ensures
            self.active_id().is_none() ==> t.is_none(),
            self.active_id().is_some() ==> {
                &&& t.is_none() == no_tab_with_id(self.open_tabs(), self.active_id().unwrap())
                &&& t.is_some() ==> exists|i: int| #[trigger]
                    first_with_id(self.open_tabs(), self.active_id().unwrap(), i) && *t.unwrap()
                        == self.open_tabs()[i]
            },
    {
        match self.active_tab_id {
            None => None,
            Some(id) => match self.position(id) {
                None => None,
                Some(i) => {
                    assert(first_with_id(self.open_tabs(), id, i as int));
                    assert(!no_tab_with_id(self.open_tabs(), id)) by {
                        assert(self.open_tabs()[i as int].id == id);
                    }
                    Some(&self.tabs[i])
                },
            },
        }
    }

    /// Points the active tab at `path` and titles it with the last
    /// component of `path`. Without an active tab nothing happens.
    pub fn update_active_tab_path(&mut self, path: String)
        ensures
            final(self).active_id() == old(self).active_id(),
            final(self).open_tabs().len() == old(self).open_tabs().len(),
            old(self).active_id().is_none() || no_tab_with_id(
                old(self).open_tabs(),
                old(self).active_id().unwrap(),
            ) ==> *final(self) == *old(self),
            old(self).active_id().is_some() ==> forall|i: int| #[trigger]
                first_with_id(old(self).open_tabs(), old(self).active_id().unwrap(), i) ==> {
                    &&& final(self).open_tabs()[i].id == old(self).open_tabs()[i].id
                    &&& final(self).open_tabs()[i].is_active == old(self).open_tabs()[i].is_active
                    &&& final(self).open_tabs()[i].path == path
                    &&& final(self).open_tabs()[i].title@ == display_name(path@)
                    &&& forall|j: int|
                        0 <= j < old(self).open_tabs().len() && j != i ==> final(self).open_tabs()[j] == old(self).open_tabs()[j]
                },
    {
        let id = match self.active_tab_id {
            Some(id) => id,
            None => {
                return ;
            },
        };
        match self.position(id) {
            None => {
                assert forall|i: int| first_with_id(old(self).open_tabs(), id, i) implies false by {
                    assert(old(self).open_tabs()[i].id != id);
                }
            },
            Some(index) => {
                assert forall|i: int| #[trigger]
                    first_with_id(old(self).open_tabs(), id, i) implies i == index by {
                    if i < index {
                        assert(old(self).open_tabs()[i].id != id);
                    } else if index < i {
                        assert(old(self).open_tabs()[index as int].id != id);
                    }
                }
                assert(!no_tab_with_id(old(self).open_tabs(), id)) by {
                    assert(old(self).open_tabs()[index as int].id == id);
                }
                let title = match file_name(path.as_str()) {
                    Some(n) => n,
                    None => String::new(),
                };
                let updated = Tab {
                    id: self.tabs[index].id,
                    title,
                    path,
                    is_active: self.tabs[index].is_active,
                };
                self.tabs.set(index, updated);
            },
        }
    }
}

} // verus!
