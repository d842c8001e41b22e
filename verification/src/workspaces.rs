//! Workspace registry: a set of trusted folders that the agent operates in.
//!
//! A workspace is a user-trusted directory used as the tool sandbox root (the
//! agent's cwd). On first launch the legacy `settings.workspace_dir` (or the
//! home directory) becomes the initial workspace.
use vstd::prelude::*;
use crate::calls;
use crate::paths::{file_name, join_path, path_file_name, path_join};
use crate::text::{is_blank, owned, str_eq, str_is_blank};

verus! {

/// One trusted folder.
#[derive(Debug, Clone, PartialEq, Eq)]
pub struct Workspace {
    pub id: String,
    pub name: String,
    pub path: String,
}

/// The registry: the folders and the id of the current one.
#[derive(Debug, Clone, Default)]
pub struct WorkspaceState {
    pub current: Option<String>,
    pub items: Vec<Workspace>,
}

/// Where the registry is kept.
#[derive(Debug, Clone)]
pub struct WorkspaceStore {
    path: String,
}

/// The position of the first workspace with id `id`, if any.
pub open spec fn first_with_id(items: Seq<Workspace>, id: Seq<char>) -> Option<int>
    decreases items.len(),
{
    if items.len() == 0 {
        None
    } else {
        match first_with_id(items.drop_last(), id) {
            Some(k) => Some(k),
            None => if items.last().id@ == id {
                Some(items.len() - 1)
            } else {
                None
            },
        }
    }
}

/// The current workspace: the first whose id is the current id.
pub open spec fn current_of(s: WorkspaceState) -> Option<Workspace> {
    match s.current {
        None => None,
        Some(c) => match first_with_id(s.items@, c@) {
            Some(k) => Some(s.items@[k]),
            None => None,
        },
    }
}

proof fn lemma_first_with_id_bounds(items: Seq<Workspace>, id: Seq<char>)
    ensures
        first_with_id(items, id) matches Some(k) ==> 0 <= k < items.len() && items[k].id@ == id,
    decreases items.len(),
{
    if items.len() > 0 {
        lemma_first_with_id_bounds(items.drop_last(), id);
    }
}

impl WorkspaceState {
    /// The current workspace, if the current id names one.
    pub fn current_workspace(&self) -> (r: Option<&Workspace>)
        ensures
            match current_of(*self) {
                Some(w) => r matches Some(x) && *x == w,
                None => r is None,
            },
    {
        match &self.current {
            None => None,
            Some(c) => {
                let mut i: usize = 0;
                while i < self.items.len()
                    invariant
                        i <= self.items.len(),
                        self.current == Some(*c),
                        first_with_id(self.items@.subrange(0, i as int), c@) is None,
                    decreases self.items.len() - i,
                {
                    assert(self.items@.subrange(0, i + 1).drop_last() =~= self.items@.subrange(
                        0,
                        i as int,
                    ));
                    if str_eq(self.items[i].id.as_str(), c.as_str()) {
                        proof {
                            lemma_first_with_id_prefix(self.items@, c@, i + 1);
                        }
                        return Some(&self.items[i]);
                    }
                    i += 1;
                }
                assert(self.items@.subrange(0, self.items.len() as int) =~= self.items@);
                None
            },
        }
    }

    /// The folder of the current workspace.
    pub fn current_path(&self) -> (r: Option<&str>)
        ensures
            match current_of(*self) {
                Some(w) => r matches Some(p) && p@ == w.path@,
                None => r is None,
            },
    {
        match self.current_workspace() {
            Some(w) => Some(w.path.as_str()),
            None => None,
        }
    }

    /// Seeds an empty registry with its first workspace (id `id`): the legacy
    /// directory unless blank, else the home directory (`.` without one),
    /// named after its last component (`默认工作区` without one), and made
    /// current. A registry that has workspaces is left unchanged.
    pub fn seed_with(&mut self, legacy_dir: &str, home: Option<String>, id: String)
        ensures
            old(self).items@.len() > 0 ==> *final(self) == *old(self),
            old(self).items@.len() == 0 ==> {
                let path = if is_blank(legacy_dir@) {
                    match home {
                        Some(h) => h@,
                        None => "."@,
                    }
                } else {
                    legacy_dir@
                };
                &&& final(self).items@.len() == 1
                &&& final(self).items@[0].id == id
                &&& final(self).items@[0].path@ == path
                &&& final(self).items@[0].name@ == match file_name(path) {
                    Some(n) => n,
                    None => "默认工作区"@,
                }
                &&& final(self).current == Some(id)
            },
    {
        if self.items.len() > 0 {
            return;
        }
        let path = if str_is_blank(legacy_dir) {
            match home {
                Some(h) => h,
                None => owned("."),
            }
        } else {
            owned(legacy_dir)
        };
        let name = match path_file_name(path.as_str()) {
            Some(n) => n,
            None => owned("默认工作区"),
        };
        self.current = Some(id.clone());
        self.items.push(Workspace { id, name, path });
    }

    /// Seeds an empty registry from the legacy workspace directory, with a
    /// fresh id, the home directory standing in for a blank one.
    pub fn seed(&mut self, legacy_dir: &str)
        ensures
            old(self).items@.len() > 0 ==> *final(self) == *old(self),
            old(self).items@.len() == 0 ==> {
                &&& final(self).items@.len() == 1
                &&& final(self).items@[0].id@.len() == 36
                &&& final(self).current == Some(final(self).items@[0].id)
                &&& !is_blank(legacy_dir@) ==> final(self).items@[0].path@ == legacy_dir@
                &&& !is_blank(legacy_dir@) ==> final(self).items@[0].name@ == match file_name(
                    legacy_dir@,
                ) {
                    Some(n) => n,
                    None => "默认工作区"@,
                }
            },
    {
        if self.items.len() > 0 {
            return;
        }
        let home = calls::home_dir();
        let id = calls::new_uuid();
        self.seed_with(legacy_dir, home, id);
    }
}

proof fn lemma_first_with_id_prefix(items: Seq<Workspace>, id: Seq<char>, n: int)
    requires
        0 < n <= items.len(),
        first_with_id(items.subrange(0, n - 1), id) is None,
        items[n - 1].id@ == id,
    ensures
        first_with_id(items, id) == Some(n - 1),
    decreases items.len(),
{
    assert(items.subrange(0, n).drop_last() =~= items.subrange(0, n - 1));
    if n < items.len() {
        assert(items.drop_last().subrange(0, n - 1) =~= items.subrange(0, n - 1));
        assert(items.drop_last()[n - 1] == items[n - 1]);
        lemma_first_with_id_prefix(items.drop_last(), id, n);
        assert(items.drop_last().subrange(0, n) =~= items.subrange(0, n));
    } else {
        assert(items.subrange(0, n) =~= items);
    }
}

impl WorkspaceStore {
    /// The registry file.
    pub closed spec fn path_view(&self) -> Seq<char> {
        self.path@
    }

    /// The store under the data directory `root`: `workspaces.json` there.
    pub fn new(root: &str) -> (r: WorkspaceStore)
        ensures
            r.path_view() == path_join(root@, "workspaces.json"@),
    {
        WorkspaceStore { path: join_path(root, "workspaces.json") }
    }

    /// The registry file.
    pub fn path(&self) -> (r: &str)
        ensures
            r@ == self.path_view(),
    {
        self.path.as_str()
    }
}

} // verus!
