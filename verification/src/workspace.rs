//! Workspaces and the registry that owns them: a mapping of workspace
//! name to workspace plus the designated current one. A later entry with
//! the same name shadows an earlier one, so adding overwrites.

use vstd::prelude::*;
use vstd::string::*;

verus! {

/// A named root: `path` is the textual form of the workspace's root (a
/// directory URL or path).
#[derive(Debug, Clone)]
pub struct Workspace {
    pub name: String,
    pub path: String,
}

pub ghost struct WsView {
    pub name: Seq<char>,
    pub path: Seq<char>,
}

impl View for Workspace {
    type V = WsView;

    open spec fn view(&self) -> WsView {
        WsView { name: self.name@, path: self.path@ }
    }
}

/// The error a lookup of an unknown workspace name yields.
#[derive(Debug)]
pub struct WorkspaceNotFound {
    pub workspace: String,
}

/// The views of a sequence of workspaces.
pub open spec fn ws_views(ws: Seq<Workspace>) -> Seq<WsView> {
    Seq::new(
        ws.len(),
        |i: int|
            if 0 <= i < ws.len() {
                ws[i]@
            } else {
                arbitrary()
            },
    )
}

/// The workspace a name maps to: the latest added entry with that name.
pub open spec fn last_ws(ws: Seq<WsView>, name: Seq<char>) -> Option<WsView>
    decreases ws.len(),
{
    if ws.len() == 0 {
        None
    } else if ws.last().name == name {
        Some(ws.last())
    } else {
        last_ws(ws.drop_last(), name)
    }
}

/// The registry of workspaces and the current selection.
#[derive(Debug)]
pub struct WorkspaceManager {
    pub workspaces: Vec<Workspace>,
    current_workspace: String,
}

impl WorkspaceManager {
    /// The name of the current workspace.
    pub closed spec fn spec_current(self) -> Seq<char> {
        self.current_workspace@
    }

    /// The workspaces, in the order they were added.
    pub closed spec fn spec_workspaces(self) -> Seq<Workspace> {
        self.workspaces@
    }

    /// The registry invariant: the current name maps to a workspace.
    pub open spec fn wf(self) -> bool {
        last_ws(ws_views(self.spec_workspaces()), self.spec_current()) is Some
    }

    /// Creates a workspace manager with a single workspace, set as the
    /// current one.
    pub fn from_single_workspace(workspace: Workspace) -> (r: WorkspaceManager)
        ensures
            r.wf(),
            ws_views(r.spec_workspaces()) == seq![workspace@],
            r.spec_current() == workspace@.name,
    {
        let name = workspace.name.clone();
        let mut ws: Vec<Workspace> = Vec::new();
        ws.push(workspace);
        proof {
            assert(ws_views(ws@) =~= seq![ws@[0]@]);
        }
        WorkspaceManager { current_workspace: name, workspaces: ws }
    }

    /// Creates a workspace manager from a list of workspaces. It fails,
    /// naming the missing workspace and changing nothing, exactly when
    /// no workspace in the list has the default's name.
    pub fn new(workspaces: Vec<Workspace>, default_workspace: String) -> (r: Result<
        WorkspaceManager,
        WorkspaceNotFound,
    >)
        ensures
            match r {
                Ok(m) => {
                    &&& m.wf()
                    &&& ws_views(m.spec_workspaces()) == ws_views(workspaces@)
                    &&& m.spec_current() == default_workspace@
                    &&& last_ws(ws_views(workspaces@), default_workspace@) is Some
                },
                Err(e) => {
                    &&& last_ws(ws_views(workspaces@), default_workspace@) is None
                    &&& e.workspace@ == default_workspace@
                },
            },
    {
        match Self::find_last(&workspaces, &default_workspace) {
            Some(_) => Ok(
                WorkspaceManager { current_workspace: default_workspace, workspaces },
            ),
            None => Err(WorkspaceNotFound { workspace: default_workspace }),
        }
    }

    fn find_last<'a>(ws: &'a Vec<Workspace>, name: &String) -> (r: Option<&'a Workspace>)
        ensures
            match r {
                Some(w) => last_ws(ws_views(ws@), name@) == Some(w@),
                None => last_ws(ws_views(ws@), name@) is None,
            },
    {
        let mut i: usize = ws.len();
        proof {
            assert(ws_views(ws@).take(i as int) =~= ws_views(ws@));
        }
        while i > 0
            invariant
                i <= ws.len(),
                last_ws(ws_views(ws@), name@) == last_ws(
                    ws_views(ws@).take(i as int),
                    name@,
                ),
            decreases i,
        {
            proof {
                assert(ws_views(ws@).take(i as int).last() == ws@[i as int - 1]@);
                assert(ws_views(ws@).take(i as int).drop_last() =~= ws_views(ws@).take(
                    i as int - 1,
                ));
            }
            if ws[i - 1].name.eq(name) {
                return Some(&ws[i - 1]);
            }
            i = i - 1;
        }
        proof {
            assert(ws_views(ws@).take(0) =~= Seq::<WsView>::empty());
        }
        None
    }

    /// The workspace with the given name, or None if there is none.
    pub fn get_workspace<'a>(&'a self, name: &String) -> (r: Option<&'a Workspace>)
        ensures
            match r {
                Some(w) => last_ws(ws_views(self.spec_workspaces()), name@) == Some(w@),
                None => last_ws(ws_views(self.spec_workspaces()), name@) is None,
            },
    {
        Self::find_last(&self.workspaces, name)
    }

    /// Makes the named workspace current. It fails, naming the unknown
    /// workspace and leaving the state unchanged, exactly when no
    /// workspace has that name.
    pub fn set_current_workspace(&mut self, name: String) -> (r: Result<(), WorkspaceNotFound>)
        ensures
            match r {
                Ok(()) => {
                    &&& last_ws(ws_views(old(self).spec_workspaces()), name@) is Some
                    &&& final(self).spec_workspaces() == old(self).spec_workspaces()
                    &&& final(self).spec_current() == name@
                    &&& final(self).wf()
                },
                Err(e) => {
                    &&& last_ws(ws_views(old(self).spec_workspaces()), name@) is None
                    &&& *final(self) == *old(self)
                    &&& e.workspace@ == name@
                },
            },
    {
        if Self::find_last(&self.workspaces, &name).is_none() {
            Err(WorkspaceNotFound { workspace: name })
        } else {
            self.current_workspace = name;
            Ok(())
        }
    }

    /// The current workspace.
    pub fn get_current_workspace<'a>(&'a self) -> (r: &'a Workspace)
        requires
            self.wf(),
        ensures
            last_ws(ws_views(self.spec_workspaces()), self.spec_current()) == Some(r@),
    {
        match Self::find_last(&self.workspaces, &self.current_workspace) {
            Some(w) => w,
            None => unreached(),
        }
    }

    /// Adds a workspace, shadowing any existing workspace with the same
    /// name.
    pub fn add_workspace(&mut self, workspace: Workspace)
        ensures
            ws_views(final(self).spec_workspaces()) == ws_views(old(self).spec_workspaces()).push(workspace@),
            final(self).spec_current() == old(self).spec_current(),
            old(self).wf() ==> final(self).wf(),
    {
        let ghost oldv = ws_views(old(self).workspaces@);
        let ghost wv = workspace@;
        self.workspaces.push(workspace);
        proof {
            assert(ws_views(self.workspaces@) =~= oldv.push(wv));
            assert(ws_views(self.workspaces@).drop_last() =~= oldv);
        }
    }
}

} // verus!
