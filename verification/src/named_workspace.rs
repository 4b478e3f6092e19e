//! Where a window goes that is sent to a workspace by name.

use vstd::prelude::*;
use vstd::string::*;

use crate::action::{action_views, Action, ActionView, WorkspaceRef, WorkspaceRefView};
use crate::niri::{Window, WorkspaceInfo};
use crate::search::{
    first_where, first_where_found, first_where_is_first, first_where_missing,
};
use crate::text::{
    cut_at, decimal, decimal_injective, decimal_text, is_text, opt_str, opt_text, same_text,
    split_once, text_is_cut_at_the_first,
};

verus! {

/// The name that a target such as "web" or "web@DP-1" asks for.
pub open spec fn target_name(target: Seq<char>) -> Seq<char> {
    match cut_at(target, '@') {
        Some(parts) => parts.0,
        None => target,
    }
}

/// The output that a target such as "web@DP-1" asks for, if any.
pub open spec fn target_output(target: Seq<char>) -> Option<Seq<char>> {
    match cut_at(target, '@') {
        Some(parts) => Some(parts.1),
        None => None,
    }
}

fn split_target<'a>(target: &'a str) -> (r: (&'a str, Option<&'a str>))
    ensures
        r.0@ == target_name(target@),
        opt_str(r.1) == target_output(target@),
{
    match split_once(target, '@') {
        Some((name, output)) => (name, Some(output)),
        None => (target, None),
    }
}

impl WorkspaceInfo {
    /// Whether a workspace is on an output, which may be given by its name or
    /// by its display prefix.
    pub open spec fn on_output(self, output: Seq<char>) -> bool {
        &&& self.output is Some
        &&& opt_text(self.output) == Some(output) || opt_text(self.output_prefix) == Some(output)
    }

    /// Whether a workspace is on an output.
    pub fn is_on_output(&self, output: &str) -> (r: bool)
        ensures
            r == self.on_output(output@),
    {
        self.output.is_some() && (is_text(&self.output, output) || is_text(
            &self.output_prefix,
            output,
        ))
    }

    /// Whether a workspace has a name or, in decimal, an index.
    pub open spec fn named(self, name: Seq<char>) -> bool {
        opt_text(self.name) == Some(name) || decimal(self.idx as nat) == name
    }

    /// Whether a workspace has a name or, in decimal, an index.
    pub fn is_named(&self, name: &str) -> (r: bool)
        ensures
            r == self.named(name@),
    {
        is_text(&self.name, name) || same_text(decimal_text(self.idx as u64).as_str(), name)
    }

    /// Whether no window is on a workspace.
    pub open spec fn empty_of(self, windows: Seq<Window>) -> bool {
        forall|i: int|
            0 <= i < windows.len() ==> (#[trigger] windows[i]).workspace_id != Some(self.id)
    }

    /// Whether no window is on a workspace.
    pub fn is_empty_of(&self, windows: &Vec<Window>) -> (r: bool)
        ensures
            r == self.empty_of(windows@),
    {
        is_workspace_empty(windows, self.id)
    }
}

/// Whether no window is on the workspace with an id.
pub fn is_workspace_empty(windows: &Vec<Window>, workspace_id: u64) -> (r: bool)
    ensures
        r == (forall|i: int|
            0 <= i < windows@.len() ==> (#[trigger] windows@[i]).workspace_id != Some(
                workspace_id,
            )),
{
    for i in 0..windows.len()
        invariant
            forall|j: int|
                0 <= j < i ==> (#[trigger] windows@[j]).workspace_id != Some(workspace_id),
    {
        if let Some(id) = windows[i].workspace_id {
            if id == workspace_id {
                assert(windows@[i as int].workspace_id == Some(workspace_id));
                return false;
            }
        }
    }
    true
}

/// Having a name or index.
pub open spec fn by_name(name: Seq<char>) -> spec_fn(WorkspaceInfo) -> bool {
    |ws: WorkspaceInfo| ws.named(name)
}

/// Having a name or index, on an output.
pub open spec fn by_name_on(name: Seq<char>, output: Seq<char>) -> spec_fn(WorkspaceInfo) -> bool {
    |ws: WorkspaceInfo| ws.on_output(output) && ws.named(name)
}

/// Having no window on it.
pub open spec fn vacant(windows: Seq<Window>) -> spec_fn(WorkspaceInfo) -> bool {
    |ws: WorkspaceInfo| ws.empty_of(windows)
}

/// Having no window on it, on an output.
pub open spec fn vacant_on(windows: Seq<Window>, output: Seq<char>) -> spec_fn(
    WorkspaceInfo,
) -> bool {
    |ws: WorkspaceInfo| ws.on_output(output) && ws.empty_of(windows)
}

/// The workspace that a target names. Where the target asks for an output, it
/// is the first one of that name there. Otherwise it is the first one of that
/// name on the focused output, or else the first one of that name anywhere.
pub open spec fn named_at(
    workspaces: Seq<WorkspaceInfo>,
    target: Seq<char>,
    focused_output: Option<Seq<char>>,
) -> Option<int> {
    let name = target_name(target);
    match target_output(target) {
        Some(want) => first_where(workspaces, by_name_on(name, want)),
        None => {
            let preferred = match focused_output {
                Some(output) => first_where(workspaces, by_name_on(name, output)),
                None => None,
            };
            if preferred is Some {
                preferred
            } else {
                first_where(workspaces, by_name(name))
            }
        },
    }
}

/// The empty workspace to take for a target that names none: the first one on
/// the output that the target asks for, or else on the focused output; or else
/// the first one anywhere.
pub open spec fn vacant_at(
    workspaces: Seq<WorkspaceInfo>,
    windows: Seq<Window>,
    target: Seq<char>,
    focused_output: Option<Seq<char>>,
) -> Option<int> {
    let output = match target_output(target) {
        Some(want) => Some(want),
        None => focused_output,
    };
    let preferred = match output {
        Some(output) => first_where(workspaces, vacant_on(windows, output)),
        None => None,
    };
    if preferred is Some {
        preferred
    } else {
        first_where(workspaces, vacant(windows))
    }
}

fn find_by_name<'a>(workspaces: &'a Vec<WorkspaceInfo>, name: &str) -> (r: Option<
    &'a WorkspaceInfo,
>)
    ensures
        match first_where(workspaces@, by_name(name@)) {
            Some(i) => 0 <= i < workspaces@.len() && r == Some(&workspaces@[i]),
            None => r is None,
        },
{
    for i in 0..workspaces.len()
        invariant
            forall|j: int| 0 <= j < i ==> !by_name(name@)(#[trigger] workspaces@[j]),
    {
        if workspaces[i].is_named(name) {
            proof {
                first_where_found(workspaces@, by_name(name@), i as int);
            }
            return Some(&workspaces[i]);
        }
    }
    proof {
        first_where_missing(workspaces@, by_name(name@));
    }
    None
}

fn find_by_name_on<'a>(workspaces: &'a Vec<WorkspaceInfo>, name: &str, output: &str) -> (r: Option<
    &'a WorkspaceInfo,
>)
    ensures
        match first_where(workspaces@, by_name_on(name@, output@)) {
            Some(i) => 0 <= i < workspaces@.len() && r == Some(&workspaces@[i]),
            None => r is None,
        },
{
    for i in 0..workspaces.len()
        invariant
            forall|j: int|
                0 <= j < i ==> !by_name_on(name@, output@)(#[trigger] workspaces@[j]),
    {
        if workspaces[i].is_on_output(output) && workspaces[i].is_named(name) {
            proof {
                first_where_found(workspaces@, by_name_on(name@, output@), i as int);
            }
            return Some(&workspaces[i]);
        }
    }
    proof {
        first_where_missing(workspaces@, by_name_on(name@, output@));
    }
    None
}

fn find_vacant<'a>(workspaces: &'a Vec<WorkspaceInfo>, windows: &Vec<Window>) -> (r: Option<
    &'a WorkspaceInfo,
>)
    ensures
        match first_where(workspaces@, vacant(windows@)) {
            Some(i) => 0 <= i < workspaces@.len() && r == Some(&workspaces@[i]),
            None => r is None,
        },
{
    for i in 0..workspaces.len()
        invariant
            forall|j: int| 0 <= j < i ==> !vacant(windows@)(#[trigger] workspaces@[j]),
    {
        if workspaces[i].is_empty_of(windows) {
            proof {
                first_where_found(workspaces@, vacant(windows@), i as int);
            }
            return Some(&workspaces[i]);
        }
    }
    proof {
        first_where_missing(workspaces@, vacant(windows@));
    }
    None
}

fn find_vacant_on<'a>(
    workspaces: &'a Vec<WorkspaceInfo>,
    windows: &Vec<Window>,
    output: &str,
) -> (r: Option<&'a WorkspaceInfo>)
    ensures
        match first_where(workspaces@, vacant_on(windows@, output@)) {
            Some(i) => 0 <= i < workspaces@.len() && r == Some(&workspaces@[i]),
            None => r is None,
        },
{
    for i in 0..workspaces.len()
        invariant
            forall|j: int|
                0 <= j < i ==> !vacant_on(windows@, output@)(#[trigger] workspaces@[j]),
    {
        if workspaces[i].is_on_output(output) && workspaces[i].is_empty_of(windows) {
            proof {
                first_where_found(workspaces@, vacant_on(windows@, output@), i as int);
            }
            return Some(&workspaces[i]);
        }
    }
    proof {
        first_where_missing(workspaces@, vacant_on(windows@, output@));
    }
    None
}

/// Finds the workspace that a target names.
pub fn find_named_workspace<'a>(
    workspaces: &'a Vec<WorkspaceInfo>,
    target: &str,
    focused_output: Option<&str>,
) -> (r: Option<&'a WorkspaceInfo>)
    ensures
        match named_at(workspaces@, target@, opt_str(focused_output)) {
            Some(i) => 0 <= i < workspaces@.len() && r == Some(&workspaces@[i]),
            None => r is None,
        },
{
    let (name, want_output) = split_target(target);
    if let Some(want) = want_output {
        return find_by_name_on(workspaces, name, want);
    }
    if let Some(output) = focused_output {
        let preferred = find_by_name_on(workspaces, name, output);
        if preferred.is_some() {
            return preferred;
        }
    }
    find_by_name(workspaces, name)
}

/// Finds the empty workspace to take for a target that names none.
pub fn find_vacant_workspace<'a>(
    workspaces: &'a Vec<WorkspaceInfo>,
    windows: &Vec<Window>,
    target: &str,
    focused_output: Option<&str>,
) -> (r: Option<&'a WorkspaceInfo>)
    ensures
        match vacant_at(workspaces@, windows@, target@, opt_str(focused_output)) {
            Some(i) => 0 <= i < workspaces@.len() && r == Some(&workspaces@[i]),
            None => r is None,
        },
{
    let (_, want_output) = split_target(target);
    let output = if want_output.is_some() {
        want_output
    } else {
        focused_output
    };
    if let Some(output) = output {
        let preferred = find_vacant_on(workspaces, windows, output);
        if preferred.is_some() {
            return preferred;
        }
    }
    find_vacant(workspaces, windows)
}

/// What comes of sending a window to a workspace by name.
#[derive(Debug, Clone, PartialEq, Eq)]
pub enum NamedMove {
    /// The window is there already.
    AlreadyThere,
    /// The window goes to the workspace of that name.
    MoveTo { workspace: u64 },
    /// No workspace has the name: the window goes to an empty one, which is
    /// given the name.
    MoveToVacant { workspace: u64, name: String },
    /// No workspace has the name, and none is empty: the window stays.
    NoVacant,
}

/// What a [`NamedMove`] says.
pub enum NamedMoveView {
    AlreadyThere,
    MoveTo { workspace: u64 },
    MoveToVacant { workspace: u64, name: Seq<char> },
    NoVacant,
}

impl View for NamedMove {
    type V = NamedMoveView;

    open spec fn view(&self) -> NamedMoveView {
        match self {
            NamedMove::AlreadyThere => NamedMoveView::AlreadyThere,
            NamedMove::MoveTo { workspace } => NamedMoveView::MoveTo { workspace: *workspace },
            NamedMove::MoveToVacant { workspace, name } => NamedMoveView::MoveToVacant {
                workspace: *workspace,
                name: name@,
            },
            NamedMove::NoVacant => NamedMoveView::NoVacant,
        }
    }
}

/// What comes of sending a window that is on some workspace to a target.
pub open spec fn named_move(
    current: Option<u64>,
    target: Seq<char>,
    workspaces: Seq<WorkspaceInfo>,
    windows: Seq<Window>,
    focused_output: Option<Seq<char>>,
) -> NamedMoveView {
    match named_at(workspaces, target, focused_output) {
        Some(i) => if current == Some(workspaces[i].id) {
            NamedMoveView::AlreadyThere
        } else {
            NamedMoveView::MoveTo { workspace: workspaces[i].id }
        },
        None => match vacant_at(workspaces, windows, target, focused_output) {
            Some(i) => NamedMoveView::MoveToVacant {
                workspace: workspaces[i].id,
                name: target_name(target),
            },
            None => NamedMoveView::NoVacant,
        },
    }
}

/// Move a window to target workspace by name.
/// If target workspace does not exist, move to first empty workspace and rename it.
pub fn move_window_to_named_workspace(
    current: Option<u64>,
    target_workspace_name: &str,
    workspaces: &Vec<WorkspaceInfo>,
    windows: &Vec<Window>,
    focused_output: Option<&str>,
) -> (r: NamedMove)
    ensures
        r@ == named_move(
            current,
            target_workspace_name@,
            workspaces@,
            windows@,
            opt_str(focused_output),
        ),
{
    if let Some(target) = find_named_workspace(workspaces, target_workspace_name, focused_output) {
        if let Some(id) = current {
            if id == target.id {
                return NamedMove::AlreadyThere;
            }
        }
        return NamedMove::MoveTo { workspace: target.id };
    }
    match find_vacant_workspace(workspaces, windows, target_workspace_name, focused_output) {
        Some(vacant) => {
            let (name, _) = split_target(target_workspace_name);
            NamedMove::MoveToVacant { workspace: vacant.id, name: name.to_owned() }
        },
        None => NamedMove::NoVacant,
    }
}

impl NamedMoveView {
    /// The requests that carry a move out. [`Self::focus_request`] follows once
    /// they are carried out.
    pub open spec fn requests(self, window_id: u64) -> Seq<ActionView> {
        match self {
            NamedMoveView::AlreadyThere => seq![],
            NamedMoveView::MoveTo { workspace } => seq![
                ActionView::MoveWindowToWorkspace {
                    window_id,
                    reference: WorkspaceRefView::Id(workspace),
                    focus: false,
                },
            ],
            NamedMoveView::MoveToVacant { workspace, name } => seq![
                ActionView::MoveWindowToWorkspace {
                    window_id,
                    reference: WorkspaceRefView::Id(workspace),
                    focus: false,
                },
                ActionView::SetWorkspaceName { name, workspace: WorkspaceRefView::Id(workspace) },
            ],
            NamedMoveView::NoVacant => seq![],
        }
    }

    /// The request that follows a move: the window is focused where it was
    /// moved, and only there.
    pub open spec fn focus_request(self, window_id: u64) -> Option<ActionView> {
        match self {
            NamedMoveView::MoveTo { .. } => Some(ActionView::FocusWindow { id: window_id }),
            NamedMoveView::MoveToVacant { .. } => Some(ActionView::FocusWindow { id: window_id }),
            NamedMoveView::AlreadyThere => None,
            NamedMoveView::NoVacant => None,
        }
    }

    /// All that is asked for, in order: the move, then the name of a vacant
    /// workspace, then the focus.
    pub open spec fn all_requests(self, window_id: u64) -> Seq<ActionView> {
        match self.focus_request(window_id) {
            Some(focus) => self.requests(window_id).push(focus),
            None => self.requests(window_id),
        }
    }
}

impl NamedMove {
    /// The requests that carry a move out. [`Self::focus_after`] follows once
    /// they are carried out.
    pub fn requests(&self, window_id: u64) -> (r: Vec<Action>)
        ensures
            action_views(r@) == self@.requests(window_id),
    {
        let mut r: Vec<Action> = Vec::new();
        match self {
            NamedMove::AlreadyThere => {},
            NamedMove::MoveTo { workspace } => {
                r.push(
                    Action::MoveWindowToWorkspace {
                        window_id,
                        reference: WorkspaceRef::Id(*workspace),
                        focus: false,
                    },
                );
            },
            NamedMove::MoveToVacant { workspace, name } => {
                r.push(
                    Action::MoveWindowToWorkspace {
                        window_id,
                        reference: WorkspaceRef::Id(*workspace),
                        focus: false,
                    },
                );
                r.push(
                    Action::SetWorkspaceName {
                        name: name.clone(),
                        workspace: WorkspaceRef::Id(*workspace),
                    },
                );
            },
            NamedMove::NoVacant => {},
        }
        assert(action_views(r@) =~= self@.requests(window_id));
        r
    }

    /// The request that follows a move, once the compositor has had a little
    /// time: the window that was moved is focused.
    pub fn focus_after(&self, window_id: u64) -> (r: Option<Action>)
        ensures
            match self@.focus_request(window_id) {
                Some(focus) => r matches Some(action) && action@ == focus,
                None => r is None,
            },
    {
        match self {
            NamedMove::MoveTo { .. } => Some(Action::FocusWindow { id: window_id }),
            NamedMove::MoveToVacant { .. } => Some(Action::FocusWindow { id: window_id }),
            NamedMove::AlreadyThere => None,
            NamedMove::NoVacant => None,
        }
    }
}

/// A window that is sent to a workspace that exists is moved there, where it is
/// not there already, and focused; no workspace is renamed.
pub proof fn named_workspace_takes_the_window(
    current: Option<u64>,
    target: Seq<char>,
    workspaces: Seq<WorkspaceInfo>,
    windows: Seq<Window>,
    focused_output: Option<Seq<char>>,
    window_id: u64,
)
    requires
        named_at(workspaces, target, focused_output) matches Some(i) && current != Some(
            workspaces[i].id,
        ),
    ensures
        named_move(current, target, workspaces, windows, focused_output).all_requests(window_id)
            == seq![
            ActionView::MoveWindowToWorkspace {
                window_id,
                reference: WorkspaceRefView::Id(
                    workspaces[named_at(workspaces, target, focused_output)->0].id,
                ),
                focus: false,
            },
            ActionView::FocusWindow { id: window_id },
        ],
{
}

/// A window that is sent to a workspace that does not exist is moved to a vacant
/// one, which gets the name, and focused. Where none is vacant, nothing happens.
pub proof fn vacant_workspace_takes_the_window(
    current: Option<u64>,
    target: Seq<char>,
    workspaces: Seq<WorkspaceInfo>,
    windows: Seq<Window>,
    focused_output: Option<Seq<char>>,
    window_id: u64,
)
    requires
        named_at(workspaces, target, focused_output) is None,
    ensures
        named_move(current, target, workspaces, windows, focused_output).all_requests(window_id)
            == (match vacant_at(workspaces, windows, target, focused_output) {
            Some(i) => seq![
                ActionView::MoveWindowToWorkspace {
                    window_id,
                    reference: WorkspaceRefView::Id(workspaces[i].id),
                    focus: false,
                },
                ActionView::SetWorkspaceName {
                    name: target_name(target),
                    workspace: WorkspaceRefView::Id(workspaces[i].id),
                },
                ActionView::FocusWindow { id: window_id },
            ],
            None => seq![],
        }),
{
}

/// Nothing is asked for a window that is on the named workspace already.
pub proof fn already_there_stays(
    current: Option<u64>,
    target: Seq<char>,
    workspaces: Seq<WorkspaceInfo>,
    windows: Seq<Window>,
    focused_output: Option<Seq<char>>,
    window_id: u64,
)
    requires
        named_at(workspaces, target, focused_output) matches Some(i) && current == Some(
            workspaces[i].id,
        ),
    ensures
        named_move(current, target, workspaces, windows, focused_output).all_requests(window_id)
            == Seq::<ActionView>::empty(),
{
}

/// A workspace is given a name only where none that the target may mean has
/// that name, and only if no window is on it.
pub proof fn only_vacant_workspaces_are_named(
    current: Option<u64>,
    target: Seq<char>,
    workspaces: Seq<WorkspaceInfo>,
    windows: Seq<Window>,
    focused_output: Option<Seq<char>>,
)
    ensures
        named_move(current, target, workspaces, windows, focused_output)
            matches NamedMoveView::MoveToVacant { workspace, name } ==> {
            &&& name == target_name(target)
            &&& forall|i: int|
                0 <= i < windows.len() ==> (#[trigger] windows[i]).workspace_id != Some(workspace)
            &&& target_output(target) is None ==> forall|i: int|
                0 <= i < workspaces.len() ==> !(#[trigger] workspaces[i]).named(name)
            &&& target_output(target) matches Some(output) ==> forall|i: int|
                0 <= i < workspaces.len() && (#[trigger] workspaces[i]).on_output(output)
                    ==> !workspaces[i].named(name)
        },
{
    let name = target_name(target);
    first_where_is_first(workspaces, by_name(name));
    first_where_is_first(workspaces, vacant(windows));
    if let Some(output) = target_output(target) {
        first_where_is_first(workspaces, by_name_on(name, output));
        first_where_is_first(workspaces, vacant_on(windows, output));
    }
    if let Some(output) = focused_output {
        first_where_is_first(workspaces, vacant_on(windows, output));
    }
}

/// A target that names a workspace never leads to one that has another name.
pub proof fn named_workspace_has_the_name(
    workspaces: Seq<WorkspaceInfo>,
    target: Seq<char>,
    focused_output: Option<Seq<char>>,
)
    ensures
        named_at(workspaces, target, focused_output) matches Some(i) ==> {
            &&& 0 <= i < workspaces.len()
            &&& workspaces[i].named(target_name(target))
            &&& target_output(target) matches Some(output) ==> workspaces[i].on_output(output)
        },
{
    let name = target_name(target);
    first_where_is_first(workspaces, by_name(name));
    if let Some(output) = target_output(target) {
        first_where_is_first(workspaces, by_name_on(name, output));
    }
    if let Some(output) = focused_output {
        first_where_is_first(workspaces, by_name_on(name, output));
    }
}

/// A target asks for what stands before its first at sign, on the output that
/// stands behind it; without an at sign it asks for no output.
pub proof fn target_is_a_name_and_an_output(name: Seq<char>, output: Seq<char>)
    requires
        !name.contains('@'),
    ensures
        target_name(name.push('@') + output) == name,
        target_output(name.push('@') + output) == Some(output),
        target_name(name) == name,
        target_output(name) is None,
{
    text_is_cut_at_the_first(name, '@', output);
}

/// A workspace goes by its name and by its index, and by nothing else. It is on its
/// output, which goes by its name and by its prefix.
pub proof fn workspace_goes_by_name_or_index(
    ws: WorkspaceInfo,
    text: Seq<char>,
    n: nat,
    windows: Seq<Window>,
    i: int,
)
    ensures
        ws.name is Some ==> ws.named(ws.name->0@),
        ws.named(decimal(ws.idx as nat)),
        ws.name is None && n != ws.idx ==> !ws.named(decimal(n)),
        text != decimal(ws.idx as nat) && (ws.name is Some ==> ws.name->0@ != text) ==> !ws.named(
            text,
        ),
        ws.output is Some ==> ws.on_output(ws.output->0@),
        ws.output is Some && ws.output_prefix is Some ==> ws.on_output(ws.output_prefix->0@),
        ws.output is None ==> !ws.on_output(text),
        (ws.output is Some ==> ws.output->0@ != text) && (ws.output_prefix is Some
            ==> ws.output_prefix->0@ != text) ==> !ws.on_output(text),
        0 <= i < windows.len() && windows[i].workspace_id == Some(ws.id) ==> !ws.empty_of(windows),
        (forall|j: int|
            0 <= j < windows.len() ==> (#[trigger] windows[j]).workspace_id != Some(ws.id))
            ==> ws.empty_of(windows),
{
    if decimal(n) == decimal(ws.idx as nat) {
        decimal_injective(n, ws.idx as nat);
    }
}

/// A target with an output leads to the first workspace of its name there, and
/// nowhere where none there has the name, whichever output is focused.
pub proof fn wanted_output_counts(
    workspaces: Seq<WorkspaceInfo>,
    name: Seq<char>,
    output: Seq<char>,
    focused_output: Option<Seq<char>>,
    i: int,
)
    requires
        !name.contains('@'),
        0 <= i < workspaces.len(),
        forall|j: int|
            0 <= j < i && (#[trigger] workspaces[j]).on_output(output) ==> !workspaces[j].named(
                name,
            ),
    ensures
        workspaces[i].on_output(output) && workspaces[i].named(name) ==> named_at(
            workspaces,
            name.push('@') + output,
            focused_output,
        ) == Some(i),
        i == workspaces.len() - 1 && !(workspaces[i].on_output(output) && workspaces[i].named(name))
            ==> named_at(workspaces, name.push('@') + output, focused_output) is None,
{
    target_is_a_name_and_an_output(name, output);
    first_where_is_first(workspaces, by_name_on(name, output));
}

/// A target without an output leads to the first workspace of its name on the
/// focused output, and only where there is none to the first one anywhere.
pub proof fn focused_output_is_preferred(
    workspaces: Seq<WorkspaceInfo>,
    name: Seq<char>,
    focused_output: Option<Seq<char>>,
    i: int,
)
    requires
        !name.contains('@'),
        0 <= i < workspaces.len(),
        workspaces[i].named(name),
    ensures
        focused_output is Some && workspaces[i].on_output(focused_output->0) && (forall|j: int|
            0 <= j < i && (#[trigger] workspaces[j]).on_output(focused_output->0)
                ==> !workspaces[j].named(name)) ==> named_at(workspaces, name, focused_output)
            == Some(i),
        (focused_output is Some ==> forall|j: int|
            0 <= j < workspaces.len() && (#[trigger] workspaces[j]).on_output(focused_output->0)
                ==> !workspaces[j].named(name)) && (forall|j: int|
            0 <= j < i ==> !(#[trigger] workspaces[j]).named(name)) ==> named_at(
            workspaces,
            name,
            focused_output,
        ) == Some(i),
        named_at(workspaces, name, focused_output) is Some,
{
    target_is_a_name_and_an_output(name, name);
    first_where_is_first(workspaces, by_name(name));
    if let Some(output) = focused_output {
        first_where_is_first(workspaces, by_name_on(name, output));
    }
}

/// A window takes the first vacant workspace on the output that is asked for, or
/// else on the focused one, and only where there is none the first vacant one
/// anywhere. None is taken only where none is vacant.
pub proof fn first_vacant_workspace_is_taken(
    workspaces: Seq<WorkspaceInfo>,
    windows: Seq<Window>,
    name: Seq<char>,
    output: Seq<char>,
    focused_output: Option<Seq<char>>,
    i: int,
)
    requires
        !name.contains('@'),
        0 <= i < workspaces.len(),
        workspaces[i].empty_of(windows),
    ensures
        ({
            let there = workspaces[i].on_output(output) && forall|j: int|
                0 <= j < i && (#[trigger] workspaces[j]).on_output(output)
                    ==> !workspaces[j].empty_of(windows);
            let nowhere = (forall|j: int|
                0 <= j < workspaces.len() && (#[trigger] workspaces[j]).on_output(output)
                    ==> !workspaces[j].empty_of(windows)) && forall|j: int|
                0 <= j < i ==> !(#[trigger] workspaces[j]).empty_of(windows);
            let wanted = vacant_at(workspaces, windows, name.push('@') + output, focused_output);
            let focused = vacant_at(workspaces, windows, name, Some(output));
            &&& there || nowhere ==> wanted == Some(i) && focused == Some(i)
            &&& wanted is Some
            &&& focused is Some
        }),
        (forall|j: int| 0 <= j < i ==> !(#[trigger] workspaces[j]).empty_of(windows)) ==> vacant_at(
            workspaces,
            windows,
            name,
            None,
        ) == Some(i),
{
    target_is_a_name_and_an_output(name, output);
    first_where_is_first(workspaces, vacant(windows));
    first_where_is_first(workspaces, vacant_on(windows, output));
}

} // verus!
