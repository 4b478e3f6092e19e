//! Swallowing a window into the column of another.

use vstd::prelude::*;
use vstd::string::*;

use crate::action::{
    action_views, reference_of, workspace_reference, Action, ActionView, ColumnDisplay,
};
use crate::niri::{
    find_workspace, workspace_at, workspace_is_found_by_id, Window, WorkspaceInfo,
};
use crate::text::{decimal, opt_text};

verus! {

/// The workspace that a child window has to move to: that of its parent, by
/// name or else index, where the child is not on it already and it is known.
pub open spec fn swallow_target(
    parent: Window,
    child: Window,
    workspaces: Seq<WorkspaceInfo>,
) -> Option<Seq<char>> {
    match parent.workspace_id {
        Some(id) => if child.workspace_id != Some(id) {
            match workspace_at(workspaces, id) {
                Some(i) => Some(workspaces[i].display_name()),
                None => None,
            }
        } else {
            None
        },
        None => None,
    }
}

/// Whether it has to be known which workspaces there are before a window is
/// swallowed: it has not where the child is with its parent already.
pub fn swallow_needs_workspaces(parent_window: &Window, child_window: &Window) -> (r: bool)
    ensures
        r == (parent_window.workspace_id is Some && parent_window.workspace_id
            != child_window.workspace_id),
{
    match (parent_window.workspace_id, child_window.workspace_id) {
        (Some(parent), Some(child)) => parent != child,
        (Some(_), None) => true,
        (None, _) => false,
    }
}

/// The workspace that a child window has to move to.
pub fn swallow_workspace(
    parent_window: &Window,
    child_window: &Window,
    workspaces: &Vec<WorkspaceInfo>,
) -> (r: Option<String>)
    ensures
        opt_text(r) == swallow_target(*parent_window, *child_window, workspaces@),
{
    if let Some(id) = parent_window.workspace_id {
        if swallow_needs_workspaces(parent_window, child_window) {
            if let Some(ws) = find_workspace(workspaces, id) {
                return Some(ws.name_or_index());
            }
        }
    }
    None
}

/// The requests that swallow a child window into the column of its parent.
pub open spec fn swallow_requests(
    parent_id: u64,
    child_id: u64,
    child_floating: bool,
    target: Option<Seq<char>>,
    display: ColumnDisplay,
) -> Seq<ActionView> {
    seq![
        ActionView::FocusWindow { id: parent_id },
        ActionView::SetColumnDisplay { display },
    ] + (if child_floating {
        seq![ActionView::MoveWindowToTiling { id: child_id }]
    } else {
        seq![]
    }) + (match target {
        Some(workspace) => seq![
            ActionView::MoveWindowToWorkspace {
                window_id: child_id,
                reference: reference_of(workspace),
                focus: false,
            },
        ],
        None => seq![],
    }) + seq![
        ActionView::ConsumeOrExpelWindowLeft { id: child_id },
        ActionView::FocusWindow { id: child_id },
    ]
}

/// Perform swallow operation on a parent window
/// The requests cover the entire swallow process:
/// - Focusing the parent window
/// - Ensuring child window is not floating
/// - Moving child window to parent's workspace if needed
/// - Consuming child window into parent's column
/// - Focusing the child window
///
/// They are sent in order. If the first one is refused, the rest are not sent.
pub fn perform_swallow(
    parent_window: &Window,
    child_window: &Window,
    child_window_id: u64,
    workspaces: &Vec<WorkspaceInfo>,
    column_display: ColumnDisplay,
) -> (r: Vec<Action>)
    ensures
        action_views(r@) == swallow_requests(
            parent_window.id,
            child_window_id,
            child_window.floating,
            swallow_target(*parent_window, *child_window, workspaces@),
            column_display,
        ),
{
    let workspace_ref = swallow_workspace(parent_window, child_window, workspaces);
    let mut r: Vec<Action> = Vec::new();
    // 1. Focus parent window first
    r.push(Action::FocusWindow { id: parent_window.id });
    // 2. Set column display (Tabbed or Normal)
    r.push(Action::SetColumnDisplay { display: column_display });
    // 3. Ensure child window is not floating (floating windows cannot be swallowed into columns)
    if child_window.floating {
        r.push(Action::MoveWindowToTiling { id: child_window_id });
    }
    // 4. Move child window to parent's workspace if needed
    // To ensure they are neighbors (required for ConsumeOrExpelWindowLeft)
    if let Some(workspace) = &workspace_ref {
        r.push(
            Action::MoveWindowToWorkspace {
                window_id: child_window_id,
                reference: workspace_reference(workspace.as_str()),
                focus: false,
            },
        );
    }
    // 5. Consume child window into parent's column
    r.push(Action::ConsumeOrExpelWindowLeft { id: child_window_id });
    // 6. Focus child window
    r.push(Action::FocusWindow { id: child_window_id });
    assert(action_views(r@) =~= swallow_requests(
        parent_window.id,
        child_window_id,
        child_window.floating,
        swallow_target(*parent_window, *child_window, workspaces@),
        column_display,
    ));
    r
}

/// The parent is focused first and the child last; in between, the child is
/// consumed only after it left the floating layer and reached the workspace of
/// its parent, where either is needed.
pub proof fn swallow_order(
    parent_id: u64,
    child_id: u64,
    child_floating: bool,
    target: Option<Seq<char>>,
    display: ColumnDisplay,
)
    ensures
        ({
            let r = swallow_requests(parent_id, child_id, child_floating, target, display);
            &&& r.len() >= 4
            &&& r[0] == ActionView::FocusWindow { id: parent_id }
            &&& r[r.len() - 1] == ActionView::FocusWindow { id: child_id }
            &&& r[r.len() - 2] == ActionView::ConsumeOrExpelWindowLeft { id: child_id }
            &&& child_floating ==> r[2] == ActionView::MoveWindowToTiling { id: child_id }
            &&& target matches Some(workspace) ==> r[r.len() - 3]
                == ActionView::MoveWindowToWorkspace {
                window_id: child_id,
                reference: reference_of(workspace),
                focus: false,
            }
        }),
{
}

/// Nothing is asked for but what swallowing needs: the column is shown as asked
/// for, and the child leaves the floating layer and its workspace only where it
/// has to.
pub proof fn swallow_asks_for_no_more(
    parent_id: u64,
    child_id: u64,
    child_floating: bool,
    target: Option<Seq<char>>,
    display: ColumnDisplay,
    i: int,
)
    ensures
        ({
            let r = swallow_requests(parent_id, child_id, child_floating, target, display);
            &&& r.len() == 4 + (if child_floating {
                1int
            } else {
                0
            }) + (if target is Some {
                1int
            } else {
                0
            })
            &&& r[1] == ActionView::SetColumnDisplay { display }
            &&& 0 <= i < r.len() && !child_floating ==> !(r[i] is MoveWindowToTiling)
            &&& 0 <= i < r.len() && target is None ==> !(r[i] is MoveWindowToWorkspace)
        }),
{
}

/// A child is sent to the workspace of its parent, by name or else index, exactly
/// where it is not on it and that workspace is listed.
pub proof fn child_follows_its_parent(
    parent: Window,
    child: Window,
    workspaces: Seq<WorkspaceInfo>,
    i: int,
)
    ensures
        parent.workspace_id is None ==> swallow_target(parent, child, workspaces) is None,
        parent.workspace_id == child.workspace_id ==> swallow_target(
            parent,
            child,
            workspaces,
        ) is None,
        0 <= i < workspaces.len() && parent.workspace_id == Some(workspaces[i].id)
            && child.workspace_id != parent.workspace_id && (forall|j: int|
            0 <= j < i ==> (#[trigger] workspaces[j]).id != workspaces[i].id) ==> {
            &&& workspaces[i].name matches Some(name) ==> swallow_target(parent, child, workspaces)
                == Some(name@)
            &&& workspaces[i].name is None ==> swallow_target(parent, child, workspaces) == Some(
                decimal(workspaces[i].idx as nat),
            )
        },
        (forall|j: int|
            0 <= j < workspaces.len() ==> Some((#[trigger] workspaces[j]).id)
                != parent.workspace_id) ==> swallow_target(parent, child, workspaces) is None,
{
    if let Some(id) = parent.workspace_id {
        workspace_is_found_by_id(workspaces, id);
        if let Some(k) = workspace_at(workspaces, id) {
            assert(Some(workspaces[k].id) == parent.workspace_id);
        }
    }
}

} // verus!
