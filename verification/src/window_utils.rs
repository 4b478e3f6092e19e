//! What several plugins need to know of windows and workspaces.

use std::collections::HashMap;

use vstd::prelude::*;
use vstd::string::*;

use crate::action::{Action, ActionView, WorkspaceRef, WorkspaceRefView};
use crate::niri::{
    find_workspace, with_id, workspace_at, OutputCache, Window, Workspace, WorkspaceInfo,
};
use crate::search::{
    first_where, first_where_found, first_where_is_first, first_where_missing,
};
use crate::text::{
    decimal, decimal_injective, decimal_round_trip, decimal_text, opt_text, parse_unsigned,
    same_opt_text, same_text, unsigned_value,
};

verus! {

broadcast use vstd::std_specs::hash::group_hash_axioms;

// ------------------------------------------------------------ Sticky windows

/// Registry of windows that should follow the focused workspace.
/// Maps window_id -> cross_monitor flag.
pub struct StickyRegistry {
    windows: HashMap<u64, bool>,
}

impl View for StickyRegistry {
    type V = Map<u64, bool>;

    closed spec fn view(&self) -> Map<u64, bool> {
        self.windows@
    }
}

impl StickyRegistry {
    /// A registry without windows.
    pub fn new() -> (r: Self)
        ensures
            r@ == Map::<u64, bool>::empty(),
    {
        StickyRegistry { windows: HashMap::new() }
    }
}

/// Register a window as sticky. Called by scratchpads when creating a sticky
/// scratchpad, or by sticky plugin via IPC.
pub fn register_sticky_window(registry: &mut StickyRegistry, window_id: u64, cross_monitor: bool)
    ensures
        final(registry)@ == old(registry)@.insert(window_id, cross_monitor),
{
    registry.windows.insert(window_id, cross_monitor);
}

/// Unregister a sticky window.
pub fn unregister_sticky_window(registry: &mut StickyRegistry, window_id: u64)
    ensures
        final(registry)@ == old(registry)@.remove(window_id),
{
    registry.windows.remove(&window_id);
}

/// Snapshot of all registered sticky windows as (window_id, cross_monitor)
/// pairs, each once, in no particular order.
pub fn get_sticky_window_list(registry: &StickyRegistry) -> (r: Vec<(u64, bool)>)
    ensures
        r@.no_duplicates(),
        r@.to_set() == registry@.kv_pairs(),
{
    let mut r: Vec<(u64, bool)> = Vec::new();
    let iter = registry.windows.iter();
    let ghost listed = vstd::std_specs::iter::IteratorSpec::remaining(&iter);
    assert(listed.no_duplicates());
    for entry in it: iter
        invariant
            it.seq() == listed,
            r@.len() == it.index(),
            forall|i: int| 0 <= i < r@.len() ==> #[trigger] r@[i] == (*listed[i].0, *listed[i].1),
    {
        r.push((*entry.0, *entry.1));
    }
    assert forall|i: int, j: int| 0 <= i < r@.len() && 0 <= j < r@.len() && i != j implies r@[i]
        != r@[j] by {
        assert(listed[i] != listed[j]);
    }
    assert forall|p: (u64, bool)| r@.to_set().contains(p) implies registry@.kv_pairs().contains(
        p,
    ) by {
        let i = choose|i: int| 0 <= i < r@.len() && r@[i] == p;
        assert(registry@.contains_key(*listed[i].0));
    }
    assert forall|p: (u64, bool)| registry@.kv_pairs().contains(p) implies r@.to_set().contains(
        p,
    ) by {
        assert(registry@.contains_key(p.0));
        let i = choose|i: int| 0 <= i < listed.len() && listed[i] == (&p.0, &registry@[p.0]);
        assert(r@[i] == p);
    }
    assert(r@.to_set() =~= registry@.kv_pairs());
    r
}

/// A window that was registered last as sticky is listed with its flag, and no
/// other entry changes.
pub proof fn registered_window_is_listed(
    registry: Map<u64, bool>,
    window_id: u64,
    cross_monitor: bool,
)
    ensures
        registry.insert(window_id, cross_monitor).kv_pairs().contains((window_id, cross_monitor)),
        forall|other: u64, flag: bool|
            other != window_id ==> (#[trigger] registry.insert(
                window_id,
                cross_monitor,
            ).kv_pairs().contains((other, flag)) == registry.kv_pairs().contains((other, flag))),
{
}

/// Unregistering a window undoes registering it.
pub proof fn unregister_undoes_register(
    registry: Map<u64, bool>,
    window_id: u64,
    cross_monitor: bool,
)
    requires
        !registry.contains_key(window_id),
    ensures
        registry.insert(window_id, cross_monitor).remove(window_id) == registry,
{
    assert(registry.insert(window_id, cross_monitor).remove(window_id) =~= registry);
}

// ---------------------------------------------------------------- Focus marks

/// For how long focus changes are ignored after a programmatic one started:
/// 500 milliseconds.
pub const PROGRAMMATIC_FOCUS_WINDOW_NANOS: u128 = 500_000_000;

/// Tracks programmatic focus changes (e.g., from auto_fill)
/// This prevents window_rule from executing focus_command during programmatic operations
///
/// Points in time are nanoseconds of a clock that never goes back.
#[derive(Debug, Clone, Copy, PartialEq, Eq, Structural)]
pub struct ProgrammaticFocus {
    /// When the last programmatic focus change started.
    pub start: Option<u128>,
}

impl ProgrammaticFocus {
    /// No programmatic focus change has started yet.
    pub fn new() -> (r: Self)
        ensures
            r.start is None,
    {
        ProgrammaticFocus { start: None }
    }

    /// Whether a focus change at some point in time is to be ignored.
    pub open spec fn ignores(self, now: u128) -> bool {
        self.start matches Some(start) && now - start < PROGRAMMATIC_FOCUS_WINDOW_NANOS
    }
}

/// Mark that a programmatic focus change is starting
/// Focus changes within PROGRAMMATIC_FOCUS_WINDOW_NANOS will be ignored by window_rule
pub fn mark_programmatic_focus_start(focus: &mut ProgrammaticFocus, now: u128)
    ensures
        *final(focus) == (ProgrammaticFocus { start: Some(now) }),
{
    focus.start = Some(now);
}

/// Check if a focus change should be ignored (happened during programmatic operation)
pub fn should_ignore_focus_change(focus: &ProgrammaticFocus, now: u128) -> (r: bool)
    ensures
        r == focus.ignores(now),
{
    match focus.start {
        Some(start) => now < start || now - start < PROGRAMMATIC_FOCUS_WINDOW_NANOS,
        None => false,
    }
}

/// Focus changes are ignored from the mark on for 500 milliseconds, and no
/// longer.
pub proof fn programmatic_focus_expires(mark: u128, now: u128)
    requires
        mark <= now,
    ensures
        (ProgrammaticFocus { start: Some(mark) }).ignores(now) == (now < mark
            + 500 * 1_000_000),
{
}

/// Without a mark no focus change is ignored.
pub proof fn unmarked_focus_counts(now: u128)
    ensures
        !(ProgrammaticFocus { start: None }).ignores(now),
{
}

// ------------------------------------------------------------------- Windows

/// Having an id.
pub open spec fn window_id_is(id: u64) -> spec_fn(Window) -> bool {
    |w: Window| w.id == id
}

/// The position of the first window with an id.
pub open spec fn window_at(windows: Seq<Window>, id: u64) -> Option<int> {
    first_where(windows, window_id_is(id))
}

/// Finds the first window with an id.
pub fn find_window<'a>(windows: &'a Vec<Window>, window_id: u64) -> (r: Option<&'a Window>)
    ensures
        match window_at(windows@, window_id) {
            Some(i) => 0 <= i < windows@.len() && r == Some(&windows@[i]),
            None => r is None,
        },
{
    for i in 0..windows.len()
        invariant
            forall|j: int| 0 <= j < i ==> !window_id_is(window_id)(#[trigger] windows@[j]),
    {
        if windows[i].id == window_id {
            proof {
                first_where_found(windows@, window_id_is(window_id), i as int);
            }
            return Some(&windows[i]);
        }
    }
    proof {
        first_where_missing(windows@, window_id_is(window_id));
    }
    None
}

/// Check if a window exists in a pre-fetched list (avoids redundant IPC call).
pub fn window_exists_in_cache(windows: &Vec<Window>, window_id: u64) -> (r: bool)
    ensures
        r == exists|i: int| 0 <= i < windows@.len() && (#[trigger] windows@[i]).id == window_id,
{
    for i in 0..windows.len()
        invariant
            forall|j: int| 0 <= j < i ==> (#[trigger] windows@[j]).id != window_id,
    {
        if windows[i].id == window_id {
            return true;
        }
    }
    false
}

/// Why there is no focused window.
#[derive(Debug, Clone, Copy, PartialEq, Eq, Structural)]
pub enum NoFocusedWindow {
    /// No focused window found
    NotFocused,
    /// The window with that id is focused but not listed.
    NotListed(u64),
}

/// Get focused window from a pre-fetched window list (avoids redundant IPC call).
pub fn get_focused_window_from_cache<'a>(
    focused_window_id: Option<u64>,
    windows: &'a Vec<Window>,
) -> (r: Result<&'a Window, NoFocusedWindow>)
    ensures
        match focused_window_id {
            Some(id) => match window_at(windows@, id) {
                Some(i) => r == Ok::<&Window, NoFocusedWindow>(&windows@[i]),
                None => r == Err::<&Window, NoFocusedWindow>(NoFocusedWindow::NotListed(id)),
            },
            None => r == Err::<&Window, NoFocusedWindow>(NoFocusedWindow::NotFocused),
        },
{
    match focused_window_id {
        Some(id) => match find_window(windows, id) {
            Some(window) => Ok(window),
            None => Err(NoFocusedWindow::NotListed(id)),
        },
        None => Err(NoFocusedWindow::NotFocused),
    }
}

/// The window to go back to from a target window: the previous one, where the
/// target is focused now and there is a previous one.
pub fn refocus_candidate(
    focused: Option<u64>,
    target_window_id: u64,
    previous_window: Option<u64>,
) -> (r: Option<u64>)
    ensures
        r == (if focused == Some(target_window_id) {
            previous_window
        } else {
            None
        }),
{
    match focused {
        Some(id) => {
            if id == target_window_id {
                previous_window
            } else {
                None
            }
        },
        None => None,
    }
}

/// Try to refocus to the previous window if the target window is currently focused.
/// Returns the window to focus, if any; the target is then the previous window
/// for the next toggle.
pub fn try_refocus_to_previous(
    focused: Option<u64>,
    target_window_id: u64,
    previous_window: &mut Option<u64>,
    previous_exists: bool,
) -> (r: Option<u64>)
    ensures
        focused == Some(target_window_id) && *old(previous_window) is Some && previous_exists ==> {
            &&& r == *old(previous_window)
            &&& *final(previous_window) == Some(target_window_id)
        },
        !(focused == Some(target_window_id) && *old(previous_window) is Some && previous_exists)
            ==> {
            &&& r is None
            &&& *final(previous_window) == *old(previous_window)
        },
{
    let candidate = refocus_candidate(focused, target_window_id, *previous_window);
    if let Some(id) = candidate {
        if previous_exists {
            *previous_window = Some(target_window_id);
            return Some(id);
        }
    }
    None
}

// ---------------------------------------------------------------- Workspaces

/// Check if a window is in the current workspace
pub fn is_window_in_workspace(window: &Window, workspace: &Workspace) -> (r: bool)
    ensures
        r == (window.workspace_id == Some(workspace.id)),
{
    match window.workspace_id {
        Some(id) => id == workspace.id,
        None => false,
    }
}

/// Whether a target is the index, the id or the name of a workspace.
pub open spec fn identifies(target: Seq<char>, workspace: Workspace) -> bool {
    ||| unsigned_value(target, u8::MAX as int) == Some(workspace.idx as int)
    ||| unsigned_value(target, u64::MAX as int) == Some(workspace.id as int)
    ||| workspace.name@ == target
}

/// Check if a workspace matches a target workspace identifier (name, index, or ID)
pub fn matches_workspace(workspace: &Workspace, target: &str) -> (r: bool)
    ensures
        r == identifies(target@, *workspace),
{
    if let Some(idx) = parse_unsigned(target, u8::MAX as u64) {
        if idx == workspace.idx as u64 {
            return true;
        }
    }
    if let Some(id) = parse_unsigned(target, u64::MAX) {
        if id == workspace.id {
            return true;
        }
    }
    same_text(workspace.name.as_str(), target)
}

/// A workspace is identified by its index and its id, in decimal, and by its
/// name.
pub proof fn workspace_is_identified(workspace: Workspace)
    ensures
        identifies(decimal(workspace.idx as nat), workspace),
        identifies(decimal(workspace.id as nat), workspace),
        identifies(workspace.name@, workspace),
{
    decimal_round_trip(workspace.idx as nat, u8::MAX as int);
    decimal_round_trip(workspace.id as nat, u64::MAX as int);
}

/// Being the focused workspace with an id.
pub open spec fn focused_with_id(id: u64) -> spec_fn(WorkspaceInfo) -> bool {
    |w: WorkspaceInfo| w.is_focused && w.id == id
}

/// The workspace that an event tells of, where it is focused.
pub fn get_focused_workspace_from_event<'a>(
    workspaces: &'a Vec<WorkspaceInfo>,
    workspace_id: u64,
) -> (r: Option<&'a WorkspaceInfo>)
    ensures
        match first_where(workspaces@, focused_with_id(workspace_id)) {
            Some(i) => 0 <= i < workspaces@.len() && r == Some(&workspaces@[i]),
            None => r is None,
        },
{
    for i in 0..workspaces.len()
        invariant
            forall|j: int|
                0 <= j < i ==> !focused_with_id(workspace_id)(#[trigger] workspaces@[j]),
    {
        if workspaces[i].is_focused && workspaces[i].id == workspace_id {
            proof {
                first_where_found(workspaces@, focused_with_id(workspace_id), i as int);
            }
            return Some(&workspaces[i]);
        }
    }
    proof {
        first_where_missing(workspaces@, focused_with_id(workspace_id));
    }
    None
}

// ------------------------------------------------------------ Sticky follow

/// Result of sticky_follow_workspace
#[derive(Debug, Clone, Copy, PartialEq, Eq, Structural)]
pub enum StickyFollowResult {
    /// Window was moved or already in place, sticky state should be kept
    Keep,
    /// Window no longer exists, sticky state should be cleared
    WindowGone,
    /// Window is no longer floating, sticky state should be cleared
    NotFloating,
    /// Window moved to a different output; callers should resize/reposition
    OutputChanged {
        old_output_width: u32,
        old_output_height: u32,
        new_output_width: u32,
        new_output_height: u32,
    },
}

/// How a sticky window is followed up.
#[derive(Debug, Clone, Copy, PartialEq, Eq, Structural)]
pub enum StickyFollow {
    /// Not at all: the result is known.
    Stop(StickyFollowResult),
    /// It moves to the focused workspace, wherever that is. Its own workspace
    /// comes along.
    AcrossMonitors(Option<u64>),
    /// It moves to the focused workspace if that is on the same output. Its own
    /// workspace comes along.
    SameMonitor(Option<u64>),
}

/// Shared sticky follow logic, first step: looks the window up.
pub fn sticky_follow_workspace(windows: &Vec<Window>, window_id: u64, cross_monitor: bool) -> (r:
    StickyFollow)
    ensures
        r == (match window_at(windows@, window_id) {
            None => StickyFollow::Stop(StickyFollowResult::WindowGone),
            Some(i) => if !windows@[i].floating {
                StickyFollow::Stop(StickyFollowResult::NotFloating)
            } else if cross_monitor {
                StickyFollow::AcrossMonitors(windows@[i].workspace_id)
            } else {
                StickyFollow::SameMonitor(windows@[i].workspace_id)
            },
        }),
{
    match find_window(windows, window_id) {
        None => StickyFollow::Stop(StickyFollowResult::WindowGone),
        Some(window) => {
            if !window.floating {
                StickyFollow::Stop(StickyFollowResult::NotFloating)
            } else if cross_monitor {
                StickyFollow::AcrossMonitors(window.workspace_id)
            } else {
                StickyFollow::SameMonitor(window.workspace_id)
            }
        },
    }
}

/// The output of the workspace with an id, where both are known.
pub open spec fn output_of(workspaces: Seq<WorkspaceInfo>, id: Option<u64>) -> Option<Seq<char>> {
    match id {
        Some(id) => match workspace_at(workspaces, id) {
            Some(i) => opt_text(workspaces[i].output),
            None => None,
        },
        None => None,
    }
}

/// The size of the output that a workspace is on; zero where it is not known.
pub fn old_output_size(
    workspaces: &Vec<WorkspaceInfo>,
    workspace_id: Option<u64>,
    outputs: &OutputCache,
) -> (r: (u32, u32))
    ensures
        r == (match output_of(workspaces@, workspace_id) {
            Some(name) => if outputs@.contains_key(name) && outputs@[name] is Some {
                (outputs@[name]->0.width, outputs@[name]->0.height)
            } else {
                (0, 0)
            },
            None => (0, 0),
        }),
{
    if let Some(id) = workspace_id {
        if let Some(ws) = find_workspace(workspaces, id) {
            if let Some(name) = &ws.output {
                return match outputs.get_output_size_by_name(name.as_str()) {
                    Some(size) => size,
                    None => (0, 0),
                };
            }
        }
    }
    (0, 0)
}

/// What comes of moving a sticky window across monitors: whether the output
/// that it was on is known to have had another size than the new one.
pub fn sticky_moved(old: (u32, u32), new: (u32, u32)) -> (r: StickyFollowResult)
    ensures
        r == (if old.0 > 0 && old.1 > 0 && old != new {
            StickyFollowResult::OutputChanged {
                old_output_width: old.0,
                old_output_height: old.1,
                new_output_width: new.0,
                new_output_height: new.1,
            }
        } else {
            StickyFollowResult::Keep
        }),
{
    if old.0 > 0 && old.1 > 0 && (old.0 != new.0 || old.1 != new.1) {
        StickyFollowResult::OutputChanged {
            old_output_width: old.0,
            old_output_height: old.1,
            new_output_width: new.0,
            new_output_height: new.1,
        }
    } else {
        StickyFollowResult::Keep
    }
}

/// Having that text as an index.
pub open spec fn index_reads(name: Seq<char>) -> spec_fn(WorkspaceInfo) -> bool {
    |w: WorkspaceInfo| decimal(w.idx as nat) == name
}

/// The position of the focused workspace in a list. Where none has its id, a
/// stand-in was taken for it, whose name is an index.
pub open spec fn focused_target(
    workspaces: Seq<WorkspaceInfo>,
    focused_id: u64,
    focused_name: Seq<char>,
) -> Option<int> {
    match workspace_at(workspaces, focused_id) {
        Some(i) => Some(i),
        None => first_where(workspaces, index_reads(focused_name)),
    }
}

fn find_focused_target<'a>(
    workspaces: &'a Vec<WorkspaceInfo>,
    focused: &Workspace,
) -> (r: Option<&'a WorkspaceInfo>)
    ensures
        match focused_target(workspaces@, focused.id, focused.name@) {
            Some(i) => 0 <= i < workspaces@.len() && r == Some(&workspaces@[i]),
            None => r is None,
        },
{
    if let Some(target) = find_workspace(workspaces, focused.id) {
        return Some(target);
    }
    for i in 0..workspaces.len()
        invariant
            workspace_at(workspaces@, focused.id) is None,
            forall|j: int|
                0 <= j < i ==> !index_reads(focused.name@)(#[trigger] workspaces@[j]),
    {
        if same_text(decimal_text(workspaces[i].idx as u64).as_str(), focused.name.as_str()) {
            proof {
                first_where_found(workspaces@, index_reads(focused.name@), i as int);
            }
            return Some(&workspaces[i]);
        }
    }
    proof {
        first_where_missing(workspaces@, index_reads(focused.name@));
    }
    None
}

/// Whether a sticky window that stays on its output moves to the focused
/// workspace: not where its own workspace is known to be on another output.
/// Nothing where the focused workspace is not listed.
pub open spec fn sticky_moves(
    workspaces: Seq<WorkspaceInfo>,
    focused_id: u64,
    focused_name: Seq<char>,
    workspace_id: Option<u64>,
) -> Option<bool> {
    match focused_target(workspaces, focused_id, focused_name) {
        None => None,
        Some(t) => match workspace_id {
            None => Some(true),
            Some(id) => match workspace_at(workspaces, id) {
                None => Some(true),
                Some(s) => Some(opt_text(workspaces[s].output) == opt_text(workspaces[t].output)),
            },
        },
    }
}

/// Whether a sticky window that stays on its output moves to the focused
/// workspace.
pub fn sticky_stays_on_output(
    workspaces: &Vec<WorkspaceInfo>,
    focused: &Workspace,
    workspace_id: Option<u64>,
) -> (r: Option<bool>)
    ensures
        r == sticky_moves(workspaces@, focused.id, focused.name@, workspace_id),
{
    let target = match find_focused_target(workspaces, focused) {
        Some(target) => target,
        None => return None,
    };
    if let Some(id) = workspace_id {
        if let Some(source) = find_workspace(workspaces, id) {
            return Some(same_opt_text(&source.output, &target.output));
        }
    }
    Some(true)
}

impl WorkspaceInfo {
    /// How a request names a workspace: by its name, else by its index.
    pub open spec fn refers(self) -> WorkspaceRefView {
        match self.name {
            Some(name) => WorkspaceRefView::Name(name@),
            None => WorkspaceRefView::Index(self.idx),
        }
    }

    /// How a request names a workspace: by its name, else by its index.
    pub fn reference(&self) -> (r: WorkspaceRef)
        ensures
            r@ == self.refers(),
    {
        match &self.name {
            Some(name) => WorkspaceRef::Name(name.clone()),
            None => WorkspaceRef::Index(self.idx),
        }
    }
}

/// How a request names the focused workspace: as any other where it is listed
/// under its id, else by the index that was found.
pub open spec fn focused_reference(
    workspaces: Seq<WorkspaceInfo>,
    focused_id: u64,
    focused_name: Seq<char>,
) -> WorkspaceRefView {
    let target = workspaces[focused_target(workspaces, focused_id, focused_name)->0];
    if workspace_at(workspaces, focused_id) is Some {
        target.refers()
    } else {
        WorkspaceRefView::Index(target.idx)
    }
}

/// What comes of following up a sticky window that stays on its output.
#[derive(Debug, Clone, PartialEq, Eq)]
pub enum StickyMove {
    /// The focused workspace is not listed.
    NotListed,
    /// The window stays where it is.
    Stay,
    /// The window moves to the focused workspace.
    Request(Action),
}

/// Moves a sticky window that stays on its output to the focused workspace,
/// where that is on the same output. The focus does not change.
pub fn sticky_move(
    workspaces: &Vec<WorkspaceInfo>,
    focused: &Workspace,
    workspace_id: Option<u64>,
    window_id: u64,
) -> (r: StickyMove)
    ensures
        match sticky_moves(workspaces@, focused.id, focused.name@, workspace_id) {
            None => r is NotListed,
            Some(false) => r is Stay,
            Some(true) => r matches StickyMove::Request(action) && action@ == (
            ActionView::MoveWindowToWorkspace {
                window_id,
                reference: focused_reference(workspaces@, focused.id, focused.name@),
                focus: false,
            }),
        },
{
    match sticky_stays_on_output(workspaces, focused, workspace_id) {
        None => StickyMove::NotListed,
        Some(false) => StickyMove::Stay,
        Some(true) => match find_focused_target(workspaces, focused) {
            Some(target) => {
                let reference = if find_workspace(workspaces, focused.id).is_some() {
                    target.reference()
                } else {
                    WorkspaceRef::Index(target.idx)
                };
                StickyMove::Request(
                    Action::MoveWindowToWorkspace { window_id, reference, focus: false },
                )
            },
            None => StickyMove::NotListed,
        },
    }
}

/// A sticky window that must stay on its output is never moved to another one:
/// the workspace that it moves to is on the output of its own.
pub proof fn sticky_window_stays_on_output(
    workspaces: Seq<WorkspaceInfo>,
    focused_id: u64,
    focused_name: Seq<char>,
    workspace_id: u64,
)
    requires
        workspace_at(workspaces, workspace_id) is Some,
        sticky_moves(workspaces, focused_id, focused_name, Some(workspace_id)) == Some(true),
    ensures
        focused_target(workspaces, focused_id, focused_name) matches Some(t) && output_of(
            workspaces,
            Some(workspace_id),
        ) == opt_text(workspaces[t].output),
{
}

/// Where the focused workspace is listed, it is the one that a sticky window
/// moves to, whatever the names and indices of the others are.
pub proof fn sticky_window_moves_to_the_focused_workspace(
    workspaces: Seq<WorkspaceInfo>,
    focused_id: u64,
    focused_name: Seq<char>,
)
    requires
        workspace_at(workspaces, focused_id) is Some,
    ensures
        focused_target(workspaces, focused_id, focused_name) matches Some(t) && workspaces[t].id
            == focused_id && focused_reference(workspaces, focused_id, focused_name)
            == workspaces[t].refers(),
{
    first_where_is_first(workspaces, with_id(focused_id));
}

/// A sticky window follows to every workspace on its output, whether that has
/// a name or not.
pub proof fn sticky_window_follows_on_its_output(
    workspaces: Seq<WorkspaceInfo>,
    focused_id: u64,
    focused_name: Seq<char>,
    workspace_id: u64,
)
    requires
        workspace_at(workspaces, workspace_id) is Some,
        workspace_at(workspaces, focused_id) is Some,
        output_of(workspaces, Some(workspace_id)) == output_of(workspaces, Some(focused_id)),
    ensures
        sticky_moves(workspaces, focused_id, focused_name, Some(workspace_id)) == Some(true),
{
}

/// A number identifies a workspace exactly where it is its index, its id or its
/// name; any other text exactly where it is its name.
pub proof fn other_texts_identify_nothing(workspace: Workspace, n: u64, target: Seq<char>)
    ensures
        identifies(decimal(n as nat), workspace) <==> n == workspace.idx || n == workspace.id
            || workspace.name@ == decimal(n as nat),
        unsigned_value(target, u64::MAX as int) is None ==> identifies(target, workspace) == (
        workspace.name@ == target),
{
    decimal_round_trip(n as nat, u64::MAX as int);
    if n <= u8::MAX {
        decimal_round_trip(n as nat, u8::MAX as int);
    }
}

/// A window is found by its id, the first of several, and none is found only where
/// none has the id.
pub proof fn window_is_found_by_id(windows: Seq<Window>, id: u64, i: int)
    ensures
        window_at(windows, id) matches Some(k) ==> 0 <= k < windows.len() && windows[k].id == id,
        0 <= i < windows.len() && windows[i].id == id ==> (window_at(windows, id) matches Some(k)
            && k <= i),
{
    first_where_is_first(windows, window_id_is(id));
}

/// An event tells of a workspace only where that is focused, and it is the one with
/// the id; a focused one with the id is always found.
pub proof fn event_tells_of_the_focused_workspace(
    workspaces: Seq<WorkspaceInfo>,
    id: u64,
    i: int,
)
    ensures
        first_where(workspaces, focused_with_id(id)) matches Some(k) ==> 0 <= k < workspaces.len()
            && workspaces[k].is_focused && workspaces[k].id == id,
        0 <= i < workspaces.len() && workspaces[i].is_focused && workspaces[i].id == id ==> (
        first_where(workspaces, focused_with_id(id)) matches Some(k) && k <= i),
{
    first_where_is_first(workspaces, focused_with_id(id));
}

/// The output of a workspace is that of the first one with its id.
pub proof fn output_is_that_of_the_workspace(workspaces: Seq<WorkspaceInfo>, id: u64, i: int)
    requires
        0 <= i < workspaces.len(),
        workspaces[i].id == id,
        forall|j: int| 0 <= j < i ==> (#[trigger] workspaces[j]).id != id,
    ensures
        output_of(workspaces, Some(id)) == (match workspaces[i].output {
            Some(name) => Some(name@),
            None => None,
        }),
        output_of(workspaces, None) is None,
{
    first_where_found(workspaces, with_id(id), i);
}

/// A request names a workspace by its name where it has one, and by its index only
/// where it has none.
pub proof fn names_are_preferred_to_indices(ws: WorkspaceInfo)
    ensures
        ws.name is Some ==> ws.refers() == WorkspaceRefView::Name(ws.name->0@),
        ws.name is None ==> ws.refers() == WorkspaceRefView::Index(ws.idx),
{
}

/// Where no workspace has the id of the focused one, the first one whose index it
/// is called by stands for it, and requests name it by that index. Without one the
/// sticky window is not moved.
pub proof fn stand_in_is_found_by_its_index(
    workspaces: Seq<WorkspaceInfo>,
    focused_id: u64,
    n: u8,
    own: Option<u64>,
    i: int,
)
    requires
        forall|j: int| 0 <= j < workspaces.len() ==> (#[trigger] workspaces[j]).id != focused_id,
    ensures
        0 <= i < workspaces.len() && workspaces[i].idx == n && (forall|j: int|
            0 <= j < i ==> (#[trigger] workspaces[j]).idx != n) ==> {
            &&& focused_target(workspaces, focused_id, decimal(n as nat)) == Some(i)
            &&& focused_reference(workspaces, focused_id, decimal(n as nat))
                == WorkspaceRefView::Index(n)
        },
        (forall|j: int| 0 <= j < workspaces.len() ==> (#[trigger] workspaces[j]).idx != n)
            ==> sticky_moves(workspaces, focused_id, decimal(n as nat), own) is None,
{
    let name = decimal(n as nat);
    first_where_is_first(workspaces, with_id(focused_id));
    first_where_is_first(workspaces, index_reads(name));
    assert forall|j: int| 0 <= j < workspaces.len() implies index_reads(name)(
        #[trigger] workspaces[j],
    ) == (workspaces[j].idx == n) by {
        if decimal(workspaces[j].idx as nat) == name {
            decimal_injective(workspaces[j].idx as nat, n as nat);
        }
    }
}

/// A sticky window whose workspace is on another output than the focused one stays;
/// one whose workspace is not known or not listed moves.
pub proof fn sticky_window_moves_unless_its_output_differs(
    workspaces: Seq<WorkspaceInfo>,
    focused_id: u64,
    focused_name: Seq<char>,
    own: u64,
    t: int,
    s: int,
)
    requires
        0 <= t < workspaces.len(),
        workspaces[t].id == focused_id,
        forall|j: int| 0 <= j < t ==> (#[trigger] workspaces[j]).id != focused_id,
    ensures
        sticky_moves(workspaces, focused_id, focused_name, None) == Some(true),
        (forall|j: int| 0 <= j < workspaces.len() ==> (#[trigger] workspaces[j]).id != own)
            ==> sticky_moves(workspaces, focused_id, focused_name, Some(own)) == Some(true),
        0 <= s < workspaces.len() && workspaces[s].id == own && (forall|j: int|
            0 <= j < s ==> (#[trigger] workspaces[j]).id != own) ==> sticky_moves(
            workspaces,
            focused_id,
            focused_name,
            Some(own),
        ) == Some(opt_text(workspaces[s].output) == opt_text(workspaces[t].output)),
{
    first_where_found(workspaces, with_id(focused_id), t);
    first_where_is_first(workspaces, with_id(own));
}

} // verus!
