//! What the compositor can be asked to do.

use vstd::prelude::*;
use vstd::string::*;

use crate::text::{decimal, decimal_round_trip, parse_unsigned, unsigned_value};

verus! {

/// How a request names a workspace.
#[derive(Debug, Clone, PartialEq, Eq)]
pub enum WorkspaceRef {
    Index(u8),
    Id(u64),
    Name(String),
}

/// What a [`WorkspaceRef`] says.
pub enum WorkspaceRefView {
    Index(u8),
    Id(u64),
    Name(Seq<char>),
}

impl View for WorkspaceRef {
    type V = WorkspaceRefView;

    open spec fn view(&self) -> WorkspaceRefView {
        match self {
            WorkspaceRef::Index(i) => WorkspaceRefView::Index(*i),
            WorkspaceRef::Id(i) => WorkspaceRefView::Id(*i),
            WorkspaceRef::Name(n) => WorkspaceRefView::Name(n@),
        }
    }
}

/// What the name or number of a workspace refers to: an index where it is a
/// number that fits in one, else an id where it is a number that fits in one,
/// else a name.
pub open spec fn reference_of(workspace: Seq<char>) -> WorkspaceRefView {
    match unsigned_value(workspace, u8::MAX as int) {
        Some(idx) => WorkspaceRefView::Index(idx as u8),
        None => match unsigned_value(workspace, u64::MAX as int) {
            Some(id) => WorkspaceRefView::Id(id as u64),
            None => WorkspaceRefView::Name(workspace),
        },
    }
}

/// Reads the name or number of a workspace: as an index first, then as an id,
/// then as a name.
pub fn workspace_reference(workspace: &str) -> (r: WorkspaceRef)
    ensures
        r@ == reference_of(workspace@),
{
    if let Some(idx) = parse_unsigned(workspace, u8::MAX as u64) {
        WorkspaceRef::Index(idx as u8)
    } else if let Some(id) = parse_unsigned(workspace, u64::MAX) {
        WorkspaceRef::Id(id)
    } else {
        WorkspaceRef::Name(workspace.to_owned())
    }
}

/// The index of a workspace, in decimal, refers to the workspace with that index.
pub proof fn index_refers_back(idx: u8)
    ensures
        reference_of(decimal(idx as nat)) == WorkspaceRefView::Index(idx),
{
    decimal_round_trip(idx as nat, u8::MAX as int);
}

/// The id of a workspace, in decimal, refers to the workspace with that id,
/// where it is no index.
pub proof fn id_refers_back(id: u64)
    requires
        id > u8::MAX,
    ensures
        reference_of(decimal(id as nat)) == WorkspaceRefView::Id(id),
{
    decimal_round_trip(id as nat, u64::MAX as int);
    decimal_round_trip(id as nat, id as int);
}

/// How a column shows its windows.
#[derive(Debug, Clone, Copy, PartialEq, Eq, Structural)]
pub enum ColumnDisplay {
    Normal,
    Tabbed,
}

/// A request that changes something.
#[derive(Debug, Clone, PartialEq, Eq)]
pub enum Action {
    FocusWindow { id: u64 },
    FocusColumnLeft,
    FocusColumnRight,
    MoveWindowToMonitor { id: u64, output: String },
    MoveWindowToWorkspace { window_id: u64, reference: WorkspaceRef, focus: bool },
    SetWorkspaceName { name: String, workspace: WorkspaceRef },
    MoveWindowToFloating { id: u64 },
    MoveWindowToTiling { id: u64 },
    /// Moves a floating window by that many pixels.
    MoveFloatingWindow { id: u64, x: i32, y: i32 },
    /// Sets the width to that many pixels.
    SetWindowWidth { id: u64, pixels: i32 },
    /// Sets the height to that many pixels.
    SetWindowHeight { id: u64, pixels: i32 },
    ResetWindowHeight { id: u64 },
    CenterWindow { id: u64 },
    /// Maximizes a window, or undoes that.
    MaximizeWindowToEdges { id: u64 },
    SetColumnDisplay { display: ColumnDisplay },
    ConsumeOrExpelWindowLeft { id: u64 },
}

/// What an [`Action`] says.
pub enum ActionView {
    FocusWindow { id: u64 },
    FocusColumnLeft,
    FocusColumnRight,
    MoveWindowToMonitor { id: u64, output: Seq<char> },
    MoveWindowToWorkspace { window_id: u64, reference: WorkspaceRefView, focus: bool },
    SetWorkspaceName { name: Seq<char>, workspace: WorkspaceRefView },
    MoveWindowToFloating { id: u64 },
    MoveWindowToTiling { id: u64 },
    MoveFloatingWindow { id: u64, x: i32, y: i32 },
    SetWindowWidth { id: u64, pixels: int },
    SetWindowHeight { id: u64, pixels: int },
    ResetWindowHeight { id: u64 },
    CenterWindow { id: u64 },
    MaximizeWindowToEdges { id: u64 },
    SetColumnDisplay { display: ColumnDisplay },
    ConsumeOrExpelWindowLeft { id: u64 },
}

impl View for Action {
    type V = ActionView;

    open spec fn view(&self) -> ActionView {
        match self {
            Action::FocusWindow { id } => ActionView::FocusWindow { id: *id },
            Action::FocusColumnLeft => ActionView::FocusColumnLeft,
            Action::FocusColumnRight => ActionView::FocusColumnRight,
            Action::MoveWindowToMonitor { id, output } => ActionView::MoveWindowToMonitor {
                id: *id,
                output: output@,
            },
            Action::MoveWindowToWorkspace { window_id, reference, focus } => {
                ActionView::MoveWindowToWorkspace {
                    window_id: *window_id,
                    reference: reference@,
                    focus: *focus,
                }
            },
            Action::SetWorkspaceName { name, workspace } => ActionView::SetWorkspaceName {
                name: name@,
                workspace: workspace@,
            },
            Action::MoveWindowToFloating { id } => ActionView::MoveWindowToFloating { id: *id },
            Action::MoveWindowToTiling { id } => ActionView::MoveWindowToTiling { id: *id },
            Action::MoveFloatingWindow { id, x, y } => ActionView::MoveFloatingWindow {
                id: *id,
                x: *x,
                y: *y,
            },
            Action::SetWindowWidth { id, pixels } => ActionView::SetWindowWidth {
                id: *id,
                pixels: *pixels as int,
            },
            Action::SetWindowHeight { id, pixels } => ActionView::SetWindowHeight {
                id: *id,
                pixels: *pixels as int,
            },
            Action::ResetWindowHeight { id } => ActionView::ResetWindowHeight { id: *id },
            Action::CenterWindow { id } => ActionView::CenterWindow { id: *id },
            Action::MaximizeWindowToEdges { id } => ActionView::MaximizeWindowToEdges { id: *id },
            Action::SetColumnDisplay { display } => ActionView::SetColumnDisplay {
                display: *display,
            },
            Action::ConsumeOrExpelWindowLeft { id } => ActionView::ConsumeOrExpelWindowLeft {
                id: *id,
            },
        }
    }
}

/// What each action in a row says.
pub open spec fn action_views(actions: Seq<Action>) -> Seq<ActionView> {
    actions.map_values(|a: Action| a@)
}

/// A text that is a number refers to a workspace by index where that fits in one,
/// else by id; every other text refers to one by name.
pub proof fn numbers_refer_by_index_or_id(workspace: Seq<char>, n: int)
    ensures
        unsigned_value(workspace, u64::MAX as int) == Some(n) && n <= u8::MAX ==> reference_of(
            workspace,
        ) == WorkspaceRefView::Index(n as u8),
        unsigned_value(workspace, u64::MAX as int) == Some(n) && n > u8::MAX ==> reference_of(
            workspace,
        ) == WorkspaceRefView::Id(n as u64),
        unsigned_value(workspace, u64::MAX as int) is None ==> reference_of(workspace)
            == WorkspaceRefView::Name(workspace),
{
}

/// A request says what it holds: the window that it is about, and each of its
/// settings as it is.
pub proof fn requests_say_what_they_hold(
    id: u64,
    x: i32,
    y: i32,
    text: String,
    idx: u8,
    number: u64,
    flag: bool,
    reference: WorkspaceRef,
    display: ColumnDisplay,
)
    ensures
        WorkspaceRef::Index(idx)@ == WorkspaceRefView::Index(idx),
        WorkspaceRef::Id(number)@ == WorkspaceRefView::Id(number),
        WorkspaceRef::Name(text)@ == WorkspaceRefView::Name(text@),
        (Action::FocusWindow { id })@ == (ActionView::FocusWindow { id }),
        Action::FocusColumnLeft@ == ActionView::FocusColumnLeft,
        Action::FocusColumnRight@ == ActionView::FocusColumnRight,
        (Action::MoveWindowToMonitor { id, output: text })@ == (ActionView::MoveWindowToMonitor {
            id,
            output: text@,
        }),
        (Action::MoveWindowToWorkspace { window_id: id, reference, focus: flag })@ == (
        ActionView::MoveWindowToWorkspace { window_id: id, reference: reference@, focus: flag }),
        (Action::SetWorkspaceName { name: text, workspace: reference })@ == (
        ActionView::SetWorkspaceName { name: text@, workspace: reference@ }),
        (Action::MoveWindowToFloating { id })@ == (ActionView::MoveWindowToFloating { id }),
        (Action::MoveWindowToTiling { id })@ == (ActionView::MoveWindowToTiling { id }),
        (Action::MoveFloatingWindow { id, x, y })@ == (ActionView::MoveFloatingWindow { id, x, y }),
        (Action::SetWindowWidth { id, pixels: x })@ == (ActionView::SetWindowWidth {
            id,
            pixels: x as int,
        }),
        (Action::SetWindowHeight { id, pixels: x })@ == (ActionView::SetWindowHeight {
            id,
            pixels: x as int,
        }),
        (Action::ResetWindowHeight { id })@ == (ActionView::ResetWindowHeight { id }),
        (Action::CenterWindow { id })@ == (ActionView::CenterWindow { id }),
        (Action::MaximizeWindowToEdges { id })@ == (ActionView::MaximizeWindowToEdges { id }),
        (Action::SetColumnDisplay { display })@ == (ActionView::SetColumnDisplay { display }),
        (Action::ConsumeOrExpelWindowLeft { id })@ == (ActionView::ConsumeOrExpelWindowLeft { id }),
{
}

} // verus!
