//! Windows, workspaces and outputs, and what is read off the compositor's
//! answers.

use vstd::prelude::*;
use vstd::hash_map::StringHashMap;
use vstd::string::*;

use crate::action::{action_views, reference_of, workspace_reference, Action, ActionView};
use crate::config::FloatBits;
use crate::numbers::{signed32, to_signed32, to_unsigned32, unsigned32};
use crate::search::{
    first_where, first_where_found, first_where_is_first, first_where_missing,
};
use crate::text::{copy_opt_text, decimal, decimal_text, opt_text};

verus! {

// --------------------------------------------------------------------- Types

#[derive(Debug)]
pub struct Window {
    pub id: u64,
    pub title: String,
    pub app_id: Option<String>,
    pub class: Option<String>,
    pub floating: bool,
    pub workspace_id: Option<u64>,
    pub workspace: Option<String>,
    pub output: Option<String>,
    pub layout: Option<WindowLayout>,
    pub pid: Option<u32>,
}

impl Clone for Window {
    fn clone(&self) -> (r: Self)
        ensures
            r == *self,
    {
        Window {
            id: self.id,
            title: self.title.clone(),
            app_id: copy_opt_text(&self.app_id),
            class: copy_opt_text(&self.class),
            floating: self.floating,
            workspace_id: self.workspace_id,
            workspace: copy_opt_text(&self.workspace),
            output: copy_opt_text(&self.output),
            layout: self.layout,
            pid: self.pid,
        }
    }
}

#[derive(Debug, Clone, Copy)]
pub struct WindowLayout {
    pub tile_pos: Option<[FloatBits; 2]>,
    pub tile_size: Option<[FloatBits; 2]>,
    pub window_size: Option<[u32; 2]>,
    /// Position in scrolling layout: (column index, tile index in column), 1-based
    pub pos_in_scrolling_layout: Option<(usize, usize)>,
}

impl Window {
    /// The column of the scrolling layout in which a window stands.
    pub open spec fn column(self) -> Option<usize> {
        match self.layout {
            Some(layout) => match layout.pos_in_scrolling_layout {
                Some(pos) => Some(pos.0),
                None => None,
            },
            None => None,
        }
    }

    /// The column of the scrolling layout in which a window stands.
    pub fn get_column(&self) -> (r: Option<usize>)
        ensures
            r == self.column(),
    {
        match &self.layout {
            Some(layout) => match layout.pos_in_scrolling_layout {
                Some(pos) => Some(pos.0),
                None => None,
            },
            None => None,
        }
    }

    /// Whether a window is tiled on a workspace.
    pub open spec fn tiled_on(self, workspace: u64) -> bool {
        !self.floating && self.workspace_id == Some(workspace)
    }

    /// Whether a window is tiled on a workspace.
    pub fn is_tiled_on(&self, workspace: u64) -> (r: bool)
        ensures
            r == self.tiled_on(workspace),
    {
        !self.floating && (match self.workspace_id {
            Some(id) => id == workspace,
            None => false,
        })
    }

    /// Whether a window floats on a workspace.
    pub open spec fn floats_on(self, workspace: u64) -> bool {
        self.floating && self.workspace_id == Some(workspace)
    }

    /// Whether a window floats on a workspace.
    pub fn is_floating_on(&self, workspace: u64) -> (r: bool)
        ensures
            r == self.floats_on(workspace),
    {
        self.floating && (match self.workspace_id {
            Some(id) => id == workspace,
            None => false,
        })
    }
}

#[derive(Debug, Clone)]
pub struct Output {
    pub name: String,
    pub focused: bool,
    pub logical: Option<OutputLogical>,
}

#[derive(Debug, Clone, Copy, PartialEq, Eq, Structural)]
pub struct OutputLogical {
    pub width: u32,
    pub height: u32,
    pub x: i32,
    pub y: i32,
}

#[derive(Debug, Clone)]
pub struct Workspace {
    pub id: u64,
    pub idx: u8,
    pub name: String,
    pub output: Option<String>,
    pub focused: bool,
}

/// The layout of a window, as the compositor reports it.
#[derive(Debug, Clone, Copy)]
pub struct IpcLayout {
    pub tile_pos_in_workspace_view: Option<(FloatBits, FloatBits)>,
    pub tile_size: (FloatBits, FloatBits),
    pub window_size: (i32, i32),
    pub pos_in_scrolling_layout: Option<(usize, usize)>,
}

/// A window, as the compositor reports it.
#[derive(Debug, Clone)]
pub struct IpcWindow {
    pub id: u64,
    pub title: Option<String>,
    pub app_id: Option<String>,
    pub pid: Option<i32>,
    pub workspace_id: Option<u64>,
    pub is_floating: bool,
    pub layout: IpcLayout,
}

/// An output, as the compositor reports it.
#[derive(Debug, Clone)]
pub struct IpcOutput {
    pub name: String,
    pub logical: Option<OutputLogical>,
}

/// A workspace, as the compositor reports it.
#[derive(Debug, Clone)]
pub struct WorkspaceInfo {
    pub id: u64,
    /// Position on its output; not unique across outputs.
    pub idx: u8,
    pub name: Option<String>,
    /// The output that the workspace is on.
    pub output: Option<String>,
    /// The display prefix of the output's name, where it has one.
    pub output_prefix: Option<String>,
    pub is_focused: bool,
}

// ------------------------------------------------------- Reading the answers

/// Having an id.
pub open spec fn with_id(id: u64) -> spec_fn(WorkspaceInfo) -> bool {
    |w: WorkspaceInfo| w.id == id
}

/// Being focused.
pub open spec fn in_focus() -> spec_fn(WorkspaceInfo) -> bool {
    |w: WorkspaceInfo| w.is_focused
}

/// The position of the first workspace with an id.
pub open spec fn workspace_at(workspaces: Seq<WorkspaceInfo>, id: u64) -> Option<int> {
    first_where(workspaces, with_id(id))
}

/// The position of the first focused workspace.
pub open spec fn focused_at(workspaces: Seq<WorkspaceInfo>) -> Option<int> {
    first_where(workspaces, in_focus())
}

/// Finds the first workspace with an id.
pub fn find_workspace<'a>(workspaces: &'a Vec<WorkspaceInfo>, id: u64) -> (r: Option<
    &'a WorkspaceInfo,
>)
    ensures
        match workspace_at(workspaces@, id) {
            Some(i) => 0 <= i < workspaces@.len() && r == Some(&workspaces@[i]),
            None => r is None,
        },
{
    for i in 0..workspaces.len()
        invariant
            forall|j: int| 0 <= j < i ==> !with_id(id)(#[trigger] workspaces@[j]),
    {
        if workspaces[i].id == id {
            proof {
                first_where_found(workspaces@, with_id(id), i as int);
            }
            return Some(&workspaces[i]);
        }
    }
    proof {
        first_where_missing(workspaces@, with_id(id));
    }
    None
}

/// Finds the first focused workspace.
pub fn find_focused_workspace<'a>(workspaces: &'a Vec<WorkspaceInfo>) -> (r: Option<
    &'a WorkspaceInfo,
>)
    ensures
        match focused_at(workspaces@) {
            Some(i) => 0 <= i < workspaces@.len() && r == Some(&workspaces@[i]),
            None => r is None,
        },
{
    for i in 0..workspaces.len()
        invariant
            forall|j: int| 0 <= j < i ==> !in_focus()(#[trigger] workspaces@[j]),
    {
        if workspaces[i].is_focused {
            proof {
                first_where_found(workspaces@, in_focus(), i as int);
            }
            return Some(&workspaces[i]);
        }
    }
    proof {
        first_where_missing(workspaces@, in_focus());
    }
    None
}

/// The label of the workspace that a window is on: the workspace's index, in
/// decimal; none where the window is on no known workspace.
pub open spec fn label_of(workspaces: Seq<WorkspaceInfo>, id: Option<u64>) -> Option<Seq<char>> {
    match id {
        Some(id) => match workspace_at(workspaces, id) {
            Some(i) => Some(decimal(workspaces[i].idx as nat)),
            None => None,
        },
        None => None,
    }
}

/// Whether a window is the one that the compositor reported, with the
/// workspace labelled so. Sizes and the process id are read as unsigned.
pub open spec fn reads_as(w: IpcWindow, label: Option<Seq<char>>, r: Window) -> bool {
    &&& r.id == w.id
    &&& r.title@ == (match w.title {
        Some(t) => t@,
        None => Seq::empty(),
    })
    &&& opt_text(r.app_id) == opt_text(w.app_id)
    &&& r.class is None
    &&& r.floating == w.is_floating
    &&& r.workspace_id == w.workspace_id
    &&& opt_text(r.workspace) == label
    &&& r.output is None
    &&& r.layout matches Some(l) && layout_reads_as(w.layout, l)
    &&& match w.pid {
        Some(p) => r.pid matches Some(q) && q as int == unsigned32(p as int),
        None => r.pid is None,
    }
}

/// Whether a layout is the one that the compositor reported.
pub open spec fn layout_reads_as(w: IpcLayout, r: WindowLayout) -> bool {
    &&& match w.tile_pos_in_workspace_view {
        Some(p) => r.tile_pos matches Some(q) && q@ == seq![p.0, p.1],
        None => r.tile_pos is None,
    }
    &&& r.tile_size matches Some(s) && s@ == seq![w.tile_size.0, w.tile_size.1]
    &&& r.window_size matches Some(s) && s@.len() == 2 && s@[0] as int == unsigned32(
        w.window_size.0 as int,
    ) && s@[1] as int == unsigned32(w.window_size.1 as int)
    &&& r.pos_in_scrolling_layout == w.pos_in_scrolling_layout
}

/// Reads the layout of a window.
pub fn read_layout(w: &IpcLayout) -> (r: WindowLayout)
    ensures
        layout_reads_as(*w, r),
{
    let tile_pos = match w.tile_pos_in_workspace_view {
        Some(p) => {
            let q = [p.0, p.1];
            assert(q@ =~= seq![p.0, p.1]);
            Some(q)
        },
        None => None,
    };
    let tile_size = [w.tile_size.0, w.tile_size.1];
    assert(tile_size@ =~= seq![w.tile_size.0, w.tile_size.1]);
    WindowLayout {
        tile_pos,
        tile_size: Some(tile_size),
        window_size: Some([to_unsigned32(w.window_size.0), to_unsigned32(w.window_size.1)]),
        pos_in_scrolling_layout: w.pos_in_scrolling_layout,
    }
}

fn read_window(w: &IpcWindow, label: Option<String>) -> (r: Window)
    ensures
        reads_as(*w, opt_text(label), r),
{
    Window {
        id: w.id,
        title: match &w.title {
            Some(t) => t.clone(),
            None => String::new(),
        },
        app_id: copy_opt_text(&w.app_id),
        class: None,
        floating: w.is_floating,
        workspace_id: w.workspace_id,
        workspace: label,
        output: None,
        layout: Some(read_layout(&w.layout)),
        pid: match w.pid {
            Some(p) => Some(to_unsigned32(p)),
            None => None,
        },
    }
}

/// Get all windows (raw, without workspace name mapping)
/// Use this when you only need window id, app_id, title, pid, workspace_id, etc.
/// and don't need the human-readable workspace name field.
pub fn windows_raw(windows: &Vec<IpcWindow>) -> (r: Vec<Window>)
    ensures
        r@.len() == windows@.len(),
        forall|i: int| 0 <= i < r@.len() ==> reads_as(windows@[i], None, #[trigger] r@[i]),
{
    let mut r: Vec<Window> = Vec::new();
    for i in 0..windows.len()
        invariant
            r@.len() == i,
            forall|j: int| 0 <= j < i ==> reads_as(windows@[j], None, #[trigger] r@[j]),
    {
        r.push(read_window(&windows[i], None));
    }
    r
}

/// The label of the workspace that a window is on.
pub fn workspace_label(workspaces: &Vec<WorkspaceInfo>, id: Option<u64>) -> (r: Option<String>)
    ensures
        opt_text(r) == label_of(workspaces@, id),
{
    match id {
        Some(id) => match find_workspace(workspaces, id) {
            Some(ws) => Some(decimal_text(ws.idx as u64)),
            None => None,
        },
        None => None,
    }
}

/// Reads a single window, with the label of its workspace.
pub fn convert_window(window: &IpcWindow, workspaces: &Vec<WorkspaceInfo>) -> (r: Window)
    ensures
        reads_as(*window, label_of(workspaces@, window.workspace_id), r),
{
    read_window(window, workspace_label(workspaces, window.workspace_id))
}

/// Get all windows with workspace name mapping
/// Use this when you need the workspace field (human-readable name/index).
pub fn windows_labelled(windows: &Vec<IpcWindow>, workspaces: &Vec<WorkspaceInfo>) -> (r: Vec<
    Window,
>)
    ensures
        r@.len() == windows@.len(),
        forall|i: int|
            0 <= i < r@.len() ==> reads_as(
                windows@[i],
                label_of(workspaces@, windows@[i].workspace_id),
                #[trigger] r@[i],
            ),
{
    let mut r: Vec<Window> = Vec::new();
    for i in 0..windows.len()
        invariant
            r@.len() == i,
            forall|j: int|
                0 <= j < i ==> reads_as(
                    windows@[j],
                    label_of(workspaces@, windows@[j].workspace_id),
                    #[trigger] r@[j],
                ),
    {
        r.push(convert_window(&windows[i], workspaces));
    }
    r
}

/// Reads the focused output off the answer that names one.
pub fn focused_output(answer: Option<IpcOutput>) -> (r: Option<Output>)
    ensures
        match answer {
            Some(o) => r == Some(Output { name: o.name, focused: true, logical: o.logical }),
            None => r is None,
        },
{
    match answer {
        Some(o) => Some(Output { name: o.name, focused: true, logical: o.logical }),
        None => None,
    }
}

impl WorkspaceInfo {
    /// The name of a workspace: its own, else its index in decimal.
    pub open spec fn display_name(self) -> Seq<char> {
        match self.name {
            Some(n) => n@,
            None => decimal(self.idx as nat),
        }
    }

    /// The name of a workspace: its own, else its index in decimal.
    pub fn name_or_index(&self) -> (r: String)
        ensures
            r@ == self.display_name(),
    {
        match &self.name {
            Some(n) => n.clone(),
            None => decimal_text(self.idx as u64),
        }
    }
}

/// The focused workspace, where the compositor reports one.
pub fn focused_workspace(workspaces: &Vec<WorkspaceInfo>) -> (r: Option<Workspace>)
    ensures
        match focused_at(workspaces@) {
            Some(i) => {
                &&& r matches Some(w)
                &&& w.id == workspaces@[i].id
                &&& w.idx == workspaces@[i].idx
                &&& w.name@ == workspaces@[i].display_name()
                &&& opt_text(w.output) == opt_text(workspaces@[i].output)
                &&& w.focused
            },
            None => r is None,
        },
{
    match find_focused_workspace(workspaces) {
        Some(ws) => Some(
            Workspace {
                id: ws.id,
                idx: ws.idx,
                name: ws.name_or_index(),
                output: copy_opt_text(&ws.output),
                focused: true,
            },
        ),
        None => None,
    }
}

impl Window {
    /// Whether a window says which workspace it is on.
    pub open spec fn placed(self) -> bool {
        self.workspace is Some || self.workspace_id is Some
    }
}

/// The workspace to take for the focused one where none is reported as such:
/// that of the first window that says where it is, else the first workspace.
pub open spec fn stands_in(windows: Seq<Window>, w: Workspace) -> bool
    decreases windows.len(),
{
    if windows.len() == 0 {
        &&& w.id == 0
        &&& w.idx == 1
        &&& w.name@ == "1"@
        &&& w.output is None
        &&& w.focused
    } else if !windows[0].placed() {
        stands_in(windows.drop_first(), w)
    } else {
        &&& w.id == (match windows[0].workspace_id {
            Some(id) => id,
            None => 0,
        })
        &&& w.idx == 0
        &&& w.name@ == (match windows[0].workspace {
            Some(name) => name@,
            None => decimal(windows[0].workspace_id->0 as nat),
        })
        &&& w.output is None
        &&& w.focused
    }
}

/// The workspace to take for the focused one where none is reported as such.
pub fn fallback_workspace(windows: &Vec<Window>) -> (r: Workspace)
    ensures
        stands_in(windows@, r),
{
    assert(windows@.skip(0) =~= windows@);
    for i in 0..windows.len()
        invariant
            forall|w: Workspace|
                stands_in(windows@.skip(i as int), w) ==> #[trigger] stands_in(windows@, w),
    {
        let window = &windows[i];
        assert(windows@.skip(i as int)[0] == *window);
        assert(windows@.skip(i as int).drop_first() =~= windows@.skip(i + 1));
        if let Some(workspace) = &window.workspace {
            let r = Workspace {
                id: window.workspace_id.unwrap_or(0),
                idx: 0,
                name: workspace.clone(),
                output: None,
                focused: true,
            };
            assert(stands_in(windows@.skip(i as int), r));
            return r;
        }
        if let Some(workspace_id) = window.workspace_id {
            let r = Workspace {
                id: workspace_id,
                idx: 0,
                name: decimal_text(workspace_id),
                output: None,
                focused: true,
            };
            assert(stands_in(windows@.skip(i as int), r));
            return r;
        }
    }
    let r = Workspace { id: 0, idx: 1, name: "1".to_owned(), output: None, focused: true };
    assert(stands_in(windows@.skip(windows@.len() as int), r));
    r
}

// ------------------------------------------------------------------ Requests

/// Move window to a specific workspace by identifier (name or idx), without
/// changing the focus.
pub fn move_window_to_workspace(window_id: u64, workspace: &str) -> (r: Action)
    ensures
        r@ == (ActionView::MoveWindowToWorkspace {
            window_id,
            reference: reference_of(workspace@),
            focus: false,
        }),
{
    Action::MoveWindowToWorkspace {
        window_id,
        reference: workspace_reference(workspace),
        focus: false,
    }
}

/// Move window to the monitor that is focused.
pub fn move_window_to_monitor(window_id: u64, focused: &Output) -> (r: Action)
    ensures
        r@ == (ActionView::MoveWindowToMonitor { id: window_id, output: focused.name@ }),
{
    Action::MoveWindowToMonitor { id: window_id, output: focused.name.clone() }
}

/// Set window to floating
pub fn set_window_floating(window_id: u64, floating: bool) -> (r: Action)
    ensures
        r@ == (if floating {
            ActionView::MoveWindowToFloating { id: window_id }
        } else {
            ActionView::MoveWindowToTiling { id: window_id }
        }),
{
    if floating {
        Action::MoveWindowToFloating { id: window_id }
    } else {
        Action::MoveWindowToTiling { id: window_id }
    }
}

/// Resize floating window using set-window-width and set-window-height. The
/// sizes are read as signed.
pub fn resize_floating_window(window_id: u64, width: u32, height: u32) -> (r: Vec<Action>)
    ensures
        action_views(r@) == seq![
            ActionView::SetWindowWidth { id: window_id, pixels: signed32(width as int) },
            ActionView::SetWindowHeight { id: window_id, pixels: signed32(height as int) },
        ],
{
    let r = vec![
        Action::SetWindowWidth { id: window_id, pixels: to_signed32(width) },
        Action::SetWindowHeight { id: window_id, pixels: to_signed32(height) },
    ];
    assert(action_views(r@) =~= seq![
        ActionView::SetWindowWidth { id: window_id, pixels: signed32(width as int) },
        ActionView::SetWindowHeight { id: window_id, pixels: signed32(height as int) },
    ]);
    r
}

/// A size that does not fit in a request.
#[derive(Debug, Clone, Copy, PartialEq, Eq, Structural)]
pub enum SizeOverflow {
    /// Floating window width exceeds i32::MAX
    Width,
    /// Floating window height exceeds i32::MAX
    Height,
}

/// What is wrong with the sizes for a floating window: the width is looked at
/// first.
pub open spec fn size_overflow(width: Option<u32>, height: Option<u32>) -> Option<SizeOverflow> {
    if width matches Some(w) && w > i32::MAX {
        Some(SizeOverflow::Width)
    } else if height matches Some(h) && h > i32::MAX {
        Some(SizeOverflow::Height)
    } else {
        None
    }
}

/// The request that sets a floating window's width, where there is one.
pub open spec fn width_requests(window_id: u64, width: Option<u32>) -> Seq<ActionView> {
    match width {
        Some(w) => seq![ActionView::SetWindowWidth { id: window_id, pixels: w as int }],
        None => seq![],
    }
}

/// The request that sets or resets a floating window's height, where there is
/// one. An explicit height takes precedence over resetting the height to
/// automatic.
pub open spec fn height_requests(
    window_id: u64,
    height: Option<u32>,
    reset_height: bool,
) -> Seq<ActionView> {
    match height {
        Some(h) => seq![ActionView::SetWindowHeight { id: window_id, pixels: h as int }],
        None => if reset_height {
            seq![ActionView::ResetWindowHeight { id: window_id }]
        } else {
            seq![]
        },
    }
}

/// The requests that a change of a floating window's size comes to, up to the
/// first size that does not fit in one.
pub open spec fn size_requests(
    window_id: u64,
    width: Option<u32>,
    height: Option<u32>,
    reset_height: bool,
) -> Seq<ActionView> {
    match size_overflow(width, height) {
        Some(SizeOverflow::Width) => seq![],
        Some(SizeOverflow::Height) => width_requests(window_id, width),
        None => width_requests(window_id, width) + height_requests(
            window_id,
            height,
            reset_height,
        ),
    }
}

/// Apply optional width and height settings to a floating window.
/// An explicit height takes precedence over resetting the height to automatic.
///
/// The result holds the requests to send, in order, and the error to report
/// once they are sent.
pub fn set_floating_window_size(
    window_id: u64,
    width: Option<u32>,
    height: Option<u32>,
    reset_height: bool,
) -> (r: (Vec<Action>, Option<SizeOverflow>))
    ensures
        action_views(r.0@) == size_requests(window_id, width, height, reset_height),
        r.1 == size_overflow(width, height),
{
    let mut actions: Vec<Action> = Vec::new();
    let ghost expected = size_requests(window_id, width, height, reset_height);
    if let Some(w) = width {
        if w > i32::MAX as u32 {
            assert(action_views(actions@) =~= expected);
            return (actions, Some(SizeOverflow::Width));
        }
        actions.push(Action::SetWindowWidth { id: window_id, pixels: w as i32 });
    }
    assert(action_views(actions@) =~= width_requests(window_id, width));
    if let Some(h) = height {
        if h > i32::MAX as u32 {
            return (actions, Some(SizeOverflow::Height));
        }
        actions.push(Action::SetWindowHeight { id: window_id, pixels: h as i32 });
    } else if reset_height {
        actions.push(Action::ResetWindowHeight { id: window_id });
    }
    assert(action_views(actions@) =~= expected);
    (actions, None)
}

/// An explicit height is never mixed with a reset of the height.
pub proof fn explicit_height_takes_precedence(
    window_id: u64,
    width: Option<u32>,
    height: u32,
    reset_height: bool,
    i: int,
)
    requires
        0 <= i < size_requests(window_id, width, Some(height), reset_height).len(),
    ensures
        !(size_requests(window_id, width, Some(height), reset_height)[i] is ResetWindowHeight),
        size_requests(window_id, width, Some(height), reset_height) == size_requests(
            window_id,
            width,
            Some(height),
            false,
        ),
{
}

// ------------------------------------------------------------------- Outputs

/// Get output dimensions (width and height) for an output
pub fn output_size(output: &Output) -> (r: Option<(u32, u32)>)
    ensures
        match output.logical {
            Some(l) => r == Some((l.width, l.height)),
            None => r is None,
        },
{
    match &output.logical {
        Some(logical) => Some((logical.width, logical.height)),
        None => None,
    }
}

/// The known outputs, by name.
pub struct OutputCache {
    sizes: StringHashMap<Option<OutputLogical>>,
}

impl View for OutputCache {
    type V = Map<Seq<char>, Option<OutputLogical>>;

    closed spec fn view(&self) -> Map<Seq<char>, Option<OutputLogical>> {
        self.sizes@
    }
}

/// What a list of outputs says of the output of each name: the last entry
/// counts.
pub open spec fn outputs_by_name(outputs: Seq<IpcOutput>) -> Map<
    Seq<char>,
    Option<OutputLogical>,
>
    decreases outputs.len(),
{
    if outputs.len() == 0 {
        Map::empty()
    } else {
        outputs_by_name(outputs.drop_last()).insert(outputs.last().name@, outputs.last().logical)
    }
}

impl OutputCache {
    /// A cache that knows no output.
    pub fn new() -> (r: Self)
        ensures
            r@ == Map::<Seq<char>, Option<OutputLogical>>::empty(),
    {
        OutputCache { sizes: StringHashMap::new() }
    }

    /// Get the output size for a specific output by name
    pub fn get_output_size_by_name(&self, output_name: &str) -> (r: Option<(u32, u32)>)
        ensures
            r == (if self@.contains_key(output_name@) {
                match self@[output_name@] {
                    Some(l) => Some((l.width, l.height)),
                    None => None,
                }
            } else {
                None
            }),
    {
        match self.sizes.get(output_name) {
            Some(Some(logical)) => Some((logical.width, logical.height)),
            _ => None,
        }
    }

    /// Replaces what is known of the outputs (call on startup and on output change events)
    pub fn refresh_outputs(&mut self, outputs: &Vec<IpcOutput>)
        ensures
            final(self)@ == outputs_by_name(outputs@),
    {
        self.sizes = StringHashMap::new();
        assert(outputs@.take(0) =~= Seq::<IpcOutput>::empty());
        for i in 0..outputs.len()
            invariant
                self.sizes@ == outputs_by_name(outputs@.take(i as int)),
        {
            let output = &outputs[i];
            self.sizes.insert(output.name.clone(), output.logical);
            assert(outputs@.take(i + 1).drop_last() =~= outputs@.take(i as int));
        }
        assert(outputs@.take(outputs@.len() as int) =~= outputs@);
    }
}

// ----------------------------------------------------------------- Positions

/// Where a window's tile stands and how large it is, in whole pixels: (x, y,
/// width, height).
pub type Placement = (i32, i32, u32, u32);

/// Being the answer to a question for a window's position: the window is the
/// one asked for, it floats, and neither side of what it measures is zero.
pub open spec fn answers(window_id: u64) -> spec_fn((Window, Option<Placement>)) -> bool {
    |p: (Window, Option<Placement>)|
        {
            &&& p.0.id == window_id
            &&& p.0.floating
            &&& p.1 matches Some(placement) && placement.2 > 0 && placement.3 > 0
        }
}

/// The position of a floating window, given windows and what each measures,
/// where that is known: that of the first window that answers.
pub fn window_position(windows: &Vec<(Window, Option<Placement>)>, window_id: u64) -> (r: Option<
    Placement,
>)
    ensures
        match first_where(windows@, answers(window_id)) {
            Some(i) => 0 <= i < windows@.len() && r == windows@[i].1,
            None => r is None,
        },
{
    for i in 0..windows.len()
        invariant
            forall|j: int| 0 <= j < i ==> !answers(window_id)(#[trigger] windows@[j]),
    {
        if windows[i].0.id == window_id && windows[i].0.floating {
            if let Some(p) = windows[i].1 {
                if p.2 > 0 && p.3 > 0 {
                    proof {
                        first_where_found(windows@, answers(window_id), i as int);
                    }
                    return Some(p);
                }
            }
        }
    }
    proof {
        first_where_missing(windows@, answers(window_id));
    }
    None
}

// ---------------------------------------------------------------------- Laws

/// The column of a window is the first number of its position in the scrolling
/// layout; it is in none where no such position is known.
pub proof fn column_is_told_by_the_layout(w: Window, column: usize)
    ensures
        w.column() == Some(column) <==> {
            &&& w.layout matches Some(layout)
            &&& layout.pos_in_scrolling_layout matches Some(pos)
            &&& pos.0 == column
        },
        w.layout is None ==> w.column() is None,
        w.layout matches Some(layout) ==> (layout.pos_in_scrolling_layout is None
            ==> w.column() is None),
{
}

/// A window on a workspace is either tiled or floats there, and on no other
/// workspace it does either.
pub proof fn windows_are_tiled_or_float(w: Window, workspace: u64)
    ensures
        w.workspace_id == Some(workspace) ==> w.tiled_on(workspace) == !w.floating
            && w.floats_on(workspace) == w.floating,
        w.workspace_id != Some(workspace) ==> !w.tiled_on(workspace) && !w.floats_on(workspace),
{
}

/// The workspace found has the id, and none before it has; where none is found,
/// none has it.
pub proof fn workspace_is_found_by_id(workspaces: Seq<WorkspaceInfo>, id: u64)
    ensures
        match workspace_at(workspaces, id) {
            Some(i) => {
                &&& 0 <= i < workspaces.len()
                &&& workspaces[i].id == id
                &&& forall|j: int| 0 <= j < i ==> (#[trigger] workspaces[j]).id != id
            },
            None => forall|j: int|
                0 <= j < workspaces.len() ==> (#[trigger] workspaces[j]).id != id,
        },
        match focused_at(workspaces) {
            Some(i) => {
                &&& 0 <= i < workspaces.len()
                &&& workspaces[i].is_focused
                &&& forall|j: int| 0 <= j < i ==> !(#[trigger] workspaces[j]).is_focused
            },
            None => forall|j: int|
                0 <= j < workspaces.len() ==> !(#[trigger] workspaces[j]).is_focused,
        },
{
    first_where_is_first(workspaces, with_id(id));
    first_where_is_first(workspaces, in_focus());
}

/// A window is labelled with the index of the workspace that it is on, in
/// decimal, and with nothing where that workspace is not listed.
pub proof fn label_is_the_index(workspaces: Seq<WorkspaceInfo>, id: u64, i: int)
    ensures
        label_of(workspaces, None) is None,
        0 <= i < workspaces.len() && workspaces[i].id == id && (forall|j: int|
            0 <= j < i ==> (#[trigger] workspaces[j]).id != id) ==> label_of(workspaces, Some(id))
            == Some(decimal(workspaces[i].idx as nat)),
        (forall|j: int| 0 <= j < workspaces.len() ==> (#[trigger] workspaces[j]).id != id)
            ==> label_of(workspaces, Some(id)) is None,
{
    workspace_is_found_by_id(workspaces, id);
}

/// Reading a reported window keeps all that rules look at: its id, texts, layer,
/// workspace, column and, where it is not negative, process and size.
pub proof fn reading_keeps_the_window(w: IpcWindow, label: Option<Seq<char>>, r: Window)
    requires
        reads_as(w, label, r),
    ensures
        r.id == w.id,
        w.title matches Some(title) ==> r.title@ == title@,
        w.title is None ==> r.title@.len() == 0,
        w.app_id is None == r.app_id is None,
        w.app_id matches Some(a) ==> r.app_id matches Some(b) && b@ == a@,
        r.floating == w.is_floating,
        r.workspace_id == w.workspace_id,
        label is None == r.workspace is None,
        label matches Some(l) ==> r.workspace matches Some(name) && name@ == l,
        r.layout matches Some(l) && l.pos_in_scrolling_layout == w.layout.pos_in_scrolling_layout,
        w.pid is None == r.pid is None,
        w.pid matches Some(p) ==> p >= 0 ==> r.pid == Some(p as u32),
        w.layout.window_size.0 >= 0 ==> r.layout->0.window_size->0@[0]
            == w.layout.window_size.0 as u32,
        w.layout.window_size.1 >= 0 ==> r.layout->0.window_size->0@[1]
            == w.layout.window_size.1 as u32,
        w.layout.tile_pos_in_workspace_view is None == r.layout->0.tile_pos is None,
        w.layout.tile_pos_in_workspace_view matches Some(p) ==> r.layout->0.tile_pos->0@[0] == p.0
            && r.layout->0.tile_pos->0@[1] == p.1,
        r.layout->0.tile_size->0@[0] == w.layout.tile_size.0,
        r.layout->0.tile_size->0@[1] == w.layout.tile_size.1,
{
}

/// A workspace is called by its name, and by its index, in decimal, where it has
/// none.
pub proof fn workspaces_are_called_by_name(w: WorkspaceInfo)
    ensures
        w.name matches Some(name) ==> w.display_name() == name@,
        w.name is None ==> w.display_name() == decimal(w.idx as nat),
{
}

/// The workspace that stands in for the focused one is that of the first window
/// that says where it is, by its label or else its id; without such a window it
/// is the first workspace.
pub proof fn stand_in_is_where_a_window_is(windows: Seq<Window>, w: Workspace, i: int)
    requires
        stands_in(windows, w),
    ensures
        (forall|j: int|
            0 <= j < windows.len() ==> (#[trigger] windows[j]).workspace is None
                && windows[j].workspace_id is None) ==> w.id == 0 && w.idx == 1 && w.name@ == "1"@,
        0 <= i < windows.len() && (forall|j: int|
            0 <= j < i ==> (#[trigger] windows[j]).workspace is None
                && windows[j].workspace_id is None) ==> {
            &&& windows[i].workspace matches Some(label) ==> w.name@ == label@ && w.id == (
            match windows[i].workspace_id {
                Some(id) => id,
                None => 0,
            })
            &&& windows[i].workspace is None && windows[i].workspace_id is Some ==> Some(w.id)
                == windows[i].workspace_id && w.name@ == decimal(w.id as nat)
        },
        w.focused,
    decreases windows.len(),
{
    if windows.len() > 0 {
        let rest = windows.drop_first();
        if windows[0].workspace is None && windows[0].workspace_id is None {
            stand_in_is_where_a_window_is(rest, w, i - 1);
            assert forall|j: int| 0 <= j < rest.len() implies #[trigger] rest[j] == windows[j
                + 1] by {}
            if forall|j: int|
                0 <= j < windows.len() ==> (#[trigger] windows[j]).workspace is None
                    && windows[j].workspace_id is None {
                assert forall|j: int| 0 <= j < rest.len() implies (
                #[trigger] rest[j]).workspace is None && rest[j].workspace_id is None by {
                    assert(windows[j + 1].workspace is None);
                }
            }
            if 0 <= i < windows.len() && forall|j: int|
                0 <= j < i ==> (#[trigger] windows[j]).workspace is None
                    && windows[j].workspace_id is None {
                assert forall|j: int| 0 <= j < i - 1 implies (
                #[trigger] rest[j]).workspace is None && rest[j].workspace_id is None by {
                    assert(windows[j + 1].workspace is None);
                }
                if i > 0 {
                    assert(rest[i - 1] == windows[i]);
                }
            }
        } else {
            if 0 < i < windows.len() {
                assert(!(windows[0].workspace is None && windows[0].workspace_id is None));
            }
        }
    }
}

/// The sizes that are asked for are those that are requested, the width before
/// the height; the height is reset only where none is asked for.
pub proof fn sizes_are_requested_as_given(
    window_id: u64,
    width: Option<u32>,
    height: Option<u32>,
    reset_height: bool,
)
    requires
        width matches Some(w) ==> w <= i32::MAX,
        height matches Some(h) ==> h <= i32::MAX,
    ensures
        size_overflow(width, height) is None,
        ({
            let r = size_requests(window_id, width, height, reset_height);
            let last = r.len() - 1;
            &&& r.len() == (if width is Some {
                1int
            } else {
                0
            }) + (if height is Some || reset_height {
                1int
            } else {
                0
            })
            &&& width matches Some(w) ==> r[0] == (ActionView::SetWindowWidth {
                id: window_id,
                pixels: w as int,
            })
            &&& height matches Some(h) ==> r[last] == (ActionView::SetWindowHeight {
                id: window_id,
                pixels: h as int,
            })
            &&& height is None && reset_height ==> r[last] == (ActionView::ResetWindowHeight {
                id: window_id,
            })
        }),
{
}

/// A size that does not fit in a request is reported, the width first, and
/// nothing is requested from it on.
pub proof fn large_sizes_are_reported(
    window_id: u64,
    width: Option<u32>,
    height: Option<u32>,
    reset_height: bool,
)
    ensures
        width matches Some(w) ==> w > i32::MAX ==> size_overflow(width, height) == Some(
            SizeOverflow::Width,
        ) && size_requests(window_id, width, height, reset_height).len() == 0,
        (width matches Some(w) ==> w <= i32::MAX) && (height matches Some(h) && h > i32::MAX)
            ==> size_overflow(width, height) == Some(SizeOverflow::Height) && size_requests(
            window_id,
            width,
            height,
            reset_height,
        ) == size_requests(window_id, width, None, false),
{
    assert(width_requests(window_id, width) + height_requests(window_id, None, false)
        =~= width_requests(window_id, width));
}

/// Of the outputs with a name, the last one listed counts.
pub proof fn last_output_of_a_name_counts(outputs: Seq<IpcOutput>, name: Seq<char>, i: int)
    ensures
        (forall|j: int| 0 <= j < outputs.len() ==> (#[trigger] outputs[j]).name@ != name)
            ==> !outputs_by_name(outputs).contains_key(name),
        0 <= i < outputs.len() && outputs[i].name@ == name && (forall|j: int|
            i < j < outputs.len() ==> (#[trigger] outputs[j]).name@ != name) ==> outputs_by_name(
            outputs,
        ).contains_key(name) && outputs_by_name(outputs)[name] == outputs[i].logical,
    decreases outputs.len(),
{
    if outputs.len() > 0 {
        let rest = outputs.drop_last();
        let n = outputs.len() - 1;
        last_output_of_a_name_counts(rest, name, i);
        assert forall|j: int| 0 <= j < n implies #[trigger] rest[j] == outputs[j] by {}
        if forall|j: int| 0 <= j < outputs.len() ==> (#[trigger] outputs[j]).name@ != name {
            assert(outputs[n].name@ != name);
            assert forall|j: int| 0 <= j < rest.len() implies (#[trigger] rest[j]).name@
                != name by {
                assert(outputs[j].name@ != name);
            }
        }
        if 0 <= i < n && outputs[i].name@ == name && (forall|j: int|
            i < j < outputs.len() ==> (#[trigger] outputs[j]).name@ != name) {
            assert(outputs[n].name@ != name);
            assert(rest[i] == outputs[i]);
            assert forall|j: int| i < j < rest.len() implies (#[trigger] rest[j]).name@ != name by {
                assert(outputs[j].name@ != name);
            }
        }
    }
}

/// The position told is that of a floating window with the id that measures
/// something, and there is one wherever such a window is listed.
pub proof fn position_is_that_of_the_window(
    windows: Seq<(Window, Option<Placement>)>,
    window_id: u64,
    i: int,
)
    ensures
        first_where(windows, answers(window_id)) matches Some(k) ==> {
            &&& windows[k].0.id == window_id
            &&& windows[k].0.floating
            &&& windows[k].1 matches Some(p) && p.2 > 0 && p.3 > 0
        },
        0 <= i < windows.len() && windows[i].0.id == window_id && windows[i].0.floating && (
        windows[i].1 matches Some(p) && p.2 > 0 && p.3 > 0) ==> (first_where(
            windows,
            answers(window_id),
        ) matches Some(k) && k <= i),
{
    first_where_is_first(windows, answers(window_id));
}

/// The workspace that stands in for the focused one has no known index where it is
/// that of a window, and no known output.
pub proof fn stand_in_has_no_index(windows: Seq<Window>, w: Workspace, i: int)
    requires
        stands_in(windows, w),
    ensures
        w.output is None,
        0 <= i < windows.len() && (windows[i].workspace is Some || windows[i].workspace_id is Some)
            ==> w.idx == 0,
    decreases windows.len(),
{
    if windows.len() > 0 && windows[0].workspace is None && windows[0].workspace_id is None {
        stand_in_has_no_index(windows.drop_first(), w, i - 1);
        if 0 < i < windows.len() {
            assert(windows.drop_first()[i - 1] == windows[i]);
        }
    }
}

} // verus!
