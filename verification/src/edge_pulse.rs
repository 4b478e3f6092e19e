//! When the edge indicators are shown.

use vstd::prelude::*;

use crate::columns::{
    collect_workspace_columns_by_id, column_windows, column_windows_cover, has_column, tiled,
    tiled_are_on_workspace,
};
use crate::niri::{
    find_focused_workspace, find_workspace, focused_at, workspace_at, Output, Window, WorkspaceInfo,
};
use crate::numbers::{signed32, to_signed32};
use crate::search::{
    first_where, first_where_found, first_where_is_first, first_where_missing,
};

verus! {

/// Which indicators are shown.
#[derive(Debug, Clone, Copy, PartialEq, Eq, Structural)]
pub struct EdgePulseRenderState {
    pub show_left: bool,
    pub show_right: bool,
}

/// No indicator is shown.
pub open spec fn hidden() -> EdgePulseRenderState {
    EdgePulseRenderState { show_left: false, show_right: false }
}

/// The workspace that the indicators are about: the one with an id where one is
/// given, else the focused one.
pub fn indicated_workspace<'a>(
    workspaces: &'a Vec<WorkspaceInfo>,
    workspace_id: Option<u64>,
) -> (r: Option<&'a WorkspaceInfo>)
    ensures
        match (match workspace_id {
            Some(id) => workspace_at(workspaces@, id),
            None => focused_at(workspaces@),
        }) {
            Some(i) => 0 <= i < workspaces@.len() && r == Some(&workspaces@[i]),
            None => r is None,
        },
{
    match workspace_id {
        Some(id) => find_workspace(workspaces, id),
        None => find_focused_workspace(workspaces),
    }
}

/// What becomes of the indicators.
#[derive(Debug, Clone, Copy, PartialEq, Eq, Structural)]
pub enum PulseVerdict {
    /// They are hidden.
    Hide,
    /// They stay as they are.
    Keep,
    /// They are shown so.
    Show(EdgePulseRenderState),
}

/// Being a window with an id that is tiled on a workspace.
pub open spec fn focused_tile(id: u64, workspace_id: u64) -> spec_fn(Window) -> bool {
    |w: Window| w.id == id && w.tiled_on(workspace_id)
}

/// The column of the focused window, where it is tiled on a workspace and in a
/// column.
pub open spec fn focused_column(windows: Seq<Window>, focused: u64, workspace_id: u64) -> Option<
    usize,
> {
    match first_where(windows, focused_tile(focused, workspace_id)) {
        Some(i) => windows[i].column(),
        None => None,
    }
}

/// Whether some column is to the left of another.
pub open spec fn has_left(windows: Seq<Window>, column: usize) -> bool {
    exists|c: usize| c < column && #[trigger] has_column(windows, c)
}

/// Whether some column is to the right of another.
pub open spec fn has_right(windows: Seq<Window>, column: usize) -> bool {
    exists|c: usize| c > column && #[trigger] has_column(windows, c)
}

/// Whether a window with an id floats on a workspace.
pub open spec fn floats_there(windows: Seq<Window>, id: u64, workspace_id: u64) -> bool {
    exists|i: int|
        0 <= i < windows.len() && (#[trigger] windows[i]).id == id && windows[i].floats_on(
            workspace_id,
        )
}

/// What becomes of the indicators on a workspace, given which of them are
/// wanted: each is shown where the focused window has no neighbor on its side.
/// Nothing is shown where there is but one column; nothing changes while a
/// floating window of the workspace is focused.
pub open spec fn pulse_verdict(
    windows: Seq<Window>,
    workspace_id: u64,
    focused: Option<u64>,
    want_left: bool,
    want_right: bool,
) -> PulseVerdict {
    let tiles = tiled(windows, workspace_id);
    match focused {
        None => PulseVerdict::Hide,
        Some(focused) => if column_windows(tiles).len() <= 1 {
            PulseVerdict::Hide
        } else {
            match focused_column(windows, focused, workspace_id) {
                Some(column) => PulseVerdict::Show(
                    EdgePulseRenderState {
                        show_left: want_left && !has_left(tiles, column),
                        show_right: want_right && !has_right(tiles, column),
                    },
                ),
                None => if floats_there(windows, focused, workspace_id) {
                    PulseVerdict::Keep
                } else {
                    PulseVerdict::Hide
                },
            }
        },
    }
}

fn find_focused_column(windows: &Vec<Window>, focused: u64, workspace_id: u64) -> (r: Option<usize>)
    ensures
        r == focused_column(windows@, focused, workspace_id),
{
    let ghost wanted = focused_tile(focused, workspace_id);
    for i in 0..windows.len()
        invariant
            wanted == focused_tile(focused, workspace_id),
            forall|j: int| 0 <= j < i ==> !wanted(#[trigger] windows@[j]),
    {
        if windows[i].id == focused && windows[i].is_tiled_on(workspace_id) {
            proof {
                first_where_found(windows@, wanted, i as int);
            }
            return windows[i].get_column();
        }
    }
    proof {
        first_where_missing(windows@, wanted);
    }
    None
}

fn is_floating_there(windows: &Vec<Window>, id: u64, workspace_id: u64) -> (r: bool)
    ensures
        r == floats_there(windows@, id, workspace_id),
{
    for i in 0..windows.len()
        invariant
            forall|j: int|
                0 <= j < i ==> !((#[trigger] windows@[j]).id == id && windows@[j].floats_on(
                    workspace_id,
                )),
    {
        if windows[i].id == id && windows[i].is_floating_on(workspace_id) {
            return true;
        }
    }
    false
}

proof fn lemma_column_count(columns: Seq<usize>, windows: Seq<Window>)
    requires
        forall|i: int, j: int| 0 <= i < j < columns.len() ==> columns[i] < columns[j],
        forall|column: usize| columns.contains(column) == #[trigger] has_column(windows, column),
    ensures
        columns.len() == column_windows(windows).len(),
{
    assert forall|column: usize| #[trigger]
        column_windows(windows).dom().contains(column) == columns.to_set().contains(column) by {
        column_windows_cover(windows, column);
        assert(has_column(windows, column) == columns.contains(column));
    }
    assert(column_windows(windows).dom() =~= columns.to_set());
    assert(columns.no_duplicates()) by {
        assert forall|i: int, j: int|
            0 <= i < columns.len() && 0 <= j < columns.len() && i != j implies columns[i]
            != columns[j] by {
            if i < j {
                assert(columns[i] < columns[j]);
            } else {
                assert(columns[j] < columns[i]);
            }
        }
    }
    columns.unique_seq_to_set();
}

/// Says what becomes of the indicators on a workspace.
pub fn sync_edge_pulse_indicator(
    windows: &Vec<Window>,
    workspace_id: u64,
    focused_window_id: Option<u64>,
    want_left: bool,
    want_right: bool,
) -> (r: PulseVerdict)
    ensures
        r == pulse_verdict(windows@, workspace_id, focused_window_id, want_left, want_right),
{
    let focused: u64 = match focused_window_id {
        Some(id) => id,
        None => return PulseVerdict::Hide,
    };
    let columns = collect_workspace_columns_by_id(windows, workspace_id);
    let ghost tiles = tiled(windows@, workspace_id);
    proof {
        lemma_column_count(columns@, tiles);
    }
    // Single column - no edge indicators needed
    if columns.len() <= 1 {
        return PulseVerdict::Hide;
    }
    let column: usize = match find_focused_column(windows, focused, workspace_id) {
        Some(column) => column,
        None => {
            // Focused window is floating or not tiled - keep current indicator state
            return if is_floating_there(windows, focused, workspace_id) {
                PulseVerdict::Keep
            } else {
                PulseVerdict::Hide
            };
        },
    };
    // The columns are in order, so the outermost ones tell.
    let first: usize = columns[0];
    let last: usize = columns[columns.len() - 1];
    proof {
        assert(columns@.contains(first));
        assert(columns@.contains(last));
        if has_left(tiles, column) {
            let c = choose|c: usize| c < column && #[trigger] has_column(tiles, c);
            assert(columns@.contains(c));
            let i = choose|i: int| 0 <= i < columns@.len() && columns@[i] == c;
            assert(first <= c);
        }
        if has_right(tiles, column) {
            let c = choose|c: usize| c > column && #[trigger] has_column(tiles, c);
            assert(columns@.contains(c));
            let i = choose|i: int| 0 <= i < columns@.len() && columns@[i] == c;
            assert(c <= last);
        }
        assert(has_column(tiles, first));
        assert(has_column(tiles, last));
    }
    PulseVerdict::Show(
        EdgePulseRenderState {
            show_left: want_left && !(first < column),
            show_right: want_right && !(last > column),
        },
    )
}

/// The height that indicators are drawn for: that of the focused output, or
/// 1080 where it is not known.
pub fn indicator_height(focused_output: Option<&Output>) -> (r: i32)
    ensures
        match focused_output {
            Some(output) => match output.logical {
                Some(logical) => r as int == signed32(logical.height as int),
                None => r == 1080,
            },
            None => r == 1080,
        },
{
    match focused_output {
        Some(output) => match &output.logical {
            Some(logical) => to_signed32(logical.height),
            None => 1080,
        },
        None => 1080,
    }
}

/// Where indicators are shown there are two columns or more, so that one of the
/// sides has a neighbor: never are both shown at once.
pub proof fn never_both_sides(
    windows: Seq<Window>,
    workspace_id: u64,
    focused: Option<u64>,
    want_left: bool,
    want_right: bool,
)
    ensures
        pulse_verdict(
            windows,
            workspace_id,
            focused,
            want_left,
            want_right,
        ) matches PulseVerdict::Show(state) ==> !(state.show_left && state.show_right),
{
    let tiles = tiled(windows, workspace_id);
    let map = column_windows(tiles);
    if let Some(id) = focused {
        if map.len() > 1 {
            if let Some(column) = focused_column(windows, id, workspace_id) {
                let wanted = focused_tile(id, workspace_id);
                first_where_is_first(windows, wanted);
                let i = first_where(windows, wanted)->0;
                tiled_are_on_workspace(windows, workspace_id, windows[i]);
                assert(tiles.contains(windows[i]));
                lemma_columns_finite(tiles);
                if forall|c: usize| map.dom().contains(c) ==> c == column {
                    assert(map.dom().subset_of(set![column]));
                    vstd::set_lib::lemma_len_subset(map.dom(), set![column]);
                    assert(false);
                }
                let other = choose|c: usize| map.dom().contains(c) && c != column;
                column_windows_cover(tiles, other);
                assert(has_column(tiles, other));
                if other < column {
                    assert(has_left(tiles, column));
                } else {
                    assert(has_right(tiles, column));
                }
            }
        }
    }
}

proof fn lemma_columns_finite(windows: Seq<Window>)
    ensures
        column_windows(windows).dom().finite(),
    decreases windows.len(),
{
    if windows.len() > 0 {
        lemma_columns_finite(windows.drop_last());
    }
}

/// An indicator that is not wanted is not shown.
pub proof fn unwanted_indicator_is_not_shown(
    windows: Seq<Window>,
    workspace_id: u64,
    focused: Option<u64>,
    want_left: bool,
    want_right: bool,
)
    ensures
        pulse_verdict(
            windows,
            workspace_id,
            focused,
            want_left,
            want_right,
        ) matches PulseVerdict::Show(state) ==> (state.show_left ==> want_left) && (
        state.show_right ==> want_right),
{
}

proof fn lemma_two_columns(tiles: Seq<Window>, i: int, j: int)
    requires
        0 <= i < tiles.len(),
        0 <= j < tiles.len(),
        tiles[i].column() is Some,
        tiles[j].column() is Some,
        tiles[i].column() != tiles[j].column(),
    ensures
        column_windows(tiles).len() > 1,
{
    let map = column_windows(tiles);
    let a = tiles[i].column()->0;
    let b = tiles[j].column()->0;
    assert(has_column(tiles, a));
    assert(has_column(tiles, b));
    column_windows_cover(tiles, a);
    column_windows_cover(tiles, b);
    lemma_columns_finite(tiles);
    assert(set![a, b].subset_of(map.dom()));
    vstd::set_lib::lemma_len_subset(set![a, b], map.dom());
    assert(set![a, b].len() == 2);
}

proof fn lemma_one_column(tiles: Seq<Window>)
    requires
        forall|i: int, j: int|
            0 <= i < tiles.len() && 0 <= j < tiles.len() && (#[trigger] tiles[i]).column() is Some
                && (#[trigger] tiles[j]).column() is Some ==> tiles[i].column()
                == tiles[j].column(),
    ensures
        column_windows(tiles).len() <= 1,
{
    let map = column_windows(tiles);
    lemma_columns_finite(tiles);
    if map.dom().len() > 1 {
        let a = map.dom().choose();
        let b = map.dom().remove(a).choose();
        assert(map.dom().contains(a));
        assert(map.dom().remove(a).len() > 0);
        assert(map.dom().remove(a).contains(b));
        column_windows_cover(tiles, a);
        column_windows_cover(tiles, b);
        let i = choose|i: int| 0 <= i < tiles.len() && (#[trigger] tiles[i]).column() == Some(a);
        let j = choose|j: int| 0 <= j < tiles.len() && (#[trigger] tiles[j]).column() == Some(b);
        assert(tiles[i].column() == tiles[j].column());
    }
}

/// An indicator is shown on a side exactly where it is wanted and no window of
/// the workspace is tiled in a column further on that side than that of the
/// focused window.
pub proof fn indicator_shows_a_missing_neighbor(
    windows: Seq<Window>,
    workspace_id: u64,
    focused: int,
    want_left: bool,
    want_right: bool,
    other: int,
)
    requires
        0 <= focused < windows.len(),
        !windows[focused].floating,
        windows[focused].workspace_id == Some(workspace_id),
        windows[focused].column() is Some,
        forall|j: int|
            0 <= j < focused ==> (#[trigger] windows[j]).id != windows[focused].id,
        0 <= other < windows.len(),
        !windows[other].floating,
        windows[other].workspace_id == Some(workspace_id),
        windows[other].column() is Some,
        windows[other].column() != windows[focused].column(),
    ensures
        ({
            let column = windows[focused].column()->0;
            &&& pulse_verdict(
                windows,
                workspace_id,
                Some(windows[focused].id),
                want_left,
                want_right,
            ) matches PulseVerdict::Show(state)
            &&& state.show_left <==> want_left && forall|j: int|
                0 <= j < windows.len() && !(#[trigger] windows[j]).floating
                    && windows[j].workspace_id == Some(workspace_id)
                    && windows[j].column() is Some ==> windows[j].column()->0 >= column
            &&& state.show_right <==> want_right && forall|j: int|
                0 <= j < windows.len() && !(#[trigger] windows[j]).floating
                    && windows[j].workspace_id == Some(workspace_id)
                    && windows[j].column() is Some ==> windows[j].column()->0 <= column
        }),
{
    let tiles = tiled(windows, workspace_id);
    let id = windows[focused].id;
    let column = windows[focused].column()->0;
    tiled_are_on_workspace(windows, workspace_id, windows[focused]);
    tiled_are_on_workspace(windows, workspace_id, windows[other]);
    assert(windows.contains(windows[focused]));
    assert(windows.contains(windows[other]));
    let a = choose|a: int| 0 <= a < tiles.len() && tiles[a] == windows[focused];
    let b = choose|b: int| 0 <= b < tiles.len() && tiles[b] == windows[other];
    lemma_two_columns(tiles, a, b);
    first_where_found(windows, focused_tile(id, workspace_id), focused);
    assert forall|c: usize| has_column(tiles, c) == exists|j: int|
        0 <= j < windows.len() && !(#[trigger] windows[j]).floating && windows[j].workspace_id
            == Some(workspace_id) && windows[j].column() == Some(c) by {
        if has_column(tiles, c) {
            let k = choose|k: int| 0 <= k < tiles.len() && (#[trigger] tiles[k]).column() == Some(
                c,
            );
            tiled_are_on_workspace(windows, workspace_id, tiles[k]);
            assert(tiles.contains(tiles[k]));
            let j = choose|j: int| 0 <= j < windows.len() && windows[j] == tiles[k];
            assert(!windows[j].floating);
        }
        if exists|j: int|
            0 <= j < windows.len() && !(#[trigger] windows[j]).floating && windows[j].workspace_id
                == Some(workspace_id) && windows[j].column() == Some(c) {
            let j = choose|j: int|
                0 <= j < windows.len() && !(#[trigger] windows[j]).floating
                    && windows[j].workspace_id == Some(workspace_id) && windows[j].column()
                    == Some(c);
            tiled_are_on_workspace(windows, workspace_id, windows[j]);
            assert(windows.contains(windows[j]));
            let k = choose|k: int| 0 <= k < tiles.len() && tiles[k] == windows[j];
            assert(tiles[k].column() == Some(c));
        }
    }
    if has_left(tiles, column) {
        let c = choose|c: usize| c < column && #[trigger] has_column(tiles, c);
        let j = choose|j: int|
            0 <= j < windows.len() && !(#[trigger] windows[j]).floating && windows[j].workspace_id
                == Some(workspace_id) && windows[j].column() == Some(c);
        assert(windows[j].column()->0 < column);
    } else {
        assert forall|j: int|
            0 <= j < windows.len() && !(#[trigger] windows[j]).floating && windows[j].workspace_id
                == Some(workspace_id) && windows[j].column() is Some implies windows[j].column()->0
            >= column by {
            assert(has_column(tiles, windows[j].column()->0));
        }
    }
    if has_right(tiles, column) {
        let c = choose|c: usize| c > column && #[trigger] has_column(tiles, c);
        let j = choose|j: int|
            0 <= j < windows.len() && !(#[trigger] windows[j]).floating && windows[j].workspace_id
                == Some(workspace_id) && windows[j].column() == Some(c);
        assert(windows[j].column()->0 > column);
    } else {
        assert forall|j: int|
            0 <= j < windows.len() && !(#[trigger] windows[j]).floating && windows[j].workspace_id
                == Some(workspace_id) && windows[j].column() is Some implies windows[j].column()->0
            <= column by {
            assert(has_column(tiles, windows[j].column()->0));
        }
    }
}

/// Indicators are hidden where no window is focused, and where the windows that
/// are tiled on the workspace share one column.
pub proof fn single_column_hides_the_indicators(
    windows: Seq<Window>,
    workspace_id: u64,
    focused: Option<u64>,
    want_left: bool,
    want_right: bool,
)
    requires
        focused is None || forall|i: int, j: int|
            0 <= i < windows.len() && 0 <= j < windows.len() && !(#[trigger] windows[i]).floating
                && !(#[trigger] windows[j]).floating && windows[i].workspace_id == Some(
                workspace_id,
            ) && windows[j].workspace_id == Some(workspace_id) && windows[i].column() is Some
                && windows[j].column() is Some ==> windows[i].column() == windows[j].column(),
    ensures
        pulse_verdict(windows, workspace_id, focused, want_left, want_right)
            == PulseVerdict::Hide,
{
    if focused is Some {
        let tiles = tiled(windows, workspace_id);
        assert forall|i: int, j: int|
            0 <= i < tiles.len() && 0 <= j < tiles.len() && (#[trigger] tiles[i]).column() is Some
                && (#[trigger] tiles[j]).column() is Some implies tiles[i].column()
            == tiles[j].column() by {
            tiled_are_on_workspace(windows, workspace_id, tiles[i]);
            tiled_are_on_workspace(windows, workspace_id, tiles[j]);
            assert(tiles.contains(tiles[i]));
            assert(tiles.contains(tiles[j]));
            let a = choose|a: int| 0 <= a < windows.len() && windows[a] == tiles[i];
            let b = choose|b: int| 0 <= b < windows.len() && windows[b] == tiles[j];
            assert(windows[a].column() == windows[b].column());
        }
        lemma_one_column(tiles);
    }
}

/// While a floating window is focused, the indicators stay as they are where it
/// is on the workspace, and are hidden where it is not.
pub proof fn floating_focus_keeps_the_indicators(
    windows: Seq<Window>,
    workspace_id: u64,
    focused: u64,
    want_left: bool,
    want_right: bool,
    a: int,
    b: int,
)
    requires
        0 <= a < windows.len(),
        0 <= b < windows.len(),
        !windows[a].floating && windows[a].workspace_id == Some(workspace_id),
        !windows[b].floating && windows[b].workspace_id == Some(workspace_id),
        windows[a].column() is Some && windows[b].column() is Some,
        windows[a].column() != windows[b].column(),
        forall|i: int|
            0 <= i < windows.len() && (#[trigger] windows[i]).id == focused ==> windows[i].floating,
    ensures
        pulse_verdict(windows, workspace_id, Some(focused), want_left, want_right) == (if exists|
            i: int,
        |
            0 <= i < windows.len() && (#[trigger] windows[i]).id == focused
                && windows[i].workspace_id == Some(workspace_id) {
            PulseVerdict::Keep
        } else {
            PulseVerdict::Hide
        }),
{
    let tiles = tiled(windows, workspace_id);
    tiled_are_on_workspace(windows, workspace_id, windows[a]);
    tiled_are_on_workspace(windows, workspace_id, windows[b]);
    assert(windows.contains(windows[a]));
    assert(windows.contains(windows[b]));
    let i = choose|i: int| 0 <= i < tiles.len() && tiles[i] == windows[a];
    let j = choose|j: int| 0 <= j < tiles.len() && tiles[j] == windows[b];
    lemma_two_columns(tiles, i, j);
    first_where_missing(windows, focused_tile(focused, workspace_id));
    if floats_there(windows, focused, workspace_id) {
        let k = choose|k: int|
            0 <= k < windows.len() && (#[trigger] windows[k]).id == focused
                && windows[k].floats_on(workspace_id);
        assert(windows[k].workspace_id == Some(workspace_id));
    }
    if exists|k: int|
        0 <= k < windows.len() && (#[trigger] windows[k]).id == focused && windows[k].workspace_id
            == Some(workspace_id) {
        let k = choose|k: int|
            0 <= k < windows.len() && (#[trigger] windows[k]).id == focused
                && windows[k].workspace_id == Some(workspace_id);
        assert(windows[k].floats_on(workspace_id));
    }
}

/// Hidden indicators show nothing on either side.
pub proof fn hidden_shows_nothing()
    ensures
        !hidden().show_left,
        !hidden().show_right,
{
}

} // verus!
