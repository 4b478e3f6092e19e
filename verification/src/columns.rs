//! The columns of the scrolling layout.

use vstd::prelude::*;

use crate::niri::Window;
use crate::search::{first_where, first_where_found, first_where_missing};

verus! {

// ------------------------------------------------------------- Tiled windows

/// The windows that are tiled on a workspace, in the order of the list.
pub open spec fn tiled(windows: Seq<Window>, workspace_id: u64) -> Seq<Window>
    decreases windows.len(),
{
    if windows.len() == 0 {
        seq![]
    } else {
        let before = tiled(windows.drop_last(), workspace_id);
        if windows.last().tiled_on(workspace_id) {
            before.push(windows.last())
        } else {
            before
        }
    }
}

/// What is behind a row of references.
pub open spec fn behind(windows: Seq<&Window>) -> Seq<Window> {
    windows.map_values(|w: &Window| *w)
}

/// Collects the windows that are tiled on a workspace.
pub fn filter_tiled_windows_in_workspace<'a>(windows: &'a Vec<Window>, workspace_id: u64) -> (r:
    Vec<&'a Window>)
    ensures
        behind(r@) == tiled(windows@, workspace_id),
{
    let mut r: Vec<&'a Window> = Vec::new();
    assert(behind(r@) =~= tiled(windows@.take(0), workspace_id));
    for i in 0..windows.len()
        invariant
            behind(r@) == tiled(windows@.take(i as int), workspace_id),
    {
        let window = &windows[i];
        assert(windows@.take(i + 1).drop_last() =~= windows@.take(i as int));
        assert(windows@.take(i + 1).last() == *window);
        if window.is_tiled_on(workspace_id) {
            let ghost before = r@;
            r.push(window);
            assert(behind(r@) =~= behind(before).push(*window));
        }
    }
    assert(windows@.take(windows@.len() as int) =~= windows@);
    r
}

/// The windows found are exactly those of the list that are tiled on the
/// workspace.
pub proof fn tiled_are_on_workspace(windows: Seq<Window>, workspace_id: u64, w: Window)
    ensures
        tiled(windows, workspace_id).contains(w) == (windows.contains(w) && w.tiled_on(
            workspace_id,
        )),
    decreases windows.len(),
{
    if windows.len() > 0 {
        let rest = windows.drop_last();
        let before = tiled(rest, workspace_id);
        tiled_are_on_workspace(rest, workspace_id, w);
        assert(windows =~= rest.push(windows.last()));
        if windows.last().tiled_on(workspace_id) {
            lemma_contains_push(before, windows.last(), w);
        }
        lemma_contains_push(rest, windows.last(), w);
    }
}

proof fn lemma_contains_push<T>(s: Seq<T>, last: T, x: T)
    ensures
        s.push(last).contains(x) == (s.contains(x) || last == x),
{
    if s.contains(x) {
        let i = choose|i: int| 0 <= i < s.len() && s[i] == x;
        assert(s.push(last)[i] == x);
    }
    if last == x {
        assert(s.push(last)[s.len() as int] == x);
    }
}

// ------------------------------------------------------------------- Columns

/// The window that stands for each column: the last one of the list that is in
/// it.
pub open spec fn column_windows(windows: Seq<Window>) -> Map<usize, u64>
    decreases windows.len(),
{
    if windows.len() == 0 {
        Map::empty()
    } else {
        let before = column_windows(windows.drop_last());
        match windows.last().column() {
            Some(column) => before.insert(column, windows.last().id),
            None => before,
        }
    }
}

/// Whether some window of a list is in a column.
pub open spec fn has_column(windows: Seq<Window>, column: usize) -> bool {
    exists|i: int| 0 <= i < windows.len() && (#[trigger] windows[i]).column() == Some(column)
}

/// A column has a window that stands for it exactly where some window is in it.
pub proof fn column_windows_cover(windows: Seq<Window>, column: usize)
    ensures
        column_windows(windows).contains_key(column) == has_column(windows, column),
    decreases windows.len(),
{
    if windows.len() > 0 {
        let rest = windows.drop_last();
        column_windows_cover(rest, column);
        if has_column(rest, column) {
            let i = choose|i: int|
                0 <= i < rest.len() && (#[trigger] rest[i]).column() == Some(column);
            assert(windows[i].column() == Some(column));
        }
        if windows.last().column() == Some(column) {
            assert(windows[windows.len() - 1].column() == Some(column));
        }
        if has_column(windows, column) {
            let i = choose|i: int|
                0 <= i < windows.len() && (#[trigger] windows[i]).column() == Some(column);
            if i < rest.len() {
                assert(rest[i].column() == Some(column));
            }
        }
    }
}

/// Whether a list holds the entries of a map, in the order of their keys, each
/// once.
pub open spec fn lists(entries: Seq<(usize, u64)>, map: Map<usize, u64>) -> bool {
    &&& forall|i: int, j: int|
        0 <= i < j < entries.len() ==> (#[trigger] entries[i]).0 < (#[trigger] entries[j]).0
    &&& forall|i: int|
        0 <= i < entries.len() ==> map.contains_key((#[trigger] entries[i]).0)
            && map[entries[i].0] == entries[i].1
    &&& forall|k: usize| #[trigger]
        map.contains_key(k) ==> exists|i: int|
            0 <= i < entries.len() && (#[trigger] entries[i]).0 == k
}

/// A list of a map's entries is as long as the map.
pub proof fn listing_is_complete(entries: Seq<(usize, u64)>, map: Map<usize, u64>)
    requires
        lists(entries, map),
    ensures
        map.dom().finite(),
        map.len() == entries.len(),
    decreases entries.len(),
{
    if entries.len() == 0 {
        assert(map.dom() =~= Set::empty());
    } else {
        let rest = entries.drop_last();
        let key = entries.last().0;
        let less = map.remove(key);
        assert forall|k: usize| #[trigger] less.contains_key(k) implies exists|i: int|
            0 <= i < rest.len() && (#[trigger] rest[i]).0 == k by {
            assert(map.contains_key(k));
            let i = choose|i: int| 0 <= i < entries.len() && (#[trigger] entries[i]).0 == k;
            assert(rest[i].0 == k);
        }
        assert forall|i: int| 0 <= i < rest.len() implies less.contains_key((#[trigger] rest[i]).0)
            && less[rest[i].0] == rest[i].1 by {
            assert(rest[i] == entries[i]);
            assert(entries[i].0 < entries[entries.len() - 1].0);
        }
        assert forall|i: int, j: int| 0 <= i < j < rest.len() implies (#[trigger] rest[i]).0
            < (#[trigger] rest[j]).0 by {
            assert(rest[i] == entries[i] && rest[j] == entries[j]);
        }
        listing_is_complete(rest, less);
        assert(map.dom() =~= less.dom().insert(key));
        assert(map.contains_key(entries[entries.len() - 1].0));
    }
}

fn enter(entries: &mut Vec<(usize, u64)>, key: usize, value: u64, Ghost(map): Ghost<
    Map<usize, u64>,
>)
    requires
        lists(old(entries)@, map),
    ensures
        lists(final(entries)@, map.insert(key, value)),
{
    let ghost before = entries@;
    let mut at: usize = 0;
    while at < entries.len() && entries[at].0 < key
        invariant
            entries@ == before,
            at <= entries@.len(),
            forall|i: int| 0 <= i < at ==> (#[trigger] entries@[i]).0 < key,
        decreases entries@.len() - at,
    {
        at = at + 1;
    }
    let ghost after = map.insert(key, value);
    if at < entries.len() && entries[at].0 == key {
        entries.set(at, (key, value));
        proof {
            assert(entries@ == before.update(at as int, (key, value)));
            assert forall|i: int| 0 <= i < entries@.len() implies after.contains_key(
                (#[trigger] entries@[i]).0,
            ) && after[entries@[i].0] == entries@[i].1 by {
                if i != at {
                    assert(entries@[i] == before[i]);
                    assert(before[i].0 != before[at as int].0);
                }
            }
            assert forall|k: usize| #[trigger] after.contains_key(k) implies exists|i: int|
                0 <= i < entries@.len() && (#[trigger] entries@[i]).0 == k by {
                if k == key {
                    assert(entries@[at as int].0 == k);
                } else {
                    assert(map.contains_key(k));
                    let i = choose|i: int| 0 <= i < before.len() && (#[trigger] before[i]).0 == k;
                    assert(entries@[i].0 == k);
                }
            }
        }
    } else {
        entries.insert(at, (key, value));
        proof {
            assert(entries@ == before.insert(at as int, (key, value)));
            assert forall|i: int| 0 <= i < entries@.len() implies #[trigger] entries@[i]
                == if i < at {
                before[i]
            } else if i == at {
                (key, value)
            } else {
                before[i - 1]
            } by {}
            assert forall|i: int| at <= i < before.len() implies key < (#[trigger] before[i]).0 by {
                if i > at {
                    assert(before[at as int].0 < before[i].0);
                }
            }
            assert forall|i: int, j: int| 0 <= i < j < entries@.len() implies (
            #[trigger] entries@[i]).0 < (#[trigger] entries@[j]).0 by {
                if i < at && j > at {
                    assert(before[i].0 < before[j - 1].0);
                }
            }
            assert forall|i: int| 0 <= i < entries@.len() implies after.contains_key(
                (#[trigger] entries@[i]).0,
            ) && after[entries@[i].0] == entries@[i].1 by {
                if i < at {
                    assert(map.contains_key(before[i].0));
                } else if i > at {
                    assert(map.contains_key(before[i - 1].0));
                }
            }
            assert forall|k: usize| #[trigger] after.contains_key(k) implies exists|i: int|
                0 <= i < entries@.len() && (#[trigger] entries@[i]).0 == k by {
                if k == key {
                    assert(entries@[at as int].0 == k);
                } else {
                    assert(map.contains_key(k));
                    let i = choose|i: int| 0 <= i < before.len() && (#[trigger] before[i]).0 == k;
                    if i < at {
                        assert(entries@[i].0 == k);
                    } else {
                        assert(entries@[i + 1].0 == k);
                    }
                }
            }
        }
    }
}

/// The columns of windows, from left to right, each with the window that stands
/// for it.
pub fn sorted_columns(windows: &Vec<&Window>) -> (r: Vec<(usize, u64)>)
    ensures
        lists(r@, column_windows(behind(windows@))),
        r@.len() == column_windows(behind(windows@)).len(),
{
    let mut entries: Vec<(usize, u64)> = Vec::new();
    let ghost all = behind(windows@);
    for i in 0..windows.len()
        invariant
            all == behind(windows@),
            all.len() == windows@.len(),
            lists(entries@, column_windows(all.take(i as int))),
    {
        let window = windows[i];
        assert(all.take(i + 1).drop_last() =~= all.take(i as int));
        assert(all.take(i + 1).last() == *window);
        if let Some(column) = window.get_column() {
            enter(
                &mut entries,
                column,
                window.id,
                Ghost(column_windows(all.take(i as int))),
            );
        }
    }
    proof {
        assert(all.take(all.len() as int) =~= all);
        listing_is_complete(entries@, column_windows(all));
    }
    entries
}

/// Collects the columns of a workspace, from left to right, each once.
pub fn collect_workspace_columns_by_id(windows: &Vec<Window>, ws_id: u64) -> (r: Vec<usize>)
    ensures
        forall|i: int, j: int| 0 <= i < j < r@.len() ==> r@[i] < r@[j],
        forall|column: usize|
            r@.contains(column) == #[trigger] has_column(tiled(windows@, ws_id), column),
{
    let entries = sorted_columns(&filter_tiled_windows_in_workspace(windows, ws_id));
    let ghost map = column_windows(tiled(windows@, ws_id));
    let mut r: Vec<usize> = Vec::new();
    for i in 0..entries.len()
        invariant
            r@.len() == i,
            forall|j: int| 0 <= j < i ==> #[trigger] r@[j] == entries@[j].0,
    {
        r.push(entries[i].0);
    }
    proof {
        assert forall|column: usize|
            r@.contains(column) == #[trigger] has_column(tiled(windows@, ws_id), column) by {
            column_windows_cover(tiled(windows@, ws_id), column);
            if r@.contains(column) {
                let i = choose|i: int| 0 <= i < r@.len() && r@[i] == column;
                assert(map.contains_key(entries@[i].0));
            }
            if map.contains_key(column) {
                let i = choose|i: int|
                    0 <= i < entries@.len() && (#[trigger] entries@[i]).0 == column;
                assert(r@[i] == column);
            }
        }
        assert forall|i: int, j: int| 0 <= i < j < r@.len() implies r@[i] < r@[j] by {
            assert(entries@[i].0 < entries@[j].0);
        }
    }
    r
}

/// The greatest column of windows; zero where none is in a column.
pub open spec fn max_column(windows: Seq<Window>) -> usize
    decreases windows.len(),
{
    if windows.len() == 0 {
        0
    } else {
        let before = max_column(windows.drop_last());
        match windows.last().column() {
            Some(column) => if column > before {
                column
            } else {
                before
            },
            None => before,
        }
    }
}

/// The greatest column of windows.
pub fn last_column(windows: &Vec<&Window>) -> (r: usize)
    ensures
        r == max_column(behind(windows@)),
{
    let mut r: usize = 0;
    let ghost all = behind(windows@);
    for i in 0..windows.len()
        invariant
            all == behind(windows@),
            all.len() == windows@.len(),
            r == max_column(all.take(i as int)),
    {
        let window = windows[i];
        assert(all.take(i + 1).drop_last() =~= all.take(i as int));
        assert(all.take(i + 1).last() == *window);
        if let Some(column) = window.get_column() {
            if column > r {
                r = column;
            }
        }
    }
    assert(all.take(all.len() as int) =~= all);
    r
}

/// No window is beyond the greatest column.
pub proof fn max_column_bounds(windows: Seq<Window>, i: int)
    requires
        0 <= i < windows.len(),
    ensures
        windows[i].column() matches Some(column) ==> column <= max_column(windows),
    decreases windows.len(),
{
    if i < windows.len() - 1 {
        max_column_bounds(windows.drop_last(), i);
        assert(windows.drop_last()[i] == windows[i]);
    }
}

// -------------------------------------------------------------------- Tiling

/// How many windows are in a column, one of them left out.
pub open spec fn column_size(windows: Seq<Window>, without: u64, column: usize) -> nat
    decreases windows.len(),
{
    if windows.len() == 0 {
        0
    } else {
        column_size(windows.drop_last(), without, column) + if windows.last().id != without
            && windows.last().column() == Some(column) {
            1nat
        } else {
            0nat
        }
    }
}

fn count_in_column(windows: &Vec<&Window>, without: u64, column: usize) -> (r: usize)
    ensures
        r == column_size(behind(windows@), without, column),
{
    let mut r: usize = 0;
    let ghost all = behind(windows@);
    for i in 0..windows.len()
        invariant
            all == behind(windows@),
            all.len() == windows@.len(),
            r <= i,
            r == column_size(all.take(i as int), without, column),
    {
        let window = windows[i];
        assert(all.take(i + 1).drop_last() =~= all.take(i as int));
        assert(all.take(i + 1).last() == *window);
        if window.id != without {
            if let Some(c) = window.get_column() {
                if c == column {
                    r = r + 1;
                }
            }
        }
    }
    assert(all.take(all.len() as int) =~= all);
    r
}

/// Whether a new window can join a window in its column: the column is not the
/// first one, and the window is alone in it but for the new one.
pub open spec fn joinable(windows: Seq<Window>, new_id: u64, i: int) -> bool {
    &&& 0 <= i < windows.len()
    &&& windows[i].id != new_id
    &&& windows[i].column() matches Some(column) && column != 1 && column_size(
        windows,
        new_id,
        column,
    ) == 1
}

/// Finds the window whose column a new window joins: the first column that is
/// not the first one and has exactly one window.
pub fn auto_tile_target<'a>(windows: &Vec<&'a Window>, new_id: u64) -> (r: Option<&'a Window>)
    ensures
        match r {
            Some(w) => exists|i: int|
                {
                    &&& #[trigger] joinable(behind(windows@), new_id, i)
                    &&& *w == behind(windows@)[i]
                    &&& forall|j: int| #[trigger]
                        joinable(behind(windows@), new_id, j) ==> behind(windows@)[i].column()->0
                            <= behind(windows@)[j].column()->0
                },
            None => forall|i: int| !#[trigger] joinable(behind(windows@), new_id, i),
        },
{
    let ghost all = behind(windows@);
    let mut best: Option<usize> = None;
    for i in 0..windows.len()
        invariant
            all == behind(windows@),
            all.len() == windows@.len(),
            match best {
                Some(b) => {
                    &&& b < i
                    &&& joinable(all, new_id, b as int)
                    &&& forall|j: int|
                        j < i && #[trigger] joinable(all, new_id, j) ==> all[b as int].column()->0
                            <= all[j].column()->0
                },
                None => forall|j: int| j < i ==> !#[trigger] joinable(all, new_id, j),
            },
    {
        let window = windows[i];
        assert(all[i as int] == *window);
        if window.id != new_id {
            if let Some(column) = window.get_column() {
                if column != 1 && count_in_column(windows, new_id, column) == 1 {
                    assert(joinable(all, new_id, i as int));
                    match best {
                        None => {
                            best = Some(i);
                        },
                        Some(b) => {
                            assert(all[b as int] == *windows@[b as int]);
                            if let Some(best_column) = windows[b].get_column() {
                                if column < best_column {
                                    best = Some(i);
                                }
                            }
                        },
                    }
                }
            }
        }
    }
    match best {
        Some(b) => {
            assert(all[b as int] == *windows@[b as int]);
            Some(windows[b])
        },
        None => None,
    }
}

/// A new window never joins the first column, nor a column that holds two
/// windows.
pub proof fn first_column_is_left_alone(windows: Seq<Window>, new_id: u64, i: int)
    requires
        joinable(windows, new_id, i),
    ensures
        windows[i].column() != Some(1usize),
        column_size(windows, new_id, windows[i].column()->0) < 2,
        windows[i].id != new_id,
{
}

// --------------------------------------------------------------------- Focus

/// Standing in a column.
pub open spec fn in_column(column: usize) -> spec_fn(Window) -> bool {
    |w: Window| w.column() == Some(column)
}

/// Where a window stands among the columns: behind all of them where it is in
/// none.
pub open spec fn place(w: Window) -> usize {
    match w.column() {
        Some(column) => column,
        None => usize::MAX,
    }
}

/// Whether a window is the first of those that are furthest to the left.
pub open spec fn foremost(windows: Seq<Window>, i: int) -> bool {
    &&& 0 <= i < windows.len()
    &&& forall|j: int| 0 <= j < i ==> place(windows[i]) < place(#[trigger] windows[j])
    &&& forall|j: int|
        i <= j < windows.len() ==> place(windows[i]) <= place(#[trigger] windows[j])
}

/// There is only one first window of those that are furthest to the left.
pub proof fn foremost_is_unique(windows: Seq<Window>, i: int, j: int)
    requires
        foremost(windows, i),
        foremost(windows, j),
    ensures
        i == j,
{
    if i < j {
        assert(place(windows[j]) < place(windows[i]));
    } else if j < i {
        assert(place(windows[i]) < place(windows[j]));
    }
}

fn place_of(w: &Window) -> (r: usize)
    ensures
        r == place(*w),
{
    match w.get_column() {
        Some(column) => column,
        None => usize::MAX,
    }
}

/// Finds the first window of those that are furthest to the left.
pub fn find_foremost<'a>(windows: &Vec<&'a Window>) -> (r: Option<&'a Window>)
    ensures
        match r {
            Some(w) => exists|i: int| #[trigger]
                foremost(behind(windows@), i) && *w == behind(windows@)[i],
            None => windows@.len() == 0,
        },
{
    if windows.len() == 0 {
        return None;
    }
    let ghost all = behind(windows@);
    let mut best: usize = 0;
    for i in 1..windows.len()
        invariant
            all == behind(windows@),
            all.len() == windows@.len(),
            best < i,
            1 <= windows@.len(),
            forall|j: int| 0 <= j < best ==> place(all[best as int]) < place(#[trigger] all[j]),
            forall|j: int|
                best <= j < i ==> place(all[best as int]) <= place(#[trigger] all[j]),
    {
        assert(all[i as int] == *windows@[i as int]);
        assert(all[best as int] == *windows@[best as int]);
        if place_of(windows[i]) < place_of(windows[best]) {
            best = i;
        }
    }
    assert(foremost(all, best as int));
    assert(all[best as int] == *windows@[best as int]);
    Some(windows[best])
}

/// Finds the first window of a list that stands in a column.
pub fn find_in_column<'a>(windows: &Vec<&'a Window>, column: usize) -> (r: Option<&'a Window>)
    ensures
        match first_where(behind(windows@), in_column(column)) {
            Some(i) => 0 <= i < windows@.len() && r == Some(&behind(windows@)[i]),
            None => r is None,
        },
{
    let ghost all = behind(windows@);
    for i in 0..windows.len()
        invariant
            all == behind(windows@),
            all.len() == windows@.len(),
            forall|j: int| 0 <= j < i ==> !in_column(column)(#[trigger] all[j]),
    {
        assert(all[i as int] == *windows@[i as int]);
        if let Some(c) = windows[i].get_column() {
            if c == column {
                proof {
                    first_where_found(all, in_column(column), i as int);
                }
                return Some(windows[i]);
            }
        }
    }
    proof {
        first_where_missing(all, in_column(column));
    }
    None
}

// ---------------------------------------------------------------------- Laws

proof fn lemma_column_size_bound(windows: Seq<Window>, without: u64, column: usize, i: int)
    requires
        0 <= i < windows.len(),
        windows[i].id != without,
        windows[i].column() == Some(column),
    ensures
        column_size(windows, without, column) >= 1,
        column_size(windows, without, column) == 1 <==> forall|j: int|
            0 <= j < windows.len() && j != i && (#[trigger] windows[j]).id != without
                ==> windows[j].column() != Some(column),
    decreases windows.len(),
{
    let rest = windows.drop_last();
    let n = windows.len() - 1;
    assert forall|j: int| 0 <= j < n implies #[trigger] rest[j] == windows[j] by {}
    if i < n {
        lemma_column_size_bound(rest, without, column, i);
        assert(rest[i] == windows[i]);
        if column_size(windows, without, column) == 1 {
            assert forall|j: int|
                0 <= j < windows.len() && j != i && (#[trigger] windows[j]).id
                    != without implies windows[j].column() != Some(column) by {
                if j < n {
                    assert(rest[j].column() != Some(column));
                }
            }
        }
        if forall|j: int|
            0 <= j < windows.len() && j != i && (#[trigger] windows[j]).id != without
                ==> windows[j].column() != Some(column) {
            assert forall|j: int|
                0 <= j < rest.len() && j != i && (#[trigger] rest[j]).id
                    != without implies rest[j].column() != Some(column) by {
                assert(rest[j] == windows[j]);
            }
            assert(windows[n].id != without ==> windows[n].column() != Some(column));
            assert(column_size(rest, without, column) == 1);
        }
    } else {
        if column_size(rest, without, column) == 0 {
            lemma_column_size_zero(rest, without, column);
            assert forall|j: int|
                0 <= j < windows.len() && j != i && (#[trigger] windows[j]).id
                    != without implies windows[j].column() != Some(column) by {
                assert(rest[j] == windows[j]);
            }
        } else {
            lemma_column_size_some(rest, without, column);
            let j = choose|j: int|
                0 <= j < rest.len() && (#[trigger] rest[j]).id != without && rest[j].column()
                    == Some(column);
            assert(windows[j].id != without);
        }
    }
}

proof fn lemma_column_size_zero(windows: Seq<Window>, without: u64, column: usize)
    requires
        column_size(windows, without, column) == 0,
    ensures
        forall|j: int|
            0 <= j < windows.len() && (#[trigger] windows[j]).id != without
                ==> windows[j].column() != Some(column),
    decreases windows.len(),
{
    if windows.len() > 0 {
        let rest = windows.drop_last();
        lemma_column_size_zero(rest, without, column);
        assert forall|j: int|
            0 <= j < windows.len() && (#[trigger] windows[j]).id
                != without implies windows[j].column() != Some(column) by {
            if j < rest.len() {
                assert(rest[j] == windows[j]);
            }
        }
    }
}

proof fn lemma_column_size_some(windows: Seq<Window>, without: u64, column: usize)
    requires
        column_size(windows, without, column) > 0,
    ensures
        exists|j: int|
            0 <= j < windows.len() && (#[trigger] windows[j]).id != without && windows[j].column()
                == Some(column),
    decreases windows.len(),
{
    let rest = windows.drop_last();
    let n = windows.len() - 1;
    if windows[n].id != without && windows[n].column() == Some(column) {
    } else {
        lemma_column_size_some(rest, without, column);
        let j = choose|j: int|
            0 <= j < rest.len() && (#[trigger] rest[j]).id != without && rest[j].column() == Some(
                column,
            );
        assert(windows[j] == rest[j]);
    }
}

/// A new window can join exactly those windows that stand in a column other than
/// the first one and share it with no window but, at most, the new one.
pub proof fn lone_windows_are_joined(windows: Seq<Window>, new_id: u64, i: int)
    requires
        0 <= i < windows.len(),
    ensures
        joinable(windows, new_id, i) <==> {
            &&& windows[i].id != new_id
            &&& windows[i].column() is Some
            &&& windows[i].column() != Some(1usize)
            &&& forall|j: int|
                0 <= j < windows.len() && j != i && (#[trigger] windows[j]).id != new_id
                    ==> windows[j].column() != windows[i].column()
        },
{
    if windows[i].id != new_id {
        if let Some(column) = windows[i].column() {
            lemma_column_size_bound(windows, new_id, column, i);
        }
    }
}

/// Where a new window can join none, every column but the first one holds no
/// other window or two of them or more.
pub proof fn new_window_joins_where_it_can(windows: Seq<Window>, new_id: u64, i: int)
    requires
        forall|j: int| !#[trigger] joinable(windows, new_id, j),
        0 <= i < windows.len(),
        windows[i].id != new_id,
        windows[i].column() is Some,
    ensures
        windows[i].column() == Some(1usize) || exists|j: int|
            0 <= j < windows.len() && j != i && (#[trigger] windows[j]).id != new_id
                && windows[j].column() == windows[i].column(),
{
    assert(!joinable(windows, new_id, i));
    lone_windows_are_joined(windows, new_id, i);
}

/// The window whose column a new one joins stands furthest to the left of those
/// that it can join.
pub proof fn leftmost_lone_window_is_joined(
    windows: Seq<Window>,
    new_id: u64,
    i: int,
    j: int,
)
    requires
        joinable(windows, new_id, i),
        forall|k: int| #[trigger]
            joinable(windows, new_id, k) ==> windows[i].column()->0 <= windows[k].column()->0,
        0 <= j < windows.len(),
        j != i,
        windows[j].id != new_id,
        windows[j].column() is Some,
        windows[j].column()->0 <= windows[i].column()->0,
    ensures
        windows[j].column()->0 < windows[i].column()->0,
        windows[j].column() == Some(1usize) || exists|k: int|
            0 <= k < windows.len() && k != j && (#[trigger] windows[k]).id != new_id
                && windows[k].column() == windows[j].column(),
{
    lone_windows_are_joined(windows, new_id, i);
    lone_windows_are_joined(windows, new_id, j);
    if joinable(windows, new_id, j) {
        assert(windows[j].column() == windows[i].column());
    }
}

/// The tiled windows of two lists in a row are those of the one, then those of
/// the other.
pub proof fn tiled_keeps_the_order(a: Seq<Window>, b: Seq<Window>, workspace_id: u64)
    ensures
        tiled(a + b, workspace_id) == tiled(a, workspace_id) + tiled(b, workspace_id),
    decreases b.len(),
{
    if b.len() == 0 {
        assert(a + b =~= a);
        assert(tiled(a, workspace_id) + tiled(b, workspace_id) =~= tiled(a, workspace_id));
    } else {
        tiled_keeps_the_order(a, b.drop_last(), workspace_id);
        assert((a + b).drop_last() =~= a + b.drop_last());
        assert((a + b).last() == b.last());
        assert(tiled(a + b, workspace_id) =~= tiled(a, workspace_id) + tiled(b, workspace_id));
    }
}

/// A window is tiled on a workspace where it does not float and is on it, and
/// only there.
pub proof fn tiled_windows_do_not_float(w: Window, workspace_id: u64)
    ensures
        !w.floating && w.workspace_id == Some(workspace_id) ==> tiled(seq![w], workspace_id)
            == seq![w],
        w.floating || w.workspace_id != Some(workspace_id) ==> tiled(seq![w], workspace_id)
            == Seq::<Window>::empty(),
{
    assert(seq![w].drop_last() =~= Seq::<Window>::empty());
    assert(tiled(Seq::<Window>::empty(), workspace_id) =~= Seq::<Window>::empty());
    reveal_with_fuel(tiled, 2);
    assert(Seq::<Window>::empty().push(w) =~= seq![w]);
}

/// The window that stands for a column is the last one in it.
pub proof fn last_window_stands_for_its_column(windows: Seq<Window>, i: int, column: usize)
    requires
        0 <= i < windows.len(),
        windows[i].column() == Some(column),
        forall|j: int|
            i < j < windows.len() ==> (#[trigger] windows[j]).column() != Some(column),
    ensures
        column_windows(windows).contains_key(column),
        column_windows(windows)[column] == windows[i].id,
    decreases windows.len(),
{
    let rest = windows.drop_last();
    if i < windows.len() - 1 {
        assert(rest[i] == windows[i]);
        assert forall|j: int| i < j < rest.len() implies (#[trigger] rest[j]).column() != Some(
            column,
        ) by {
            assert(rest[j] == windows[j]);
        }
        last_window_stands_for_its_column(rest, i, column);
        assert(windows[windows.len() - 1].column() != Some(column));
    }
}

/// The greatest column is one that some window is in, and none is beyond it.
pub proof fn max_column_is_reached(windows: Seq<Window>)
    ensures
        forall|i: int|
            0 <= i < windows.len() ==> ((#[trigger] windows[i]).column() matches Some(column)
                ==> column <= max_column(windows)),
        max_column(windows) == 0 || exists|i: int|
            0 <= i < windows.len() && (#[trigger] windows[i]).column() == Some(
                max_column(windows),
            ),
    decreases windows.len(),
{
    assert forall|i: int| 0 <= i < windows.len() implies ((
    #[trigger] windows[i]).column() matches Some(column) ==> column <= max_column(windows)) by {
        max_column_bounds(windows, i);
    }
    if windows.len() > 0 {
        let rest = windows.drop_last();
        max_column_is_reached(rest);
        if max_column(windows) != 0 {
            if max_column(windows) == max_column(rest) {
                let i = choose|i: int|
                    0 <= i < rest.len() && (#[trigger] rest[i]).column() == Some(max_column(rest));
                assert(windows[i].column() == Some(max_column(windows)));
            } else {
                assert(windows[windows.len() - 1].column() == Some(max_column(windows)));
            }
        }
    }
}

/// The foremost window is at least as far to the left as every other one; of
/// those that are as far, it is listed first. A window in no column comes behind
/// all that are in one.
pub proof fn foremost_is_furthest_to_the_left(windows: Seq<Window>, i: int, j: int)
    requires
        foremost(windows, i),
        0 <= j < windows.len(),
    ensures
        windows[j].column() is Some && windows[j].column()->0 < usize::MAX ==> {
            &&& windows[i].column() is Some
            &&& windows[i].column()->0 <= windows[j].column()->0
            &&& windows[i].column() == windows[j].column() ==> i <= j
        },
        windows[i].column() is None ==> windows[j].column() is None || windows[j].column()
            == Some(usize::MAX),
{
    assert(place(windows[i]) <= place(windows[j]));
    if j < i {
        assert(place(windows[i]) < place(windows[j]));
    }
}

} // verus!
