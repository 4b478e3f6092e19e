//! Sticky windows, focus marks, placement and processes.

use piri::action::{Action, WorkspaceRef};
use piri::config::Direction;
use piri::geometry::{
    calculate_hide_position, calculate_position, extract_margin, move_window_to_position,
};
use piri::niri::{IpcOutput, OutputCache, OutputLogical, Window, Workspace, WorkspaceInfo};
use piri::processes::{
    note_child, parent_pid, stat_path, try_pid_matching, AncestorWalk, PidMap,
};
use piri::window_utils::{
    find_window, get_focused_window_from_cache, get_focused_workspace_from_event,
    get_sticky_window_list, is_window_in_workspace, mark_programmatic_focus_start,
    matches_workspace, old_output_size, refocus_candidate, register_sticky_window,
    should_ignore_focus_change, sticky_follow_workspace, sticky_move, sticky_moved,
    sticky_stays_on_output, try_refocus_to_previous, unregister_sticky_window,
    window_exists_in_cache, NoFocusedWindow, ProgrammaticFocus, StickyFollow, StickyFollowResult,
    StickyMove, StickyRegistry,
};

fn window(id: u64) -> Window {
    Window {
        id,
        title: String::new(),
        app_id: None,
        class: None,
        floating: false,
        workspace_id: None,
        workspace: None,
        output: None,
        layout: None,
        pid: None,
    }
}

fn workspace(id: u64, idx: u8, output: &str) -> WorkspaceInfo {
    WorkspaceInfo {
        id,
        idx,
        name: None,
        output: Some(output.into()),
        output_prefix: None,
        is_focused: false,
    }
}

fn focused(id: u64, name: &str) -> Workspace {
    Workspace {
        id,
        idx: 0,
        name: name.into(),
        output: None,
        focused: true,
    }
}

#[test]
fn sticky_windows_are_registered_and_unregistered() {
    let mut registry = StickyRegistry::new();
    assert!(get_sticky_window_list(&registry).is_empty());
    register_sticky_window(&mut registry, 1, true);
    register_sticky_window(&mut registry, 2, false);
    register_sticky_window(&mut registry, 1, false);
    let mut list = get_sticky_window_list(&registry);
    list.sort();
    assert_eq!(list, vec![(1, false), (2, false)]);
    unregister_sticky_window(&mut registry, 1);
    unregister_sticky_window(&mut registry, 7);
    assert_eq!(get_sticky_window_list(&registry), vec![(2, false)]);
}

#[test]
fn programmatic_focus_is_ignored_for_half_a_second() {
    let mut focus = ProgrammaticFocus::new();
    assert!(!should_ignore_focus_change(&focus, 0));
    mark_programmatic_focus_start(&mut focus, 1_000);
    assert!(should_ignore_focus_change(&focus, 1_000));
    assert!(should_ignore_focus_change(&focus, 1_000 + 499_999_999));
    assert!(!should_ignore_focus_change(&focus, 1_000 + 500_000_000));
    assert!(should_ignore_focus_change(&focus, 10));
    mark_programmatic_focus_start(&mut focus, 900_000_000);
    assert!(should_ignore_focus_change(&focus, 1_000_000_000));
}

#[test]
fn focused_windows_are_looked_up() {
    let windows = vec![window(1), window(2)];
    assert_eq!(get_focused_window_from_cache(Some(2), &windows).unwrap().id, 2);
    assert_eq!(
        get_focused_window_from_cache(Some(3), &windows).unwrap_err(),
        NoFocusedWindow::NotListed(3)
    );
    assert_eq!(
        get_focused_window_from_cache(None, &windows).unwrap_err(),
        NoFocusedWindow::NotFocused
    );
    assert!(window_exists_in_cache(&windows, 1));
    assert!(!window_exists_in_cache(&windows, 3));
    assert!(find_window(&windows, 3).is_none());
}

#[test]
fn refocusing_swaps_the_windows() {
    let mut previous = Some(5);
    assert_eq!(refocus_candidate(Some(9), 9, previous), Some(5));
    assert_eq!(
        try_refocus_to_previous(Some(9), 9, &mut previous, true),
        Some(5)
    );
    assert_eq!(previous, Some(9));
    assert_eq!(
        try_refocus_to_previous(Some(5), 5, &mut previous, true),
        Some(9)
    );
    assert_eq!(previous, Some(5));
    assert_eq!(try_refocus_to_previous(Some(1), 9, &mut previous, true), None);
    assert_eq!(try_refocus_to_previous(Some(9), 9, &mut previous, false), None);
    assert_eq!(try_refocus_to_previous(None, 9, &mut previous, true), None);
    assert_eq!(previous, Some(5));
    let mut none = None;
    assert_eq!(try_refocus_to_previous(Some(9), 9, &mut none, true), None);
    assert_eq!(none, None);
}

#[test]
fn workspaces_match_by_index_id_or_name() {
    let ws = Workspace {
        id: 300,
        idx: 2,
        name: "web".into(),
        output: None,
        focused: true,
    };
    assert!(matches_workspace(&ws, "2"));
    assert!(matches_workspace(&ws, "300"));
    assert!(matches_workspace(&ws, "web"));
    assert!(matches_workspace(&ws, "+2"));
    assert!(!matches_workspace(&ws, "3"));
    assert!(!matches_workspace(&ws, "Web"));
    let mut w = window(1);
    assert!(!is_window_in_workspace(&w, &ws));
    w.workspace_id = Some(300);
    assert!(is_window_in_workspace(&w, &ws));
}

#[test]
fn an_event_counts_only_for_a_focused_workspace() {
    let mut workspaces = vec![workspace(1, 1, "DP-1"), workspace(2, 2, "DP-1")];
    assert!(get_focused_workspace_from_event(&workspaces, 2).is_none());
    workspaces[1].is_focused = true;
    assert_eq!(
        get_focused_workspace_from_event(&workspaces, 2).unwrap().idx,
        2
    );
    assert!(get_focused_workspace_from_event(&workspaces, 1).is_none());
}

#[test]
fn sticky_windows_are_followed() {
    let mut floating = window(1);
    floating.floating = true;
    floating.workspace_id = Some(4);
    let windows = vec![floating, window(2)];
    assert_eq!(
        sticky_follow_workspace(&windows, 9, true),
        StickyFollow::Stop(StickyFollowResult::WindowGone)
    );
    assert_eq!(
        sticky_follow_workspace(&windows, 2, true),
        StickyFollow::Stop(StickyFollowResult::NotFloating)
    );
    assert_eq!(
        sticky_follow_workspace(&windows, 1, true),
        StickyFollow::AcrossMonitors(Some(4))
    );
    assert_eq!(
        sticky_follow_workspace(&windows, 1, false),
        StickyFollow::SameMonitor(Some(4))
    );
}

#[test]
fn sticky_windows_across_outputs() {
    assert_eq!(sticky_moved((0, 0), (10, 20)), StickyFollowResult::Keep);
    assert_eq!(sticky_moved((10, 20), (10, 20)), StickyFollowResult::Keep);
    assert_eq!(
        sticky_moved((10, 20), (10, 30)),
        StickyFollowResult::OutputChanged {
            old_output_width: 10,
            old_output_height: 20,
            new_output_width: 10,
            new_output_height: 30,
        }
    );
    let mut outputs = OutputCache::new();
    outputs.refresh_outputs(&vec![IpcOutput {
        name: "DP-1".into(),
        logical: Some(OutputLogical {
            width: 10,
            height: 20,
            x: 0,
            y: 0,
        }),
    }]);
    let workspaces = vec![workspace(4, 1, "DP-1"), workspace(5, 1, "DP-2")];
    assert_eq!(old_output_size(&workspaces, Some(4), &outputs), (10, 20));
    assert_eq!(old_output_size(&workspaces, Some(5), &outputs), (0, 0));
    assert_eq!(old_output_size(&workspaces, Some(6), &outputs), (0, 0));
    assert_eq!(old_output_size(&workspaces, None, &outputs), (0, 0));
}

#[test]
fn sticky_windows_that_stay_on_their_output() {
    let workspaces = vec![
        workspace(4, 1, "DP-1"),
        workspace(5, 2, "DP-1"),
        workspace(6, 3, "DP-2"),
    ];
    let two = focused(5, "2");
    assert_eq!(sticky_stays_on_output(&workspaces, &two, Some(4)), Some(true));
    assert_eq!(sticky_stays_on_output(&workspaces, &two, Some(6)), Some(false));
    assert_eq!(sticky_stays_on_output(&workspaces, &two, None), Some(true));
    assert_eq!(sticky_stays_on_output(&workspaces, &two, Some(99)), Some(true));
    assert_eq!(
        sticky_stays_on_output(&workspaces, &focused(9, "web"), Some(4)),
        None
    );
}

#[test]
fn sticky_windows_follow_to_named_workspaces() {
    let mut workspaces = vec![workspace(1, 1, "DP-1"), workspace(2, 2, "DP-1")];
    let request = |reference| {
        StickyMove::Request(Action::MoveWindowToWorkspace {
            window_id: 5,
            reference,
            focus: false,
        })
    };
    assert_eq!(
        sticky_move(&workspaces, &focused(2, "2"), Some(1), 5),
        request(WorkspaceRef::Index(2))
    );
    workspaces[1].name = Some("dev".into());
    workspaces[1].is_focused = true;
    assert_eq!(
        sticky_move(&workspaces, &focused(2, "dev"), Some(1), 5),
        request(WorkspaceRef::Name("dev".into()))
    );
    // Indices repeat from one output to the next.
    workspaces.insert(0, workspace(8, 2, "DP-2"));
    assert_eq!(
        sticky_move(&workspaces, &focused(2, "dev"), Some(1), 5),
        request(WorkspaceRef::Name("dev".into()))
    );
    assert_eq!(
        sticky_move(&workspaces, &focused(8, "2"), Some(1), 5),
        StickyMove::Stay
    );
    assert_eq!(
        sticky_move(&workspaces, &focused(9, "web"), Some(1), 5),
        StickyMove::NotListed
    );
}

#[test]
fn sticky_windows_follow_to_a_stand_in_by_its_index() {
    let mut workspaces = vec![workspace(4, 2, "DP-1"), workspace(5, 1, "DP-1")];
    workspaces[1].name = Some("web".into());
    let stand_in = focused(0, "1");
    assert_eq!(
        sticky_stays_on_output(&workspaces, &stand_in, Some(4)),
        Some(true)
    );
    assert_eq!(
        sticky_move(&workspaces, &stand_in, Some(4), 7),
        StickyMove::Request(Action::MoveWindowToWorkspace {
            window_id: 7,
            reference: WorkspaceRef::Index(1),
            focus: false,
        })
    );
}

#[test]
fn visible_positions() {
    let at = |d| calculate_position(d, 1920, 1080, 800, 600, 50);
    assert_eq!(at(Direction::Top), (560, 50));
    assert_eq!(at(Direction::Bottom), (560, 430));
    assert_eq!(at(Direction::Left), (50, 240));
    assert_eq!(at(Direction::Right), (1070, 240));
    assert_eq!(
        calculate_position(Direction::Top, 1921, 0, 800, 5000, u32::MAX),
        (560, -1)
    );
}

#[test]
fn hidden_positions_are_off_screen() {
    let at = |d| calculate_hide_position(d, 1920, 1080, 800, 600, 50);
    assert_eq!(at(Direction::Top), (560, -650));
    assert_eq!(at(Direction::Bottom), (560, 1130));
    assert_eq!(at(Direction::Left), (-850, 240));
    assert_eq!(at(Direction::Right), (1970, 240));
}

#[test]
fn margins_are_read_back() {
    for d in [
        Direction::Top,
        Direction::Bottom,
        Direction::Left,
        Direction::Right,
    ] {
        for margin in [0u32, 1, 50, 400] {
            let (x, y) = calculate_position(d, 1920, 1080, 800, 600, margin);
            assert_eq!(extract_margin(d, 1920, 1080, 800, 600, x, y), margin);
        }
    }
    assert_eq!(
        extract_margin(Direction::Top, 1920, 1080, 800, 600, 0, -30),
        0
    );
    assert_eq!(
        extract_margin(Direction::Right, 1920, 1080, 800, 600, 1200, 0),
        0
    );
}

#[test]
fn moves_are_relative() {
    assert_eq!(
        move_window_to_position(3, 100, 200, 40, 260),
        Action::MoveFloatingWindow {
            id: 3,
            x: -60,
            y: 60
        }
    );
}

#[test]
fn the_parent_stands_behind_the_name() {
    assert_eq!(parent_pid("42 (cat) S 7 42 42"), Some(7));
    assert_eq!(parent_pid("42 (cat) S 1 42"), None);
    assert_eq!(parent_pid("42 (cat) S 0 42"), None);
    assert_eq!(parent_pid("42 (cat) S"), None);
    assert_eq!(parent_pid("42 (my cat) S 7"), Some(7));
    assert_eq!(parent_pid("100 (tmux: server) S 50 100 100"), Some(50));
    assert_eq!(parent_pid("42 (a) S 3 (b)) R 7 8"), Some(7));
    assert_eq!(parent_pid("42 cat S 7"), Some(7));
    assert_eq!(parent_pid("42 cat S"), None);
    assert_eq!(parent_pid("42 (cat)S 7"), None);
    assert_eq!(parent_pid("42 (my cat) S"), None);
    assert_eq!(parent_pid(""), None);
    assert_eq!(parent_pid("42 (cat) S 4294967296"), None);
    assert_eq!(stat_path(42), "/proc/42/stat");
}

#[test]
fn ancestors_are_walked_up() {
    let mut walk = AncestorWalk::new(100);
    assert_eq!(walk.current_pid(), 100);
    assert!(walk.advance(Some("100 (a) S 90 0")));
    assert_eq!(walk.current_pid(), 90);
    assert!(walk.advance(Some("90 (b) S 80 0")));
    assert!(!walk.advance(Some("80 (c) S 1 0")));
    assert!(!walk.advance(None));
    assert_eq!(walk.current_pid(), 80);
    let found = walk.into_ancestors();
    assert_eq!(found.len(), 2);
    assert!(found.contains(&90) && found.contains(&80));
}

#[test]
fn parents_of_processes_with_blanks_in_their_names_are_found() {
    let with_pid = |id: u64, pid: u32| {
        let mut w = window(id);
        w.pid = Some(pid);
        w
    };
    let child = with_pid(2, 100);
    let windows = vec![with_pid(1, 50), with_pid(2, 100)];
    let mut map = PidMap::new();
    let mut walk = AncestorWalk::new(note_child(&child, &mut map).unwrap());
    assert!(walk.advance(Some("100 (tmux: server) S 50 100 100")));
    assert!(!walk.advance(Some("50 (foot) S 1 50 50")));
    let found = try_pid_matching(&child, &windows, &walk.into_ancestors(), &mut map);
    assert_eq!(found.unwrap().id, 1);
}

#[test]
fn parents_are_found_by_process() {
    let mut walk = AncestorWalk::new(100);
    walk.advance(Some("100 (a) S 90 0"));
    let ancestors = walk.into_ancestors();
    let with_pid = |id: u64, pid: Option<u32>| {
        let mut w = window(id);
        w.pid = pid;
        w
    };
    let child = with_pid(1, Some(100));
    let mut map = PidMap::new();
    assert_eq!(note_child(&child, &mut map), Some(100));
    assert_eq!(note_child(&window(8), &mut map), None);
    let windows = vec![
        with_pid(1, Some(90)),
        with_pid(2, None),
        with_pid(3, Some(50)),
        with_pid(4, Some(90)),
        with_pid(5, Some(90)),
    ];
    let found = try_pid_matching(&child, &windows, &ancestors, &mut map);
    assert_eq!(found.unwrap().id, 4);
    let strangers = vec![with_pid(3, Some(50))];
    assert!(try_pid_matching(&child, &strangers, &ancestors, &mut map).is_none());
}
