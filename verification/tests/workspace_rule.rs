//! Workspace rules, columns and indicators.

use piri::action::Action;
use piri::columns::{
    auto_tile_target, collect_workspace_columns_by_id, filter_tiled_windows_in_workspace,
    find_foremost, find_in_column, last_column, sorted_columns,
};
use piri::config::{
    Config, EdgePulseConfig, FloatBits, WindowRuleConfig, WorkspaceRuleConfig,
    WorkspaceRuleSection,
};
use piri::edge_pulse::{
    indicated_workspace, indicator_height, sync_edge_pulse_indicator, EdgePulseRenderState,
    PulseVerdict,
};
use piri::events::PiriEvent;
use piri::niri::{
    IpcLayout, IpcWindow, Output, OutputLogical, Window, WindowLayout, WorkspaceInfo,
};
use piri::workspace_rule::{
    check_and_align_last_column, closed_tasks, focus_after_close, opened_tasks, toggled_tasks,
    AutofillStep, ClosedFocus, ClosedWindow, OpenedStep, PulseStart, WidthPlan,
    WorkspaceRulePlugin, WorkspaceRulePluginConfig, WorkspaceRuleReaction, WorkspaceTask,
};

fn window(id: u64, workspace: u64, column: Option<usize>) -> Window {
    Window {
        id,
        title: String::new(),
        app_id: None,
        class: None,
        floating: false,
        workspace_id: Some(workspace),
        workspace: None,
        output: None,
        layout: Some(WindowLayout {
            tile_pos: None,
            tile_size: None,
            window_size: None,
            pos_in_scrolling_layout: column.map(|c| (c, 1)),
        }),
        pid: None,
    }
}

fn floating(id: u64, workspace: u64) -> Window {
    let mut w = window(id, workspace, None);
    w.floating = true;
    w
}

fn layout(size: (i32, i32), column: Option<usize>) -> IpcLayout {
    let zero = FloatBits { bits: 0 };
    IpcLayout {
        tile_pos_in_workspace_view: None,
        tile_size: (zero, zero),
        window_size: size,
        pos_in_scrolling_layout: column.map(|c| (c, 1)),
    }
}

fn ipc(id: u64, workspace: u64, column: Option<usize>, title: Option<&str>) -> IpcWindow {
    IpcWindow {
        id,
        title: title.map(|s| s.to_string()),
        app_id: Some("app".into()),
        pid: None,
        workspace_id: Some(workspace),
        is_floating: false,
        layout: layout((10, 10), column),
    }
}

fn rule() -> WorkspaceRuleConfig {
    WorkspaceRuleConfig {
        auto_width: Vec::new(),
        auto_tile: false,
        auto_fill: false,
        auto_maximize: false,
        edge_pulse: EdgePulseConfig::default(),
    }
}

fn widths(rows: &[&[&str]]) -> Vec<Vec<String>> {
    rows.iter()
        .map(|row| row.iter().map(|s| s.to_string()).collect())
        .collect()
}

fn window_rule(app_id: Option<&str>, title: Option<&str>) -> WindowRuleConfig {
    WindowRuleConfig {
        app_id: app_id.map(|s| vec![s.to_string()]),
        title: title.map(|s| vec![s.to_string()]),
        open_on_workspace: None,
        floating: Some(true),
        floating_width: None,
        floating_height: None,
        floating_reset_height: false,
        floating_centered: false,
        focus_command: None,
        focus_command_once: false,
    }
}

fn plugin() -> WorkspaceRulePlugin {
    WorkspaceRulePlugin::new(WorkspaceRulePluginConfig::default())
}

#[test]
fn nothing_asked_no_plugin() {
    let mut config = Config::default();
    assert!(WorkspaceRulePluginConfig::from_config(&config).is_none());
    config.window_rule.push(window_rule(Some("a"), None));
    let mut tiling = window_rule(Some("b"), None);
    tiling.floating = Some(false);
    config.window_rule.push(tiling);
    assert!(WorkspaceRulePluginConfig::from_config(&config).is_none());
    config.piri.workspace_rule.auto_tile = true;
    let found = WorkspaceRulePluginConfig::from_config(&config).unwrap();
    assert_eq!(found.floating_rules.len(), 1);
    assert_eq!(found.floating_rules[0].app_id, Some(vec!["a".to_string()]));
    assert!(found.default.auto_tile);
    config.piri.workspace_rule = WorkspaceRuleSection::default();
    config.workspace_rule.insert("main".into(), rule());
    let found = WorkspaceRulePluginConfig::from_config(&config).unwrap();
    assert!(found.workspaces.contains_key("main"));
    assert!(found.clone().workspaces.contains_key("main"));
    config.workspace_rule.clear();
    config.piri.workspace_rule.edge_pulse.enabled = true;
    assert!(WorkspaceRulePluginConfig::from_config(&config).is_some());
}

#[test]
fn a_rule_of_its_own_beats_the_default() {
    let mut config = WorkspaceRulePluginConfig::default();
    config.default.auto_tile = true;
    config.default.auto_width = widths(&[&["90%"]]);
    let plugin = WorkspaceRulePlugin::new(config);
    let mut own = rule();
    own.auto_fill = true;
    own.auto_maximize = true;
    own.edge_pulse.enabled = true;
    assert!(plugin.get_auto_tile(None) && !plugin.get_auto_tile(Some(&own)));
    assert!(!plugin.get_auto_fill(None) && plugin.get_auto_fill(Some(&own)));
    assert!(!plugin.get_auto_maximize(None) && plugin.get_auto_maximize(Some(&own)));
    assert_eq!(plugin.get_auto_width(None), &widths(&[&["90%"]]));
    assert!(plugin.get_auto_width(Some(&own)).is_empty());
    assert!(plugin.get_edge_pulse_config(Some(&own)).enabled);
    assert!(!plugin.get_edge_pulse_config(None).enabled);
    assert!(plugin.workspaces().is_empty());
}

#[test]
fn columns_are_collected_in_order() {
    let windows = vec![
        window(1, 1, Some(3)),
        window(2, 1, Some(1)),
        window(3, 1, Some(3)),
        window(4, 2, Some(2)),
        floating(5, 1),
        window(6, 1, None),
    ];
    assert_eq!(collect_workspace_columns_by_id(&windows, 1), vec![1, 3]);
    let tiled = filter_tiled_windows_in_workspace(&windows, 1);
    let ids: Vec<u64> = tiled.iter().map(|w| w.id).collect();
    assert_eq!(ids, vec![1, 2, 3, 6]);
    assert_eq!(sorted_columns(&tiled), vec![(1, 2), (3, 3)]);
    assert_eq!(last_column(&tiled), 3);
    assert_eq!(last_column(&vec![]), 0);
    assert_eq!(find_in_column(&tiled, 3).unwrap().id, 1);
    assert!(find_in_column(&tiled, 2).is_none());
    assert_eq!(find_foremost(&tiled).unwrap().id, 2);
    assert!(find_foremost(&vec![]).is_none());
}

#[test]
fn new_windows_join_the_first_open_column() {
    let windows = vec![
        window(1, 1, Some(1)),
        window(2, 1, Some(4)),
        window(3, 1, Some(2)),
        window(4, 1, Some(2)),
        window(5, 1, Some(3)),
        window(9, 1, Some(3)),
    ];
    let tiled = filter_tiled_windows_in_workspace(&windows, 1);
    assert_eq!(auto_tile_target(&tiled, 9).unwrap().id, 5);
    assert_eq!(auto_tile_target(&tiled, 7).unwrap().id, 2);
    let only_first = vec![window(1, 1, Some(1)), window(9, 1, Some(2))];
    let tiled = filter_tiled_windows_in_workspace(&only_first, 1);
    assert!(auto_tile_target(&tiled, 9).is_none());
}

fn steps(plan: WidthPlan) -> Vec<(usize, u64, String)> {
    match plan {
        WidthPlan::SetWidths(steps) => steps
            .into_iter()
            .map(|s| (s.column, s.window, s.width))
            .collect(),
        other => panic!("{other:?}"),
    }
}

#[test]
fn columns_get_the_widths_for_their_number() {
    let mut plugin = plugin();
    let mut own = rule();
    own.auto_width = widths(&[&["100%"], &["45%", "55%"], &["33%"], &[]]);
    let one = vec![window(1, 1, Some(1))];
    let expected = |list: &[(usize, u64, &str)]| -> Vec<(usize, u64, String)> {
        list.iter().map(|(c, w, s)| (*c, *w, s.to_string())).collect()
    };
    assert_eq!(
        steps(plugin.apply_widths(&one, 1, Some(&own))),
        expected(&[(1, 1, "100%")])
    );
    let two = vec![
        window(1, 1, Some(2)),
        window(2, 1, Some(1)),
        window(3, 1, Some(2)),
    ];
    assert_eq!(
        steps(plugin.apply_widths(&two, 1, Some(&own))),
        expected(&[(1, 2, "45%"), (2, 3, "55%")])
    );
    let three: Vec<Window> = (1..=3).map(|i| window(i, 1, Some(i as usize))).collect();
    assert_eq!(
        steps(plugin.apply_widths(&three, 1, Some(&own))),
        expected(&[(1, 1, "33%"), (2, 2, "33%"), (3, 3, "33%")])
    );
    let four: Vec<Window> = (1..=4).map(|i| window(i, 1, Some(i as usize))).collect();
    assert!(matches!(
        plugin.apply_widths(&four, 1, Some(&own)),
        WidthPlan::EmptyRow
    ));
    let five: Vec<Window> = (1..=5).map(|i| window(i, 1, Some(i as usize))).collect();
    assert!(matches!(
        plugin.apply_widths(&five, 1, Some(&own)),
        WidthPlan::Nothing
    ));
    own.auto_width = widths(&[&["1%"], &["2%"], &["3%"], &["4%"], &["5%"], &["6%"]]);
    assert_eq!(steps(plugin.apply_widths(&five, 1, Some(&own))).len(), 5);
    let six: Vec<Window> = (1..=6).map(|i| window(i, 1, Some(i as usize))).collect();
    assert_eq!(
        steps(plugin.apply_widths(&six, 1, Some(&own))),
        expected(&[
            (1, 1, "6%"),
            (2, 2, "6%"),
            (3, 3, "6%"),
            (4, 4, "6%"),
            (5, 5, "6%"),
            (6, 6, "6%")
        ])
    );
    let seven: Vec<Window> = (1..=7).map(|i| window(i, 1, Some(i as usize))).collect();
    assert!(matches!(
        plugin.apply_widths(&seven, 1, Some(&own)),
        WidthPlan::Nothing
    ));
    assert!(matches!(plugin.apply_widths(&two, 9, Some(&own)), WidthPlan::Nothing));
}

#[test]
fn a_lone_window_is_maximized_once() {
    let mut plugin = plugin();
    let mut own = rule();
    own.auto_maximize = true;
    let one = vec![window(1, 1, Some(1)), window(5, 2, Some(1)), floating(6, 1)];
    assert!(matches!(plugin.apply_widths(&vec![], 1, Some(&own)), WidthPlan::Nothing));
    assert!(matches!(
        plugin.apply_widths(&one, 1, Some(&own)),
        WidthPlan::Maximize(1)
    ));
    assert!(matches!(plugin.apply_widths(&one, 1, Some(&own)), WidthPlan::Nothing));
    let two = vec![window(1, 1, Some(1)), window(2, 1, Some(2))];
    match plugin.apply_widths(&two, 1, Some(&own)) {
        WidthPlan::Unmaximize(ids) => assert_eq!(ids, vec![1]),
        other => panic!("{other:?}"),
    }
    match plugin.apply_widths(&two, 1, Some(&own)) {
        WidthPlan::Unmaximize(ids) => assert!(ids.is_empty()),
        other => panic!("{other:?}"),
    }
    assert!(matches!(
        plugin.apply_widths(&one, 1, Some(&own)),
        WidthPlan::Maximize(1)
    ));
    own.auto_width = widths(&[&["100%"], &["50%"]]);
    assert_eq!(steps(plugin.apply_widths(&two, 1, Some(&own))).len(), 2);
    assert!(matches!(
        plugin.apply_widths(&one, 1, Some(&own)),
        WidthPlan::Maximize(1)
    ));
}

#[test]
fn opened_windows_are_sorted_out() {
    let mut config = WorkspaceRulePluginConfig::default();
    config.floating_rules = vec![window_rule(None, Some("Panel"))];
    let mut plugin = WorkspaceRulePlugin::new(config);
    assert_eq!(
        plugin.on_window_opened(&ipc(1, 1, None, Some("my panel"))),
        Ok(OpenedStep::Panel)
    );
    assert_eq!(
        plugin.on_window_opened(&ipc(1, 1, None, Some("shell"))),
        Ok(OpenedStep::Tiled)
    );
    assert_eq!(
        plugin.on_window_opened(&ipc(1, 1, None, Some(""))),
        Ok(OpenedStep::Panel)
    );
    assert_eq!(
        plugin.on_window_opened(&ipc(1, 1, None, None)),
        Ok(OpenedStep::Panel)
    );
    let mut floats = ipc(2, 1, None, Some("my panel"));
    floats.is_floating = true;
    assert_eq!(plugin.on_window_opened(&floats), Ok(OpenedStep::Floating));
    assert_eq!(
        plugin.matches_floating_rule(&ipc(1, 1, None, Some("PANEL"))),
        Ok(true)
    );

    let mut config = WorkspaceRulePluginConfig::default();
    config.floating_rules = vec![window_rule(Some("x"), Some("Panel"))];
    let mut plugin = WorkspaceRulePlugin::new(config);
    assert_eq!(
        plugin.on_window_opened(&ipc(1, 1, None, None)),
        Ok(OpenedStep::Tiled)
    );

    let mut config = WorkspaceRulePluginConfig::default();
    config.floating_rules = vec![window_rule(Some("("), None)];
    let mut plugin = WorkspaceRulePlugin::new(config);
    assert_eq!(
        plugin
            .on_window_opened(&ipc(1, 1, None, None))
            .unwrap_err()
            .pattern,
        "("
    );
}

#[test]
fn the_last_column_is_aligned_right() {
    let mut plugin = plugin();
    let windows = vec![window(1, 1, Some(1)), window(2, 1, Some(2))];
    assert!(plugin.needs_columns());
    plugin.record_columns(&windows);
    assert!(!plugin.needs_columns());
    assert!(plugin.opened_in_last_column(&windows, 1, 2));
    assert!(!plugin.opened_in_last_column(&windows, 1, 1));
    assert!(!plugin.opened_in_last_column(&windows, 1, 7));
    let one = vec![window(1, 1, Some(1))];
    assert!(!plugin.opened_in_last_column(&one, 1, 1));
    let mut own = rule();
    assert!(!plugin.aligns_when_opened(&windows, Some(1), 1, Some(&own), 2));
    own.auto_fill = true;
    assert!(plugin.aligns_when_opened(&windows, Some(1), 1, Some(&own), 2));
    assert!(!plugin.aligns_when_opened(&windows, Some(1), 3, Some(&own), 2));
    assert!(!plugin.aligns_when_opened(&windows, None, 1, Some(&own), 2));
    assert!(!plugin.aligns_when_opened(&windows, Some(1), 1, Some(&own), 1));
}

#[test]
fn places_are_recorded_and_forgotten() {
    let mut plugin = plugin();
    plugin.on_window_changed(&ipc(1, 7, Some(2), None));
    plugin.on_window_changed(&ipc(2, 7, None, None));
    plugin.record_auto_tiled(1);
    assert_eq!(
        plugin.handle_window_closed(1),
        ClosedWindow {
            was_floating: false,
            place: Some((7, 2))
        }
    );
    assert_eq!(plugin.handle_window_closed(1).place, None);
    assert_eq!(plugin.handle_window_closed(2).place, None);

    plugin.on_windows_changed(&vec![ipc(3, 7, Some(1), None), ipc(4, 8, Some(5), None)]);
    let mut toggled = ipc(3, 7, Some(1), None);
    toggled.is_floating = true;
    plugin.on_window_toggle_floating(&toggled);
    assert_eq!(
        plugin.handle_window_closed(3),
        ClosedWindow {
            was_floating: true,
            place: None
        }
    );
    plugin.on_window_toggle_floating(&ipc(4, 8, Some(6), None));
    assert_eq!(plugin.handle_window_closed(4).place, Some((8, 6)));
}

#[test]
fn layout_changes_are_recorded_up_to_the_first_size() {
    let mut plugin = plugin();
    plugin.on_window_opened(&ipc(1, 7, None, Some("a"))).unwrap();
    plugin.on_window_opened(&ipc(2, 7, None, Some("b"))).unwrap();
    plugin.on_window_changed(&ipc(1, 7, Some(1), None));
    let changes = vec![
        (9, layout((1, 1), Some(3))),
        (1, layout((20, 10), Some(2))),
        (2, layout((30, 10), None)),
    ];
    assert!(plugin.on_layouts_changed(&changes, 5));
    // The second window's new size was not looked at yet.
    assert!(plugin.on_layouts_changed(&changes, 5));
    assert!(!plugin.on_layouts_changed(&changes, 5));
    assert_eq!(plugin.handle_window_closed(1).place, Some((7, 2)));
    assert_eq!(plugin.handle_window_closed(9).place, Some((5, 3)));
    assert_eq!(plugin.handle_window_closed(2).place, None);
}

#[test]
fn floating_windows_do_not_count_as_resized() {
    let mut plugin = plugin();
    let mut w = ipc(1, 7, None, Some("a"));
    w.is_floating = true;
    plugin.on_window_opened(&w).unwrap();
    assert!(!plugin.on_layouts_changed(&vec![(1, layout((99, 99), None))], 7));
}

#[test]
fn the_focus_goes_to_the_left_after_closing() {
    let remaining = vec![
        window(1, 1, Some(2)),
        window(2, 1, Some(1)),
        window(3, 1, Some(2)),
        floating(4, 1),
        window(5, 2, Some(1)),
    ];
    let focus = |closed| focus_after_close(closed, 1, &remaining);
    assert_eq!(
        focus(Some((1, 3))),
        ClosedFocus {
            target_focus: Some(1),
            align_right: true
        }
    );
    assert_eq!(
        focus(Some((1, 2))),
        ClosedFocus {
            target_focus: Some(2),
            align_right: false
        }
    );
    assert_eq!(focus(Some((1, 1))).target_focus, Some(2));
    assert_eq!(
        focus(Some((1, 9))),
        ClosedFocus {
            target_focus: Some(2),
            align_right: true
        }
    );
    assert_eq!(
        focus(Some((2, 2))),
        ClosedFocus {
            target_focus: None,
            align_right: false
        }
    );
    assert_eq!(
        focus(None),
        ClosedFocus {
            target_focus: Some(2),
            align_right: false
        }
    );
    let one = vec![window(2, 1, Some(1))];
    assert!(!focus_after_close(Some((1, 2)), 1, &one).align_right);
    let none = focus_after_close(Some((1, 2)), 1, &vec![]);
    assert_eq!(none.target_focus, None);
    let unplaced = vec![window(8, 1, None), window(9, 1, Some(4))];
    assert_eq!(focus_after_close(None, 1, &unplaced).target_focus, Some(9));
}

#[test]
fn aligning_waits_for_its_turn() {
    let mut plugin = plugin();
    let mut own = rule();
    assert_eq!(
        plugin.try_execute_autofill(Some(&own), Some(4)),
        AutofillStep::FocusOnly(Some(4))
    );
    own.auto_fill = true;
    assert_eq!(
        plugin.try_execute_autofill(Some(&own), Some(4)),
        AutofillStep::LookAtFocus
    );
    let windows = vec![window(1, 1, Some(1)), floating(2, 1)];
    assert!(!plugin.begin_autofill(Some(2), &windows));
    assert!(plugin.begin_autofill(Some(1), &windows));
    assert!(!plugin.begin_autofill(Some(1), &windows));
    plugin.end_autofill();
    assert!(plugin.begin_autofill(None, &windows));
    assert_eq!(
        check_and_align_last_column(Some(3), true),
        vec![Action::FocusColumnLeft, Action::FocusColumnRight]
    );
    assert_eq!(
        check_and_align_last_column(Some(3), false),
        vec![Action::FocusWindow { id: 3 }]
    );
    assert!(check_and_align_last_column(None, false).is_empty());
}

#[test]
fn indicators_show_missing_neighbors() {
    let windows = vec![
        window(1, 1, Some(1)),
        window(2, 1, Some(2)),
        window(3, 1, Some(3)),
        floating(4, 1),
        floating(5, 2),
        window(6, 2, Some(1)),
        window(7, 1, None),
    ];
    let verdict = |focused| sync_edge_pulse_indicator(&windows, 1, focused, true, true);
    let show = |left, right| {
        PulseVerdict::Show(EdgePulseRenderState {
            show_left: left,
            show_right: right,
        })
    };
    assert_eq!(verdict(Some(1)), show(true, false));
    assert_eq!(verdict(Some(2)), show(false, false));
    assert_eq!(verdict(Some(3)), show(false, true));
    assert_eq!(verdict(Some(4)), PulseVerdict::Keep);
    assert_eq!(verdict(Some(5)), PulseVerdict::Hide);
    assert_eq!(verdict(Some(6)), PulseVerdict::Hide);
    assert_eq!(verdict(Some(7)), PulseVerdict::Hide);
    assert_eq!(verdict(Some(99)), PulseVerdict::Hide);
    assert_eq!(verdict(None), PulseVerdict::Hide);
    assert_eq!(
        sync_edge_pulse_indicator(&windows, 1, Some(1), false, true),
        show(false, false)
    );
    assert_eq!(
        sync_edge_pulse_indicator(&windows, 2, Some(6), true, true),
        PulseVerdict::Hide
    );
}

#[test]
fn indicators_are_drawn_when_they_change() {
    let mut plugin = plugin();
    let left = EdgePulseRenderState {
        show_left: true,
        show_right: false,
    };
    assert!(plugin.hide_edge_pulse());
    plugin.record_hidden();
    assert!(!plugin.hide_edge_pulse());
    assert!(plugin.show_edge_pulse(left));
    assert!(!plugin.show_edge_pulse(left));
    assert!(plugin.hide_edge_pulse());
    assert!(plugin.disable_edge_pulse());
    assert!(!plugin.disable_edge_pulse());
    plugin.record_hidden();
    assert!(!plugin.disable_edge_pulse());
    assert!(plugin.show_edge_pulse(left));
    assert_eq!(plugin.begin_edge_pulse(true), PulseStart::LookOn);
    assert!(!plugin.show_edge_pulse(left));
    assert_eq!(plugin.begin_edge_pulse(false), PulseStart::Hide);
    assert_eq!(plugin.begin_edge_pulse(false), PulseStart::Disabled);
    assert!(plugin.show_edge_pulse(left));
    plugin.update_config(WorkspaceRulePluginConfig::default());
    assert!(plugin.show_edge_pulse(left));
}

#[test]
fn the_indicated_workspace_and_height() {
    let workspace = |id, is_focused| WorkspaceInfo {
        id,
        idx: 1,
        name: None,
        output: None,
        output_prefix: None,
        is_focused,
    };
    let workspaces = vec![workspace(1, false), workspace(2, true)];
    assert_eq!(indicated_workspace(&workspaces, Some(1)).unwrap().id, 1);
    assert_eq!(indicated_workspace(&workspaces, None).unwrap().id, 2);
    assert!(indicated_workspace(&workspaces, Some(3)).is_none());
    let mut output = Output {
        name: "DP-1".into(),
        focused: true,
        logical: Some(OutputLogical {
            width: 2560,
            height: 1440,
            x: 0,
            y: 0,
        }),
    };
    assert_eq!(indicator_height(Some(&output)), 1440);
    output.logical = None;
    assert_eq!(indicator_height(Some(&output)), 1080);
    assert_eq!(indicator_height(None), 1080);
}

#[test]
fn workspace_events_and_reactions_to_them() {
    let mut plugin = plugin();
    let w = ipc(3, 1, None, None);
    let cases = vec![
        (
            PiriEvent::WindowOpened { window: w.clone() },
            WorkspaceRuleReaction::HandleOpened,
            true,
        ),
        (
            PiriEvent::WindowChanged { window: w.clone() },
            WorkspaceRuleReaction::HandleChanged,
            true,
        ),
        (
            PiriEvent::WindowToggleFloating { window: w.clone() },
            WorkspaceRuleReaction::HandleToggled,
            true,
        ),
        (
            PiriEvent::WindowClosed { id: 3 },
            WorkspaceRuleReaction::HandleClosed(3),
            true,
        ),
        (
            PiriEvent::WindowFocusChanged { id: Some(3) },
            WorkspaceRuleReaction::SyncFocused,
            true,
        ),
        (
            PiriEvent::WindowFocusChanged { id: None },
            WorkspaceRuleReaction::Nothing,
            false,
        ),
        (
            PiriEvent::WindowLayoutsChanged { changes: vec![] },
            WorkspaceRuleReaction::HandleLayouts,
            true,
        ),
        (
            PiriEvent::WorkspaceActivated {
                id: 4,
                focused: true,
            },
            WorkspaceRuleReaction::SyncActivated(4),
            true,
        ),
        (
            PiriEvent::WorkspaceActivated {
                id: 4,
                focused: false,
            },
            WorkspaceRuleReaction::Nothing,
            true,
        ),
        (
            PiriEvent::WindowsChanged { windows: vec![w] },
            WorkspaceRuleReaction::HandleAll,
            true,
        ),
        (PiriEvent::Other, WorkspaceRuleReaction::Nothing, false),
    ];
    for (event, reaction, interesting) in cases {
        assert_eq!(plugin.is_interested_in_event(&event), interesting);
        assert_eq!(plugin.handle_event(&event), reaction);
    }
    let left = EdgePulseRenderState {
        show_left: true,
        show_right: false,
    };
    assert!(plugin.show_edge_pulse(left));
    plugin.handle_event(&PiriEvent::WorkspaceActivated {
        id: 1,
        focused: true,
    });
    assert!(plugin.show_edge_pulse(left));
}

#[test]
fn tasks_are_done_in_order() {
    let sync = vec![WorkspaceTask::SyncIndicators];
    assert_eq!(opened_tasks(OpenedStep::Panel), sync);
    assert_eq!(opened_tasks(OpenedStep::Floating), sync);
    assert_eq!(
        opened_tasks(OpenedStep::Tiled),
        vec![
            WorkspaceTask::RecordColumns,
            WorkspaceTask::AutoTile,
            WorkspaceTask::ApplyWidths,
            WorkspaceTask::AlignIfLast,
            WorkspaceTask::SyncIndicators,
        ]
    );
    assert_eq!(
        toggled_tasks(false),
        vec![
            WorkspaceTask::ApplyWidths,
            WorkspaceTask::AutoTile,
            WorkspaceTask::SyncIndicators,
        ]
    );
    assert_eq!(
        toggled_tasks(true),
        vec![WorkspaceTask::ApplyWidths, WorkspaceTask::SyncIndicators]
    );
    assert_eq!(closed_tasks(true), sync);
    assert_eq!(
        closed_tasks(false),
        vec![
            WorkspaceTask::ApplyWidths,
            WorkspaceTask::RecordColumns,
            WorkspaceTask::MoveFocus,
            WorkspaceTask::SyncIndicators,
        ]
    );
}
