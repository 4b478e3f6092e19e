//! Window rules and panels.

use piri::action::Action;
use piri::config::{Config, FloatBits, WindowRuleConfig};
use piri::events::PiriEvent;
use piri::matcher::WindowMatcherCache;
use piri::niri::{IpcLayout, IpcWindow, Window, WindowLayout, WorkspaceInfo};
use piri::panels::{avoid_overlap, row_members, row_order, siblings, Panel, Sides};
use piri::window_rule::{
    find_focus_rule, find_rule, matching_floating_rule, settle_step, AppliedRules, ChangedStep,
    FloatingAction, FloatingDecision, FloatingPhase, FloatingStep, OpenTask, SettlePhase, SettleStep,
    TileClose, WindowRulePlugin, WindowRulePluginConfig, WindowRuleReaction,
};

fn zero() -> FloatBits {
    FloatBits { bits: 0 }
}

fn rule(app_id: Option<&str>, title: Option<&str>) -> WindowRuleConfig {
    WindowRuleConfig {
        app_id: app_id.map(|s| vec![s.to_string()]),
        title: title.map(|s| vec![s.to_string()]),
        open_on_workspace: None,
        floating: None,
        floating_width: None,
        floating_height: None,
        floating_reset_height: false,
        floating_centered: false,
        focus_command: None,
        focus_command_once: false,
    }
}

fn ipc(id: u64, app_id: &str, title: Option<&str>) -> IpcWindow {
    IpcWindow {
        id,
        title: title.map(|s| s.to_string()),
        app_id: Some(app_id.to_string()),
        pid: None,
        workspace_id: Some(1),
        is_floating: false,
        layout: IpcLayout {
            tile_pos_in_workspace_view: None,
            tile_size: (zero(), zero()),
            window_size: (100, 100),
            pos_in_scrolling_layout: None,
        },
    }
}

fn window(id: u64, app_id: &str, floating: bool, workspace_id: Option<u64>) -> Window {
    Window {
        id,
        title: String::new(),
        app_id: Some(app_id.to_string()),
        class: None,
        floating,
        workspace_id,
        workspace: None,
        output: None,
        layout: Some(WindowLayout {
            tile_pos: Some([zero(), zero()]),
            tile_size: None,
            window_size: None,
            pos_in_scrolling_layout: None,
        }),
        pid: None,
    }
}

fn plugin(rules: Vec<WindowRuleConfig>) -> WindowRulePlugin {
    WindowRulePlugin::new(WindowRulePluginConfig { rules })
}

fn action(floating: bool) -> FloatingAction {
    FloatingAction {
        floating,
        width: None,
        height: None,
        reset_height: false,
        centered: false,
    }
}

#[test]
fn no_rules_no_plugin() {
    let mut config = Config::default();
    assert!(WindowRulePluginConfig::from_config(&config).is_none());
    config.window_rule.push(rule(Some("a"), None));
    let rules = WindowRulePluginConfig::from_config(&config).unwrap().rules;
    assert_eq!(rules.len(), 1);
    assert_eq!(rules[0].app_id, Some(vec!["a".to_string()]));
    assert!(WindowRulePluginConfig::default().rules.is_empty());
}

#[test]
fn floating_actions_resize_and_center_only_floating_windows() {
    let plain = action(true);
    assert!(!plain.should_resize() && !plain.should_center());
    assert!(!plain.should_defer_until_floating(false));
    let sized = FloatingAction {
        reset_height: true,
        ..plain
    };
    assert!(sized.should_resize());
    assert!(sized.should_defer_until_floating(false));
    assert!(!sized.should_defer_until_floating(true));
    let tiled = FloatingAction {
        floating: false,
        width: Some(5),
        centered: true,
        ..sized
    };
    assert!(!tiled.should_resize() && !tiled.should_center());
    assert!(!tiled.should_defer_until_floating(false));
}

#[test]
fn sizes_are_committed_within_the_decorations() {
    let far = TileClose {
        width: false,
        height: false,
    };
    let wide = FloatingAction {
        width: Some(800),
        ..action(true)
    };
    assert!(wide.size_is_committed(far, (808, 0)));
    assert!(wide.size_is_committed(far, (792, 0)));
    assert!(!wide.size_is_committed(far, (809, 0)));
    assert!(!wide.size_is_committed(far, (791, 0)));
    assert!(wide.size_is_committed(
        TileClose {
            width: true,
            height: false
        },
        (0, 0)
    ));
    let both = FloatingAction {
        height: Some(600),
        ..wide
    };
    assert!(!both.size_is_committed(far, (800, 0)));
    assert!(both.size_is_committed(far, (800, 600)));
    assert!(action(true).size_is_committed(far, (i32::MIN, i32::MIN)));
    let huge = FloatingAction {
        width: Some(u32::MAX),
        ..action(true)
    };
    assert!(!huge.size_is_committed(far, (i32::MIN, 0)));
}

#[test]
fn the_first_matching_rule_counts() {
    let mut cache = WindowMatcherCache::new();
    let rules = vec![
        rule(Some("kitty"), None),
        rule(None, Some("mail")),
        rule(Some("fire"), None),
    ];
    let app = "firefox".to_string();
    let title = "Mail".to_string();
    assert_eq!(find_rule(&rules, Some(&app), Some(&title), &mut cache), Ok(Some(1)));
    assert_eq!(find_rule(&rules, Some(&app), None, &mut cache), Ok(Some(2)));
    assert_eq!(find_rule(&rules, None, None, &mut cache), Ok(None));
    let broken = vec![rule(Some("("), None), rule(Some("fire"), None)];
    assert_eq!(
        find_rule(&broken, Some(&app), None, &mut cache)
            .unwrap_err()
            .pattern,
        "("
    );
}

#[test]
fn floating_rules_that_fail_do_not_match() {
    let mut cache = WindowMatcherCache::new();
    let mut rules = vec![
        rule(Some("("), None),
        rule(Some("panel"), None),
        rule(Some("panel"), None),
    ];
    rules[0].floating = Some(true);
    rules[1].floating = Some(false);
    rules[2].floating = Some(true);
    let w = window(1, "Panel", true, None);
    assert_eq!(matching_floating_rule(&rules, &mut cache, &w), Some(2));
    let other = window(2, "term", true, None);
    assert_eq!(matching_floating_rule(&rules, &mut cache, &other), None);
}

#[test]
fn opening_follows_the_rule() {
    let mut first = rule(Some("^mail$"), None);
    first.open_on_workspace = Some("web!".into());
    first.floating = Some(true);
    first.floating_width = Some(800);
    first.floating_centered = true;
    first.focus_command = Some("echo hi".into());
    first.focus_command_once = true;
    let mut second = rule(Some("term"), None);
    second.open_on_workspace = Some("dev@DP-1".into());
    let mut plugin = plugin(vec![first, second]);
    let plan = plugin
        .handle_window_opened(&ipc(1, "mail", None))
        .unwrap()
        .unwrap();
    assert_eq!(plan.rule_index, 0);
    assert_eq!(plan.workspace.as_deref(), Some("web"));
    assert!(plan.locked);
    assert_eq!(
        plan.floating,
        Some(FloatingAction {
            floating: true,
            width: Some(800),
            height: None,
            reset_height: false,
            centered: true
        })
    );
    assert_eq!(plan.focus_command.as_deref(), Some("echo hi"));
    assert!(plan.focus_once);
    assert_eq!(
        plan.tasks(),
        vec![
            OpenTask::MoveToWorkspace,
            OpenTask::Lock,
            OpenTask::Float,
            OpenTask::Focus
        ]
    );
    let plan = plugin
        .handle_window_opened(&ipc(2, "term", None))
        .unwrap()
        .unwrap();
    assert_eq!(plan.rule_index, 1);
    assert_eq!(plan.workspace.as_deref(), Some("dev@DP-1"));
    assert!(!plan.locked);
    assert!(plan.floating.is_none() && plan.focus_command.is_none());
    assert_eq!(plan.tasks(), vec![OpenTask::MoveToWorkspace]);
    assert!(plugin.handle_window_opened(&ipc(3, "gimp", None)).unwrap().is_none());
    assert_eq!(plugin.rules().len(), 2);
}

#[test]
fn changed_windows_get_the_floating_action_of_their_rule() {
    let mut floats = rule(None, Some("dialog"));
    floats.floating = Some(true);
    let mut plugin = plugin(vec![rule(Some("plain"), None), floats]);
    assert_eq!(
        plugin.handle_dynamic_window_rule(&ipc(1, "a", Some("A dialog"))),
        Ok(Some((1, action(true))))
    );
    assert_eq!(
        plugin.handle_dynamic_window_rule(&ipc(1, "plain", Some("A dialog"))),
        Ok(None)
    );
    assert_eq!(plugin.handle_dynamic_window_rule(&ipc(1, "a", None)), Ok(None));
    assert_eq!(plugin.matching_rule_index(&ipc(1, "plain", None)), Ok(Some(0)));
}

#[test]
fn focus_commands_run_once_where_they_should() {
    let mut once = rule(Some("a"), None);
    once.focus_command = Some("once".into());
    once.focus_command_once = true;
    let mut plugin = plugin(vec![rule(Some("a"), None), once]);
    let found = plugin
        .focus_rule_for(&window(1, "a", false, None))
        .unwrap()
        .unwrap();
    assert_eq!((found.rule_index, found.command.as_str()), (1, "once"));
    assert!(found.once);
    assert!(plugin.focus_rule_due(1, true));
    assert!(!plugin.handle_focus_command(1, true, false));
    assert!(!plugin.handle_focus_command(1, false, true));
    assert!(plugin.handle_focus_command(1, false, false));
    plugin.record_focus(1, 1, true);
    assert!(!plugin.focus_rule_due(1, true));
    assert!(plugin.focus_rule_due(0, true));
    plugin.record_focus(1, 0, false);
    assert!(plugin.focus_rule_due(0, true));
    plugin.update_config(WindowRulePluginConfig::default());
    assert!(plugin.focus_rule_due(1, true));
    assert!(plugin
        .focus_rule_for(&window(1, "a", false, None))
        .unwrap()
        .is_none());
}

#[test]
fn a_broken_focus_rule_is_reported() {
    let mut cache = WindowMatcherCache::new();
    let mut broken = rule(Some("["), None);
    let rules = vec![broken.clone()];
    let w = window(1, "a", false, None);
    // Without a command its patterns are not tried.
    assert!(find_focus_rule(&rules, &w, &mut cache).unwrap().is_none());
    broken.focus_command = Some("x".into());
    let error = find_focus_rule(&vec![broken], &w, &mut cache).unwrap_err();
    assert_eq!(error.pattern, "[");
}

#[test]
fn floating_actions_are_decided_once() {
    let mut plugin = plugin(vec![]);
    let sized = FloatingAction {
        width: Some(800),
        centered: true,
        ..action(true)
    };
    assert_eq!(
        plugin.apply_floating_action(0, 7, true, sized),
        FloatingDecision::Apply
    );
    assert_eq!(
        plugin.apply_floating_action(0, 7, false, action(false)),
        FloatingDecision::Apply
    );
    assert_eq!(
        plugin.apply_floating_action(0, 7, false, sized),
        FloatingDecision::Defer
    );
    plugin.defer_floating(0, 7, sized);
    assert_eq!(
        plugin.apply_floating_action(0, 7, false, sized),
        FloatingDecision::Nothing
    );
    assert_eq!(
        plugin.apply_floating_action(0, 7, true, sized),
        FloatingDecision::FinishPending
    );
    assert_eq!(plugin.finish_pending_floating_action(7), Some((0, sized)));
    assert_eq!(plugin.finish_pending_floating_action(7), None);
    assert_eq!(
        plugin.continue_floating_action(0, 7, sized, FloatingPhase::OnLayer),
        FloatingStep::Resize
    );
    assert_eq!(
        plugin.continue_floating_action(0, 7, sized, FloatingPhase::Resized),
        FloatingStep::AwaitSize
    );
    assert_eq!(plugin.pending_center_action(7), Some(sized));
    assert_eq!(
        plugin.apply_floating_action(0, 7, true, sized),
        FloatingDecision::Nothing
    );
    let far = TileClose {
        width: false,
        height: false,
    };
    assert_eq!(
        plugin.handle_window_changed(7, far, (100, 100)),
        ChangedStep::AwaitSize
    );
    assert_eq!(
        plugin.handle_window_changed(7, far, (800, 100)),
        ChangedStep::FinishCenter
    );
    assert_eq!(
        plugin.handle_window_changed(8, far, (800, 100)),
        ChangedStep::LookForRule
    );
    assert_eq!(plugin.finish_pending_center_action(7), Some((0, sized)));
    plugin.defer_center(0, 7, sized);
    assert_eq!(plugin.finish_pending_center_action(7), Some((0, sized)));
    assert_eq!(
        plugin.continue_floating_action(0, 7, sized, FloatingPhase::Centered),
        FloatingStep::ArrangeRow
    );
    assert_eq!(
        plugin.apply_floating_action(0, 7, true, sized),
        FloatingDecision::Nothing
    );
    assert_eq!(
        plugin.apply_floating_action(1, 7, true, sized),
        FloatingDecision::Apply
    );
    assert_eq!(
        plugin.handle_event(&PiriEvent::WindowClosed { id: 7 }),
        WindowRuleReaction::Forgotten(7)
    );
    assert_eq!(
        plugin.apply_floating_action(0, 7, true, sized),
        FloatingDecision::Apply
    );
}

#[test]
fn floating_steps_without_resizing() {
    let mut plugin = plugin(vec![]);
    let centered = FloatingAction {
        centered: true,
        ..action(true)
    };
    assert_eq!(
        plugin.continue_floating_action(0, 1, centered, FloatingPhase::OnLayer),
        FloatingStep::Center
    );
    let sized = FloatingAction {
        height: Some(5),
        ..action(true)
    };
    assert_eq!(
        plugin.continue_floating_action(0, 1, sized, FloatingPhase::Resized),
        FloatingStep::ArrangeRow
    );
    assert_eq!(
        plugin.continue_floating_action(0, 2, action(false), FloatingPhase::OnLayer),
        FloatingStep::ArrangeRow
    );
}

#[test]
fn applied_rules_are_a_set() {
    let mut applied = AppliedRules::new();
    applied.insert(0, 1);
    applied.insert(0, 1);
    applied.insert(1, 1);
    applied.insert(0, 2);
    assert!(applied.contains(0, 1) && applied.contains(1, 1) && applied.contains(0, 2));
    assert!(!applied.contains(1, 2));
    applied.forget(1);
    assert!(!applied.contains(0, 1) && !applied.contains(1, 1));
    assert!(applied.contains(0, 2));
}

#[test]
fn locked_windows_are_brought_back() {
    let workspaces = vec![
        WorkspaceInfo {
            id: 1,
            idx: 1,
            name: Some("web".into()),
            output: None,
            output_prefix: None,
            is_focused: false,
        },
        WorkspaceInfo {
            id: 2,
            idx: 2,
            name: None,
            output: None,
            output_prefix: None,
            is_focused: true,
        },
    ];
    let mut plugin = plugin(vec![]);
    let mut w = ipc(5, "a", None);
    w.workspace_id = Some(2);
    assert_eq!(plugin.enforce_workspace_lock(&w, &workspaces, None), None);
    plugin.lock_window(5, "web".into());
    assert!(plugin.is_locked(5) && !plugin.is_locked(6));
    assert_eq!(
        plugin.enforce_workspace_lock(&w, &workspaces, None),
        Some("web")
    );
    w.workspace_id = Some(1);
    assert_eq!(plugin.enforce_workspace_lock(&w, &workspaces, None), None);
    w.workspace_id = None;
    assert_eq!(
        plugin.enforce_workspace_lock(&w, &workspaces, None),
        Some("web")
    );
    plugin.lock_window(5, "gone".into());
    assert_eq!(plugin.enforce_workspace_lock(&w, &workspaces, None), None);
    plugin.update_config(WindowRulePluginConfig::default());
    assert!(plugin.is_locked(5));
    plugin.window_closed(5);
    assert!(!plugin.is_locked(5));
}

#[test]
fn events_and_reactions_to_them() {
    let mut plugin = plugin(vec![]);
    let w = ipc(3, "a", None);
    let mut floating = ipc(4, "a", None);
    floating.is_floating = true;
    let cases = vec![
        (
            PiriEvent::WindowFocusChanged { id: Some(1) },
            WindowRuleReaction::HandleFocus(1),
            true,
        ),
        (
            PiriEvent::WindowFocusChanged { id: None },
            WindowRuleReaction::Nothing,
            false,
        ),
        (
            PiriEvent::WindowOpened { window: w.clone() },
            WindowRuleReaction::HandleOpened,
            true,
        ),
        (
            PiriEvent::WindowChanged { window: w.clone() },
            WindowRuleReaction::HandleChanged,
            true,
        ),
        (
            PiriEvent::WindowToggleFloating { window: w.clone() },
            WindowRuleReaction::Nothing,
            true,
        ),
        (
            PiriEvent::WindowToggleFloating { window: floating },
            WindowRuleReaction::FinishFloating(4),
            true,
        ),
        (
            PiriEvent::WindowsChanged { windows: vec![w] },
            WindowRuleReaction::HandleAll,
            true,
        ),
        (
            PiriEvent::WindowLayoutsChanged { changes: vec![] },
            WindowRuleReaction::HandleLayouts,
            true,
        ),
        (
            PiriEvent::WorkspaceActivated {
                id: 1,
                focused: true,
            },
            WindowRuleReaction::Nothing,
            false,
        ),
        (PiriEvent::Other, WindowRuleReaction::Nothing, false),
    ];
    for (event, reaction, interesting) in cases {
        assert_eq!(plugin.is_interested_in_event(&event), interesting);
        assert_eq!(plugin.handle_event(&event), reaction);
    }
}

#[test]
fn the_fallback_settles_panels_that_were_not_finished() {
    let centered = FloatingAction {
        centered: true,
        ..action(true)
    };
    let plain = FloatingAction {
        centered: false,
        ..action(true)
    };
    assert!(centered.should_center() && !plain.should_center());
    for action in [centered, plain] {
        assert_eq!(settle_step(action, SettlePhase::Waited, true), SettleStep::Stop);
        assert_eq!(settle_step(action, SettlePhase::Waited, false), SettleStep::Resize);
        assert_eq!(settle_step(action, SettlePhase::Resized, true), SettleStep::Stop);
        assert_eq!(
            settle_step(action, SettlePhase::Centered, true),
            SettleStep::ArrangeRow
        );
    }
    assert_eq!(
        settle_step(centered, SettlePhase::Resized, false),
        SettleStep::Center
    );
    assert_eq!(
        settle_step(plain, SettlePhase::Resized, false),
        SettleStep::ArrangeRow
    );
}

#[test]
fn the_row_holds_the_panels_of_a_workspace() {
    let mut cache = WindowMatcherCache::new();
    let mut floats = rule(Some("panel"), None);
    floats.floating = Some(true);
    let rules = vec![rule(Some("panel"), None), floats];
    let mut unplaced = window(4, "panel", true, Some(1));
    unplaced.layout = None;
    let windows = vec![
        window(1, "panel", true, Some(1)),
        window(2, "panel", false, Some(1)),
        window(3, "panel", true, Some(2)),
        unplaced,
        window(5, "term", true, Some(1)),
        window(6, "panel", true, Some(1)),
    ];
    assert_eq!(
        row_members(&rules, &mut cache, &windows, 1),
        vec![(0, 1), (5, 1)]
    );
}

#[test]
fn rows_are_ordered_from_left_to_right() {
    assert_eq!(row_order(&vec![]), None);
    assert_eq!(row_order(&vec![5]), None);
    assert_eq!(row_order(&vec![5, 3, 5, 1, 3]), Some(vec![3, 1, 4, 0, 2]));
    assert_eq!(row_order(&vec![1, 1, 1]), Some(vec![0, 1, 2]));
}

#[test]
fn siblings_float_on_the_same_workspace() {
    let mut unplaced = window(6, "a", true, Some(1));
    if let Some(layout) = &mut unplaced.layout {
        layout.tile_pos = None;
    }
    let mut windows = vec![
        window(1, "a", true, Some(1)),
        window(2, "a", true, Some(1)),
        window(3, "a", false, Some(1)),
        window(4, "a", true, Some(2)),
        window(5, "a", true, None),
        unplaced,
    ];
    assert_eq!(siblings(&windows, 1), Some(vec![1]));
    assert_eq!(siblings(&windows, 9), None);
    windows[0].workspace_id = None;
    assert_eq!(siblings(&windows, 1), Some(vec![1, 3, 4]));
}

/// A number of pixels in parts of a pixel.
fn parts(pixels: f64) -> i64 {
    (pixels * 4294967296.0).round() as i64
}

fn fractional(left: f64, right: f64) -> Sides {
    Sides {
        left: parts(left),
        right: parts(right),
        top: parts(100.0),
        bottom: parts(200.0),
    }
}

fn sides(left: i32, right: i32) -> Sides {
    fractional(left as f64, right as f64)
}

fn panel(x: i32, width: u32) -> Panel {
    Panel {
        x,
        y: 100,
        width,
        height: 100,
    }
}

/// Where a panel ends up.
fn settled(panel: Panel, others: &[Sides], output: Option<u32>) -> i64 {
    let others = others.to_vec();
    let place = panel.find_place(&others, output);
    let expected = if place == panel.x as i64 {
        None
    } else {
        Some(Action::MoveFloatingWindow {
            id: 7,
            x: (place - panel.x as i64) as i32,
            y: 0,
        })
    };
    assert_eq!(avoid_overlap(7, &panel, &others, output), expected);
    place
}

#[test]
fn panels_are_as_large_as_they_are_wanted() {
    assert_eq!(
        Panel::new((1, 2, 300, 400), Some(200), Some(500)),
        Panel {
            x: 1,
            y: 2,
            width: 300,
            height: 500
        }
    );
    assert_eq!(Panel::new((1, 2, 300, 400), None, None).width, 300);
}

#[test]
fn panels_that_touch_do_not_overlap() {
    let me = panel(10, 10);
    assert!(me.is_free(&vec![sides(0, 10), sides(20, 30)]));
    assert!(!me.is_free(&vec![sides(0, 11)]));
    assert!(!me.is_free(&vec![sides(19, 30)]));
    assert!(!me.is_free(&vec![fractional(0.0, 10.25)]));
    assert!(!me.is_free(&vec![fractional(19.75, 30.0)]));
    let below = Sides {
        top: parts(200.0),
        bottom: parts(300.0),
        ..sides(10, 20)
    };
    assert!(me.is_free(&vec![below]));
    assert_eq!(settled(me, &[below], Some(1000)), 10);
    assert_eq!(settled(me, &[], None), 10);
}

#[test]
fn panels_go_to_the_nearer_side() {
    assert_eq!(settled(panel(500, 100), &[sides(450, 550)], Some(1000)), 566);
    assert_eq!(settled(panel(500, 100), &[sides(550, 650)], Some(1000)), 434);
    assert_eq!(settled(panel(500, 100), &[sides(500, 600)], Some(1000)), 384);
    assert_eq!(settled(panel(500, 100), &[sides(450, 650)], Some(700)), 334);
    assert_eq!(settled(panel(100, 100), &[sides(110, 130)], Some(300)), 146);
    assert_eq!(
        settled(panel(10, 10), &[sides(5, 12), sides(15, 40)], None),
        56
    );
}

#[test]
fn panels_are_moved_by_the_nearest_whole_way() {
    let me = panel(500, 100);
    assert_eq!(settled(me, &[fractional(450.0, 550.4)], Some(1000)), 566);
    assert_eq!(settled(me, &[fractional(450.0, 550.6)], Some(1000)), 567);
    assert_eq!(settled(me, &[fractional(450.0, 550.5)], Some(1000)), 567);
    assert_eq!(settled(me, &[fractional(550.6, 650.0)], Some(1000)), 435);
    assert_eq!(settled(me, &[fractional(550.4, 650.0)], Some(1000)), 434);
    assert_eq!(settled(me, &[fractional(550.5, 650.0)], Some(1000)), 434);
    // A pixel that would still be overlapped is passed over.
    let between = [fractional(450.0, 550.4), sides(330, 340), fractional(665.9, 700.0)];
    let place = settled(me, &between, Some(1000));
    assert!(panel(place as i32, 100).is_free(&between.to_vec()));
}

#[test]
fn panels_are_shifted_until_nothing_overlaps() {
    let others = [sides(400, 800), sides(300, 380)];
    assert_eq!(settled(panel(500, 200), &others, Some(1000)), 84);
    let more = [sides(400, 800), sides(300, 380), sides(820, 900)];
    assert_eq!(settled(panel(510, 200), &more, Some(1200)), 916);
    // The gap is given up where there is no other way.
    assert_eq!(settled(panel(150, 200), &[sides(200, 300)], Some(500)), 0);
    assert_eq!(settled(panel(160, 200), &[sides(200, 300)], Some(500)), 300);
}

#[test]
fn panels_stay_inside_where_nothing_is_free() {
    assert_eq!(settled(panel(50, 200), &[sides(100, 220)], Some(300)), 0);
    assert_eq!(settled(panel(50, 200), &[sides(60, 120)], Some(300)), 100);
    let others = [sides(300, 600), sides(0, 290)];
    assert_eq!(settled(panel(400, 200), &others, Some(700)), 84);
}
