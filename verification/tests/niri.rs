//! Windows, workspaces, outputs and what is asked of the compositor.

use piri::action::{workspace_reference, Action, ColumnDisplay, WorkspaceRef};
use piri::config::FloatBits;
use piri::connection::{Exchange, ExchangeEvent, ExchangePhase, ExchangeStep};
use piri::named_workspace::{
    find_named_workspace, is_workspace_empty, move_window_to_named_workspace, NamedMove,
};
use piri::niri::{
    convert_window, fallback_workspace, focused_output, focused_workspace,
    move_window_to_monitor, move_window_to_workspace, output_size, resize_floating_window,
    set_floating_window_size, set_window_floating, window_position, windows_labelled, windows_raw,
    IpcLayout, IpcOutput, IpcWindow, Output, OutputCache, OutputLogical, SizeOverflow, Window,
    WindowLayout, WorkspaceInfo,
};
use piri::numbers::{to_signed32, to_unsigned32};
use piri::swallow::{perform_swallow, swallow_needs_workspaces, swallow_workspace};

fn bits(x: f64) -> FloatBits {
    FloatBits { bits: x.to_bits() }
}

fn ipc(id: u64, workspace_id: Option<u64>) -> IpcWindow {
    IpcWindow {
        id,
        title: Some(format!("window {id}")),
        app_id: Some("app".into()),
        pid: Some(100),
        workspace_id,
        is_floating: false,
        layout: IpcLayout {
            tile_pos_in_workspace_view: Some((bits(1.5), bits(2.5))),
            tile_size: (bits(800.0), bits(600.0)),
            window_size: (790, 590),
            pos_in_scrolling_layout: Some((2, 1)),
        },
    }
}

fn window(id: u64, workspace_id: Option<u64>) -> Window {
    Window {
        id,
        title: String::new(),
        app_id: None,
        class: None,
        floating: false,
        workspace_id,
        workspace: None,
        output: None,
        layout: None,
        pid: None,
    }
}

fn workspace(id: u64, idx: u8, name: Option<&str>, output: Option<&str>) -> WorkspaceInfo {
    WorkspaceInfo {
        id,
        idx,
        name: name.map(|s| s.to_string()),
        output: output.map(|s| s.to_string()),
        output_prefix: output.and_then(|o| o.split_once('-')).map(|(p, _)| p.to_string()),
        is_focused: false,
    }
}

#[test]
fn windows_are_read_without_labels() {
    let mut second = ipc(2, None);
    second.title = None;
    second.pid = Some(-1);
    second.layout.window_size = (-1, i32::MIN);
    second.layout.tile_pos_in_workspace_view = None;
    let read = windows_raw(&vec![ipc(1, Some(7)), second]);
    assert_eq!(read.len(), 2);
    assert_eq!(read[0].id, 1);
    assert_eq!(read[0].title, "window 1");
    assert_eq!(read[0].app_id.as_deref(), Some("app"));
    assert_eq!(read[0].workspace_id, Some(7));
    assert!(read[0].workspace.is_none());
    assert_eq!(read[0].pid, Some(100));
    let layout = read[0].layout.unwrap();
    assert_eq!(layout.tile_pos, Some([bits(1.5), bits(2.5)]));
    assert_eq!(layout.tile_size, Some([bits(800.0), bits(600.0)]));
    assert_eq!(layout.window_size, Some([790, 590]));
    assert_eq!(layout.pos_in_scrolling_layout, Some((2, 1)));
    assert_eq!(read[1].title, "");
    assert_eq!(read[1].pid, Some(u32::MAX));
    let layout = read[1].layout.unwrap();
    assert_eq!(layout.window_size, Some([u32::MAX, 0x8000_0000]));
    assert!(layout.tile_pos.is_none());
    assert_eq!(format!("{:?}", read[0].clone()), format!("{:?}", read[0]));
}

#[test]
fn windows_are_labelled_by_the_index_of_their_workspace() {
    let workspaces = vec![
        workspace(7, 3, Some("web"), None),
        workspace(7, 4, None, None),
    ];
    let read = windows_labelled(&vec![ipc(1, Some(7)), ipc(2, Some(8)), ipc(3, None)], &workspaces);
    assert_eq!(read[0].workspace.as_deref(), Some("3"));
    assert!(read[1].workspace.is_none());
    assert!(read[2].workspace.is_none());
    let one = convert_window(&ipc(9, Some(7)), &workspaces);
    assert_eq!(one.workspace.as_deref(), Some("3"));
    assert_eq!(one.id, 9);
}

#[test]
fn the_focused_workspace_is_found_or_stood_in_for() {
    let mut workspaces = vec![
        workspace(1, 1, None, Some("DP-1")),
        workspace(2, 2, Some("web"), Some("DP-2")),
    ];
    assert!(focused_workspace(&workspaces).is_none());
    workspaces[1].is_focused = true;
    let found = focused_workspace(&workspaces).unwrap();
    assert_eq!((found.id, found.idx, found.name.as_str()), (2, 2, "web"));
    assert_eq!(found.output.as_deref(), Some("DP-2"));
    workspaces[0].is_focused = true;
    assert_eq!(focused_workspace(&workspaces).unwrap().name, "1");

    let by_default = fallback_workspace(&vec![window(1, None)]);
    assert_eq!(
        (by_default.id, by_default.idx, by_default.name.as_str()),
        (0, 1, "1")
    );
    let by_id = fallback_workspace(&vec![window(1, None), window(2, Some(77))]);
    assert_eq!((by_id.id, by_id.idx, by_id.name.as_str()), (77, 0, "77"));
    let mut labelled = window(3, None);
    labelled.workspace = Some("5".into());
    let by_label = fallback_workspace(&vec![labelled, window(2, Some(77))]);
    assert_eq!((by_label.id, by_label.idx, by_label.name.as_str()), (0, 0, "5"));
    assert!(by_label.focused);
}

#[test]
fn workspaces_are_referred_to_by_index_then_id_then_name() {
    assert_eq!(workspace_reference("3"), WorkspaceRef::Index(3));
    assert_eq!(workspace_reference("255"), WorkspaceRef::Index(255));
    assert_eq!(workspace_reference("256"), WorkspaceRef::Id(256));
    assert_eq!(workspace_reference("web"), WorkspaceRef::Name("web".into()));
    assert_eq!(
        workspace_reference("18446744073709551616"),
        WorkspaceRef::Name("18446744073709551616".into())
    );
    assert_eq!(
        move_window_to_workspace(5, "web"),
        Action::MoveWindowToWorkspace {
            window_id: 5,
            reference: WorkspaceRef::Name("web".into()),
            focus: false
        }
    );
}

#[test]
fn requests_for_layers_and_monitors() {
    assert_eq!(
        set_window_floating(4, true),
        Action::MoveWindowToFloating { id: 4 }
    );
    assert_eq!(
        set_window_floating(4, false),
        Action::MoveWindowToTiling { id: 4 }
    );
    let output = Output {
        name: "DP-1".into(),
        focused: true,
        logical: None,
    };
    assert_eq!(
        move_window_to_monitor(4, &output),
        Action::MoveWindowToMonitor {
            id: 4,
            output: "DP-1".into()
        }
    );
}

#[test]
fn resizing_reads_sizes_as_signed() {
    assert_eq!(
        resize_floating_window(1, 800, u32::MAX),
        vec![
            Action::SetWindowWidth { id: 1, pixels: 800 },
            Action::SetWindowHeight { id: 1, pixels: -1 },
        ]
    );
    assert_eq!(to_signed32(0x8000_0000), i32::MIN);
    assert_eq!(to_unsigned32(-1), u32::MAX);
    assert_eq!(to_signed32(to_unsigned32(-77)), -77);
}

#[test]
fn an_explicit_height_beats_a_reset() {
    assert_eq!(
        set_floating_window_size(1, Some(10), Some(20), true),
        (
            vec![
                Action::SetWindowWidth { id: 1, pixels: 10 },
                Action::SetWindowHeight { id: 1, pixels: 20 },
            ],
            None
        )
    );
    assert_eq!(
        set_floating_window_size(1, None, None, true),
        (vec![Action::ResetWindowHeight { id: 1 }], None)
    );
    assert_eq!(set_floating_window_size(1, None, None, false), (vec![], None));
}

#[test]
fn sizes_that_do_not_fit() {
    assert_eq!(
        set_floating_window_size(1, Some(u32::MAX), Some(u32::MAX), false),
        (vec![], Some(SizeOverflow::Width))
    );
    assert_eq!(
        set_floating_window_size(1, Some(5), Some(0x8000_0000), true),
        (
            vec![Action::SetWindowWidth { id: 1, pixels: 5 }],
            Some(SizeOverflow::Height)
        )
    );
}

#[test]
fn outputs_and_their_sizes() {
    let logical = OutputLogical {
        width: 1920,
        height: 1080,
        x: 0,
        y: 0,
    };
    let focused = focused_output(Some(IpcOutput {
        name: "DP-1".into(),
        logical: Some(logical),
    }))
    .unwrap();
    assert!(focused.focused);
    assert_eq!(output_size(&focused), Some((1920, 1080)));
    assert!(focused_output(None).is_none());
    let unknown = Output {
        name: "DP-2".into(),
        focused: true,
        logical: None,
    };
    assert_eq!(output_size(&unknown), None);

    let mut cache = OutputCache::new();
    assert_eq!(cache.get_output_size_by_name("DP-1"), None);
    cache.refresh_outputs(&vec![
        IpcOutput {
            name: "DP-1".into(),
            logical: Some(logical),
        },
        IpcOutput {
            name: "DP-2".into(),
            logical: None,
        },
    ]);
    assert_eq!(cache.get_output_size_by_name("DP-1"), Some((1920, 1080)));
    assert_eq!(cache.get_output_size_by_name("DP-2"), None);
    cache.refresh_outputs(&vec![]);
    assert_eq!(cache.get_output_size_by_name("DP-1"), None);
}

#[test]
fn the_position_of_a_floating_window() {
    let mut floating = window(5, None);
    floating.floating = true;
    let windows = vec![
        (window(5, None), Some((1, 1, 10, 10))),
        (floating.clone(), Some((2, 2, 0, 10))),
        (floating.clone(), None),
        (floating.clone(), Some((3, 3, 10, 10))),
        (floating.clone(), Some((4, 4, 10, 10))),
    ];
    assert_eq!(window_position(&windows, 5), Some((3, 3, 10, 10)));
    assert_eq!(window_position(&windows, 6), None);
    assert_eq!(window_position(&vec![(floating, None)], 5), None);
}

#[test]
fn sending_is_tried_twice_at_most() {
    let (mut exchange, step) = Exchange::begin(true);
    assert_eq!(step, ExchangeStep::Send);
    assert_eq!(exchange.next(ExchangeEvent::SendFailed), ExchangeStep::Connect);
    assert_eq!(exchange.next(ExchangeEvent::Connected), ExchangeStep::Send);
    assert_eq!(exchange.next(ExchangeEvent::SendFailed), ExchangeStep::Fail);
    assert_eq!(exchange.phase, ExchangePhase::Over);

    let (mut exchange, step) = Exchange::begin(false);
    assert_eq!(step, ExchangeStep::Connect);
    assert_eq!(exchange.next(ExchangeEvent::Connected), ExchangeStep::Send);
    assert_eq!(exchange.next(ExchangeEvent::Answered), ExchangeStep::Succeed);

    let (mut exchange, _) = Exchange::begin(true);
    assert_eq!(exchange.next(ExchangeEvent::Refused), ExchangeStep::Fail);
    let (mut exchange, _) = Exchange::begin(false);
    assert_eq!(exchange.next(ExchangeEvent::ConnectFailed), ExchangeStep::Fail);
}

fn desk() -> Vec<WorkspaceInfo> {
    vec![
        workspace(10, 1, Some("web"), Some("DP-1")),
        workspace(11, 2, None, Some("DP-1")),
        workspace(20, 1, Some("web"), Some("HDMI-1")),
        workspace(21, 2, Some("mail"), Some("HDMI-1")),
    ]
}

#[test]
fn a_target_names_a_workspace() {
    let desk = desk();
    let id = |target: &str, focused: Option<&str>| {
        find_named_workspace(&desk, target, focused).map(|ws| ws.id)
    };
    assert_eq!(id("web", None), Some(10));
    assert_eq!(id("web", Some("HDMI-1")), Some(20));
    assert_eq!(id("mail", Some("DP-1")), Some(21));
    assert_eq!(id("2", Some("HDMI-1")), Some(21));
    assert_eq!(id("web@HDMI-1", Some("DP-1")), Some(20));
    assert_eq!(id("web@HDMI", None), Some(20));
    assert_eq!(id("mail@DP-1", None), None);
    assert_eq!(id("chat", None), None);
}

#[test]
fn windows_go_to_named_workspaces() {
    let desk = desk();
    let windows = vec![window(1, Some(10)), window(2, Some(20))];
    let go = |current: Option<u64>, target: &str, focused: Option<&str>| {
        move_window_to_named_workspace(current, target, &desk, &windows, focused)
    };
    assert_eq!(go(Some(10), "web", None), NamedMove::AlreadyThere);
    assert_eq!(go(Some(10), "mail", None), NamedMove::MoveTo { workspace: 21 });
    assert_eq!(go(None, "web", None), NamedMove::MoveTo { workspace: 10 });
    assert_eq!(
        go(Some(10), "chat", None),
        NamedMove::MoveToVacant {
            workspace: 11,
            name: "chat".into()
        }
    );
    assert_eq!(
        go(Some(10), "chat", Some("HDMI-1")),
        NamedMove::MoveToVacant {
            workspace: 21,
            name: "chat".into()
        }
    );
    assert_eq!(
        go(Some(10), "chat@HDMI", Some("DP-1")),
        NamedMove::MoveToVacant {
            workspace: 21,
            name: "chat".into()
        }
    );
    let full: Vec<Window> = desk.iter().map(|ws| window(ws.id, Some(ws.id))).collect();
    assert_eq!(
        move_window_to_named_workspace(Some(10), "chat", &desk, &full, None),
        NamedMove::NoVacant
    );
    assert!(is_workspace_empty(&windows, 11));
    assert!(!is_workspace_empty(&windows, 10));
}

#[test]
fn requests_for_named_moves() {
    assert!(NamedMove::AlreadyThere.requests(1).is_empty());
    assert!(NamedMove::NoVacant.requests(1).is_empty());
    let go = Action::MoveWindowToWorkspace {
        window_id: 1,
        reference: WorkspaceRef::Id(11),
        focus: false,
    };
    assert_eq!(
        NamedMove::MoveTo { workspace: 11 }.requests(1),
        vec![go.clone()]
    );
    assert_eq!(
        NamedMove::MoveToVacant {
            workspace: 11,
            name: "chat".into()
        }
        .requests(1),
        vec![
            go,
            Action::SetWorkspaceName {
                name: "chat".into(),
                workspace: WorkspaceRef::Id(11)
            }
        ]
    );
    let focus = Some(Action::FocusWindow { id: 1 });
    assert_eq!(NamedMove::MoveTo { workspace: 11 }.focus_after(1), focus);
    assert_eq!(
        NamedMove::MoveToVacant {
            workspace: 11,
            name: "chat".into()
        }
        .focus_after(1),
        focus
    );
    assert_eq!(NamedMove::AlreadyThere.focus_after(1), None);
    assert_eq!(NamedMove::NoVacant.focus_after(1), None);
}

#[test]
fn swallowing_brings_the_child_to_its_parent() {
    let desk = desk();
    let parent = window(1, Some(11));
    let mut child = window(2, Some(21));
    child.floating = true;
    assert!(swallow_needs_workspaces(&parent, &child));
    assert_eq!(swallow_workspace(&parent, &child, &desk).as_deref(), Some("2"));
    assert_eq!(
        perform_swallow(&parent, &child, 2, &desk, ColumnDisplay::Tabbed),
        vec![
            Action::FocusWindow { id: 1 },
            Action::SetColumnDisplay {
                display: ColumnDisplay::Tabbed
            },
            Action::MoveWindowToTiling { id: 2 },
            Action::MoveWindowToWorkspace {
                window_id: 2,
                reference: WorkspaceRef::Index(2),
                focus: false
            },
            Action::ConsumeOrExpelWindowLeft { id: 2 },
            Action::FocusWindow { id: 2 },
        ]
    );
}

#[test]
fn swallowing_on_the_same_workspace_moves_nothing() {
    let parent = window(1, Some(11));
    let child = window(2, Some(11));
    assert!(!swallow_needs_workspaces(&parent, &child));
    assert_eq!(
        perform_swallow(&parent, &child, 2, &vec![], ColumnDisplay::Normal),
        vec![
            Action::FocusWindow { id: 1 },
            Action::SetColumnDisplay {
                display: ColumnDisplay::Normal
            },
            Action::ConsumeOrExpelWindowLeft { id: 2 },
            Action::FocusWindow { id: 2 },
        ]
    );
    assert!(swallow_workspace(&window(1, None), &child, &desk()).is_none());
    assert!(swallow_workspace(&window(1, Some(99)), &child, &desk()).is_none());
}

#[test]
fn a_layout_can_be_copied() {
    let layout = WindowLayout {
        tile_pos: None,
        tile_size: None,
        window_size: Some([1, 2]),
        pos_in_scrolling_layout: Some((3, 4)),
    };
    let copy = layout;
    assert_eq!(copy.window_size, layout.window_size);
}
