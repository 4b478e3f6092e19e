//! The configuration and its defaults.

use piri::config::{
    auto_width_rows, patterns_of, percent_numeral, Config, Direction, EdgePulseConfig,
    EmptyWorkspaceConfig, FloatBits, MarkSection, NiriConfig, PercentError, PiriConfig,
    PluginsConfig, ScratchpadConfig, ScratchpadDefaults, ScratchpadError, SingletonConfig,
    SizeError, StringOrVec, SwallowExclude, SwallowRule, SwallowSection, WidthValue,
    WindowOrderSection, WindowRuleConfig, WorkspaceRuleConfig, WorkspaceRuleSection,
};

// Settings are written here as TOML and read off the parsed table.

fn table(text: &str) -> toml::Table {
    toml::from_str(text).unwrap()
}

fn text(table: &toml::Table, key: &str) -> Option<String> {
    table.get(key).map(|v| v.as_str().unwrap().to_string())
}

fn switch(table: &toml::Table, key: &str) -> Option<bool> {
    table.get(key).map(|v| v.as_bool().unwrap())
}

fn number(table: &toml::Table, key: &str) -> Option<u32> {
    table.get(key).map(|v| v.as_integer().unwrap() as u32)
}

fn strings(values: &[toml::Value]) -> Vec<String> {
    values
        .iter()
        .map(|v| v.as_str().unwrap().to_string())
        .collect()
}

fn patterns(table: &toml::Table, key: &str) -> Option<Vec<String>> {
    patterns_of(table.get(key).map(|v| match v {
        toml::Value::String(s) => StringOrVec::String(s.clone()),
        other => StringOrVec::Vec(strings(other.as_array().unwrap())),
    }))
}

fn widths(table: &toml::Table, key: &str) -> Vec<Vec<String>> {
    let values = match table.get(key) {
        Some(v) => v.as_array().unwrap().clone(),
        None => Vec::new(),
    };
    auto_width_rows(
        values
            .iter()
            .map(|v| match v {
                toml::Value::String(s) => WidthValue::String(s.clone()),
                other => WidthValue::Vec(strings(other.as_array().unwrap())),
            })
            .collect(),
    )
}

fn bits(x: f64) -> FloatBits {
    FloatBits { bits: x.to_bits() }
}

fn as_f64(x: FloatBits) -> f64 {
    f64::from_bits(x.bits)
}

fn float(table: &toml::Table, key: &str) -> Option<FloatBits> {
    table.get(key).map(|v| bits(v.as_float().unwrap()))
}

fn niri(table: &toml::Table) -> NiriConfig {
    NiriConfig {
        socket_path: text(table, "socket_path"),
    }
}

fn plugins(table: &toml::Table) -> PluginsConfig {
    PluginsConfig {
        scratchpads: switch(table, "scratchpads"),
        empty: switch(table, "empty"),
        window_rule: switch(table, "window_rule"),
        autofill: switch(table, "autofill"),
        singleton: switch(table, "singleton"),
        window_order: switch(table, "window_order"),
        swallow: switch(table, "swallow"),
        workspace_rule: switch(table, "workspace_rule"),
        mark: switch(table, "mark"),
        sticky: switch(table, "sticky"),
        empty_config: table.get("empty_config").cloned(),
    }
}

fn scratchpad_defaults(table: &toml::Table) -> ScratchpadDefaults {
    let default = ScratchpadDefaults::default();
    ScratchpadDefaults {
        default_size: text(table, "default_size").unwrap_or(default.default_size),
        default_margin: number(table, "default_margin").unwrap_or(default.default_margin),
        move_to_workspace: text(table, "move_to_workspace"),
        tile_in_target_workspace: switch(table, "tile_in_target_workspace").unwrap_or(false),
    }
}

fn singleton(table: &toml::Table) -> SingletonConfig {
    SingletonConfig {
        command: text(table, "command").unwrap(),
        app_id: text(table, "app_id"),
        on_created_command: text(table, "on_created_command"),
    }
}

fn window_rule(table: &toml::Table) -> WindowRuleConfig {
    WindowRuleConfig {
        app_id: patterns(table, "app_id"),
        title: patterns(table, "title"),
        open_on_workspace: text(table, "open_on_workspace"),
        floating: switch(table, "floating"),
        floating_width: number(table, "floating_width"),
        floating_height: number(table, "floating_height"),
        floating_reset_height: switch(table, "floating_reset_height").unwrap_or(false),
        floating_centered: switch(table, "floating_centered").unwrap_or(false),
        focus_command: text(table, "focus_command"),
        focus_command_once: switch(table, "focus_command_once").unwrap_or(false),
    }
}

fn window_order(table: &toml::Table) -> WindowOrderSection {
    let default = WindowOrderSection::default();
    WindowOrderSection {
        enable_event_listener: switch(table, "enable_event_listener")
            .unwrap_or(default.enable_event_listener),
        default_weight: number(table, "default_weight").unwrap_or(default.default_weight),
        workspaces: match table.get("workspaces") {
            Some(v) => strings(v.as_array().unwrap()),
            None => Vec::new(),
        },
    }
}

fn swallow_rule(table: &toml::Table) -> SwallowRule {
    SwallowRule {
        child_app_id: patterns(table, "child_app_id"),
        child_title: patterns(table, "child_title"),
        parent_app_id: patterns(table, "parent_app_id"),
        parent_title: patterns(table, "parent_title"),
    }
}

fn swallow_exclude(table: &toml::Table) -> SwallowExclude {
    SwallowExclude {
        app_id: patterns(table, "app_id"),
        title: patterns(table, "title"),
    }
}

fn edge_pulse(table: &toml::Table) -> EdgePulseConfig {
    let default = EdgePulseConfig::default();
    EdgePulseConfig {
        enabled: switch(table, "enabled").unwrap_or(default.enabled),
        show_left: switch(table, "show_left").unwrap_or(default.show_left),
        show_right: switch(table, "show_right").unwrap_or(default.show_right),
        width: number(table, "width").unwrap_or(default.width),
        height_ratio: float(table, "height_ratio").unwrap_or(default.height_ratio),
        left_gradient_start: text(table, "left_gradient_start")
            .unwrap_or(default.left_gradient_start),
        left_gradient_end: text(table, "left_gradient_end").unwrap_or(default.left_gradient_end),
        right_gradient_start: text(table, "right_gradient_start")
            .unwrap_or(default.right_gradient_start),
        right_gradient_end: text(table, "right_gradient_end")
            .unwrap_or(default.right_gradient_end),
        alpha: float(table, "alpha").unwrap_or(default.alpha),
        animation_enabled: switch(table, "animation_enabled").unwrap_or(default.animation_enabled),
        animation_style: text(table, "animation_style").unwrap_or(default.animation_style),
        animation_duration: float(table, "animation_duration")
            .unwrap_or(default.animation_duration),
        animation_amplitude: float(table, "animation_amplitude")
            .unwrap_or(default.animation_amplitude),
        animation_repeat: number(table, "animation_repeat").unwrap_or(default.animation_repeat),
    }
}

fn subtable(table: &toml::Table, key: &str) -> toml::Table {
    match table.get(key) {
        Some(v) => v.as_table().unwrap().clone(),
        None => toml::Table::new(),
    }
}

fn workspace_rule(table: &toml::Table) -> WorkspaceRuleConfig {
    WorkspaceRuleConfig {
        auto_width: widths(table, "auto_width"),
        auto_tile: switch(table, "auto_tile").unwrap_or(false),
        auto_fill: switch(table, "auto_fill").unwrap_or(false),
        auto_maximize: switch(table, "auto_maximize").unwrap_or(false),
        edge_pulse: edge_pulse(&subtable(table, "edge_pulse")),
    }
}

fn workspace_section(table: &toml::Table) -> WorkspaceRuleSection {
    WorkspaceRuleSection {
        auto_width: widths(table, "auto_width"),
        auto_tile: switch(table, "auto_tile").unwrap_or(false),
        auto_fill: switch(table, "auto_fill").unwrap_or(false),
        auto_maximize: switch(table, "auto_maximize").unwrap_or(false),
        edge_pulse: edge_pulse(&subtable(table, "edge_pulse")),
    }
}

// ==================== Direction ====================

#[test]
fn test_direction_parse_valid() {
    assert_eq!("fromTop".parse::<Direction>().unwrap(), Direction::Top);
    assert_eq!(
        "fromBottom".parse::<Direction>().unwrap(),
        Direction::Bottom
    );
    assert_eq!("fromLeft".parse::<Direction>().unwrap(), Direction::Left);
    assert_eq!("fromRight".parse::<Direction>().unwrap(), Direction::Right);
}

#[test]
fn test_direction_parse_invalid() {
    assert!("up".parse::<Direction>().is_err());
    assert!("".parse::<Direction>().is_err());
}

#[test]
fn test_direction_as_str() {
    assert_eq!(Direction::Top.as_str(), "fromTop");
    assert_eq!(Direction::Bottom.as_str(), "fromBottom");
    assert_eq!(Direction::Left.as_str(), "fromLeft");
    assert_eq!(Direction::Right.as_str(), "fromRight");
}

#[test]
fn test_direction_roundtrip() {
    for dir in [
        Direction::Top,
        Direction::Bottom,
        Direction::Left,
        Direction::Right,
    ] {
        let s = dir.as_str();
        let parsed: Direction = s.parse().unwrap();
        assert_eq!(parsed, dir);
    }
}

#[test]
fn invalid_direction_keeps_its_name() {
    assert_eq!(Direction::parse("fromtop").unwrap_err().name, "fromtop");
    assert_eq!(Direction::parse("fromTop ").unwrap_err().name, "fromTop ");
}

// ==================== NiriConfig ====================

#[test]
fn test_niri_config_default() {
    let config: NiriConfig = niri(&table(""));
    assert!(config.socket_path.is_none());
    assert!(NiriConfig::default().socket_path.is_none());
}

#[test]
fn test_niri_config_with_socket() {
    let toml = r#"socket_path = "/tmp/niri""#;
    let config: NiriConfig = niri(&table(toml));
    assert_eq!(config.socket_path.as_deref(), Some("/tmp/niri"));
}

// ==================== PluginsConfig ====================

#[test]
fn test_plugins_config_default() {
    for config in [plugins(&table("")), PluginsConfig::default()] {
        assert_eq!(config.is_enabled("scratchpads"), false);
        assert_eq!(config.is_enabled("empty"), false);
        assert_eq!(config.is_enabled("window_rule"), false);
        assert_eq!(config.is_enabled("singleton"), false);
        assert_eq!(config.is_enabled("window_order"), false);
        assert_eq!(config.is_enabled("swallow"), false);
        assert_eq!(config.is_enabled("workspace_rule"), false);
        assert_eq!(config.is_enabled("mark"), false);
        assert_eq!(config.is_enabled("sticky"), false);
        assert_eq!(config.is_enabled("unknown_plugin"), false);
    }
}

#[test]
fn test_plugins_config_all_enabled() {
    let toml = r#"
scratchpads = true
empty = true
window_rule = true
singleton = true
window_order = true
swallow = true
workspace_rule = true
mark = true
sticky = true
"#;
    let config: PluginsConfig = plugins(&table(toml));
    assert!(config.is_enabled("scratchpads"));
    assert!(config.is_enabled("empty"));
    assert!(config.is_enabled("window_rule"));
    assert!(config.is_enabled("singleton"));
    assert!(config.is_enabled("window_order"));
    assert!(config.is_enabled("swallow"));
    assert!(config.is_enabled("workspace_rule"));
    assert!(config.is_enabled("mark"));
    assert!(config.is_enabled("sticky"));
}

#[test]
fn one_plugin_enabled_enables_no_other() {
    let config = PluginsConfig {
        mark: Some(true),
        sticky: Some(false),
        autofill: Some(true),
        ..PluginsConfig::default()
    };
    assert!(config.is_enabled("mark"));
    assert!(!config.is_enabled("sticky"));
    assert!(!config.is_enabled("autofill"));
    assert!(!config.is_enabled("marks"));
}

#[test]
fn errors_say_what_is_wrong() {
    assert_eq!(
        "left".parse::<Direction>().unwrap_err().message(),
        "Invalid direction: left. Must be one of: fromTop, fromBottom, fromLeft, fromRight"
    );
    for (error, message) in [
        (ScratchpadError::MissingDirection, "Missing 'direction' field"),
        (ScratchpadError::MissingCommand, "Missing 'command' field"),
        (ScratchpadError::MissingSize, "Missing 'size' field"),
        (ScratchpadError::MissingMargin, "Missing 'margin' field"),
        (ScratchpadError::MissingAppId, "Missing 'app_id' field"),
        (
            ScratchpadError::StickyAutoHide,
            "'sticky' and 'auto_hide_on_focus_loss' cannot both be enabled for a scratchpad",
        ),
    ] {
        assert_eq!(error.message(), message);
    }
}

#[test]
fn nothing_is_set_for_empty_workspaces_by_default() {
    assert!(PiriConfig::default().plugins.empty_config.is_none());
    assert!(Config::default().piri.plugins.empty_config.is_none());
}

// ==================== ScratchpadDefaults ====================

#[test]
fn test_scratchpad_defaults() {
    let config: ScratchpadDefaults = scratchpad_defaults(&table(""));
    assert_eq!(config.default_size, "75% 60%");
    assert_eq!(config.default_margin, 50);
    assert!(config.move_to_workspace.is_none());
    assert!(!config.tile_in_target_workspace);
}

#[test]
fn test_scratchpad_defaults_custom() {
    let toml = r#"
default_size = "40% 80%"
default_margin = 100
move_to_workspace = "tmp"
tile_in_target_workspace = true
"#;
    let config: ScratchpadDefaults = scratchpad_defaults(&table(toml));
    assert_eq!(config.default_size, "40% 80%");
    assert_eq!(config.default_margin, 100);
    assert_eq!(config.move_to_workspace.as_deref(), Some("tmp"));
}

// ==================== ScratchpadConfig ====================

#[test]
fn test_scratchpad_config_minimal() {
    let toml = r#"
direction = "fromRight"
command = "ghostty"
app_id = "float.term"
size = "40% 60%"
margin = 50
"#;
    let config: ScratchpadConfig = ScratchpadConfig::try_from(table(toml)).unwrap();
    assert_eq!(config.direction, Direction::Right);
    assert_eq!(config.command, "ghostty");
    assert_eq!(config.app_id, "float.term");
    assert_eq!(config.size, "40% 60%");
    assert_eq!(config.margin, 50);
    assert!(!config.swallow_to_focus);
    assert!(!config.sticky);
    assert!(!config.auto_hide_on_focus_loss);
    assert!(!config.refocus);
    assert!(config.move_to_workspace.is_none());
    assert!(config.tile_in_target_workspace.is_none());
}

#[test]
fn test_scratchpad_config_all_options() {
    let toml = r#"
direction = "fromTop"
command = "gnome-text-editor"
app_id = "org.gnome.TextEditor"
size = "50% 40%"
margin = 100
swallow_to_focus = true
sticky = true
auto_hide_on_focus_loss = false
refocus = true
move_to_workspace = "scratch"
tile_in_target_workspace = true
"#;
    let config: ScratchpadConfig = ScratchpadConfig::try_from(table(toml)).unwrap();
    assert!(config.swallow_to_focus);
    assert!(config.sticky);
    assert!(!config.auto_hide_on_focus_loss);
    assert!(config.refocus);
    assert_eq!(config.move_to_workspace.as_deref(), Some("scratch"));
    assert_eq!(config.tile_in_target_workspace, Some(true));
}

fn sized(size: &str) -> ScratchpadConfig {
    ScratchpadConfig {
        direction: Direction::Right,
        command: "test".into(),
        app_id: "test".into(),
        size: size.into(),
        margin: 50,
        swallow_to_focus: false,
        sticky: false,
        auto_hide_on_focus_loss: false,
        refocus: false,
        move_to_workspace: None,
        tile_in_target_workspace: None,
    }
}

#[test]
fn test_scratchpad_parse_size() {
    let config = sized("40% 60%");
    let (w, h) = config.parse_size().unwrap();
    let (w, h) = (
        w.parse::<f64>().unwrap() / 100.0,
        h.parse::<f64>().unwrap() / 100.0,
    );
    assert!((w - 0.4).abs() < f64::EPSILON);
    assert!((h - 0.6).abs() < f64::EPSILON);
}

#[test]
fn test_scratchpad_parse_size_invalid() {
    let config = sized("40%");
    assert!(config.parse_size().is_err());
}

#[test]
fn sizes_that_are_no_sizes() {
    assert_eq!(sized("").parse_size(), Err(SizeError::PartCount));
    assert_eq!(sized("40% 60% 1%").parse_size(), Err(SizeError::PartCount));
    assert_eq!(sized("40 60%").parse_size(), Err(SizeError::WidthSuffix));
    assert_eq!(sized("x% 60").parse_size(), Err(SizeError::WidthNumber));
    assert_eq!(sized("40% 60").parse_size(), Err(SizeError::HeightSuffix));
    assert_eq!(sized("40% y%").parse_size(), Err(SizeError::HeightNumber));
    assert_eq!(sized("% 60%").parse_size(), Err(SizeError::WidthNumber));
}

#[test]
fn sizes_may_be_spaced_and_fractional() {
    assert_eq!(
        sized("  33.5%\t1e2% \n").parse_size(),
        Ok(("33.5", "1e2"))
    );
    assert_eq!(sized("-5% +.5%").parse_size(), Ok(("-5", "+.5")));
}

#[test]
fn numerals_of_percentages_are_those_that_read_as_numbers() {
    for s in [
        "1", "1.", ".5", "0.5", "+1", "-1", "1e5", "1E-5", "1.5e+3", "inf", "-Infinity", "NaN",
        "infinit", "", ".", "e5", "1e", "1e+", "--1", "1 ", " 1", "0x10", "1_000", "1..2", "nan1",
        "+", "-.", "12.34.5", "iNf", "+nan",
    ] {
        let percentage = format!("{s}%");
        assert_eq!(
            percent_numeral(&percentage).is_ok(),
            s.parse::<f64>().is_ok(),
            "{s:?}"
        );
    }
    assert_eq!(percent_numeral("50"), Err(PercentError::Suffix));
    assert_eq!(percent_numeral("%"), Err(PercentError::Number));
    assert_eq!(percent_numeral("50%%"), Err(PercentError::Number));
}

// ==================== EmptyWorkspaceConfig ====================

#[test]
fn test_empty_workspace_config() {
    let toml = "command = \"notify-send empty\"";
    let config = EmptyWorkspaceConfig {
        command: text(&table(toml), "command").unwrap(),
    };
    assert_eq!(config.command, "notify-send empty");
}

// ==================== SingletonConfig ====================

#[test]
fn test_singleton_config_minimal() {
    let toml = r#"command = "google-chrome""#;
    let config: SingletonConfig = singleton(&table(toml));
    assert_eq!(config.command, "google-chrome");
    assert!(config.app_id.is_none());
    assert!(config.on_created_command.is_none());
}

#[test]
fn test_singleton_config_all_fields() {
    let toml = r#"
command = "ghostty --class=singleton.term"
app_id = "singleton.term"
on_created_command = "echo created"
"#;
    let config: SingletonConfig = singleton(&table(toml));
    assert_eq!(config.command, "ghostty --class=singleton.term");
    assert_eq!(config.app_id.as_deref(), Some("singleton.term"));
    assert_eq!(config.on_created_command.as_deref(), Some("echo created"));
}

// ==================== WindowRuleConfig ====================

#[test]
fn test_window_rule_config_app_id_string() {
    let toml = r#"
app_id = "firefox"
open_on_workspace = "2"
"#;
    let config: WindowRuleConfig = window_rule(&table(toml));
    assert_eq!(config.app_id, Some(vec!["firefox".to_string()]));
    assert!(config.title.is_none());
    assert_eq!(config.open_on_workspace.as_deref(), Some("2"));
    assert!(config.focus_command.is_none());
    assert!(!config.focus_command_once);
}

#[test]
fn test_window_rule_config_app_id_vec() {
    let toml = r#"
app_id = ["code", "code-oss", "codium"]
open_on_workspace = "dev"
"#;
    let config: WindowRuleConfig = window_rule(&table(toml));
    assert_eq!(
        config.app_id,
        Some(vec![
            "code".to_string(),
            "code-oss".to_string(),
            "codium".to_string()
        ])
    );
}

#[test]
fn test_window_rule_config_title_only() {
    let toml = r#"
title = ".*Chrome.*"
focus_command = "notify-send 'focused'"
"#;
    let config: WindowRuleConfig = window_rule(&table(toml));
    assert!(config.app_id.is_none());
    assert_eq!(config.title, Some(vec![".*Chrome.*".to_string()]));
    assert!(config.open_on_workspace.is_none());
    assert_eq!(
        config.focus_command.as_deref(),
        Some("notify-send 'focused'")
    );
}

#[test]
fn test_window_rule_config_focus_command_once() {
    let toml = r#"
app_id = "test"
focus_command = "echo hi"
focus_command_once = true
"#;
    let config: WindowRuleConfig = window_rule(&table(toml));
    assert!(config.focus_command_once);
}

#[test]
fn a_copied_rule_says_the_same() {
    let toml = r#"
app_id = ["a", "b"]
title = "t"
open_on_workspace = "2!"
floating = true
floating_width = 800
floating_height = 600
floating_reset_height = true
floating_centered = true
focus_command = "echo hi"
focus_command_once = true
"#;
    let rule = window_rule(&table(toml));
    let copy = rule.clone();
    assert_eq!(format!("{rule:?}"), format!("{copy:?}"));
}

// ==================== WindowOrderSection ====================

#[test]
fn test_window_order_section_default() {
    let config: WindowOrderSection = window_order(&table(""));
    assert!(!config.enable_event_listener);
    assert_eq!(config.default_weight, 0);
    assert!(config.workspaces.is_empty());
}

#[test]
fn test_window_order_section_custom() {
    let toml = r#"
enable_event_listener = true
default_weight = 10
workspaces = ["1", "2", "dev"]
"#;
    let config: WindowOrderSection = window_order(&table(toml));
    assert!(config.enable_event_listener);
    assert_eq!(config.default_weight, 10);
    assert_eq!(config.workspaces, vec!["1", "2", "dev"]);
}

// ==================== MarkSection ====================

#[test]
fn test_mark_section_default() {
    let config: MarkSection = MarkSection::default();
    assert!(!config.refocus);
}

#[test]
fn test_mark_section_refocus() {
    let config = MarkSection {
        refocus: switch(&table("refocus = true"), "refocus").unwrap(),
    };
    assert!(config.refocus);
}

// ==================== SwallowSection ====================

#[test]
fn test_swallow_section_default() {
    let config: SwallowSection = SwallowSection::default();
    assert!(config.use_pid_matching);
    assert!(!config.swallow_on_change);
    assert!(config.rules.is_empty());
    assert!(config.exclude.is_none());
}

#[test]
fn test_swallow_section_custom() {
    let toml = r#"
use_pid_matching = false
swallow_on_change = true

[[rules]]
child_app_id = ".*chrome.*"
parent_app_id = ".*ghostty.*"

[exclude]
app_id = ".*mpv.*"
"#;
    let table = table(toml);
    let config = SwallowSection {
        rules: table["rules"]
            .as_array()
            .unwrap()
            .iter()
            .map(|r| swallow_rule(r.as_table().unwrap()))
            .collect(),
        use_pid_matching: switch(&table, "use_pid_matching").unwrap(),
        swallow_on_change: switch(&table, "swallow_on_change").unwrap(),
        exclude: Some(swallow_exclude(&subtable(&table, "exclude"))),
    };
    assert!(!config.use_pid_matching);
    assert!(config.swallow_on_change);
    assert_eq!(config.rules.len(), 1);
    assert!(config.exclude.is_some());
}

// ==================== SwallowRule ====================

#[test]
fn test_swallow_rule_all_fields() {
    let toml = r#"
child_app_id = ".*chrome.*"
child_title = ".*Chrome.*"
parent_app_id = ".*ghostty.*"
parent_title = ".*Ghostty.*"
"#;
    let rule = swallow_rule(&table(toml));
    assert_eq!(rule.child_app_id, Some(vec![".*chrome.*".to_string()]));
    assert_eq!(rule.child_title, Some(vec![".*Chrome.*".to_string()]));
    assert_eq!(rule.parent_app_id, Some(vec![".*ghostty.*".to_string()]));
    assert_eq!(rule.parent_title, Some(vec![".*Ghostty.*".to_string()]));
}

#[test]
fn test_swallow_rule_vec_app_id() {
    let toml = r#"
child_app_id = [".*chrome.*", ".*chromium.*"]
parent_app_id = ".*ghostty.*"
"#;
    let rule = swallow_rule(&table(toml));
    assert_eq!(
        rule.child_app_id,
        Some(vec![".*chrome.*".to_string(), ".*chromium.*".to_string()])
    );
}

// ==================== SwallowExclude ====================

#[test]
fn test_swallow_exclude() {
    let toml = r#"
app_id = ".*mpv.*"
title = ".*mpv.*"
"#;
    let exclude = swallow_exclude(&table(toml));
    assert_eq!(exclude.app_id, Some(vec![".*mpv.*".to_string()]));
    assert_eq!(exclude.title, Some(vec![".*mpv.*".to_string()]));
}

// ==================== WorkspaceRuleConfig ====================

#[test]
fn test_workspace_rule_config_minimal() {
    // auto_width may be left out
    let toml = "auto_maximize = true";
    let config: WorkspaceRuleConfig = workspace_rule(&table(toml));
    assert!(config.auto_width.is_empty());
    assert!(!config.auto_tile);
    assert!(!config.auto_fill);
    assert!(config.auto_maximize);
}

#[test]
fn test_workspace_rule_config_auto_width_strings() {
    let toml = r#"auto_width = ["100%", "50%", "33.33%"]"#;
    let config: WorkspaceRuleConfig = workspace_rule(&table(toml));
    assert_eq!(config.auto_width.len(), 3);
    assert_eq!(config.auto_width[0], vec!["100%"]);
    assert_eq!(config.auto_width[1], vec!["50%"]);
    assert_eq!(config.auto_width[2], vec!["33.33%"]);
}

#[test]
fn test_workspace_rule_config_auto_width_nested() {
    let toml = r#"auto_width = ["100%", ["45%", "55%"], "33.33%"]"#;
    let config: WorkspaceRuleConfig = workspace_rule(&table(toml));
    assert_eq!(config.auto_width.len(), 3);
    assert_eq!(config.auto_width[0], vec!["100%"]);
    assert_eq!(config.auto_width[1], vec!["45%", "55%"]);
    assert_eq!(config.auto_width[2], vec!["33.33%"]);
}

#[test]
fn test_workspace_rule_config_auto_width_deep_nested() {
    let toml = r#"auto_width = ["100%", "50%", ["30%", "35%", "35%"]]"#;
    let config: WorkspaceRuleConfig = workspace_rule(&table(toml));
    assert_eq!(config.auto_width.len(), 3);
    assert_eq!(config.auto_width[2], vec!["30%", "35%", "35%"]);
}

#[test]
fn test_workspace_rule_config_auto_tile_and_fill() {
    let toml = r#"
auto_tile = true
auto_fill = true
"#;
    let config: WorkspaceRuleConfig = workspace_rule(&table(toml));
    assert!(config.auto_tile);
    assert!(config.auto_fill);
}

// ==================== WorkspaceRuleSection ====================

#[test]
fn test_workspace_rule_section_default() {
    let config: WorkspaceRuleSection = WorkspaceRuleSection::default();
    assert!(config.auto_width.is_empty());
    assert!(!config.auto_tile);
    assert!(!config.auto_fill);
    assert!(!config.auto_maximize);
}

#[test]
fn test_workspace_rule_section_custom() {
    let toml = r#"
auto_width = ["100%", "50%"]
auto_maximize = true
"#;
    let config: WorkspaceRuleSection = workspace_section(&table(toml));
    assert_eq!(config.auto_width.len(), 2);
    assert!(config.auto_maximize);
    let copy = config.clone();
    assert_eq!(format!("{config:?}"), format!("{copy:?}"));
}

// ==================== EdgePulseConfig ====================

#[test]
fn test_edge_pulse_config_default() {
    let config: EdgePulseConfig = EdgePulseConfig::default();
    assert!(!config.enabled);
    assert!(config.show_left);
    assert!(config.show_right);
    assert_eq!(config.width, 14);
    assert!((as_f64(config.height_ratio) - 0.42).abs() < f64::EPSILON);
    assert_eq!(config.left_gradient_start, "#68d8ff");
    assert_eq!(config.left_gradient_end, "#1f4fff");
    assert_eq!(config.right_gradient_start, "#ffd36a");
    assert_eq!(config.right_gradient_end, "#ff7a1f");
    assert!((as_f64(config.alpha) - 0.85).abs() < f64::EPSILON);
    assert!(!config.animation_enabled);
    assert_eq!(config.animation_style, "pulse");
    assert!((as_f64(config.animation_duration) - 600.0).abs() < f64::EPSILON);
    assert!((as_f64(config.animation_amplitude) - 0.8).abs() < f64::EPSILON);
    assert_eq!(config.animation_repeat, 3);
}

#[test]
fn default_fractions_are_the_nearest_ones() {
    let config = EdgePulseConfig::default();
    assert_eq!(config.height_ratio, bits(0.42));
    assert_eq!(config.alpha, bits(0.85));
    assert_eq!(config.animation_duration, bits(600.0));
    assert_eq!(config.animation_amplitude, bits(0.8));
}

#[test]
fn test_edge_pulse_config_custom() {
    let toml = "\
enabled = true
show_left = false
show_right = false
width = 20
height_ratio = 0.5
left_gradient_start = \"#ff0000\"
left_gradient_end = \"#00ff00\"
right_gradient_start = \"#0000ff\"
right_gradient_end = \"#ffff00\"
alpha = 1.0
animation_enabled = true
animation_style = \"fade\"
animation_duration = 300.0
animation_amplitude = 0.5
animation_repeat = 0
";
    let config: EdgePulseConfig = edge_pulse(&table(toml)).clone();
    assert!(config.enabled);
    assert!(!config.show_left);
    assert!(!config.show_right);
    assert_eq!(config.width, 20);
    assert!((as_f64(config.height_ratio) - 0.5).abs() < f64::EPSILON);
    assert_eq!(config.left_gradient_start, "#ff0000");
    assert_eq!(config.animation_style, "fade");
    assert_eq!(config.animation_repeat, 0);
}

// ==================== PiriConfig ====================

#[test]
fn test_piri_config_default() {
    let config: PiriConfig = PiriConfig::default();
    assert!(config.swallow.use_pid_matching);
    assert!(!config.mark.refocus);
}

// ==================== Config (root) ====================

#[test]
fn test_config_empty() {
    let config: Config = Config::default();
    assert!(config.scratchpads.is_empty());
    assert!(config.empty.is_empty());
    assert!(config.window_rule.is_empty());
    assert!(config.window_order.is_empty());
    assert!(config.swallow.is_empty());
    assert!(config.workspace_rule.is_empty());
}

fn root(table: &toml::Table) -> Config {
    let mut config = Config::default();
    config.niri = niri(&subtable(table, "niri"));
    let piri = subtable(table, "piri");
    config.piri.plugins = plugins(&subtable(&piri, "plugins"));
    config.piri.workspace_rule = workspace_section(&subtable(&piri, "workspace_rule"));
    for (name, v) in &subtable(table, "scratchpads") {
        let pad = ScratchpadConfig::try_from(v.as_table().unwrap().clone()).unwrap();
        config.scratchpads.insert(name.clone(), pad);
    }
    for (name, v) in &subtable(table, "empty") {
        let command = text(v.as_table().unwrap(), "command").unwrap();
        config
            .empty
            .insert(name.clone(), EmptyWorkspaceConfig { command });
    }
    for (name, v) in &subtable(table, "singleton") {
        config
            .singleton
            .insert(name.clone(), singleton(v.as_table().unwrap()));
    }
    if let Some(rules) = table.get("window_rule") {
        for rule in rules.as_array().unwrap() {
            config.window_rule.push(window_rule(rule.as_table().unwrap()));
        }
    }
    for (name, v) in &subtable(table, "window_order") {
        config
            .window_order
            .insert(name.clone(), v.as_integer().unwrap() as u32);
    }
    if let Some(rules) = table.get("swallow") {
        for rule in rules.as_array().unwrap() {
            config.swallow.push(swallow_rule(rule.as_table().unwrap()));
        }
    }
    for (name, v) in &subtable(table, "workspace_rule") {
        config
            .workspace_rule
            .insert(name.clone(), workspace_rule(v.as_table().unwrap()));
    }
    config
}

#[test]
fn test_config_full_minimal() {
    let toml = r#"
[niri]
socket_path = "/tmp/niri"

[piri.plugins]
scratchpads = true

[scratchpads.term]
direction = "fromRight"
command = "ghostty"
app_id = "float.term"
size = "40% 60%"
margin = 50

[empty.1]
command = "notify-send empty"

[singleton.browser]
command = "google-chrome"

[[window_rule]]
app_id = "firefox"
open_on_workspace = "2"

[window_order]
firefox = 100

[[swallow]]
child_app_id = ".*chrome.*"
parent_app_id = ".*ghostty.*"

[workspace_rule.main]
auto_width = ["100%", "50%"]
"#;
    let config: Config = root(&table(toml));
    assert_eq!(config.niri.socket_path.as_deref(), Some("/tmp/niri"));
    assert!(config.scratchpads.contains_key("term"));
    assert!(config.empty.contains_key("1"));
    assert!(config.singleton.contains_key("browser"));
    assert_eq!(config.window_rule.len(), 1);
    assert_eq!(config.window_order.get("firefox"), Some(&100));
    assert_eq!(config.swallow.len(), 1);
    assert!(config.workspace_rule.contains_key("main"));
}

// ==================== One string or many ====================

#[test]
fn test_deserialize_string_or_vec_string() {
    let toml = r#"
app_id = "firefox"
open_on_workspace = "2"
"#;
    let config: WindowRuleConfig = window_rule(&table(toml));
    assert_eq!(config.app_id, Some(vec!["firefox".to_string()]));
}

#[test]
fn test_deserialize_string_or_vec_vec() {
    let toml = r#"
app_id = ["firefox", "chromium"]
open_on_workspace = "2"
"#;
    let config: WindowRuleConfig = window_rule(&table(toml));
    assert_eq!(
        config.app_id,
        Some(vec!["firefox".to_string(), "chromium".to_string()])
    );
}

#[test]
fn test_deserialize_string_or_vec_none() {
    let toml = r#"
open_on_workspace = "2"
"#;
    let config: WindowRuleConfig = window_rule(&table(toml));
    assert!(config.app_id.is_none());
}

// ==================== Widths ====================

#[test]
fn test_auto_width_single_string() {
    let toml = r#"auto_width = ["100%"]"#;
    let config: WorkspaceRuleConfig = workspace_rule(&table(toml));
    assert_eq!(config.auto_width, vec![vec!["100%"]]);
}

#[test]
fn test_auto_width_mixed() {
    let toml = r#"auto_width = ["100%", ["45%", "55%"]]"#;
    let config: WorkspaceRuleConfig = workspace_rule(&table(toml));
    assert_eq!(config.auto_width, vec![vec!["100%"], vec!["45%", "55%"]]);
}

#[test]
fn test_auto_width_empty() {
    let toml = "auto_maximize = true";
    let config: WorkspaceRuleConfig = workspace_rule(&table(toml));
    assert!(config.auto_width.is_empty());
}

// ==================== Scratchpads from tables ====================

fn pad() -> toml::Table {
    let mut table = toml::Table::new();
    table.insert("direction".into(), "fromRight".into());
    table.insert("command".into(), "ghostty".into());
    table.insert("app_id".into(), "float.term".into());
    table.insert("size".into(), "40% 60%".into());
    table.insert("margin".into(), 50i64.into());
    table
}

#[test]
fn test_scratchpad_try_from_table() {
    let mut table = pad();
    table.insert("swallow_to_focus".into(), true.into());
    table.insert("sticky".into(), false.into());
    table.insert("auto_hide_on_focus_loss".into(), false.into());
    table.insert("refocus".into(), false.into());

    let config = ScratchpadConfig::try_from(table).unwrap();
    assert_eq!(config.direction, Direction::Right);
    assert!(config.swallow_to_focus);
}

#[test]
fn test_scratchpad_try_from_sticky_conflict() {
    let mut table = pad();
    table.insert("sticky".into(), true.into());
    table.insert("auto_hide_on_focus_loss".into(), true.into());

    assert_eq!(
        ScratchpadConfig::try_from(table).unwrap_err(),
        ScratchpadError::StickyAutoHide
    );
}

#[test]
fn missing_scratchpad_entries_are_reported_in_order() {
    let without = |keys: &[&str]| {
        let mut table = pad();
        for key in keys {
            table.remove(*key);
        }
        ScratchpadConfig::try_from(table).unwrap_err()
    };
    assert_eq!(
        without(&["direction", "command"]),
        ScratchpadError::MissingDirection
    );
    assert_eq!(
        without(&["command", "size"]),
        ScratchpadError::MissingCommand
    );
    assert_eq!(without(&["size", "margin"]), ScratchpadError::MissingSize);
    assert_eq!(
        without(&["margin", "app_id"]),
        ScratchpadError::MissingMargin
    );
    assert_eq!(without(&["app_id"]), ScratchpadError::MissingAppId);
    let mut wrong = pad();
    wrong.insert("direction".into(), "up".into());
    wrong.remove("command");
    match ScratchpadConfig::try_from(wrong).unwrap_err() {
        ScratchpadError::Direction(e) => {
            assert_eq!(e.name, "up");
            assert_eq!(
                ScratchpadError::Direction(e).message(),
                "Invalid direction: up. Must be one of: fromTop, fromBottom, fromLeft, fromRight"
            );
        }
        other => panic!("{other:?}"),
    }
}

#[test]
fn entries_of_another_kind_count_as_missing() {
    let mut table = pad();
    table.insert("margin".into(), "50".into());
    assert_eq!(
        ScratchpadConfig::try_from(table).unwrap_err(),
        ScratchpadError::MissingMargin
    );
    let mut table = pad();
    table.insert("command".into(), 7i64.into());
    assert_eq!(
        ScratchpadConfig::try_from(table).unwrap_err(),
        ScratchpadError::MissingCommand
    );
    let mut table = pad();
    table.insert("sticky".into(), "yes".into());
    table.insert("auto_hide_on_focus_loss".into(), true.into());
    assert!(!ScratchpadConfig::try_from(table).unwrap().sticky);
}

#[test]
fn margins_wrap() {
    for (margin, wrapped) in [
        (-1i64, u32::MAX),
        (0x1_0000_0005, 5),
        (0xffff_ffff, 0xffff_ffff),
        (i64::MIN, 0),
    ] {
        let mut table = pad();
        table.insert("margin".into(), margin.into());
        assert_eq!(ScratchpadConfig::try_from(table).unwrap().margin, wrapped);
    }
}

// ==================== Workspace rules with indicators ====================

#[test]
fn test_workspace_rule_with_edge_pulse() {
    let full_toml = r#"
[workspace_rule.main]
auto_width = ["100%", "50%"]

[workspace_rule.main.edge_pulse]
enabled = true
width = 20
"#;
    let config: Config = root(&table(full_toml));
    let rule = config.workspace_rule.get("main").unwrap();
    assert!(rule.edge_pulse.enabled);
    assert_eq!(rule.edge_pulse.width, 20);
}

#[test]
fn test_piri_workspace_rule_with_edge_pulse() {
    let full_toml = r#"
[piri.workspace_rule]
auto_width = ["100%", "50%"]

[piri.workspace_rule.edge_pulse]
enabled = true
width = 20
"#;
    let config: Config = root(&table(full_toml));
    assert!(config.piri.workspace_rule.edge_pulse.enabled);
    assert_eq!(config.piri.workspace_rule.edge_pulse.width, 20);
}
