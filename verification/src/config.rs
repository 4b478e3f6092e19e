//! Configuration: sections, their defaults, and the rules for reading them.

use std::collections::HashMap;

use vstd::prelude::*;
use vstd::string::*;

use crate::text::{
    copy_opt_text, copy_opt_texts, copy_texts, is_float_numeral, same_text, split_words,
    strip_suffix,
};
use crate::text::{
    blanks_separate_words, float_numeral, last_character_is_taken_off, opt_text, opt_texts,
    text_without_blanks_is_one_word, texts, white, without_suffix, words,
};
use crate::toml_table::{
    boolean_entry, get_boolean, get_integer, get_text, integer_entry, table_booleans,
    table_integers, table_texts, text_entry,
};

verus! {

/// A double-precision number, held by its IEEE 754 bit pattern.
///
/// The library carries such numbers from the configuration or the compositor
/// to whoever computes with them; it never computes with them itself.
#[derive(Debug, Clone, Copy, PartialEq, Eq)]
pub struct FloatBits {
    pub bits: u64,
}

// ------------------------------------------------------------------ Direction

/// Direction from which the scratchpad appears
#[derive(Debug, Clone, Copy, PartialEq, Eq, Structural)]
pub enum Direction {
    Top,
    Bottom,
    Left,
    Right,
}

/// A text that names no direction.
#[derive(Debug, Clone, PartialEq, Eq)]
pub struct InvalidDirection {
    pub name: String,
}

impl InvalidDirection {
    /// What is said of a text that names no direction.
    pub open spec fn text(self) -> Seq<char> {
        "Invalid direction: "@ + self.name@
            + ". Must be one of: fromTop, fromBottom, fromLeft, fromRight"@
    }

    /// Says what is wrong.
    pub fn message(&self) -> (r: String)
        ensures
            r@ == self.text(),
    {
        let mut r: String = "Invalid direction: ".to_owned();
        r.append(self.name.as_str());
        r.append(". Must be one of: fromTop, fromBottom, fromLeft, fromRight");
        r
    }
}

/// The direction that a text names.
pub open spec fn direction_named(s: Seq<char>) -> Option<Direction> {
    if s == "fromTop"@ {
        Some(Direction::Top)
    } else if s == "fromBottom"@ {
        Some(Direction::Bottom)
    } else if s == "fromLeft"@ {
        Some(Direction::Left)
    } else if s == "fromRight"@ {
        Some(Direction::Right)
    } else {
        None
    }
}

impl Direction {
    /// The name of a direction.
    pub open spec fn name(self) -> Seq<char> {
        match self {
            Direction::Top => "fromTop"@,
            Direction::Bottom => "fromBottom"@,
            Direction::Left => "fromLeft"@,
            Direction::Right => "fromRight"@,
        }
    }

    /// Reads the name of a direction.
    pub fn parse(s: &str) -> (r: Result<Direction, InvalidDirection>)
        ensures
            match r {
                Ok(d) => direction_named(s@) == Some(d),
                Err(e) => direction_named(s@) is None && e.name@ == s@,
            },
    {
        if same_text(s, "fromTop") {
            Ok(Direction::Top)
        } else if same_text(s, "fromBottom") {
            Ok(Direction::Bottom)
        } else if same_text(s, "fromLeft") {
            Ok(Direction::Left)
        } else if same_text(s, "fromRight") {
            Ok(Direction::Right)
        } else {
            Err(InvalidDirection { name: s.to_owned() })
        }
    }

    /// Convert Direction to string
    pub fn as_str(&self) -> (r: &'static str)
        ensures
            r@ == self.name(),
    {
        match self {
            Direction::Top => "fromTop",
            Direction::Bottom => "fromBottom",
            Direction::Left => "fromLeft",
            Direction::Right => "fromRight",
        }
    }
}

impl std::str::FromStr for Direction {
    type Err = InvalidDirection;

    fn from_str(s: &str) -> (r: Result<Direction, InvalidDirection>)
        ensures
            match r {
                Ok(d) => direction_named(s@) == Some(d),
                Err(e) => direction_named(s@) is None && e.name@ == s@,
            },
    {
        Direction::parse(s)
    }
}

/// Reading the name of a direction gives the direction back.
pub proof fn direction_round_trip(d: Direction)
    ensures
        direction_named(d.name()) == Some(d),
{
    reveal_strlit("fromTop");
    reveal_strlit("fromBottom");
    reveal_strlit("fromLeft");
    reveal_strlit("fromRight");
    assert("fromTop"@.len() == 7);
    assert("fromBottom"@.len() == 10);
    assert("fromLeft"@.len() == 8);
    assert("fromRight"@.len() == 9);
}

/// A text names a direction only if it is exactly the name of that direction.
pub proof fn direction_named_only_by_its_name(s: Seq<char>)
    ensures
        direction_named(s) matches Some(d) ==> d.name() == s,
{
}

// ------------------------------------------------------------ Plain sections

/// Ordering of windows by weight.
#[derive(Debug, Clone)]
pub struct WindowOrderSection {
    pub enable_event_listener: bool,
    pub default_weight: u32,
    pub workspaces: Vec<String>,
}

pub fn default_enable_event_listener() -> (r: bool)
    ensures
        !r,
{
    false
}

pub fn default_window_order_weight() -> (r: u32)
    ensures
        r == 0,
{
    0
}

impl Default for WindowOrderSection {
    fn default() -> (r: Self)
        ensures
            !r.enable_event_listener,
            r.default_weight == 0,
            r.workspaces@ == Seq::<String>::empty(),
    {
        WindowOrderSection {
            enable_event_listener: default_enable_event_listener(),
            default_weight: default_window_order_weight(),
            workspaces: Vec::new(),
        }
    }
}

/// Which child window is swallowed by which parent window.
#[derive(Debug, Clone)]
pub struct SwallowRule {
    pub child_app_id: Option<Vec<String>>,
    pub child_title: Option<Vec<String>>,
    pub parent_app_id: Option<Vec<String>>,
    pub parent_title: Option<Vec<String>>,
}

/// Windows that are never swallowed.
#[derive(Debug, Clone)]
pub struct SwallowExclude {
    pub app_id: Option<Vec<String>>,
    pub title: Option<Vec<String>>,
}

#[derive(Debug, Clone)]
pub struct SwallowSection {
    pub rules: Vec<SwallowRule>,
    pub use_pid_matching: bool,
    /// Re-check swallow rules when a window's title or app_id changes
    /// (e.g. Firefox extension windows that set their real title after opening).
    pub swallow_on_change: bool,
    pub exclude: Option<SwallowExclude>,
}

pub fn default_true() -> (r: bool)
    ensures
        r,
{
    true
}

impl Default for SwallowSection {
    fn default() -> (r: Self)
        ensures
            r.rules@ == Seq::<SwallowRule>::empty(),
            r.use_pid_matching,
            !r.swallow_on_change,
            r.exclude is None,
    {
        SwallowSection {
            rules: Vec::new(),
            use_pid_matching: default_true(),
            swallow_on_change: false,
            exclude: None,
        }
    }
}

#[derive(Debug, Clone)]
pub struct NiriConfig {
    /// Path to niri socket (default: $XDG_RUNTIME_DIR/niri or /tmp/niri)
    pub socket_path: Option<String>,
}

impl Default for NiriConfig {
    fn default() -> (r: Self)
        ensures
            r.socket_path is None,
    {
        NiriConfig { socket_path: None }
    }
}

#[derive(Debug, Clone)]
pub struct MarkSection {
    /// If true, toggling a mark that is already focused will return to the previous window
    pub refocus: bool,
}

impl Default for MarkSection {
    fn default() -> (r: Self)
        ensures
            !r.refocus,
    {
        MarkSection { refocus: false }
    }
}

/// Which plugins are switched on.
#[derive(Debug, Clone)]
pub struct PluginsConfig {
    pub scratchpads: Option<bool>,
    pub empty: Option<bool>,
    pub window_rule: Option<bool>,
    pub autofill: Option<bool>,
    pub singleton: Option<bool>,
    pub window_order: Option<bool>,
    pub swallow: Option<bool>,
    pub workspace_rule: Option<bool>,
    pub mark: Option<bool>,
    pub sticky: Option<bool>,
    /// Settings of the plugin for empty workspaces, as that plugin reads them.
    pub empty_config: Option<toml::Value>,
}

impl Default for PluginsConfig {
    fn default() -> (r: Self)
        ensures
            r == (PluginsConfig {
                scratchpads: None,
                empty: None,
                window_rule: None,
                autofill: None,
                singleton: None,
                window_order: None,
                swallow: None,
                workspace_rule: None,
                mark: None,
                sticky: None,
                empty_config: None,
            }),
    {
        PluginsConfig {
            scratchpads: None,
            empty: None,
            window_rule: None,
            autofill: None,
            singleton: None,
            window_order: None,
            swallow: None,
            workspace_rule: None,
            mark: None,
            sticky: None,
            empty_config: None,
        }
    }
}

impl PluginsConfig {
    /// The switch of a plugin: absent where it is not set or where no plugin
    /// with a switch has that name.
    pub open spec fn switch(self, name: Seq<char>) -> Option<bool> {
        if name == "scratchpads"@ {
            self.scratchpads
        } else if name == "empty"@ {
            self.empty
        } else if name == "window_rule"@ {
            self.window_rule
        } else if name == "singleton"@ {
            self.singleton
        } else if name == "window_order"@ {
            self.window_order
        } else if name == "swallow"@ {
            self.swallow
        } else if name == "workspace_rule"@ {
            self.workspace_rule
        } else if name == "mark"@ {
            self.mark
        } else if name == "sticky"@ {
            self.sticky
        } else {
            None
        }
    }

    /// Whether the plugin of that name is switched on.
    pub fn is_enabled(&self, name: &str) -> (r: bool)
        ensures
            r == (self.switch(name@) == Some(true)),
    {
        if same_text(name, "scratchpads") {
            self.scratchpads.unwrap_or(false)
        } else if same_text(name, "empty") {
            self.empty.unwrap_or(false)
        } else if same_text(name, "window_rule") {
            self.window_rule.unwrap_or(false)
        } else if same_text(name, "singleton") {
            self.singleton.unwrap_or(false)
        } else if same_text(name, "window_order") {
            self.window_order.unwrap_or(false)
        } else if same_text(name, "swallow") {
            self.swallow.unwrap_or(false)
        } else if same_text(name, "workspace_rule") {
            self.workspace_rule.unwrap_or(false)
        } else if same_text(name, "mark") {
            self.mark.unwrap_or(false)
        } else if same_text(name, "sticky") {
            self.sticky.unwrap_or(false)
        } else {
            false
        }
    }
}

#[derive(Debug, Clone)]
pub struct EmptyWorkspaceConfig {
    /// Command to execute when switching to this empty workspace
    pub command: String,
}

#[derive(Debug, Clone)]
pub struct SingletonConfig {
    /// Command to execute the application (can hold environment variables and arguments)
    pub command: String,
    /// Optional app_id pattern to match windows (if not specified, extracted from command)
    pub app_id: Option<String>,
    /// Optional command to execute after the window is created (only executed when window is newly created)
    pub on_created_command: Option<String>,
}

// -------------------------------------------------------- One string or many

/// A setting written as one string or as a list of strings.
#[derive(Debug, Clone)]
pub enum StringOrVec {
    String(String),
    Vec(Vec<String>),
}

impl StringOrVec {
    /// The strings that the setting stands for.
    pub open spec fn strings(self) -> Seq<String> {
        match self {
            StringOrVec::String(s) => seq![s],
            StringOrVec::Vec(v) => v@,
        }
    }

    /// The setting as a list.
    pub fn into_vec(self) -> (r: Vec<String>)
        ensures
            r@ == self.strings(),
    {
        match self {
            StringOrVec::String(s) => {
                let r = vec![s];
                assert(r@ =~= seq![s]);
                r
            },
            StringOrVec::Vec(v) => v,
        }
    }
}

/// The patterns of a setting that may be left out.
pub fn patterns_of(setting: Option<StringOrVec>) -> (r: Option<Vec<String>>)
    ensures
        match setting {
            Some(s) => r matches Some(v) && v@ == s.strings(),
            None => r is None,
        },
{
    match setting {
        Some(s) => Some(s.into_vec()),
        None => None,
    }
}

/// The widths for one number of columns: one string for all columns, or one
/// string for each. This allows both "50%" and ["45%", "55%"] formats
#[derive(Debug, Clone)]
pub enum WidthValue {
    String(String),
    Vec(Vec<String>),
}

impl WidthValue {
    /// The widths that the setting stands for.
    pub open spec fn strings(self) -> Seq<String> {
        match self {
            WidthValue::String(s) => seq![s],
            WidthValue::Vec(v) => v@,
        }
    }

    /// Convert to Vec<String>, expanding single string to vec
    pub fn into_vec(self) -> (r: Vec<String>)
        ensures
            r@ == self.strings(),
    {
        match self {
            WidthValue::String(s) => {
                let r = vec![s];
                assert(r@ =~= seq![s]);
                r
            },
            WidthValue::Vec(v) => v,
        }
    }
}

/// The rows of an auto_width setting.
/// Handles nested arrays: ["100%", "50%"] or ["100%", ["45%", "55%"]]
pub fn auto_width_rows(values: Vec<WidthValue>) -> (r: Vec<Vec<String>>)
    ensures
        r@.len() == values@.len(),
        forall|i: int| 0 <= i < r@.len() ==> (#[trigger] r@[i])@ == values@[i].strings(),
{
    let mut out: Vec<Vec<String>> = Vec::new();
    for v in it: values
        invariant
            it.seq() == values@,
            out@.len() == it.index(),
            forall|i: int| 0 <= i < out@.len() ==> (#[trigger] out@[i])@ == values@[i].strings(),
    {
        out.push(v.into_vec());
    }
    out
}


// ------------------------------------------------------------- Window rules

/// Window rule configuration
#[derive(Debug)]
pub struct WindowRuleConfig {
    /// Regex pattern(s) to match app_id (optional, can be a string or list of strings)
    pub app_id: Option<Vec<String>>,
    /// Regex pattern(s) to match title (optional, can be a string or list of strings)
    pub title: Option<Vec<String>>,
    /// Workspace to move matching windows to (name or idx, optional if another action is specified)
    pub open_on_workspace: Option<String>,
    /// Whether to move the matching window to the floating or tiling layer
    pub floating: Option<bool>,
    /// Fixed width to apply after moving a window to the floating layer
    pub floating_width: Option<u32>,
    /// Fixed height to apply after moving a window to the floating layer
    pub floating_height: Option<u32>,
    /// Reset the height to automatic after moving a window to the floating layer
    pub floating_reset_height: bool,
    /// Center the window after moving it to the floating layer
    pub floating_centered: bool,
    /// Command to execute when a matching window is focused (optional)
    pub focus_command: Option<String>,
    /// If true, focus_command will only execute on the first focus (default: false)
    pub focus_command_once: bool,
}

/// What a window rule says.
#[verifier::ext_equal]
pub struct WindowRuleView {
    pub app_id: Option<Seq<Seq<char>>>,
    pub title: Option<Seq<Seq<char>>>,
    pub open_on_workspace: Option<Seq<char>>,
    pub floating: Option<bool>,
    pub floating_width: Option<u32>,
    pub floating_height: Option<u32>,
    pub floating_reset_height: bool,
    pub floating_centered: bool,
    pub focus_command: Option<Seq<char>>,
    pub focus_command_once: bool,
}

impl View for WindowRuleConfig {
    type V = WindowRuleView;

    open spec fn view(&self) -> WindowRuleView {
        WindowRuleView {
            app_id: opt_texts(self.app_id),
            title: opt_texts(self.title),
            open_on_workspace: opt_text(self.open_on_workspace),
            floating: self.floating,
            floating_width: self.floating_width,
            floating_height: self.floating_height,
            floating_reset_height: self.floating_reset_height,
            floating_centered: self.floating_centered,
            focus_command: opt_text(self.focus_command),
            focus_command_once: self.focus_command_once,
        }
    }
}

impl Clone for WindowRuleConfig {
    fn clone(&self) -> (r: Self)
        ensures
            r@ == self@,
    {
        WindowRuleConfig {
            app_id: copy_opt_texts(&self.app_id),
            title: copy_opt_texts(&self.title),
            open_on_workspace: copy_opt_text(&self.open_on_workspace),
            floating: self.floating,
            floating_width: self.floating_width,
            floating_height: self.floating_height,
            floating_reset_height: self.floating_reset_height,
            floating_centered: self.floating_centered,
            focus_command: copy_opt_text(&self.focus_command),
            focus_command_once: self.focus_command_once,
        }
    }
}

/// What each rule in a row says.
pub open spec fn rule_views(rules: Seq<WindowRuleConfig>) -> Seq<WindowRuleView> {
    rules.map_values(|r: WindowRuleConfig| r@)
}

/// Copies a row of window rules.
pub fn copy_rules(rules: &Vec<WindowRuleConfig>) -> (r: Vec<WindowRuleConfig>)
    ensures
        rule_views(r@) == rule_views(rules@),
{
    let r = rules.clone();
    assert forall|i: int| 0 <= i < rules@.len() implies (#[trigger] r@[i])@ == rules@[i]@ by {
        assert(cloned::<WindowRuleConfig>(rules@[i], r@[i]));
    }
    assert(rule_views(r@) =~= rule_views(rules@));
    r
}

// -------------------------------------------------------------- Scratchpads

#[derive(Debug, Clone)]
pub struct ScratchpadDefaults {
    /// Default size for dynamically added scratchpads (e.g., "40% 60%")
    pub default_size: String,
    /// Default margin for dynamically added scratchpads (pixels)
    pub default_margin: u32,
    /// Optional workspace to move scratchpads to when hidden
    pub move_to_workspace: Option<String>,
    /// Tile scratchpad windows into scrolling columns when hidden in target workspace
    pub tile_in_target_workspace: bool,
}

pub fn default_size() -> (r: String)
    ensures
        r@ == "75% 60%"@,
{
    "75% 60%".to_owned()
}

pub fn default_margin() -> (r: u32)
    ensures
        r == 50,
{
    50
}

impl Default for ScratchpadDefaults {
    fn default() -> (r: Self)
        ensures
            r.default_size@ == "75% 60%"@,
            r.default_margin == 50,
            r.move_to_workspace is None,
            !r.tile_in_target_workspace,
    {
        ScratchpadDefaults {
            default_size: default_size(),
            default_margin: default_margin(),
            move_to_workspace: None,
            tile_in_target_workspace: false,
        }
    }
}

#[derive(Debug, Clone)]
pub struct ScratchpadConfig {
    /// Direction from which the scratchpad appears
    pub direction: Direction,
    /// Command to execute the application (can hold environment variables and arguments)
    pub command: String,
    /// Explicit app_id to match windows (required)
    pub app_id: String,
    /// Size of the scratchpad (e.g., "75% 60%")
    pub size: String,
    /// Margin from the edge in pixels
    pub margin: u32,
    /// If true, swallow the scratchpad window to the focused window when shown
    pub swallow_to_focus: bool,
    /// If true, scratchpad will follow the focused workspace (delegated to sticky plugin)
    pub sticky: bool,
    /// If true, scratchpad will automatically hide when it loses focus
    pub auto_hide_on_focus_loss: bool,
    /// If true, when the scratchpad is visible and focused, toggle will refocus to the previous window
    pub refocus: bool,
    /// Optional per-scratchpad target workspace to move to when hidden
    pub move_to_workspace: Option<String>,
    /// Optional per-scratchpad override for tiling in target workspace
    pub tile_in_target_workspace: Option<bool>,
}

/// What is wrong with a size such as "75% 60%".
#[derive(Debug, Clone, Copy, PartialEq, Eq, Structural)]
pub enum SizeError {
    /// It does not have two parts.
    PartCount,
    /// The width does not end with a percent sign.
    WidthSuffix,
    /// The width is no number.
    WidthNumber,
    /// The height does not end with a percent sign.
    HeightSuffix,
    /// The height is no number.
    HeightNumber,
}

/// What is wrong with a percentage such as "75%".
#[derive(Debug, Clone, Copy, PartialEq, Eq, Structural)]
pub enum PercentError {
    /// It does not end with a percent sign.
    Suffix,
    /// What stands before the percent sign is no number.
    Number,
}

/// What is wrong with a percentage, if anything.
pub open spec fn percent_fault(s: Seq<char>) -> Option<PercentError> {
    match without_suffix(s, '%') {
        None => Some(PercentError::Suffix),
        Some(n) => if float_numeral(n) {
            None
        } else {
            Some(PercentError::Number)
        },
    }
}

/// The numeral of a percentage.
pub fn percent_numeral<'a>(s: &'a str) -> (r: Result<&'a str, PercentError>)
    ensures
        match r {
            Ok(n) => percent_fault(s@) is None && without_suffix(s@, '%') == Some(n@),
            Err(e) => percent_fault(s@) == Some(e),
        },
{
    match strip_suffix(s, '%') {
        None => Err(PercentError::Suffix),
        Some(n) => {
            if is_float_numeral(n) {
                Ok(n)
            } else {
                Err(PercentError::Number)
            }
        },
    }
}

/// What is wrong with a size, if anything.
pub open spec fn size_fault(size: Seq<char>) -> Option<SizeError> {
    let w = words(size);
    if w.len() != 2 {
        Some(SizeError::PartCount)
    } else {
        match (percent_fault(w[0]), percent_fault(w[1])) {
            (Some(PercentError::Suffix), _) => Some(SizeError::WidthSuffix),
            (Some(PercentError::Number), _) => Some(SizeError::WidthNumber),
            (None, Some(PercentError::Suffix)) => Some(SizeError::HeightSuffix),
            (None, Some(PercentError::Number)) => Some(SizeError::HeightNumber),
            (None, None) => None,
        }
    }
}

impl ScratchpadConfig {
    /// Parse size string (e.g., "75% 60%") into the numerals of the width and
    /// height percentages
    pub fn parse_size<'a>(&'a self) -> (r: Result<(&'a str, &'a str), SizeError>)
        ensures
            match r {
                Ok(p) => {
                    &&& size_fault(self.size@) is None
                    &&& words(self.size@)[0] == p.0@.push('%')
                    &&& words(self.size@)[1] == p.1@.push('%')
                },
                Err(e) => size_fault(self.size@) == Some(e),
            },
    {
        let parts = split_words(self.size.as_str());
        let ghost seen = parts@.map_values(|w: &str| w@);
        assert(seen == words(self.size@));
        if parts.len() != 2 {
            return Err(SizeError::PartCount);
        }
        assert(seen[0] == parts@[0]@);
        assert(seen[1] == parts@[1]@);
        let width = match percent_numeral(parts[0]) {
            Ok(n) => n,
            Err(PercentError::Suffix) => return Err(SizeError::WidthSuffix),
            Err(PercentError::Number) => return Err(SizeError::WidthNumber),
        };
        let height = match percent_numeral(parts[1]) {
            Ok(n) => n,
            Err(PercentError::Suffix) => return Err(SizeError::HeightSuffix),
            Err(PercentError::Number) => return Err(SizeError::HeightNumber),
        };
        assert(seen[0] =~= width@.push('%'));
        assert(seen[1] =~= height@.push('%'));
        Ok((width, height))
    }
}

/// The entries of a scratchpad table, as far as each is there and of its kind.
#[derive(Debug, Clone)]
pub struct ScratchpadFields {
    pub direction: Option<String>,
    pub command: Option<String>,
    pub app_id: Option<String>,
    pub size: Option<String>,
    pub margin: Option<i64>,
    pub swallow_to_focus: Option<bool>,
    pub sticky: Option<bool>,
    pub auto_hide_on_focus_loss: Option<bool>,
    pub refocus: Option<bool>,
    pub move_to_workspace: Option<String>,
    pub tile_in_target_workspace: Option<bool>,
}

/// What the entries of a scratchpad table say.
#[verifier::ext_equal]
pub struct ScratchpadFieldsView {
    pub direction: Option<Seq<char>>,
    pub command: Option<Seq<char>>,
    pub app_id: Option<Seq<char>>,
    pub size: Option<Seq<char>>,
    pub margin: Option<i64>,
    pub swallow_to_focus: Option<bool>,
    pub sticky: Option<bool>,
    pub auto_hide_on_focus_loss: Option<bool>,
    pub refocus: Option<bool>,
    pub move_to_workspace: Option<Seq<char>>,
    pub tile_in_target_workspace: Option<bool>,
}

impl View for ScratchpadFields {
    type V = ScratchpadFieldsView;

    open spec fn view(&self) -> ScratchpadFieldsView {
        ScratchpadFieldsView {
            direction: opt_text(self.direction),
            command: opt_text(self.command),
            app_id: opt_text(self.app_id),
            size: opt_text(self.size),
            margin: self.margin,
            swallow_to_focus: self.swallow_to_focus,
            sticky: self.sticky,
            auto_hide_on_focus_loss: self.auto_hide_on_focus_loss,
            refocus: self.refocus,
            move_to_workspace: opt_text(self.move_to_workspace),
            tile_in_target_workspace: self.tile_in_target_workspace,
        }
    }
}

/// Why a table describes no scratchpad.
#[derive(Debug, Clone, PartialEq, Eq)]
pub enum ScratchpadError {
    MissingDirection,
    Direction(InvalidDirection),
    MissingCommand,
    MissingSize,
    MissingMargin,
    MissingAppId,
    /// 'sticky' and 'auto_hide_on_focus_loss' are both enabled.
    StickyAutoHide,
}

/// The kinds of [`ScratchpadError`].
pub enum ScratchpadFault {
    MissingDirection,
    Direction,
    MissingCommand,
    MissingSize,
    MissingMargin,
    MissingAppId,
    StickyAutoHide,
}

impl ScratchpadError {
    /// The kind of an error.
    pub open spec fn fault(self) -> ScratchpadFault {
        match self {
            ScratchpadError::MissingDirection => ScratchpadFault::MissingDirection,
            ScratchpadError::Direction(_) => ScratchpadFault::Direction,
            ScratchpadError::MissingCommand => ScratchpadFault::MissingCommand,
            ScratchpadError::MissingSize => ScratchpadFault::MissingSize,
            ScratchpadError::MissingMargin => ScratchpadFault::MissingMargin,
            ScratchpadError::MissingAppId => ScratchpadFault::MissingAppId,
            ScratchpadError::StickyAutoHide => ScratchpadFault::StickyAutoHide,
        }
    }

    /// What is said of a table that describes no scratchpad.
    pub open spec fn text(self) -> Seq<char> {
        match self {
            ScratchpadError::MissingDirection => "Missing 'direction' field"@,
            ScratchpadError::Direction(e) => e.text(),
            ScratchpadError::MissingCommand => "Missing 'command' field"@,
            ScratchpadError::MissingSize => "Missing 'size' field"@,
            ScratchpadError::MissingMargin => "Missing 'margin' field"@,
            ScratchpadError::MissingAppId => "Missing 'app_id' field"@,
            ScratchpadError::StickyAutoHide =>
                "'sticky' and 'auto_hide_on_focus_loss' cannot both be enabled for a scratchpad"@,
        }
    }

    /// Says what is wrong.
    pub fn message(&self) -> (r: String)
        ensures
            r@ == self.text(),
    {
        match self {
            ScratchpadError::MissingDirection => "Missing 'direction' field".to_owned(),
            ScratchpadError::Direction(e) => e.message(),
            ScratchpadError::MissingCommand => "Missing 'command' field".to_owned(),
            ScratchpadError::MissingSize => "Missing 'size' field".to_owned(),
            ScratchpadError::MissingMargin => "Missing 'margin' field".to_owned(),
            ScratchpadError::MissingAppId => "Missing 'app_id' field".to_owned(),
            ScratchpadError::StickyAutoHide => {
                "'sticky' and 'auto_hide_on_focus_loss' cannot both be enabled for a scratchpad".to_owned()
            },
        }
    }
}

impl ScratchpadFieldsView {
    /// What keeps the entries from describing a scratchpad: the first of these
    /// that applies.
    pub open spec fn fault(self) -> Option<ScratchpadFault> {
        if self.direction is None {
            Some(ScratchpadFault::MissingDirection)
        } else if direction_named(self.direction->0) is None {
            Some(ScratchpadFault::Direction)
        } else if self.command is None {
            Some(ScratchpadFault::MissingCommand)
        } else if self.size is None {
            Some(ScratchpadFault::MissingSize)
        } else if self.margin is None {
            Some(ScratchpadFault::MissingMargin)
        } else if self.app_id is None {
            Some(ScratchpadFault::MissingAppId)
        } else if self.sticky == Some(true) && self.auto_hide_on_focus_loss == Some(true) {
            Some(ScratchpadFault::StickyAutoHide)
        } else {
            None
        }
    }

    /// Whether a scratchpad is the one that the entries describe. The margin
    /// is taken modulo the range of its type; a switch that is left out is
    /// off.
    pub open spec fn describes(self, c: ScratchpadConfig) -> bool {
        &&& self.direction matches Some(d) && direction_named(d) == Some(c.direction)
        &&& self.command == Some(c.command@)
        &&& self.app_id == Some(c.app_id@)
        &&& self.size == Some(c.size@)
        &&& self.margin matches Some(m) && c.margin as int == m as int % 0x1_0000_0000
        &&& c.swallow_to_focus == (self.swallow_to_focus == Some(true))
        &&& c.sticky == (self.sticky == Some(true))
        &&& c.auto_hide_on_focus_loss == (self.auto_hide_on_focus_loss == Some(true))
        &&& c.refocus == (self.refocus == Some(true))
        &&& opt_text(c.move_to_workspace) == self.move_to_workspace
        &&& c.tile_in_target_workspace == self.tile_in_target_workspace
    }
}

/// The entries of a table that describe a scratchpad.
pub open spec fn scratchpad_entries(
    table: toml::map::Map<String, toml::Value>,
) -> ScratchpadFieldsView {
    ScratchpadFieldsView {
        direction: text_entry(table, "direction"@),
        command: text_entry(table, "command"@),
        app_id: text_entry(table, "app_id"@),
        size: text_entry(table, "size"@),
        margin: integer_entry(table, "margin"@),
        swallow_to_focus: boolean_entry(table, "swallow_to_focus"@),
        sticky: boolean_entry(table, "sticky"@),
        auto_hide_on_focus_loss: boolean_entry(table, "auto_hide_on_focus_loss"@),
        refocus: boolean_entry(table, "refocus"@),
        move_to_workspace: text_entry(table, "move_to_workspace"@),
        tile_in_target_workspace: boolean_entry(table, "tile_in_target_workspace"@),
    }
}

fn wrapped_margin(m: i64) -> (r: u32)
    ensures
        r as int == m as int % 0x1_0000_0000,
{
    let r: u32 = #[verifier::truncate]
    (m as u32);
    assert(m as u32 as i64 == (m & 0xffff_ffff)) by (bit_vector);
    assert((m & 0xffff_ffff) as int == m as int % 0x1_0000_0000) by (bit_vector);
    r
}

impl ScratchpadConfig {
    /// The scratchpad that the entries of a table describe.
    pub fn from_fields(fields: ScratchpadFields) -> (r: Result<ScratchpadConfig, ScratchpadError>)
        ensures
            match r {
                Ok(c) => fields@.fault() is None && fields@.describes(c),
                Err(e) => {
                    &&& fields@.fault() == Some(e.fault())
                    &&& e matches ScratchpadError::Direction(d) ==> Some(d.name@)
                        == fields@.direction
                },
            },
    {
        let direction_name = match fields.direction {
            Some(s) => s,
            None => return Err(ScratchpadError::MissingDirection),
        };
        let direction = match Direction::parse(direction_name.as_str()) {
            Ok(d) => d,
            Err(e) => return Err(ScratchpadError::Direction(e)),
        };
        let command = match fields.command {
            Some(s) => s,
            None => return Err(ScratchpadError::MissingCommand),
        };
        let size = match fields.size {
            Some(s) => s,
            None => return Err(ScratchpadError::MissingSize),
        };
        let margin: u32 = match fields.margin {
            Some(m) => wrapped_margin(m),
            None => return Err(ScratchpadError::MissingMargin),
        };
        let app_id = match fields.app_id {
            Some(s) => s,
            None => return Err(ScratchpadError::MissingAppId),
        };
        let sticky = fields.sticky.unwrap_or(false);
        let auto_hide_on_focus_loss = fields.auto_hide_on_focus_loss.unwrap_or(false);
        if sticky && auto_hide_on_focus_loss {
            return Err(ScratchpadError::StickyAutoHide);
        }
        Ok(
            ScratchpadConfig {
                direction,
                command,
                app_id,
                size,
                margin,
                swallow_to_focus: fields.swallow_to_focus.unwrap_or(false),
                sticky,
                auto_hide_on_focus_loss,
                refocus: fields.refocus.unwrap_or(false),
                move_to_workspace: fields.move_to_workspace,
                tile_in_target_workspace: fields.tile_in_target_workspace,
            },
        )
    }

    /// The scratchpad that a TOML table describes.
    pub fn try_from(table: toml::map::Map<String, toml::Value>) -> (r: Result<
        ScratchpadConfig,
        ScratchpadError,
    >)
        ensures
            match r {
                Ok(c) => {
                    &&& scratchpad_entries(table).fault() is None
                    &&& scratchpad_entries(table).describes(c)
                },
                Err(e) => {
                    &&& scratchpad_entries(table).fault() == Some(e.fault())
                    &&& e matches ScratchpadError::Direction(d) ==> Some(d.name@)
                        == scratchpad_entries(table).direction
                },
            },
    {
        let fields = ScratchpadFields {
            direction: get_text(&table, "direction"),
            command: get_text(&table, "command"),
            app_id: get_text(&table, "app_id"),
            size: get_text(&table, "size"),
            margin: get_integer(&table, "margin"),
            swallow_to_focus: get_boolean(&table, "swallow_to_focus"),
            sticky: get_boolean(&table, "sticky"),
            auto_hide_on_focus_loss: get_boolean(&table, "auto_hide_on_focus_loss"),
            refocus: get_boolean(&table, "refocus"),
            move_to_workspace: get_text(&table, "move_to_workspace"),
            tile_in_target_workspace: get_boolean(&table, "tile_in_target_workspace"),
        };
        assert(fields@ =~= scratchpad_entries(table));
        ScratchpadConfig::from_fields(fields)
    }
}

/// No scratchpad that a table describes is both sticky and hidden when it
/// loses focus.
pub proof fn sticky_never_auto_hides(fields: ScratchpadFieldsView, c: ScratchpadConfig)
    requires
        fields.fault() is None,
        fields.describes(c),
    ensures
        !(c.sticky && c.auto_hide_on_focus_loss),
{
}

// ---------------------------------------------------------- Workspace rules

#[derive(Debug)]
pub struct EdgePulseConfig {
    /// Enable left/right missing-neighbor indicator.
    pub enabled: bool,
    /// Show left-side indicator when there is no left neighbor.
    pub show_left: bool,
    /// Show right-side indicator when there is no right neighbor.
    pub show_right: bool,
    /// Indicator width in pixels.
    pub width: u32,
    /// Indicator height ratio to output height, range 0.0-1.0.
    pub height_ratio: FloatBits,
    /// Gradient start color for left edge.
    pub left_gradient_start: String,
    /// Gradient end color for left edge.
    pub left_gradient_end: String,
    /// Gradient start color for right edge.
    pub right_gradient_start: String,
    /// Gradient end color for right edge.
    pub right_gradient_end: String,
    /// Global alpha 0.0-1.0.
    pub alpha: FloatBits,
    /// Enable animation effect (pulse/fade).
    pub animation_enabled: bool,
    /// Animation style: "pulse" | "fade".
    pub animation_style: String,
    /// Animation duration in milliseconds per cycle.
    pub animation_duration: FloatBits,
    /// Animation amplitude 0.0-1.0, controls intensity.
    pub animation_amplitude: FloatBits,
    /// Number of animation repeats (0 = infinite loop until state changes).
    pub animation_repeat: u32,
}

impl Clone for EdgePulseConfig {
    fn clone(&self) -> (r: Self)
        ensures
            r == *self,
    {
        EdgePulseConfig {
            enabled: self.enabled,
            show_left: self.show_left,
            show_right: self.show_right,
            width: self.width,
            height_ratio: self.height_ratio,
            left_gradient_start: self.left_gradient_start.clone(),
            left_gradient_end: self.left_gradient_end.clone(),
            right_gradient_start: self.right_gradient_start.clone(),
            right_gradient_end: self.right_gradient_end.clone(),
            alpha: self.alpha,
            animation_enabled: self.animation_enabled,
            animation_style: self.animation_style.clone(),
            animation_duration: self.animation_duration,
            animation_amplitude: self.animation_amplitude,
            animation_repeat: self.animation_repeat,
        }
    }
}

pub fn default_edge_pulse_width() -> (r: u32)
    ensures
        r == 14,
{
    14
}

/// 0.42
pub fn default_edge_pulse_height_ratio() -> (r: FloatBits)
    ensures
        r.bits == 0x3fda_e147_ae14_7ae1,
{
    FloatBits { bits: 0x3fda_e147_ae14_7ae1 }
}

/// 0.85
pub fn default_edge_pulse_alpha() -> (r: FloatBits)
    ensures
        r.bits == 0x3feb_3333_3333_3333,
{
    FloatBits { bits: 0x3feb_3333_3333_3333 }
}

pub fn default_animation_style() -> (r: String)
    ensures
        r@ == "pulse"@,
{
    "pulse".to_owned()
}

/// 600.0
pub fn default_animation_duration() -> (r: FloatBits)
    ensures
        r.bits == 0x4082_c000_0000_0000,
{
    FloatBits { bits: 0x4082_c000_0000_0000 }
}

/// 0.8
pub fn default_animation_amplitude() -> (r: FloatBits)
    ensures
        r.bits == 0x3fe9_9999_9999_999a,
{
    FloatBits { bits: 0x3fe9_9999_9999_999a }
}

pub fn default_animation_repeat() -> (r: u32)
    ensures
        r == 3,
{
    3
}

pub fn default_left_start() -> (r: String)
    ensures
        r@ == "#68d8ff"@,
{
    "#68d8ff".to_owned()
}

pub fn default_left_end() -> (r: String)
    ensures
        r@ == "#1f4fff"@,
{
    "#1f4fff".to_owned()
}

pub fn default_right_start() -> (r: String)
    ensures
        r@ == "#ffd36a"@,
{
    "#ffd36a".to_owned()
}

pub fn default_right_end() -> (r: String)
    ensures
        r@ == "#ff7a1f"@,
{
    "#ff7a1f".to_owned()
}

impl EdgePulseConfig {
    /// Whether every setting is the one that holds where nothing is written.
    pub open spec fn is_default(self) -> bool {
        &&& !self.enabled
        &&& self.show_left
        &&& self.show_right
        &&& self.width == 14
        &&& self.height_ratio.bits == 0x3fda_e147_ae14_7ae1
        &&& self.left_gradient_start@ == "#68d8ff"@
        &&& self.left_gradient_end@ == "#1f4fff"@
        &&& self.right_gradient_start@ == "#ffd36a"@
        &&& self.right_gradient_end@ == "#ff7a1f"@
        &&& self.alpha.bits == 0x3feb_3333_3333_3333
        &&& !self.animation_enabled
        &&& self.animation_style@ == "pulse"@
        &&& self.animation_duration.bits == 0x4082_c000_0000_0000
        &&& self.animation_amplitude.bits == 0x3fe9_9999_9999_999a
        &&& self.animation_repeat == 3
    }
}

impl Default for EdgePulseConfig {
    fn default() -> (r: Self)
        ensures
            r.is_default(),
    {
        EdgePulseConfig {
            enabled: false,
            show_left: default_true(),
            show_right: default_true(),
            width: default_edge_pulse_width(),
            height_ratio: default_edge_pulse_height_ratio(),
            left_gradient_start: default_left_start(),
            left_gradient_end: default_left_end(),
            right_gradient_start: default_right_start(),
            right_gradient_end: default_right_end(),
            alpha: default_edge_pulse_alpha(),
            animation_enabled: false,
            animation_style: default_animation_style(),
            animation_duration: default_animation_duration(),
            animation_amplitude: default_animation_amplitude(),
            animation_repeat: default_animation_repeat(),
        }
    }
}

/// The texts of the rows of an auto_width setting.
pub open spec fn rows(v: Seq<Vec<String>>) -> Seq<Seq<Seq<char>>> {
    v.map_values(|row: Vec<String>| texts(row@))
}

/// Copies the rows of an auto_width setting.
pub fn copy_rows(v: &Vec<Vec<String>>) -> (r: Vec<Vec<String>>)
    ensures
        rows(r@) == rows(v@),
{
    let mut r: Vec<Vec<String>> = Vec::new();
    for i in 0..v.len()
        invariant
            r@.len() == i,
            forall|j: int| 0 <= j < i ==> (#[trigger] r@[j])@ == v@[j]@,
    {
        r.push(copy_texts(&v[i]));
    }
    assert(rows(r@) =~= rows(v@));
    r
}

/// Workspace rule configuration for a specific workspace
#[derive(Debug)]
pub struct WorkspaceRuleConfig {
    /// Auto width configuration: array where index corresponds to window count (1-based)
    /// Each element can be a string (all windows same width) or array (different widths per window)
    /// Examples:
    ///   ["100%", "50%"] - 1 window: 100%, 2 windows: each 50%
    ///   ["100%", ["45%", "55%"]] - 1 window: 100%, 2 windows: 45% and 55%
    pub auto_width: Vec<Vec<String>>,
    /// If true, automatically tile windows: allow up to 2 windows per column (except first column)
    pub auto_tile: bool,
    /// If true, automatically align last column (autofill)
    pub auto_fill: bool,
    /// If true, automatically maximize window when there's only one window, and unmaximize when there are multiple windows
    pub auto_maximize: bool,
    /// EdgePulse indicator config for this workspace.
    pub edge_pulse: EdgePulseConfig,
}

/// Workspace rule section in piri config (default settings)
#[derive(Debug)]
pub struct WorkspaceRuleSection {
    /// Default auto width configuration
    pub auto_width: Vec<Vec<String>>,
    /// If true, automatically tile windows: allow up to 2 windows per column (except first column)
    pub auto_tile: bool,
    /// If true, automatically align last column (autofill)
    pub auto_fill: bool,
    /// If true, automatically maximize window when there's only one window, and unmaximize when there are multiple windows
    pub auto_maximize: bool,
    /// Default EdgePulse indicator config for all workspaces.
    pub edge_pulse: EdgePulseConfig,
}

/// What a workspace rule says, be it for one workspace or for all.
#[verifier::ext_equal]
pub struct WorkspaceRuleView {
    pub auto_width: Seq<Seq<Seq<char>>>,
    pub auto_tile: bool,
    pub auto_fill: bool,
    pub auto_maximize: bool,
    pub edge_pulse: EdgePulseConfig,
}

impl View for WorkspaceRuleConfig {
    type V = WorkspaceRuleView;

    open spec fn view(&self) -> WorkspaceRuleView {
        WorkspaceRuleView {
            auto_width: rows(self.auto_width@),
            auto_tile: self.auto_tile,
            auto_fill: self.auto_fill,
            auto_maximize: self.auto_maximize,
            edge_pulse: self.edge_pulse,
        }
    }
}

impl View for WorkspaceRuleSection {
    type V = WorkspaceRuleView;

    open spec fn view(&self) -> WorkspaceRuleView {
        WorkspaceRuleView {
            auto_width: rows(self.auto_width@),
            auto_tile: self.auto_tile,
            auto_fill: self.auto_fill,
            auto_maximize: self.auto_maximize,
            edge_pulse: self.edge_pulse,
        }
    }
}

impl Clone for WorkspaceRuleConfig {
    fn clone(&self) -> (r: Self)
        ensures
            r@ == self@,
    {
        WorkspaceRuleConfig {
            auto_width: copy_rows(&self.auto_width),
            auto_tile: self.auto_tile,
            auto_fill: self.auto_fill,
            auto_maximize: self.auto_maximize,
            edge_pulse: self.edge_pulse.clone(),
        }
    }
}

impl Clone for WorkspaceRuleSection {
    fn clone(&self) -> (r: Self)
        ensures
            r@ == self@,
    {
        WorkspaceRuleSection {
            auto_width: copy_rows(&self.auto_width),
            auto_tile: self.auto_tile,
            auto_fill: self.auto_fill,
            auto_maximize: self.auto_maximize,
            edge_pulse: self.edge_pulse.clone(),
        }
    }
}

impl WorkspaceRuleView {
    /// Whether a rule asks for nothing, with the indicator as it is where
    /// nothing is written.
    pub open spec fn is_default(self) -> bool {
        &&& self.auto_width.len() == 0
        &&& !self.auto_tile
        &&& !self.auto_fill
        &&& !self.auto_maximize
        &&& self.edge_pulse.is_default()
    }
}

impl Default for WorkspaceRuleSection {
    fn default() -> (r: Self)
        ensures
            r@.is_default(),
    {
        WorkspaceRuleSection {
            auto_width: Vec::new(),
            auto_tile: false,
            auto_fill: false,
            auto_maximize: false,
            edge_pulse: EdgePulseConfig::default(),
        }
    }
}

// ---------------------------------------------------------------------- Root

#[derive(Debug, Clone)]
pub struct PiriConfig {
    pub scratchpad: ScratchpadDefaults,
    pub plugins: PluginsConfig,
    pub window_order: WindowOrderSection,
    pub swallow: SwallowSection,
    pub workspace_rule: WorkspaceRuleSection,
    pub mark: MarkSection,
}

impl PiriConfig {
    /// Whether every setting is the one that holds where nothing is written.
    pub open spec fn is_default(self) -> bool {
        &&& self.scratchpad.default_size@ == "75% 60%"@
        &&& self.scratchpad.default_margin == 50
        &&& self.scratchpad.move_to_workspace is None
        &&& !self.scratchpad.tile_in_target_workspace
        &&& forall|name: Seq<char>| #[trigger] self.plugins.switch(name) is None
        &&& self.plugins.autofill is None
        &&& self.plugins.empty_config is None
        &&& !self.window_order.enable_event_listener
        &&& self.window_order.default_weight == 0
        &&& self.window_order.workspaces@.len() == 0
        &&& self.swallow.rules@.len() == 0
        &&& self.swallow.use_pid_matching
        &&& !self.swallow.swallow_on_change
        &&& self.swallow.exclude is None
        &&& self.workspace_rule@.is_default()
        &&& !self.mark.refocus
    }
}

impl Default for PiriConfig {
    fn default() -> (r: Self)
        ensures
            r.is_default(),
    {
        PiriConfig {
            scratchpad: ScratchpadDefaults::default(),
            plugins: PluginsConfig::default(),
            window_order: WindowOrderSection::default(),
            swallow: SwallowSection::default(),
            workspace_rule: WorkspaceRuleSection::default(),
            mark: MarkSection::default(),
        }
    }
}

#[derive(Debug, Clone)]
pub struct Config {
    pub niri: NiriConfig,
    pub piri: PiriConfig,
    pub scratchpads: HashMap<String, ScratchpadConfig>,
    pub empty: HashMap<String, EmptyWorkspaceConfig>,
    pub singleton: HashMap<String, SingletonConfig>,
    pub window_rule: Vec<WindowRuleConfig>,
    pub window_order: HashMap<String, u32>,
    pub swallow: Vec<SwallowRule>,
    pub workspace_rule: HashMap<String, WorkspaceRuleConfig>,
}

impl Default for Config {
    fn default() -> (r: Self)
        ensures
            r.niri.socket_path is None,
            r.piri.is_default(),
            r.scratchpads@ == Map::<String, ScratchpadConfig>::empty(),
            r.empty@ == Map::<String, EmptyWorkspaceConfig>::empty(),
            r.singleton@ == Map::<String, SingletonConfig>::empty(),
            r.window_rule@.len() == 0,
            r.window_order@ == Map::<String, u32>::empty(),
            r.swallow@.len() == 0,
            r.workspace_rule@ == Map::<String, WorkspaceRuleConfig>::empty(),
    {
        Config {
            niri: NiriConfig::default(),
            piri: PiriConfig::default(),
            scratchpads: HashMap::new(),
            empty: HashMap::new(),
            singleton: HashMap::new(),
            window_rule: Vec::new(),
            window_order: HashMap::new(),
            swallow: Vec::new(),
            workspace_rule: HashMap::new(),
        }
    }
}

// -------------------------------------------------------------- What is written

/// Each direction is written in one way, and no other text names one.
pub proof fn directions_are_written_in_one_way(s: Seq<char>)
    ensures
        direction_named(s) == Some(Direction::Top) <==> s == "fromTop"@,
        direction_named(s) == Some(Direction::Bottom) <==> s == "fromBottom"@,
        direction_named(s) == Some(Direction::Left) <==> s == "fromLeft"@,
        direction_named(s) == Some(Direction::Right) <==> s == "fromRight"@,
        direction_named(s) is None <==> s != "fromTop"@ && s != "fromBottom"@ && s != "fromLeft"@
            && s != "fromRight"@,
{
    direction_round_trip(Direction::Top);
    direction_round_trip(Direction::Bottom);
    direction_round_trip(Direction::Left);
    direction_round_trip(Direction::Right);
}

/// Each plugin has a switch of its own, which goes by its name; no other name has
/// one.
pub proof fn switches_go_by_name(plugins: PluginsConfig, name: Seq<char>)
    ensures
        plugins.switch("scratchpads"@) == plugins.scratchpads,
        plugins.switch("empty"@) == plugins.empty,
        plugins.switch("window_rule"@) == plugins.window_rule,
        plugins.switch("singleton"@) == plugins.singleton,
        plugins.switch("window_order"@) == plugins.window_order,
        plugins.switch("swallow"@) == plugins.swallow,
        plugins.switch("workspace_rule"@) == plugins.workspace_rule,
        plugins.switch("mark"@) == plugins.mark,
        plugins.switch("sticky"@) == plugins.sticky,
        name != "scratchpads"@ && name != "empty"@ && name != "window_rule"@ && name
            != "singleton"@ && name != "window_order"@ && name != "swallow"@ && name
            != "workspace_rule"@ && name != "mark"@ && name != "sticky"@ ==> plugins.switch(
            name,
        ) is None,
{
    reveal_strlit("scratchpads");
    reveal_strlit("empty");
    reveal_strlit("window_rule");
    reveal_strlit("singleton");
    reveal_strlit("window_order");
    reveal_strlit("swallow");
    reveal_strlit("workspace_rule");
    reveal_strlit("mark");
    reveal_strlit("sticky");
    assert("scratchpads"@[0] == 's');
    assert("window_rule"@[0] == 'w');
    assert("scratchpads"@.len() == 11);
    assert("empty"@.len() == 5);
    assert("window_rule"@.len() == 11);
    assert("singleton"@.len() == 9);
    assert("window_order"@.len() == 12);
    assert("swallow"@.len() == 7);
    assert("workspace_rule"@.len() == 14);
    assert("mark"@.len() == 4);
    assert("sticky"@.len() == 6);
}

/// One string stands for itself alone, and a list for its strings.
pub proof fn single_strings_stand_for_themselves(s: String, v: Vec<String>)
    ensures
        StringOrVec::String(s).strings().len() == 1,
        StringOrVec::String(s).strings()[0] == s,
        StringOrVec::Vec(v).strings() == v@,
        WidthValue::String(s).strings().len() == 1,
        WidthValue::String(s).strings()[0] == s,
        WidthValue::Vec(v).strings() == v@,
{
}

/// A percentage is a numeral with a percent sign behind it. Without the sign that
/// is what is wrong with it, otherwise that it is no numeral.
pub proof fn percentages_end_with_a_percent_sign(n: Seq<char>, c: char)
    ensures
        percent_fault(n.push('%')) is None <==> float_numeral(n),
        percent_fault(n.push('%')) == Some(PercentError::Number) <==> !float_numeral(n),
        c != '%' ==> percent_fault(n.push(c)) == Some(PercentError::Suffix),
        percent_fault(Seq::<char>::empty()) == Some(PercentError::Suffix),
{
    last_character_is_taken_off(n, '%', c);
}

/// A size is two percentages with a blank between them, the width first: it is
/// right exactly where both are, and the first one that is wrong is what is
/// reported. A text without blanks is no size, nor is one of three parts.
pub proof fn sizes_are_two_percentages(w: Seq<char>, c: char, h: Seq<char>, d: char, x: Seq<char>)
    requires
        w.len() > 0,
        h.len() > 0,
        x.len() > 0,
        white(c),
        white(d),
        forall|i: int| 0 <= i < w.len() ==> !white(#[trigger] w[i]),
        forall|i: int| 0 <= i < h.len() ==> !white(#[trigger] h[i]),
        forall|i: int| 0 <= i < x.len() ==> !white(#[trigger] x[i]),
    ensures
        size_fault(w) == Some(SizeError::PartCount),
        size_fault((w.push(c) + h).push(d) + x) == Some(SizeError::PartCount),
        size_fault(w.push(c) + h) is None <==> percent_fault(w) is None && percent_fault(h) is None,
        size_fault(w.push(c) + h) == Some(SizeError::WidthSuffix) <==> percent_fault(w) == Some(
            PercentError::Suffix,
        ),
        size_fault(w.push(c) + h) == Some(SizeError::WidthNumber) <==> percent_fault(w) == Some(
            PercentError::Number,
        ),
        size_fault(w.push(c) + h) == Some(SizeError::HeightSuffix) <==> percent_fault(w) is None
            && percent_fault(h) == Some(PercentError::Suffix),
        size_fault(w.push(c) + h) == Some(SizeError::HeightNumber) <==> percent_fault(w) is None
            && percent_fault(h) == Some(PercentError::Number),
{
    blanks_separate_words(w, c, h);
    blanks_separate_words(w.push(c) + h, d, x);
    text_without_blanks_is_one_word(w);
    text_without_blanks_is_one_word(h);
    text_without_blanks_is_one_word(x);
    assert(words(w.push(c) + h)[0] == w);
    assert(words(w.push(c) + h)[1] == h);
}

/// The entries of a table describe a scratchpad exactly where the five that it
/// needs are there, the direction is one of the four, and it is not to stick and to
/// hide at once.
pub proof fn scratchpads_need_five_entries(fields: ScratchpadFieldsView)
    ensures
        fields.fault() is None <==> {
            &&& fields.direction is Some
            &&& fields.direction->0 == "fromTop"@ || fields.direction->0 == "fromBottom"@
                || fields.direction->0 == "fromLeft"@ || fields.direction->0 == "fromRight"@
            &&& fields.command is Some
            &&& fields.size is Some
            &&& fields.margin is Some
            &&& fields.app_id is Some
            &&& fields.sticky != Some(true) || fields.auto_hide_on_focus_loss != Some(true)
        },
        fields.direction is None ==> fields.fault() == Some(ScratchpadFault::MissingDirection),
        fields.fault() == Some(ScratchpadFault::MissingCommand) ==> fields.command is None,
        fields.fault() == Some(ScratchpadFault::MissingSize) ==> fields.size is None
            && fields.command is Some,
        fields.fault() == Some(ScratchpadFault::MissingMargin) ==> fields.margin is None
            && fields.size is Some,
        fields.fault() == Some(ScratchpadFault::MissingAppId) ==> fields.app_id is None
            && fields.margin is Some,
        fields.fault() == Some(ScratchpadFault::StickyAutoHide) ==> fields.app_id is Some
            && fields.sticky == Some(true) && fields.auto_hide_on_focus_loss == Some(true),
        fields.fault() == Some(ScratchpadFault::Direction) ==> fields.direction is Some,
{
}

/// A margin that its type can hold is taken as it is written; one below zero counts
/// from the top of the range.
pub proof fn margins_are_taken_as_written(fields: ScratchpadFieldsView, c: ScratchpadConfig)
    requires
        fields.describes(c),
    ensures
        fields.margin is Some,
        0 <= fields.margin->0 <= u32::MAX ==> c.margin == fields.margin->0,
        -0x1_0000_0000 <= fields.margin->0 < 0 ==> c.margin == fields.margin->0 + 0x1_0000_0000,
        fields.sticky is None ==> !c.sticky,
        fields.swallow_to_focus is None ==> !c.swallow_to_focus,
        fields.auto_hide_on_focus_loss is None ==> !c.auto_hide_on_focus_loss,
        fields.refocus is None ==> !c.refocus,
        fields.sticky is Some ==> c.sticky == fields.sticky->0,
        fields.swallow_to_focus is Some ==> c.swallow_to_focus == fields.swallow_to_focus->0,
        fields.auto_hide_on_focus_loss is Some ==> c.auto_hide_on_focus_loss
            == fields.auto_hide_on_focus_loss->0,
        fields.refocus is Some ==> c.refocus == fields.refocus->0,
        fields.direction == Some("fromTop"@) <==> c.direction == Direction::Top,
        fields.direction == Some("fromBottom"@) <==> c.direction == Direction::Bottom,
        fields.direction == Some("fromLeft"@) <==> c.direction == Direction::Left,
        fields.direction == Some("fromRight"@) <==> c.direction == Direction::Right,
        fields.command == Some(c.command@),
        fields.app_id == Some(c.app_id@),
        fields.size == Some(c.size@),
        fields.move_to_workspace is None <==> c.move_to_workspace is None,
        c.move_to_workspace is Some ==> fields.move_to_workspace == Some(c.move_to_workspace->0@),
        c.tile_in_target_workspace == fields.tile_in_target_workspace,
{
    directions_are_written_in_one_way(fields.direction->0);
}

/// Each entry of a scratchpad table stands under its own key, as a string, an
/// integer or a switch.
pub proof fn entries_stand_under_their_keys(table: toml::map::Map<String, toml::Value>)
    ensures
        ({
            let e = scratchpad_entries(table);
            let t = table_texts(table);
            let b = table_booleans(table);
            &&& e.direction is Some <==> t.contains_key("direction"@)
            &&& e.direction is Some ==> e.direction->0 == t["direction"@]
            &&& e.command is Some <==> t.contains_key("command"@)
            &&& e.command is Some ==> e.command->0 == t["command"@]
            &&& e.app_id is Some <==> t.contains_key("app_id"@)
            &&& e.app_id is Some ==> e.app_id->0 == t["app_id"@]
            &&& e.size is Some <==> t.contains_key("size"@)
            &&& e.size is Some ==> e.size->0 == t["size"@]
            &&& e.margin is Some <==> table_integers(table).contains_key("margin"@)
            &&& e.margin is Some ==> e.margin->0 == table_integers(table)["margin"@]
            &&& e.swallow_to_focus is Some <==> b.contains_key("swallow_to_focus"@)
            &&& e.swallow_to_focus is Some ==> e.swallow_to_focus->0 == b["swallow_to_focus"@]
            &&& e.sticky is Some <==> b.contains_key("sticky"@)
            &&& e.sticky is Some ==> e.sticky->0 == b["sticky"@]
            &&& e.auto_hide_on_focus_loss is Some <==> b.contains_key("auto_hide_on_focus_loss"@)
            &&& e.auto_hide_on_focus_loss is Some ==> e.auto_hide_on_focus_loss->0
                == b["auto_hide_on_focus_loss"@]
            &&& e.refocus is Some <==> b.contains_key("refocus"@)
            &&& e.refocus is Some ==> e.refocus->0 == b["refocus"@]
            &&& e.move_to_workspace is Some <==> t.contains_key("move_to_workspace"@)
            &&& e.move_to_workspace is Some ==> e.move_to_workspace->0 == t["move_to_workspace"@]
            &&& e.tile_in_target_workspace is Some <==> b.contains_key("tile_in_target_workspace"@)
            &&& e.tile_in_target_workspace is Some ==> e.tile_in_target_workspace->0
                == b["tile_in_target_workspace"@]
        }),
{
}

/// A window rule says what is written in it: its patterns in order, and each of its
/// settings.
pub proof fn rules_say_what_is_written(rule: WindowRuleConfig, i: int)
    ensures
        rule@.app_id is Some <==> rule.app_id is Some,
        rule.app_id is Some ==> rule@.app_id->0.len() == rule.app_id->0@.len(),
        rule.app_id is Some && 0 <= i < rule.app_id->0@.len() ==> rule@.app_id->0[i]
            == rule.app_id->0@[i]@,
        rule@.title is Some <==> rule.title is Some,
        rule.title is Some ==> rule@.title->0.len() == rule.title->0@.len(),
        rule.title is Some && 0 <= i < rule.title->0@.len() ==> rule@.title->0[i]
            == rule.title->0@[i]@,
        rule@.open_on_workspace is Some <==> rule.open_on_workspace is Some,
        rule.open_on_workspace is Some ==> rule@.open_on_workspace->0 == rule.open_on_workspace->0@,
        rule@.focus_command is Some <==> rule.focus_command is Some,
        rule.focus_command is Some ==> rule@.focus_command->0 == rule.focus_command->0@,
        rule@.floating == rule.floating,
        rule@.floating_width == rule.floating_width,
        rule@.floating_height == rule.floating_height,
        rule@.floating_reset_height == rule.floating_reset_height,
        rule@.floating_centered == rule.floating_centered,
        rule@.focus_command_once == rule.focus_command_once,
{
}

/// The default section and the rule for a workspace say what is written in them:
/// the widths row by row, and each of their switches.
pub proof fn workspace_rules_say_what_is_written(
    section: WorkspaceRuleSection,
    rule: WorkspaceRuleConfig,
    i: int,
    j: int,
)
    ensures
        section@.auto_width.len() == section.auto_width@.len(),
        0 <= i < section.auto_width@.len() ==> section@.auto_width[i].len()
            == section.auto_width@[i]@.len(),
        0 <= i < section.auto_width@.len() && 0 <= j < section.auto_width@[i]@.len()
            ==> section@.auto_width[i][j] == section.auto_width@[i]@[j]@,
        section@.auto_tile == section.auto_tile,
        section@.auto_fill == section.auto_fill,
        section@.auto_maximize == section.auto_maximize,
        section@.edge_pulse == section.edge_pulse,
        rule@.auto_width.len() == rule.auto_width@.len(),
        0 <= i < rule.auto_width@.len() ==> rule@.auto_width[i].len() == rule.auto_width@[i]@.len(),
        0 <= i < rule.auto_width@.len() && 0 <= j < rule.auto_width@[i]@.len()
            ==> rule@.auto_width[i][j] == rule.auto_width@[i]@[j]@,
        rule@.auto_tile == rule.auto_tile,
        rule@.auto_fill == rule.auto_fill,
        rule@.auto_maximize == rule.auto_maximize,
        rule@.edge_pulse == rule.edge_pulse,
{
}

/// The entries of a scratchpad say what they hold.
pub proof fn fields_say_what_they_hold(fields: ScratchpadFields)
    ensures
        fields@.direction is Some <==> fields.direction is Some,
        fields.direction is Some ==> fields@.direction->0 == fields.direction->0@,
        fields@.command is Some <==> fields.command is Some,
        fields.command is Some ==> fields@.command->0 == fields.command->0@,
        fields@.app_id is Some <==> fields.app_id is Some,
        fields.app_id is Some ==> fields@.app_id->0 == fields.app_id->0@,
        fields@.size is Some <==> fields.size is Some,
        fields.size is Some ==> fields@.size->0 == fields.size->0@,
        fields@.move_to_workspace is Some <==> fields.move_to_workspace is Some,
        fields.move_to_workspace is Some ==> fields@.move_to_workspace->0
            == fields.move_to_workspace->0@,
        fields@.margin == fields.margin,
        fields@.swallow_to_focus == fields.swallow_to_focus,
        fields@.sticky == fields.sticky,
        fields@.auto_hide_on_focus_loss == fields.auto_hide_on_focus_loss,
        fields@.refocus == fields.refocus,
        fields@.tile_in_target_workspace == fields.tile_in_target_workspace,
{
}

/// What is said of a missing entry is that the field of its key is missing, and of a
/// text that names no direction what the text is.
pub proof fn messages_name_the_field(e: InvalidDirection)
    ensures
        ScratchpadError::MissingDirection.text() == "Missing '"@ + "direction"@ + "' field"@,
        ScratchpadError::MissingCommand.text() == "Missing '"@ + "command"@ + "' field"@,
        ScratchpadError::MissingSize.text() == "Missing '"@ + "size"@ + "' field"@,
        ScratchpadError::MissingMargin.text() == "Missing '"@ + "margin"@ + "' field"@,
        ScratchpadError::MissingAppId.text() == "Missing '"@ + "app_id"@ + "' field"@,
        ScratchpadError::Direction(e).text() == e.text(),
        e.text().len() > 19 + e.name@.len(),
        e.text().take(19) == "Invalid direction: "@,
        e.text().subrange(19, 19int + e.name@.len()) == e.name@,
{
    reveal_strlit("Missing 'direction' field");
    reveal_strlit("Missing 'command' field");
    reveal_strlit("Missing 'size' field");
    reveal_strlit("Missing 'margin' field");
    reveal_strlit("Missing 'app_id' field");
    reveal_strlit("Missing '");
    reveal_strlit("' field");
    reveal_strlit("direction");
    reveal_strlit("command");
    reveal_strlit("size");
    reveal_strlit("margin");
    reveal_strlit("app_id");
    reveal_strlit("Invalid direction: ");
    reveal_strlit(". Must be one of: fromTop, fromBottom, fromLeft, fromRight");
    assert("Missing 'direction' field"@ =~= "Missing '"@ + "direction"@ + "' field"@);
    assert("Missing 'command' field"@ =~= "Missing '"@ + "command"@ + "' field"@);
    assert("Missing 'size' field"@ =~= "Missing '"@ + "size"@ + "' field"@);
    assert("Missing 'margin' field"@ =~= "Missing '"@ + "margin"@ + "' field"@);
    assert("Missing 'app_id' field"@ =~= "Missing '"@ + "app_id"@ + "' field"@);
    assert("Invalid direction: "@.len() == 19);
    assert(e.text().take(19) =~= "Invalid direction: "@);
    assert(e.text().subrange(19, 19int + e.name@.len()) =~= e.name@);
}

/// Each error is of its own kind.
pub proof fn errors_are_of_their_kind(e: InvalidDirection)
    ensures
        ScratchpadError::MissingDirection.fault() is MissingDirection,
        ScratchpadError::Direction(e).fault() is Direction,
        ScratchpadError::MissingCommand.fault() is MissingCommand,
        ScratchpadError::MissingSize.fault() is MissingSize,
        ScratchpadError::MissingMargin.fault() is MissingMargin,
        ScratchpadError::MissingAppId.fault() is MissingAppId,
        ScratchpadError::StickyAutoHide.fault() is StickyAutoHide,
{
}

} // verus!
