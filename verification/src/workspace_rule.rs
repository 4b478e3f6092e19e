//! Arranging the tiled windows of a workspace by rules.

use std::collections::{HashMap, HashSet};

use vstd::prelude::*;
use vstd::string::*;

use crate::action::{action_views, Action, ActionView};
use crate::columns::{
    behind, column_windows, filter_tiled_windows_in_workspace, find_foremost, find_in_column,
    foremost, foremost_is_furthest_to_the_left, foremost_is_unique, in_column, last_column,
    listing_is_complete, lists, max_column, max_column_is_reached, sorted_columns, tiled,
    tiled_are_on_workspace, tiled_keeps_the_order, tiled_windows_do_not_float,
};
use crate::config::{
    copy_rules, rows, rule_views, Config, EdgePulseConfig, WindowRuleConfig, WindowRuleView,
    WorkspaceRuleConfig, WorkspaceRuleSection, WorkspaceRuleView,
};
use crate::edge_pulse::{hidden, EdgePulseRenderState};
use crate::events::PiriEvent;
use crate::matcher::{PatternError, WindowMatcherCache};
use crate::niri::{IpcLayout, IpcWindow, Window};
use crate::search::{
    first_where, first_where_found, first_where_is_first, first_where_missing,
};
use crate::text::{opt_text, texts};
use crate::window_rule::{find_rule, first_matching_rule_applies, rule_at, rule_verdict};

verus! {

broadcast use vstd::std_specs::hash::group_hash_axioms;

// ------------------------------------------------------------- Configuration

#[derive(Debug)]
pub struct WorkspaceRulePluginConfig {
    pub default: WorkspaceRuleSection,
    pub workspaces: HashMap<String, WorkspaceRuleConfig>,
    /// Window rules that move windows to the floating layer (mirrored so
    /// tiling adjustments can skip panels that are about to become floating)
    pub floating_rules: Vec<WindowRuleConfig>,
}

impl Default for WorkspaceRulePluginConfig {
    fn default() -> (r: Self)
        ensures
            r.default@.is_default(),
            r.workspaces@ == Map::<String, WorkspaceRuleConfig>::empty(),
            r.floating_rules@.len() == 0,
    {
        WorkspaceRulePluginConfig {
            default: WorkspaceRuleSection::default(),
            workspaces: HashMap::new(),
            floating_rules: Vec::new(),
        }
    }
}

impl Clone for WorkspaceRulePluginConfig {
    fn clone(&self) -> (r: Self)
        ensures
            r.default@ == self.default@,
            r.workspaces@ == self.workspaces@,
            rule_views(r.floating_rules@) == rule_views(self.floating_rules@),
    {
        WorkspaceRulePluginConfig {
            default: self.default.clone(),
            workspaces: self.workspaces.clone(),
            floating_rules: copy_rules(&self.floating_rules),
        }
    }
}

/// The rules that move windows to the floating layer, in their order.
pub open spec fn floating_only(rules: Seq<WindowRuleView>) -> Seq<WindowRuleView>
    decreases rules.len(),
{
    if rules.len() == 0 {
        seq![]
    } else {
        let before = floating_only(rules.drop_last());
        if rules.last().floating == Some(true) {
            before.push(rules.last())
        } else {
            before
        }
    }
}

fn copy_floating_rules(rules: &Vec<WindowRuleConfig>) -> (r: Vec<WindowRuleConfig>)
    ensures
        rule_views(r@) == floating_only(rule_views(rules@)),
{
    let mut r: Vec<WindowRuleConfig> = Vec::new();
    let ghost views = rule_views(rules@);
    assert(rule_views(r@) =~= floating_only(views.take(0)));
    for i in 0..rules.len()
        invariant
            views == rule_views(rules@),
            views.len() == rules@.len(),
            rule_views(r@) == floating_only(views.take(i as int)),
    {
        let rule = &rules[i];
        assert(views.take(i + 1).drop_last() =~= views.take(i as int));
        assert(views.take(i + 1).last() == rule@);
        let floats = match rule.floating {
            Some(floating) => floating,
            None => false,
        };
        if floats {
            let ghost before = r@;
            let copy = rule.clone();
            r.push(copy);
            assert(rule_views(r@) =~= rule_views(before).push(rule@));
        }
    }
    assert(views.take(views.len() as int) =~= views);
    r
}

impl WorkspaceRuleView {
    /// Whether a rule asks for anything.
    pub open spec fn asks(self) -> bool {
        self.auto_width.len() > 0 || self.auto_tile || self.auto_fill || self.auto_maximize
            || self.edge_pulse.enabled
    }
}

impl WorkspaceRulePluginConfig {
    /// The rules of a configuration; none where it asks for nothing.
    pub fn from_config(config: &Config) -> (r: Option<Self>)
        ensures
            match r {
                Some(c) => {
                    &&& config.piri.workspace_rule@.asks() || !config.workspace_rule@.is_empty()
                    &&& c.default@ == config.piri.workspace_rule@
                    &&& c.workspaces@ == config.workspace_rule@
                    &&& rule_views(c.floating_rules@) == floating_only(
                        rule_views(config.window_rule@),
                    )
                },
                None => !config.piri.workspace_rule@.asks() && config.workspace_rule@.is_empty(),
            },
    {
        // Check if there's any configuration (either default or workspace-specific)
        let default = &config.piri.workspace_rule;
        let has_default = !default.auto_width.is_empty() || default.auto_tile || default.auto_fill
            || default.auto_maximize || default.edge_pulse.enabled;
        let has_workspaces = !config.workspace_rule.is_empty();
        if !has_default && !has_workspaces {
            return None;
        }
        Some(
            WorkspaceRulePluginConfig {
                default: default.clone(),
                workspaces: config.workspace_rule.clone(),
                floating_rules: copy_floating_rules(&config.window_rule),
            },
        )
    }
}

// -------------------------------------------------------------------- Plugin

/// Plugin that arranges the tiled windows of a workspace.
pub struct WorkspaceRulePlugin {
    config: WorkspaceRulePluginConfig,
    window_floating_state: HashMap<u64, bool>,
    maximized_windows: HashSet<u64>,
    auto_tiled_windows: HashSet<u64>,
    previous_window_sizes: HashMap<u64, (i32, i32)>,
    autofill_executing: bool,
    edge_pulse_last_render: Option<EdgePulseRenderState>,
    /// Regex cache for matching windows against floating rules
    matcher_cache: WindowMatcherCache,
    /// Tracks column positions of tiled windows: window_id -> (workspace_id, col_idx)
    window_columns: HashMap<u64, (u64, usize)>,
}

/// What a [`WorkspaceRulePlugin`] knows.
#[verifier::ext_equal]
pub struct WorkspaceRuleState {
    pub default: WorkspaceRuleView,
    pub workspaces: Map<String, WorkspaceRuleConfig>,
    pub floating_rules: Seq<WindowRuleView>,
    pub window_floating_state: Map<u64, bool>,
    pub maximized_windows: Set<u64>,
    pub auto_tiled_windows: Set<u64>,
    pub previous_window_sizes: Map<u64, (i32, i32)>,
    pub autofill_executing: bool,
    pub edge_pulse_last_render: Option<EdgePulseRenderState>,
    pub window_columns: Map<u64, (u64, usize)>,
}

impl View for WorkspaceRulePlugin {
    type V = WorkspaceRuleState;

    closed spec fn view(&self) -> WorkspaceRuleState {
        WorkspaceRuleState {
            default: self.config.default@,
            workspaces: self.config.workspaces@,
            floating_rules: rule_views(self.config.floating_rules@),
            window_floating_state: self.window_floating_state@,
            maximized_windows: self.maximized_windows@,
            auto_tiled_windows: self.auto_tiled_windows@,
            previous_window_sizes: self.previous_window_sizes@,
            autofill_executing: self.autofill_executing,
            edge_pulse_last_render: self.edge_pulse_last_render,
            window_columns: self.window_columns@,
        }
    }
}

impl WorkspaceRulePlugin {
    /// The patterns that are compiled already.
    pub closed spec fn cached(self) -> Set<Seq<char>> {
        self.matcher_cache.compiled()
    }

    /// A plugin with rules that has met no window yet.
    pub fn new(config: WorkspaceRulePluginConfig) -> (r: Self)
        ensures
            r@ == (WorkspaceRuleState {
                default: config.default@,
                workspaces: config.workspaces@,
                floating_rules: rule_views(config.floating_rules@),
                window_floating_state: Map::empty(),
                maximized_windows: Set::empty(),
                auto_tiled_windows: Set::empty(),
                previous_window_sizes: Map::empty(),
                autofill_executing: false,
                edge_pulse_last_render: None,
                window_columns: Map::empty(),
            }),
            r.cached() == Set::<Seq<char>>::empty(),
    {
        WorkspaceRulePlugin {
            config,
            window_floating_state: HashMap::new(),
            maximized_windows: HashSet::new(),
            auto_tiled_windows: HashSet::new(),
            previous_window_sizes: HashMap::new(),
            autofill_executing: false,
            edge_pulse_last_render: None,
            matcher_cache: WindowMatcherCache::new(),
            window_columns: HashMap::new(),
        }
    }

    /// The rules for workspaces, by name.
    pub fn workspaces(&self) -> (r: &HashMap<String, WorkspaceRuleConfig>)
        ensures
            r@ == self@.workspaces,
    {
        &self.config.workspaces
    }
}

/// The rule that holds for a workspace: its own, else the default one.
pub open spec fn rule_in_force(
    own: Option<&WorkspaceRuleConfig>,
    default: WorkspaceRuleView,
) -> WorkspaceRuleView {
    match own {
        Some(rule) => rule@,
        None => default,
    }
}

impl WorkspaceRulePlugin {
    /// Get auto_width configuration for a workspace
    pub fn get_auto_width<'a>(&'a self, own: Option<&'a WorkspaceRuleConfig>) -> (r: &'a Vec<
        Vec<String>,
    >)
        ensures
            rows(r@) == rule_in_force(own, self@.default).auto_width,
    {
        match own {
            Some(rule) => &rule.auto_width,
            None => &self.config.default.auto_width,
        }
    }

    pub fn get_auto_tile(&self, own: Option<&WorkspaceRuleConfig>) -> (r: bool)
        ensures
            r == rule_in_force(own, self@.default).auto_tile,
    {
        match own {
            Some(rule) => rule.auto_tile,
            None => self.config.default.auto_tile,
        }
    }

    pub fn get_auto_fill(&self, own: Option<&WorkspaceRuleConfig>) -> (r: bool)
        ensures
            r == rule_in_force(own, self@.default).auto_fill,
    {
        match own {
            Some(rule) => rule.auto_fill,
            None => self.config.default.auto_fill,
        }
    }

    pub fn get_auto_maximize(&self, own: Option<&WorkspaceRuleConfig>) -> (r: bool)
        ensures
            r == rule_in_force(own, self@.default).auto_maximize,
    {
        match own {
            Some(rule) => rule.auto_maximize,
            None => self.config.default.auto_maximize,
        }
    }

    pub fn get_edge_pulse_config<'a>(&'a self, own: Option<&'a WorkspaceRuleConfig>) -> (r:
        &'a EdgePulseConfig)
        ensures
            *r == rule_in_force(own, self@.default).edge_pulse,
    {
        match own {
            Some(rule) => &rule.edge_pulse,
            None => &self.config.default.edge_pulse,
        }
    }
}

// -------------------------------------------------------------------- Widths

/// The width of one column.
#[derive(Debug, Clone)]
pub struct WidthStep {
    pub column: usize,
    /// The window that stands for the column.
    pub window: u64,
    /// The width, such as "45%".
    pub width: String,
}

/// What is done about the widths of columns.
#[derive(Debug, Clone)]
pub enum WidthPlan {
    /// Nothing.
    Nothing,
    /// The only window is maximized.
    Maximize(u64),
    /// These windows are no longer maximized.
    Unmaximize(Vec<u64>),
    /// The columns get widths, one after the other.
    SetWidths(Vec<WidthStep>),
    /// Width configuration cannot be empty
    EmptyRow,
}

/// The widths for a number of columns, where there are any: the first row is for
/// one column, the second for two, and so on.
pub open spec fn width_row(auto_width: Seq<Seq<Seq<char>>>, columns: int) -> Option<
    Seq<Seq<char>>,
> {
    if 1 <= columns <= auto_width.len() {
        Some(auto_width[columns - 1])
    } else {
        None
    }
}

/// The width of a column: the one for its place, else the last one.
pub open spec fn width_at(row: Seq<Seq<char>>, i: int) -> Seq<char>
    recommends
        row.len() > 0,
{
    if i < row.len() {
        row[i]
    } else {
        row.last()
    }
}

/// Whether steps give each column of a map its width, from left to right.
pub open spec fn sets_widths(
    steps: Seq<WidthStep>,
    columns: Map<usize, u64>,
    row: Seq<Seq<char>>,
) -> bool {
    &&& lists(steps.map_values(|s: WidthStep| (s.column, s.window)), columns)
    &&& forall|i: int| 0 <= i < steps.len() ==> (#[trigger] steps[i]).width@ == width_at(row, i)
}

/// The ids of windows that are maximized, in their order, each once.
pub open spec fn maximized_among(windows: Seq<Window>, maximized: Set<u64>) -> Seq<u64>
    decreases windows.len(),
{
    if windows.len() == 0 {
        seq![]
    } else {
        let before = windows.drop_last();
        let ids = maximized_among(before, maximized);
        let id = windows.last().id;
        if maximized.contains(id) && !ids_of(before).contains(id) {
            ids.push(id)
        } else {
            ids
        }
    }
}

/// The ids of windows.
pub open spec fn ids_of(windows: Seq<Window>) -> Set<u64> {
    Set::new(|id: u64| exists|i: int| 0 <= i < windows.len() && (#[trigger] windows[i]).id == id)
}

/// Whether a plan is what a rule asks for on a workspace, given its tiled
/// windows and which windows are maximized.
pub open spec fn plans_widths(
    plan: WidthPlan,
    rule: WorkspaceRuleView,
    tiles: Seq<Window>,
    maximized: Set<u64>,
) -> bool {
    let columns = column_windows(tiles);
    let row = width_row(rule.auto_width, columns.len() as int);
    if rule.auto_maximize && tiles.len() == 0 {
        plan is Nothing
    } else if rule.auto_maximize && tiles.len() == 1 {
        if maximized.contains(tiles[0].id) {
            plan is Nothing
        } else {
            plan == WidthPlan::Maximize(tiles[0].id)
        }
    } else if rule.auto_maximize && row is None {
        plan matches WidthPlan::Unmaximize(ids) && ids@ == maximized_among(tiles, maximized)
    } else {
        match row {
            None => plan is Nothing,
            Some(row) => if row.len() == 0 {
                plan is EmptyRow
            } else {
                plan matches WidthPlan::SetWidths(steps) && sets_widths(steps@, columns, row)
            },
        }
    }
}

/// Which windows are maximized once a plan is carried out.
pub open spec fn maximized_after(
    rule: WorkspaceRuleView,
    tiles: Seq<Window>,
    maximized: Set<u64>,
) -> Set<u64> {
    if !rule.auto_maximize || tiles.len() == 0 {
        maximized
    } else if tiles.len() == 1 {
        maximized.insert(tiles[0].id)
    } else {
        maximized.difference(ids_of(tiles))
    }
}

fn forget_maximized(maximized: &mut HashSet<u64>, windows: &Vec<&Window>) -> (r: Vec<u64>)
    ensures
        r@ == maximized_among(behind(windows@), old(maximized)@),
        final(maximized)@ == old(maximized)@.difference(ids_of(behind(windows@))),
{
    let ghost all = behind(windows@);
    let ghost before = maximized@;
    let mut r: Vec<u64> = Vec::new();
    assert(ids_of(all.take(0)) =~= Set::empty());
    assert(maximized@ =~= before.difference(ids_of(all.take(0))));
    for i in 0..windows.len()
        invariant
            all == behind(windows@),
            all.len() == windows@.len(),
            before == old(maximized)@,
            r@ == maximized_among(all.take(i as int), before),
            maximized@ == before.difference(ids_of(all.take(i as int))),
    {
        let id: u64 = windows[i].id;
        let ghost head = all.take(i as int);
        let ghost next = all.take(i + 1);
        assert(next.drop_last() =~= head);
        assert(next.last() == *windows@[i as int]);
        if maximized.remove(&id) {
            r.push(id);
        }
        proof {
            assert forall|x: u64| ids_of(next).contains(x) == (ids_of(head).contains(x) || x
                == id) by {
                if ids_of(head).contains(x) {
                    let j = choose|j: int| 0 <= j < head.len() && (#[trigger] head[j]).id == x;
                    assert(next[j].id == x);
                }
                if x == id {
                    assert(next[i as int].id == x);
                }
                if ids_of(next).contains(x) && x != id {
                    let j = choose|j: int| 0 <= j < next.len() && (#[trigger] next[j]).id == x;
                    assert(head[j].id == x);
                }
            }
            assert(maximized@ =~= before.difference(ids_of(next)));
        }
    }
    assert(all.take(all.len() as int) =~= all);
    r
}

fn width_steps(columns: &Vec<(usize, u64)>, row: &Vec<String>, Ghost(map): Ghost<
    Map<usize, u64>,
>) -> (r: Vec<WidthStep>)
    requires
        lists(columns@, map),
        row@.len() > 0,
    ensures
        sets_widths(r@, map, texts(row@)),
{
    let mut r: Vec<WidthStep> = Vec::new();
    for i in 0..columns.len()
        invariant
            row@.len() > 0,
            r@.len() == i,
            forall|j: int|
                0 <= j < i ==> (#[trigger] r@[j]).column == columns@[j].0 && r@[j].window
                    == columns@[j].1 && r@[j].width@ == width_at(texts(row@), j),
    {
        let width: &String = if i < row.len() {
            &row[i]
        } else {
            &row[row.len() - 1]
        };
        r.push(WidthStep { column: columns[i].0, window: columns[i].1, width: width.clone() });
    }
    assert(r@.map_values(|s: WidthStep| (s.column, s.window)) =~= columns@);
    r
}

impl WorkspaceRulePlugin {
    /// Apply width adjustments to windows in current workspace
    /// The logic is based on column count, not window count (a column may have multiple windows)
    pub fn apply_widths(
        &mut self,
        windows: &Vec<Window>,
        workspace_id: u64,
        own: Option<&WorkspaceRuleConfig>,
    ) -> (r: WidthPlan)
        ensures
            plans_widths(
                r,
                rule_in_force(own, old(self)@.default),
                tiled(windows@, workspace_id),
                old(self)@.maximized_windows,
            ),
            final(self)@ == (WorkspaceRuleState {
                maximized_windows: maximized_after(
                    rule_in_force(own, old(self)@.default),
                    tiled(windows@, workspace_id),
                    old(self)@.maximized_windows,
                ),
                ..old(self)@
            }),
            final(self).cached() == old(self).cached(),
    {
        // 1. Filter tiled windows in current workspace
        let ws_windows = filter_tiled_windows_in_workspace(windows, workspace_id);
        let ghost tiles = tiled(windows@, workspace_id);
        assert(ws_windows@.len() == tiles.len());
        // 2. Group windows by column (one window ID per column is enough)
        let columns = sorted_columns(&ws_windows);
        let column_count: usize = columns.len();
        let auto_maximize = self.get_auto_maximize(own);
        let ghost rule = rule_in_force(own, old(self)@.default);
        let ghost row = width_row(rule.auto_width, column_count as int);
        // 3. Handle auto_maximize: maximize when only one window, unmaximize when multiple windows
        if auto_maximize {
            if ws_windows.len() == 0 {
                return WidthPlan::Nothing;
            }
            if ws_windows.len() == 1 {
                let window_id: u64 = ws_windows[0].id;
                assert(tiles[0] == *ws_windows@[0]);
                if self.maximized_windows.contains(&window_id) {
                    assert(self@.maximized_windows =~= old(self)@.maximized_windows.insert(
                        window_id,
                    ));
                    return WidthPlan::Nothing;
                }
                self.maximized_windows.insert(window_id);
                return WidthPlan::Maximize(window_id);
            }
            let has_width_config = column_count > 0 && column_count <= self.get_auto_width(
                own,
            ).len();
            let unmaximized = forget_maximized(&mut self.maximized_windows, &ws_windows);
            assert(self.maximized_windows@ == maximized_after(
                rule,
                tiles,
                old(self)@.maximized_windows,
            ));
            if !has_width_config {
                // No auto_width config: unmaximize all maximized windows
                return WidthPlan::Unmaximize(unmaximized);
            }
        }
        if column_count == 0 {
            return WidthPlan::Nothing;
        }
        // 4. Get width configuration
        let auto_width = self.get_auto_width(own);
        if column_count > auto_width.len() {
            // No width config for this column count, nothing to do
            return WidthPlan::Nothing;
        }
        let width_config = &auto_width[column_count - 1];
        assert(row == Some(texts(width_config@)));
        if width_config.len() == 0 {
            return WidthPlan::EmptyRow;
        }
        // 5. Apply widths to the sorted columns
        WidthPlan::SetWidths(width_steps(&columns, width_config, Ghost(column_windows(tiles))))
    }
}

// ------------------------------------------------------------- Column record

/// Where a window is recorded to stand, if it is: its workspace and column.
pub open spec fn recorded_place(w: Window) -> Option<(u64, usize)> {
    if w.floating {
        None
    } else {
        match (w.workspace_id, w.column()) {
            (Some(workspace), Some(column)) => Some((workspace, column)),
            _ => None,
        }
    }
}

/// Where a reported window is recorded to stand, if it is.
pub open spec fn reported_place(w: IpcWindow) -> Option<(u64, usize)> {
    if w.is_floating {
        None
    } else {
        match (w.workspace_id, w.layout.pos_in_scrolling_layout) {
            (Some(workspace), Some(pos)) => Some((workspace, pos.0)),
            _ => None,
        }
    }
}

/// A record with a window's place entered, where it has one.
pub open spec fn entered(
    record: Map<u64, (u64, usize)>,
    id: u64,
    place: Option<(u64, usize)>,
) -> Map<u64, (u64, usize)> {
    match place {
        Some(place) => record.insert(id, place),
        None => record,
    }
}

/// A record with the places of windows entered, one after the other.
pub open spec fn all_entered(record: Map<u64, (u64, usize)>, windows: Seq<Window>) -> Map<
    u64,
    (u64, usize),
>
    decreases windows.len(),
{
    if windows.len() == 0 {
        record
    } else {
        entered(
            all_entered(record, windows.drop_last()),
            windows.last().id,
            recorded_place(windows.last()),
        )
    }
}

/// A record with the places of reported windows entered, one after the other.
pub open spec fn all_reported(record: Map<u64, (u64, usize)>, windows: Seq<IpcWindow>) -> Map<
    u64,
    (u64, usize),
>
    decreases windows.len(),
{
    if windows.len() == 0 {
        record
    } else {
        entered(
            all_reported(record, windows.drop_last()),
            windows.last().id,
            reported_place(windows.last()),
        )
    }
}

/// A record with changed layouts entered: a window that is recorded stays on
/// its workspace, and another one counts as one on the current workspace.
pub open spec fn layouts_entered(
    record: Map<u64, (u64, usize)>,
    changes: Seq<(u64, IpcLayout)>,
    current: u64,
) -> Map<u64, (u64, usize)>
    decreases changes.len(),
{
    if changes.len() == 0 {
        record
    } else {
        let before = layouts_entered(record, changes.drop_last(), current);
        let id = changes.last().0;
        match changes.last().1.pos_in_scrolling_layout {
            Some(pos) => before.insert(
                id,
                (
                    if before.contains_key(id) {
                        before[id].0
                    } else {
                        current
                    },
                    pos.0,
                ),
            ),
            None => before,
        }
    }
}

fn enter_windows(record: &mut HashMap<u64, (u64, usize)>, windows: &Vec<Window>)
    ensures
        final(record)@ == all_entered(old(record)@, windows@),
{
    for i in 0..windows.len()
        invariant
            record@ == all_entered(old(record)@, windows@.take(i as int)),
    {
        let w = &windows[i];
        assert(windows@.take(i + 1).drop_last() =~= windows@.take(i as int));
        assert(windows@.take(i + 1).last() == *w);
        if !w.floating {
            if let (Some(workspace), Some(column)) = (w.workspace_id, w.get_column()) {
                record.insert(w.id, (workspace, column));
            }
        }
    }
    assert(windows@.take(windows@.len() as int) =~= windows@);
}

fn enter_report(record: &mut HashMap<u64, (u64, usize)>, w: &IpcWindow)
    ensures
        final(record)@ == entered(old(record)@, w.id, reported_place(*w)),
{
    if !w.is_floating {
        if let (Some(workspace), Some(pos)) = (w.workspace_id, w.layout.pos_in_scrolling_layout) {
            record.insert(w.id, (workspace, pos.0));
        }
    }
}

fn enter_layouts(
    record: &mut HashMap<u64, (u64, usize)>,
    changes: &Vec<(u64, IpcLayout)>,
    current: u64,
)
    ensures
        final(record)@ == layouts_entered(old(record)@, changes@, current),
{
    for i in 0..changes.len()
        invariant
            record@ == layouts_entered(old(record)@, changes@.take(i as int), current),
    {
        let id: u64 = changes[i].0;
        assert(changes@.take(i + 1).drop_last() =~= changes@.take(i as int));
        assert(changes@.take(i + 1).last() == changes@[i as int]);
        if let Some(pos) = changes[i].1.pos_in_scrolling_layout {
            let workspace: u64 = match record.get(&id) {
                Some(entry) => entry.0,
                None => current,
            };
            record.insert(id, (workspace, pos.0));
        }
    }
    assert(changes@.take(changes@.len() as int) =~= changes@);
}

impl WorkspaceRulePlugin {
    /// Whether no window's place is recorded, so that the windows have to be
    /// looked at before an event is handled.
    pub fn needs_columns(&self) -> (r: bool)
        ensures
            r == self@.window_columns.is_empty(),
    {
        self.window_columns.is_empty()
    }

    /// Records where windows stand.
    pub fn record_columns(&mut self, windows: &Vec<Window>)
        ensures
            final(self)@ == (WorkspaceRuleState {
                window_columns: all_entered(old(self)@.window_columns, windows@),
                ..old(self)@
            }),
            final(self).cached() == old(self).cached(),
    {
        enter_windows(&mut self.window_columns, windows);
    }
}

// -------------------------------------------------------------- Opened window

/// What to do for a window that opened.
#[derive(Debug, Clone, Copy, PartialEq, Eq, Structural)]
pub enum OpenedStep {
    /// It is about to become a floating panel, or may be: leave the tiling alone.
    Panel,
    /// It floats: leave the tiling alone.
    Floating,
    /// It is tiled: tile it, then set the widths, then align the columns.
    Tiled,
}

/// Whether a rule for titles alone can still apply to a window once it has a
/// title.
pub open spec fn awaits_title(rules: Seq<WindowRuleView>) -> bool {
    exists|i: int|
        0 <= i < rules.len() && (#[trigger] rules[i]).title is Some && rules[i].app_id is None
}

/// Whether a window has no title, or an empty one.
pub open spec fn untitled(w: IpcWindow) -> bool {
    match w.title {
        Some(title) => title@.len() == 0,
        None => true,
    }
}

/// Whether a new window has to be taken for a floating panel: it does not float
/// yet, but a floating rule matches it, or may match it once it has a title.
/// Nothing where a pattern fails before one matches.
pub open spec fn potential_panel(w: IpcWindow, floating_rules: Seq<WindowRuleView>) -> Option<
    bool,
> {
    let app_id = opt_text(w.app_id);
    let title = opt_text(w.title);
    if w.is_floating {
        Some(false)
    } else {
        match rule_at(floating_rules, app_id, title) {
            Some(i) => match rule_verdict(floating_rules[i], app_id, title) {
                Some(_) => Some(true),
                None => None,
            },
            None => Some(untitled(w) && awaits_title(floating_rules)),
        }
    }
}

/// Whether a pattern is the one that failed before a floating rule matched a
/// window.
pub open spec fn failing_pattern(
    w: IpcWindow,
    floating_rules: Seq<WindowRuleView>,
    pattern: Seq<char>,
) -> bool {
    let app_id = opt_text(w.app_id);
    let title = opt_text(w.title);
    rule_at(floating_rules, app_id, title) matches Some(i) && pattern
        == floating_rules[i].matcher().deciding_pattern(app_id, title)
}

fn is_untitled(w: &IpcWindow) -> (r: bool)
    ensures
        r == untitled(*w),
{
    match &w.title {
        Some(title) => title.as_str().unicode_len() == 0,
        None => true,
    }
}

fn has_title_rule(rules: &Vec<WindowRuleConfig>) -> (r: bool)
    ensures
        r == awaits_title(rule_views(rules@)),
{
    let ghost views = rule_views(rules@);
    for i in 0..rules.len()
        invariant
            views == rule_views(rules@),
            views.len() == rules@.len(),
            forall|j: int|
                0 <= j < i ==> !((#[trigger] views[j]).title is Some && views[j].app_id is None),
    {
        assert(views[i as int] == rules@[i as int]@);
        if rules[i].title.is_some() && rules[i].app_id.is_none() {
            return true;
        }
    }
    false
}

/// Whether a window is recorded in the last column of a workspace, and that is
/// not the only one.
pub open spec fn in_last_column(
    columns: Map<u64, (u64, usize)>,
    windows: Seq<Window>,
    workspace_id: u64,
    window_id: u64,
) -> bool {
    let last = max_column(tiled(windows, workspace_id));
    let mine = match columns.get(window_id) {
        Some(place) => place.1,
        None => 0,
    };
    mine == last && last > 1
}

impl WorkspaceRulePlugin {
    /// Check whether a window matches a floating window rule (i.e. the
    /// window_rule plugin is about to move it to the floating layer).
    pub fn matches_floating_rule(&mut self, window: &IpcWindow) -> (r: Result<bool, PatternError>)
        ensures
            ({
                let rules = old(self)@.floating_rules;
                let app_id = opt_text(window.app_id);
                let title = opt_text(window.title);
                match rule_at(rules, app_id, title) {
                    Some(i) => match rule_verdict(rules[i], app_id, title) {
                        Some(_) => r == Ok::<bool, PatternError>(true),
                        None => r matches Err(e) && e.pattern@
                            == rules[i].matcher().deciding_pattern(app_id, title),
                    },
                    None => r == Ok::<bool, PatternError>(false),
                }
            }),
            final(self)@ == old(self)@,
            old(self).cached().subset_of(final(self).cached()),
    {
        let found = find_rule(
            &self.config.floating_rules,
            window.app_id.as_ref(),
            window.title.as_ref(),
            &mut self.matcher_cache,
        );
        match found {
            Ok(Some(_)) => Ok(true),
            Ok(None) => Ok(false),
            Err(e) => Err(e),
        }
    }

    /// Takes in a window that opened and says what to do for it. Its size and
    /// layer are recorded in any case.
    pub fn on_window_opened(&mut self, window: &IpcWindow) -> (r: Result<OpenedStep, PatternError>)
        ensures
            match potential_panel(*window, old(self)@.floating_rules) {
                Some(panel) => r == Ok::<OpenedStep, PatternError>(
                    if panel {
                        OpenedStep::Panel
                    } else if window.is_floating {
                        OpenedStep::Floating
                    } else {
                        OpenedStep::Tiled
                    },
                ),
                None => r matches Err(e) && failing_pattern(
                    *window,
                    old(self)@.floating_rules,
                    e.pattern@,
                ),
            },
            final(self)@ == (WorkspaceRuleState {
                previous_window_sizes: old(self)@.previous_window_sizes.insert(
                    window.id,
                    window.layout.window_size,
                ),
                window_floating_state: old(self)@.window_floating_state.insert(
                    window.id,
                    window.is_floating,
                ),
                ..old(self)@
            }),
            old(self).cached().subset_of(final(self).cached()),
    {
        self.previous_window_sizes.insert(window.id, window.layout.window_size);
        self.window_floating_state.insert(window.id, window.is_floating);
        if window.is_floating {
            return Ok(OpenedStep::Floating);
        }
        match self.matches_floating_rule(window) {
            Ok(true) => Ok(OpenedStep::Panel),
            Ok(false) => {
                if is_untitled(window) && has_title_rule(&self.config.floating_rules) {
                    Ok(OpenedStep::Panel)
                } else {
                    Ok(OpenedStep::Tiled)
                }
            },
            Err(e) => Err(e),
        }
    }

    /// Notes that a window was merged into a column.
    pub fn record_auto_tiled(&mut self, window_id: u64)
        ensures
            final(self)@ == (WorkspaceRuleState {
                auto_tiled_windows: old(self)@.auto_tiled_windows.insert(window_id),
                ..old(self)@
            }),
            final(self).cached() == old(self).cached(),
    {
        self.auto_tiled_windows.insert(window_id);
    }

    /// Whether a new window is in the last column of its workspace, and that is
    /// not the only one, so that the columns are aligned to the right.
    pub fn opened_in_last_column(
        &self,
        windows: &Vec<Window>,
        workspace_id: u64,
        window_id: u64,
    ) -> (r: bool)
        ensures
            r == in_last_column(self@.window_columns, windows@, workspace_id, window_id),
    {
        let last: usize = last_column(&filter_tiled_windows_in_workspace(windows, workspace_id));
        let mine: usize = match self.window_columns.get(&window_id) {
            Some(place) => place.1,
            None => 0,
        };
        mine == last && last > 1
    }

    /// Whether the columns are aligned to the right for a new window: it is on
    /// the current workspace, the rule there asks for it, and the window is in
    /// the last column.
    pub fn aligns_when_opened(
        &self,
        windows: &Vec<Window>,
        window_workspace: Option<u64>,
        current: u64,
        own: Option<&WorkspaceRuleConfig>,
        window_id: u64,
    ) -> (r: bool)
        ensures
            r == (window_workspace == Some(current) && rule_in_force(
                own,
                self@.default,
            ).auto_fill && in_last_column(self@.window_columns, windows@, current, window_id)),
    {
        match window_workspace {
            Some(id) => id == current && self.get_auto_fill(own) && self.opened_in_last_column(
                windows,
                current,
                window_id,
            ),
            None => false,
        }
    }

    /// Takes in a window that changed.
    pub fn on_window_changed(&mut self, window: &IpcWindow)
        ensures
            final(self)@ == (WorkspaceRuleState {
                window_columns: entered(
                    old(self)@.window_columns,
                    window.id,
                    reported_place(*window),
                ),
                ..old(self)@
            }),
            final(self).cached() == old(self).cached(),
    {
        enter_report(&mut self.window_columns, window);
    }

    /// Takes in a window that moved between the layers.
    pub fn on_window_toggle_floating(&mut self, window: &IpcWindow)
        ensures
            final(self)@ == (WorkspaceRuleState {
                window_floating_state: old(self)@.window_floating_state.insert(
                    window.id,
                    window.is_floating,
                ),
                window_columns: if window.is_floating {
                    old(self)@.window_columns.remove(window.id)
                } else {
                    entered(old(self)@.window_columns, window.id, reported_place(*window))
                },
                ..old(self)@
            }),
            final(self).cached() == old(self).cached(),
    {
        self.window_floating_state.insert(window.id, window.is_floating);
        if window.is_floating {
            self.window_columns.remove(&window.id);
        } else {
            enter_report(&mut self.window_columns, window);
        }
    }

    /// Takes in all windows.
    pub fn on_windows_changed(&mut self, windows: &Vec<IpcWindow>)
        ensures
            final(self)@ == (WorkspaceRuleState {
                window_columns: all_reported(old(self)@.window_columns, windows@),
                ..old(self)@
            }),
            final(self).cached() == old(self).cached(),
    {
        let mut record: HashMap<u64, (u64, usize)> = HashMap::new();
        std::mem::swap(&mut record, &mut self.window_columns);
        let ghost before = record@;
        for i in 0..windows.len()
            invariant
                record@ == all_reported(before, windows@.take(i as int)),
        {
            assert(windows@.take(i + 1).drop_last() =~= windows@.take(i as int));
            assert(windows@.take(i + 1).last() == windows@[i as int]);
            enter_report(&mut record, &windows[i]);
        }
        assert(windows@.take(windows@.len() as int) =~= windows@);
        self.window_columns = record;
    }
}

// ------------------------------------------------------------ Layout changes

/// Being a change of the size of a tiled window whose size is known.
pub open spec fn resizes_tile(floating: Map<u64, bool>, sizes: Map<u64, (i32, i32)>) -> spec_fn(
    (u64, IpcLayout),
) -> bool {
    |change: (u64, IpcLayout)|
        floating.get(change.0) != Some(true) && sizes.contains_key(change.0) && sizes[change.0]
            != change.1.window_size
}

impl WorkspaceRulePlugin {
    /// Takes in changed layouts and says whether a tiled window has another
    /// size. Of the sizes, only the first one that changed is recorded.
    pub fn on_layouts_changed(&mut self, changes: &Vec<(u64, IpcLayout)>, current_workspace: u64)
        -> (r: bool)
        ensures
            ({
                let wanted = resizes_tile(
                    old(self)@.window_floating_state,
                    old(self)@.previous_window_sizes,
                );
                match first_where(changes@, wanted) {
                    Some(i) => {
                        &&& r
                        &&& final(self)@ == (WorkspaceRuleState {
                            window_columns: layouts_entered(
                                old(self)@.window_columns,
                                changes@,
                                current_workspace,
                            ),
                            previous_window_sizes: old(self)@.previous_window_sizes.insert(
                                changes@[i].0,
                                changes@[i].1.window_size,
                            ),
                            ..old(self)@
                        })
                    },
                    None => {
                        &&& !r
                        &&& final(self)@ == (WorkspaceRuleState {
                            window_columns: layouts_entered(
                                old(self)@.window_columns,
                                changes@,
                                current_workspace,
                            ),
                            ..old(self)@
                        })
                    },
                }
            }),
            final(self).cached() == old(self).cached(),
    {
        enter_layouts(&mut self.window_columns, changes, current_workspace);
        let ghost wanted = resizes_tile(
            old(self)@.window_floating_state,
            old(self)@.previous_window_sizes,
        );
        let ghost noted = self@;
        for i in 0..changes.len()
            invariant
                self@ == noted,
                self.cached() == old(self).cached(),
                noted.window_floating_state == old(self)@.window_floating_state,
                noted.previous_window_sizes == old(self)@.previous_window_sizes,
                noted == (WorkspaceRuleState {
                    window_columns: layouts_entered(
                        old(self)@.window_columns,
                        changes@,
                        current_workspace,
                    ),
                    ..old(self)@
                }),
                wanted == resizes_tile(
                    old(self)@.window_floating_state,
                    old(self)@.previous_window_sizes,
                ),
                forall|j: int| 0 <= j < i ==> !wanted(#[trigger] changes@[j]),
        {
            let id: u64 = changes[i].0;
            let size: (i32, i32) = changes[i].1.window_size;
            let is_floating = match self.window_floating_state.get(&id) {
                Some(floating) => *floating,
                None => false,
            };
            let changed = match self.previous_window_sizes.get(&id) {
                Some(previous) => previous.0 != size.0 || previous.1 != size.1,
                None => false,
            };
            if !is_floating && changed {
                proof {
                    first_where_found(changes@, wanted, i as int);
                }
                self.previous_window_sizes.insert(id, size);
                return true;
            }
        }
        proof {
            first_where_missing(changes@, wanted);
        }
        false
    }
}

// -------------------------------------------------------------- Closed window

/// What was known of a window that was closed.
#[derive(Debug, Clone, Copy, PartialEq, Eq)]
pub struct ClosedWindow {
    pub was_floating: bool,
    /// The workspace and column that it stood in, if they are known.
    pub place: Option<(u64, usize)>,
}

impl WorkspaceRuleState {
    /// What is known after a window was closed.
    pub open spec fn without_window(self, id: u64) -> WorkspaceRuleState {
        WorkspaceRuleState {
            window_floating_state: self.window_floating_state.remove(id),
            maximized_windows: self.maximized_windows.remove(id),
            auto_tiled_windows: self.auto_tiled_windows.remove(id),
            previous_window_sizes: self.previous_window_sizes.remove(id),
            window_columns: self.window_columns.remove(id),
            ..self
        }
    }
}

/// Which window gets the focus after one was closed, and whether the columns
/// are aligned to the right.
#[derive(Debug, Clone, Copy, PartialEq, Eq, Structural)]
pub struct ClosedFocus {
    pub target_focus: Option<u64>,
    pub align_right: bool,
}

/// Whether a window is the first of those of a list that are furthest to the
/// left, or there is none.
pub open spec fn is_foremost(tiles: Seq<Window>, target: Option<u64>) -> bool {
    match target {
        Some(id) => exists|i: int| #[trigger] foremost(tiles, i) && tiles[i].id == id,
        None => tiles.len() == 0,
    }
}

/// The column that a window is looked for in after one was closed: that to the
/// left, or the first one.
pub open spec fn column_before(column: usize) -> usize {
    if column > 1 {
        (column - 1) as usize
    } else {
        1
    }
}

/// Whether a focus is right after a window was closed. Where its place is not
/// known, a window of the current workspace that is furthest to the left gets
/// the focus. Where it was on another workspace, none does. Otherwise a window
/// in the column to its left does, or else one that is furthest to the left;
/// and the columns are aligned to the right where the closed window was alone
/// in the last column and two windows or more are left.
pub open spec fn focus_follows(
    closed: Option<(u64, usize)>,
    current: u64,
    remaining: Seq<Window>,
    focus: ClosedFocus,
) -> bool {
    match closed {
        None => {
            &&& is_foremost(tiled(remaining, current), focus.target_focus)
            &&& !focus.align_right
        },
        Some((workspace, column)) => if workspace != current {
            focus.target_focus is None && !focus.align_right
        } else {
            let tiles = tiled(remaining, workspace);
            &&& match first_where(tiles, in_column(column_before(column))) {
                Some(i) => focus.target_focus == Some(tiles[i].id),
                None => is_foremost(tiles, focus.target_focus),
            }
            &&& focus.align_right == (column > max_column(tiles) && tiles.len() > 1)
        },
    }
}

/// Says which window gets the focus after one was closed, and whether the
/// columns are aligned to the right.
pub fn focus_after_close(
    closed: Option<(u64, usize)>,
    current_workspace: u64,
    remaining: &Vec<Window>,
) -> (r: ClosedFocus)
    ensures
        focus_follows(closed, current_workspace, remaining@, r),
{
    match closed {
        None => {
            let ws_remaining = filter_tiled_windows_in_workspace(remaining, current_workspace);
            assert(ws_remaining@.len() == tiled(remaining@, current_workspace).len());
            ClosedFocus {
                target_focus: match find_foremost(&ws_remaining) {
                    Some(w) => Some(w.id),
                    None => None,
                },
                align_right: false,
            }
        },
        Some((workspace, column)) => {
            if workspace != current_workspace {
                return ClosedFocus { target_focus: None, align_right: false };
            }
            let ws_remaining = filter_tiled_windows_in_workspace(remaining, workspace);
            assert(ws_remaining@.len() == tiled(remaining@, workspace).len());
            let target_column: usize = if column > 1 {
                column - 1
            } else {
                1
            };
            let target_focus = match find_in_column(&ws_remaining, target_column) {
                Some(w) => Some(w.id),
                None => match find_foremost(&ws_remaining) {
                    Some(w) => Some(w.id),
                    None => None,
                },
            };
            let was_last = column > last_column(&ws_remaining) && ws_remaining.len() > 1;
            ClosedFocus { target_focus, align_right: was_last }
        },
    }
}

impl WorkspaceRulePlugin {
    /// Forgets a window that was closed.
    pub fn handle_window_closed(&mut self, window_id: u64) -> (r: ClosedWindow)
        ensures
            r.was_floating == (old(self)@.window_floating_state.get(window_id) == Some(true)),
            r.place == old(self)@.window_columns.get(window_id),
            final(self)@ == old(self)@.without_window(window_id),
            final(self).cached() == old(self).cached(),
    {
        let was_floating = match self.window_floating_state.remove(&window_id) {
            Some(floating) => floating,
            None => false,
        };
        self.maximized_windows.remove(&window_id);
        self.auto_tiled_windows.remove(&window_id);
        self.previous_window_sizes.remove(&window_id);
        let place = self.window_columns.remove(&window_id);
        ClosedWindow { was_floating, place }
    }
}

// ------------------------------------------------------------------ Autofill

/// What to do about aligning the columns.
#[derive(Debug, Clone, Copy, PartialEq, Eq, Structural)]
pub enum AutofillStep {
    /// Aligning is off: focus the window, if there is one.
    FocusOnly(Option<u64>),
    /// Look which window is focused.
    LookAtFocus,
}

/// Being a floating window with an id.
pub open spec fn floating_with_id(windows: Seq<Window>, id: u64) -> bool {
    exists|i: int|
        0 <= i < windows.len() && (#[trigger] windows[i]).id == id && windows[i].floating
}

/// The requests that align the columns: going left and right again brings the
/// last column into view.
pub open spec fn align_requests(target_focus: Option<u64>, align_right: bool) -> Seq<ActionView> {
    if align_right {
        seq![ActionView::FocusColumnLeft, ActionView::FocusColumnRight]
    } else {
        match target_focus {
            Some(id) => seq![ActionView::FocusWindow { id }],
            None => seq![],
        }
    }
}

/// The requests that align the columns.
pub fn check_and_align_last_column(target_focus: Option<u64>, align_right: bool) -> (r: Vec<Action>)
    ensures
        action_views(r@) == align_requests(target_focus, align_right),
{
    let mut r: Vec<Action> = Vec::new();
    if align_right {
        r.push(Action::FocusColumnLeft);
        r.push(Action::FocusColumnRight);
    } else if let Some(id) = target_focus {
        r.push(Action::FocusWindow { id });
    }
    assert(action_views(r@) =~= align_requests(target_focus, align_right));
    r
}

impl WorkspaceRulePlugin {
    /// Says what to do about aligning the columns of a workspace.
    pub fn try_execute_autofill(
        &self,
        own: Option<&WorkspaceRuleConfig>,
        target_focus: Option<u64>,
    ) -> (r: AutofillStep)
        ensures
            r == (if rule_in_force(own, self@.default).auto_fill {
                AutofillStep::LookAtFocus
            } else {
                AutofillStep::FocusOnly(target_focus)
            }),
    {
        if self.get_auto_fill(own) {
            AutofillStep::LookAtFocus
        } else {
            AutofillStep::FocusOnly(target_focus)
        }
    }

    /// Begins aligning the columns, unless the user works in a floating window
    /// (e.g. typing a master password into a panel), from which the focus must
    /// not be taken, or the columns are being aligned already.
    pub fn begin_autofill(&mut self, focused: Option<u64>, windows: &Vec<Window>) -> (r: bool)
        ensures
            r == (!(focused matches Some(id) && floating_with_id(windows@, id)) && !old(
                self,
            )@.autofill_executing),
            final(self)@ == (WorkspaceRuleState {
                autofill_executing: old(self)@.autofill_executing || r,
                ..old(self)@
            }),
            final(self).cached() == old(self).cached(),
    {
        if let Some(id) = focused {
            for i in 0..windows.len()
                invariant
                    focused == Some(id),
                    forall|j: int|
                        0 <= j < i ==> !((#[trigger] windows@[j]).id == id && windows@[j].floating),
            {
                if windows[i].id == id && windows[i].floating {
                    assert(floating_with_id(windows@, id));
                    return false;
                }
            }
        }
        if self.autofill_executing {
            return false;
        }
        self.autofill_executing = true;
        true
    }

    /// Ends aligning the columns.
    pub fn end_autofill(&mut self)
        ensures
            final(self)@ == (WorkspaceRuleState { autofill_executing: false, ..old(self)@ }),
            final(self).cached() == old(self).cached(),
    {
        self.autofill_executing = false;
    }
}

// ---------------------------------------------------------------- Indicators

/// How to go on with the indicators of a workspace.
#[derive(Debug, Clone, Copy, PartialEq, Eq, Structural)]
pub enum PulseStart {
    /// They are switched off, and none is shown: nothing is left to do.
    Disabled,
    /// They are switched off, and one is shown: hide them.
    Hide,
    /// They are switched on: look at the windows.
    LookOn,
}

impl WorkspaceRulePlugin {
    /// Whether the indicators have to be drawn as hidden.
    pub fn hide_edge_pulse(&self) -> (r: bool)
        ensures
            r == (self@.edge_pulse_last_render != Some(hidden())),
    {
        match self.edge_pulse_last_render {
            Some(state) => state.show_left || state.show_right,
            None => true,
        }
    }

    /// Notes that the indicators were drawn as hidden.
    pub fn record_hidden(&mut self)
        ensures
            final(self)@ == (WorkspaceRuleState {
                edge_pulse_last_render: Some(hidden()),
                ..old(self)@
            }),
            final(self).cached() == old(self).cached(),
    {
        self.edge_pulse_last_render =
        Some(EdgePulseRenderState { show_left: false, show_right: false });
    }

    /// Takes in that the indicators are switched off and says whether one of
    /// them is shown, so that they have to be hidden.
    pub fn disable_edge_pulse(&mut self) -> (r: bool)
        ensures
            r == (old(self)@.edge_pulse_last_render matches Some(state) && (state.show_left
                || state.show_right)),
            final(self)@ == (WorkspaceRuleState { edge_pulse_last_render: None, ..old(self)@ }),
            final(self).cached() == old(self).cached(),
    {
        match self.edge_pulse_last_render.take() {
            Some(state) => state.show_left || state.show_right,
            None => false,
        }
    }

    /// Takes in whether the indicators are switched on for a workspace and says
    /// how to go on.
    pub fn begin_edge_pulse(&mut self, enabled: bool) -> (r: PulseStart)
        ensures
            r == (if enabled {
                PulseStart::LookOn
            } else if old(self)@.edge_pulse_last_render matches Some(state) && (state.show_left
                || state.show_right) {
                PulseStart::Hide
            } else {
                PulseStart::Disabled
            }),
            final(self)@ == (if enabled {
                old(self)@
            } else {
                WorkspaceRuleState { edge_pulse_last_render: None, ..old(self)@ }
            }),
            final(self).cached() == old(self).cached(),
    {
        if enabled {
            PulseStart::LookOn
        } else if self.disable_edge_pulse() {
            PulseStart::Hide
        } else {
            PulseStart::Disabled
        }
    }

    /// Takes in how the indicators are to be shown and says whether they have
    /// to be drawn.
    pub fn show_edge_pulse(&mut self, state: EdgePulseRenderState) -> (r: bool)
        ensures
            r == (old(self)@.edge_pulse_last_render != Some(state)),
            final(self)@ == (WorkspaceRuleState {
                edge_pulse_last_render: Some(state),
                ..old(self)@
            }),
            final(self).cached() == old(self).cached(),
    {
        let drawn = match self.edge_pulse_last_render {
            Some(last) => last == state,
            None => false,
        };
        if !drawn {
            self.edge_pulse_last_render = Some(state);
        }
        !drawn
    }
}

// --------------------------------------------------------------------- Tasks

/// One thing to do for a workspace.
#[derive(Debug, Clone, Copy, PartialEq, Eq, Structural)]
pub enum WorkspaceTask {
    /// Look at all windows and record where they stand.
    RecordColumns,
    /// Merge the window into a column; a failure is passed over.
    AutoTile,
    /// Set the widths of the columns; a failure ends everything.
    ApplyWidths,
    /// Align the columns to the right if the window is in the last one.
    AlignIfLast,
    /// Focus another window, or align the columns.
    MoveFocus,
    /// Bring the indicators up to date.
    SyncIndicators,
}

/// What is done, in order, for a window that opened.
pub open spec fn tasks_when_opened(step: OpenedStep) -> Seq<WorkspaceTask> {
    match step {
        OpenedStep::Panel => seq![WorkspaceTask::SyncIndicators],
        OpenedStep::Floating => seq![WorkspaceTask::SyncIndicators],
        OpenedStep::Tiled => seq![
            WorkspaceTask::RecordColumns,
            WorkspaceTask::AutoTile,
            WorkspaceTask::ApplyWidths,
            WorkspaceTask::AlignIfLast,
            WorkspaceTask::SyncIndicators,
        ],
    }
}

/// What is done, in order, for a window that moved between the layers.
pub open spec fn tasks_when_toggled(is_floating: bool) -> Seq<WorkspaceTask> {
    if is_floating {
        seq![WorkspaceTask::ApplyWidths, WorkspaceTask::SyncIndicators]
    } else {
        seq![
            WorkspaceTask::ApplyWidths,
            WorkspaceTask::AutoTile,
            WorkspaceTask::SyncIndicators,
        ]
    }
}

/// What is done, in order, for a window that was closed. A closed floating
/// panel never took part in the tiling layout, so there is nothing to re-apply
/// or realign.
pub open spec fn tasks_when_closed(was_floating: bool) -> Seq<WorkspaceTask> {
    if was_floating {
        seq![WorkspaceTask::SyncIndicators]
    } else {
        seq![
            WorkspaceTask::ApplyWidths,
            WorkspaceTask::RecordColumns,
            WorkspaceTask::MoveFocus,
            WorkspaceTask::SyncIndicators,
        ]
    }
}

/// What is done, in order, for a window that opened.
pub fn opened_tasks(step: OpenedStep) -> (r: Vec<WorkspaceTask>)
    ensures
        r@ == tasks_when_opened(step),
{
    let r = match step {
        OpenedStep::Panel => vec![WorkspaceTask::SyncIndicators],
        OpenedStep::Floating => vec![WorkspaceTask::SyncIndicators],
        OpenedStep::Tiled => vec![
            WorkspaceTask::RecordColumns,
            WorkspaceTask::AutoTile,
            WorkspaceTask::ApplyWidths,
            WorkspaceTask::AlignIfLast,
            WorkspaceTask::SyncIndicators,
        ],
    };
    assert(r@ =~= tasks_when_opened(step));
    r
}

/// What is done, in order, for a window that moved between the layers.
pub fn toggled_tasks(is_floating: bool) -> (r: Vec<WorkspaceTask>)
    ensures
        r@ == tasks_when_toggled(is_floating),
{
    let r = if is_floating {
        vec![WorkspaceTask::ApplyWidths, WorkspaceTask::SyncIndicators]
    } else {
        vec![
            WorkspaceTask::ApplyWidths,
            WorkspaceTask::AutoTile,
            WorkspaceTask::SyncIndicators,
        ]
    };
    assert(r@ =~= tasks_when_toggled(is_floating));
    r
}

/// What is done, in order, for a window that was closed.
pub fn closed_tasks(was_floating: bool) -> (r: Vec<WorkspaceTask>)
    ensures
        r@ == tasks_when_closed(was_floating),
{
    let r = if was_floating {
        vec![WorkspaceTask::SyncIndicators]
    } else {
        vec![
            WorkspaceTask::ApplyWidths,
            WorkspaceTask::RecordColumns,
            WorkspaceTask::MoveFocus,
            WorkspaceTask::SyncIndicators,
        ]
    };
    assert(r@ =~= tasks_when_closed(was_floating));
    r
}

// -------------------------------------------------------------------- Events

/// What to do about an event.
#[derive(Debug, Clone, Copy, PartialEq, Eq, Structural)]
pub enum WorkspaceRuleReaction {
    Nothing,
    /// Arrange the workspace for a window that opened.
    HandleOpened,
    /// Record the place of a changed window, then bring the indicators up to date.
    HandleChanged,
    /// Arrange the workspace for a window that moved between the layers.
    HandleToggled,
    /// Arrange the workspace for a window that was closed.
    HandleClosed(u64),
    /// Record changed layouts, then bring the indicators up to date if a size
    /// changed.
    HandleLayouts,
    /// Record the places of all windows.
    HandleAll,
    /// Bring the indicators up to date for the focused workspace.
    SyncFocused,
    /// Bring the indicators up to date for a workspace, whatever was drawn last.
    SyncActivated(u64),
}

/// What to do about an event.
pub open spec fn workspace_reaction(event: PiriEvent) -> WorkspaceRuleReaction {
    match event {
        PiriEvent::WindowOpened { .. } => WorkspaceRuleReaction::HandleOpened,
        PiriEvent::WindowChanged { .. } => WorkspaceRuleReaction::HandleChanged,
        PiriEvent::WindowToggleFloating { .. } => WorkspaceRuleReaction::HandleToggled,
        PiriEvent::WindowClosed { id } => WorkspaceRuleReaction::HandleClosed(id),
        PiriEvent::WindowFocusChanged { id } => if id is Some {
            WorkspaceRuleReaction::SyncFocused
        } else {
            WorkspaceRuleReaction::Nothing
        },
        PiriEvent::WindowLayoutsChanged { .. } => WorkspaceRuleReaction::HandleLayouts,
        PiriEvent::WorkspaceActivated { id, focused } => if focused {
            WorkspaceRuleReaction::SyncActivated(id)
        } else {
            WorkspaceRuleReaction::Nothing
        },
        PiriEvent::WindowsChanged { .. } => WorkspaceRuleReaction::HandleAll,
        PiriEvent::Other => WorkspaceRuleReaction::Nothing,
    }
}

/// Whether a plugin for workspace rules wants to know of an event.
pub open spec fn workspace_interesting(event: PiriEvent) -> bool {
    match event {
        PiriEvent::WindowFocusChanged { id } => id is Some,
        PiriEvent::Other => false,
        _ => true,
    }
}

impl WorkspaceRulePlugin {
    /// Says what to do about an event. What was drawn last is forgotten at once
    /// where another workspace gets the focus.
    pub fn handle_event(&mut self, event: &PiriEvent) -> (r: WorkspaceRuleReaction)
        ensures
            r == workspace_reaction(*event),
            final(self)@ == (if r is SyncActivated {
                WorkspaceRuleState { edge_pulse_last_render: None, ..old(self)@ }
            } else {
                old(self)@
            }),
            final(self).cached() == old(self).cached(),
    {
        match event {
            PiriEvent::WindowOpened { .. } => WorkspaceRuleReaction::HandleOpened,
            PiriEvent::WindowChanged { .. } => WorkspaceRuleReaction::HandleChanged,
            PiriEvent::WindowToggleFloating { .. } => WorkspaceRuleReaction::HandleToggled,
            PiriEvent::WindowClosed { id } => WorkspaceRuleReaction::HandleClosed(*id),
            PiriEvent::WindowFocusChanged { id } => {
                if id.is_some() {
                    WorkspaceRuleReaction::SyncFocused
                } else {
                    WorkspaceRuleReaction::Nothing
                }
            },
            PiriEvent::WindowLayoutsChanged { .. } => WorkspaceRuleReaction::HandleLayouts,
            PiriEvent::WorkspaceActivated { id, focused } => {
                if *focused {
                    self.edge_pulse_last_render = None;
                    WorkspaceRuleReaction::SyncActivated(*id)
                } else {
                    WorkspaceRuleReaction::Nothing
                }
            },
            PiriEvent::WindowsChanged { .. } => WorkspaceRuleReaction::HandleAll,
            PiriEvent::Other => WorkspaceRuleReaction::Nothing,
        }
    }

    /// Whether the plugin wants to know of an event.
    pub fn is_interested_in_event(&self, event: &PiriEvent) -> (r: bool)
        ensures
            r == workspace_interesting(*event),
    {
        match event {
            PiriEvent::WindowFocusChanged { id } => id.is_some(),
            PiriEvent::Other => false,
            _ => true,
        }
    }

    /// Replaces the rules.
    pub fn update_config(&mut self, config: WorkspaceRulePluginConfig)
        ensures
            final(self)@ == (WorkspaceRuleState {
                default: config.default@,
                workspaces: config.workspaces@,
                floating_rules: rule_views(config.floating_rules@),
                edge_pulse_last_render: None,
                ..old(self)@
            }),
            final(self).cached() == Set::<Seq<char>>::empty(),
    {
        self.config = config;
        self.matcher_cache.clear_cache();
        self.edge_pulse_last_render = None;
    }
}

// ---------------------------------------------------------------------- Laws

/// A window that is alone is maximized once, and not again while it is known to
/// be maximized.
pub proof fn lone_window_is_maximized_once(
    rule: WorkspaceRuleView,
    window: Window,
    maximized: Set<u64>,
    plan: WidthPlan,
    again: WidthPlan,
)
    requires
        rule.auto_maximize,
        plans_widths(plan, rule, seq![window], maximized),
        plans_widths(
            again,
            rule,
            seq![window],
            maximized_after(rule, seq![window], maximized),
        ),
    ensures
        maximized.contains(window.id) ==> plan is Nothing,
        !maximized.contains(window.id) ==> plan == WidthPlan::Maximize(window.id),
        again is Nothing,
{
}

/// Where there are two windows or more, none of them counts as maximized any
/// longer, and those that were are no longer maximized or get a width instead.
pub proof fn several_windows_are_not_maximized(
    rule: WorkspaceRuleView,
    tiles: Seq<Window>,
    maximized: Set<u64>,
    plan: WidthPlan,
    i: int,
)
    requires
        rule.auto_maximize,
        tiles.len() >= 2,
        0 <= i < tiles.len(),
        plans_widths(plan, rule, tiles, maximized),
    ensures
        !maximized_after(rule, tiles, maximized).contains(tiles[i].id),
        plan matches WidthPlan::Unmaximize(ids) ==> maximized.contains(tiles[i].id)
            ==> ids@.contains(tiles[i].id),
        !(plan is Maximize) && !(plan is Nothing),
{
    assert(ids_of(tiles).contains(tiles[i].id));
    if maximized.contains(tiles[i].id) {
        lemma_maximized_among(tiles, maximized, i);
    }
}

proof fn lemma_maximized_among(windows: Seq<Window>, maximized: Set<u64>, i: int)
    requires
        0 <= i < windows.len(),
        maximized.contains(windows[i].id),
    ensures
        maximized_among(windows, maximized).contains(windows[i].id),
    decreases windows.len(),
{
    let before = windows.drop_last();
    let ids = maximized_among(before, maximized);
    let id = windows[i].id;
    let last = windows.last().id;
    if ids_of(before).contains(id) {
        let j = choose|j: int| 0 <= j < before.len() && (#[trigger] before[j]).id == id;
        lemma_maximized_among(before, maximized, j);
        let k = choose|k: int| 0 <= k < ids.len() && ids[k] == id;
        assert(maximized_among(windows, maximized)[k] == id);
    } else {
        if i < before.len() {
            assert(before[i].id == id);
        }
        assert(last == id);
        assert(maximized_among(windows, maximized)[ids.len() as int] == id);
    }
}

/// A row with one width gives that width to every column; a row with a width
/// for each column gives each its own.
pub proof fn widths_by_place(
    steps: Seq<WidthStep>,
    columns: Map<usize, u64>,
    row: Seq<Seq<char>>,
    i: int,
)
    requires
        sets_widths(steps, columns, row),
        0 <= i < steps.len(),
        row.len() > 0,
    ensures
        row.len() == 1 ==> steps[i].width@ == row[0],
        row.len() >= steps.len() ==> steps[i].width@ == row[i],
{
}

/// Each column gets exactly one width.
pub proof fn one_width_for_each_column(
    steps: Seq<WidthStep>,
    columns: Map<usize, u64>,
    row: Seq<Seq<char>>,
)
    requires
        sets_widths(steps, columns, row),
    ensures
        columns.len() == steps.len(),
        forall|i: int, j: int|
            0 <= i < j < steps.len() ==> (#[trigger] steps[i]).column < (#[trigger] steps[j]).column,
        forall|column: usize| #[trigger]
            columns.contains_key(column) ==> exists|i: int|
                0 <= i < steps.len() && (#[trigger] steps[i]).column == column && steps[i].window
                    == columns[column],
{
    let entries = steps.map_values(|s: WidthStep| (s.column, s.window));
    listing_is_complete(entries, columns);
    assert forall|i: int, j: int| 0 <= i < j < steps.len() implies (#[trigger] steps[i]).column < (
    #[trigger] steps[j]).column by {
        assert(entries[i].0 < entries[j].0);
    }
    assert forall|column: usize| #[trigger] columns.contains_key(column) implies exists|i: int|
        0 <= i < steps.len() && (#[trigger] steps[i]).column == column && steps[i].window
            == columns[column] by {
        let i = choose|i: int| 0 <= i < entries.len() && (#[trigger] entries[i]).0 == column;
        assert(columns.contains_key(entries[i].0));
        assert(steps[i].column == column);
    }
}

/// The place of a row of widths is the number of columns that it serves,
/// however many there are: where there is such a row, and it is not empty, every
/// column gets its width from it.
pub proof fn widths_by_number_of_columns(
    plan: WidthPlan,
    rule: WorkspaceRuleView,
    tiles: Seq<Window>,
    maximized: Set<u64>,
)
    requires
        plans_widths(plan, rule, tiles, maximized),
        !rule.auto_maximize || tiles.len() > 1,
        1 <= column_windows(tiles).len() <= rule.auto_width.len(),
        rule.auto_width[column_windows(tiles).len() - 1].len() > 0,
    ensures
        plan matches WidthPlan::SetWidths(steps) && sets_widths(
            steps@,
            column_windows(tiles),
            rule.auto_width[column_windows(tiles).len() - 1],
        ),
{
}

/// Nothing is known of a window that was closed.
pub proof fn closed_window_is_forgotten(state: WorkspaceRuleState, id: u64)
    ensures
        ({
            let after = state.without_window(id);
            &&& !after.window_floating_state.contains_key(id)
            &&& !after.maximized_windows.contains(id)
            &&& !after.auto_tiled_windows.contains(id)
            &&& !after.previous_window_sizes.contains_key(id)
            &&& !after.window_columns.contains_key(id)
        }),
{
}

/// A window that gets the focus after another was closed is tiled on the
/// current workspace.
pub proof fn focus_stays_on_workspace(
    closed: Option<(u64, usize)>,
    current: u64,
    remaining: Seq<Window>,
    focus: ClosedFocus,
)
    requires
        focus_follows(closed, current, remaining, focus),
    ensures
        focus.target_focus matches Some(id) ==> exists|i: int|
            0 <= i < remaining.len() && (#[trigger] remaining[i]).id == id && remaining[i].tiled_on(
                current,
            ),
{
    let tiles = tiled(remaining, current);
    if let Some(id) = focus.target_focus {
        let k = if exists|i: int| #[trigger] foremost(tiles, i) && tiles[i].id == id {
            choose|i: int| #[trigger] foremost(tiles, i) && tiles[i].id == id
        } else {
            first_where(tiles, in_column(column_before((closed->0).1)))->0
        };
        first_where_is_first(tiles, in_column(column_before((closed->0).1)));
        assert(tiles.contains(tiles[k]));
        tiled_are_on_workspace(remaining, current, tiles[k]);
        let i = choose|i: int| 0 <= i < remaining.len() && remaining[i] == tiles[k];
        assert(remaining[i].id == id);
    }
}

/// There is only one right focus after a window was closed.
pub proof fn focus_after_close_is_unique(
    closed: Option<(u64, usize)>,
    current: u64,
    remaining: Seq<Window>,
    a: ClosedFocus,
    b: ClosedFocus,
)
    requires
        focus_follows(closed, current, remaining, a),
        focus_follows(closed, current, remaining, b),
    ensures
        a == b,
{
    let tiles = tiled(remaining, current);
    if is_foremost(tiles, a.target_focus) && is_foremost(tiles, b.target_focus) {
        if tiles.len() > 0 {
            let i = choose|i: int|
                #[trigger] foremost(tiles, i) && tiles[i].id == a.target_focus->0;
            let j = choose|j: int|
                #[trigger] foremost(tiles, j) && tiles[j].id == b.target_focus->0;
            foremost_is_unique(tiles, i, j);
        } else {
            assert(forall|i: int| !#[trigger] foremost(tiles, i));
        }
    }
}

/// A new window without a title is never tiled while a rule for titles alone may
/// still make it a panel.
pub proof fn untitled_window_is_not_tiled(w: IpcWindow, floating_rules: Seq<WindowRuleView>)
    requires
        !w.is_floating,
        untitled(w),
        awaits_title(floating_rules),
    ensures
        potential_panel(w, floating_rules) != Some(false),
{
}

/// The indicators are brought up to date last, whatever happened to a window.
pub proof fn indicators_come_last(step: OpenedStep, floating: bool)
    ensures
        tasks_when_opened(step).last() == WorkspaceTask::SyncIndicators,
        tasks_when_toggled(floating).last() == WorkspaceTask::SyncIndicators,
        tasks_when_closed(floating).last() == WorkspaceTask::SyncIndicators,
{
}

/// A floating window that opens or closes, and a panel that opens, changes
/// neither the tiling nor the focus.
pub proof fn floating_windows_leave_the_tiling_alone(task: WorkspaceTask)
    requires
        tasks_when_opened(OpenedStep::Panel).contains(task) || tasks_when_opened(
            OpenedStep::Floating,
        ).contains(task) || tasks_when_closed(true).contains(task),
    ensures
        task == WorkspaceTask::SyncIndicators,
{
}

/// Every column gets the width at its place in the row; a column for whose place
/// the row has none gets the last width of the row.
pub proof fn missing_widths_are_the_last_one(
    steps: Seq<WidthStep>,
    columns: Map<usize, u64>,
    row: Seq<Seq<char>>,
    i: int,
)
    requires
        sets_widths(steps, columns, row),
        0 <= i < steps.len(),
        row.len() > 0,
    ensures
        i < row.len() ==> steps[i].width@ == row[i],
        i >= row.len() ==> steps[i].width@ == row[row.len() - 1],
{
}

/// The rule that is written for a workspace holds there, in all it says; where
/// none is, the default one does.
pub proof fn own_rule_takes_precedence(
    own: Option<&WorkspaceRuleConfig>,
    default: WorkspaceRuleView,
)
    ensures
        own is None ==> rule_in_force(own, default) == default,
        own matches Some(rule) ==> {
            let r = rule_in_force(own, default);
            &&& r.auto_width.len() == rule.auto_width@.len()
            &&& r.auto_tile == rule.auto_tile
            &&& r.auto_fill == rule.auto_fill
            &&& r.auto_maximize == rule.auto_maximize
            &&& r.edge_pulse == rule.edge_pulse
            &&& forall|i: int, j: int|
                0 <= i < rule.auto_width@.len() && 0 <= j < rule.auto_width@[i]@.len()
                    ==> r.auto_width[i].len() == rule.auto_width@[i]@.len() && (
                #[trigger] r.auto_width[i][j]) == rule.auto_width@[i]@[j]@
        },
{
}

/// A rule asks for something exactly where one of its settings is switched on or
/// widths are given.
pub proof fn settings_ask_for_something(rule: WorkspaceRuleView)
    ensures
        rule.auto_width.len() > 0 ==> rule.asks(),
        rule.auto_tile ==> rule.asks(),
        rule.auto_fill ==> rule.asks(),
        rule.auto_maximize ==> rule.asks(),
        rule.edge_pulse.enabled ==> rule.asks(),
        rule.auto_width.len() == 0 && !rule.auto_tile && !rule.auto_fill && !rule.auto_maximize
            && !rule.edge_pulse.enabled ==> !rule.asks(),
{
}

/// Where no row of widths serves the number of columns, no width is set.
pub proof fn no_widths_without_a_row(
    plan: WidthPlan,
    rule: WorkspaceRuleView,
    tiles: Seq<Window>,
    maximized: Set<u64>,
)
    requires
        plans_widths(plan, rule, tiles, maximized),
        column_windows(tiles).len() == 0 || column_windows(tiles).len() > rule.auto_width.len(),
    ensures
        !(plan is SetWidths),
        !(plan is EmptyRow),
        !rule.auto_maximize ==> plan is Nothing,
{
}

/// Without auto_maximize, no window is maximized or unmaximized, and what is
/// known of maximized windows does not change.
pub proof fn maximizing_is_asked_for(
    plan: WidthPlan,
    rule: WorkspaceRuleView,
    tiles: Seq<Window>,
    maximized: Set<u64>,
)
    requires
        plans_widths(plan, rule, tiles, maximized),
        !rule.auto_maximize,
    ensures
        !(plan is Maximize),
        !(plan is Unmaximize),
        maximized_after(rule, tiles, maximized) == maximized,
{
}

/// Only the windows of the workspace change between being maximized and not; a
/// window that is alone there becomes maximized.
pub proof fn other_windows_stay_maximized(
    rule: WorkspaceRuleView,
    tiles: Seq<Window>,
    maximized: Set<u64>,
    id: u64,
)
    requires
        forall|i: int| 0 <= i < tiles.len() ==> (#[trigger] tiles[i]).id != id,
    ensures
        maximized_after(rule, tiles, maximized).contains(id) == maximized.contains(id),
        rule.auto_maximize && tiles.len() == 1 ==> maximized_after(
            rule,
            tiles,
            maximized,
        ).contains(tiles[0].id),
{
    if ids_of(tiles).contains(id) {
        let i = choose|i: int| 0 <= i < tiles.len() && (#[trigger] tiles[i]).id == id;
        assert(tiles[i].id != id);
    }
}

/// Only windows that are known to be maximized are unmaximized, each once.
pub proof fn only_maximized_windows_are_unmaximized(
    plan: WidthPlan,
    rule: WorkspaceRuleView,
    tiles: Seq<Window>,
    maximized: Set<u64>,
)
    requires
        plans_widths(plan, rule, tiles, maximized),
    ensures
        plan matches WidthPlan::Unmaximize(ids) ==> ids@.no_duplicates() && forall|k: int|
            0 <= k < ids@.len() ==> maximized.contains(#[trigger] ids@[k]) && exists|i: int|
                0 <= i < tiles.len() && (#[trigger] tiles[i]).id == ids@[k],
{
    lemma_maximized_among_is_unique(tiles, maximized);
    if let WidthPlan::Unmaximize(ids) = plan {
        assert forall|k: int| 0 <= k < ids@.len() implies maximized.contains(#[trigger] ids@[k])
            && exists|i: int| 0 <= i < tiles.len() && (#[trigger] tiles[i]).id == ids@[k] by {
            assert(ids_of(tiles).contains(ids@[k]));
        }
    }
}

proof fn lemma_maximized_among_is_unique(windows: Seq<Window>, maximized: Set<u64>)
    ensures
        maximized_among(windows, maximized).no_duplicates(),
        forall|k: int|
            0 <= k < maximized_among(windows, maximized).len() ==> maximized.contains(
                #[trigger] maximized_among(windows, maximized)[k],
            ) && ids_of(windows).contains(maximized_among(windows, maximized)[k]),
    decreases windows.len(),
{
    if windows.len() > 0 {
        let before = windows.drop_last();
        let ids = maximized_among(before, maximized);
        let all = maximized_among(windows, maximized);
        let last = windows.last().id;
        lemma_maximized_among_is_unique(before, maximized);
        assert(windows[windows.len() - 1].id == last);
        assert forall|k: int| 0 <= k < all.len() implies maximized.contains(#[trigger] all[k])
            && ids_of(windows).contains(all[k]) by {
            if k < ids.len() {
                assert(all[k] == ids[k]);
                let i = choose|i: int|
                    0 <= i < before.len() && (#[trigger] before[i]).id == ids[k];
                assert(windows[i].id == ids[k]);
            }
        }
        assert forall|j: int, k: int| 0 <= j < all.len() && 0 <= k < all.len() && j
            != k implies all[j] != all[k] by {
            if j < ids.len() && k < ids.len() {
                assert(all[j] == ids[j] && all[k] == ids[k]);
            } else if j < ids.len() {
                assert(ids_of(before).contains(ids[j]));
            } else {
                assert(ids_of(before).contains(ids[k]));
            }
        }
    }
}

/// The floating rules of two lists in a row are those of the one, then those of
/// the other; a rule is one exactly where it says that its windows float.
pub proof fn floating_rules_are_picked(a: Seq<WindowRuleView>, b: Seq<WindowRuleView>)
    ensures
        floating_only(a + b) == floating_only(a) + floating_only(b),
        a.len() == 1 ==> floating_only(a) == (if a[0].floating == Some(true) {
            a
        } else {
            Seq::<WindowRuleView>::empty()
        }),
    decreases b.len(),
{
    if a.len() == 1 {
        assert(a.drop_last() =~= Seq::<WindowRuleView>::empty());
        assert(floating_only(a.drop_last()) =~= Seq::<WindowRuleView>::empty());
        assert(Seq::<WindowRuleView>::empty().push(a[0]) =~= a);
    }
    if b.len() == 0 {
        assert(a + b =~= a);
        assert(floating_only(a) + floating_only(b) =~= floating_only(a));
    } else {
        floating_rules_are_picked(a, b.drop_last());
        assert((a + b).drop_last() =~= a + b.drop_last());
        assert((a + b).last() == b.last());
        assert(floating_only(a + b) =~= floating_only(a) + floating_only(b));
    }
}

/// Of the tiled windows with an id that are listed with a workspace and a column,
/// the last one tells where the window is recorded to stand. A window without one
/// keeps its record.
pub proof fn last_known_place_is_recorded(
    record: Map<u64, (u64, usize)>,
    windows: Seq<Window>,
    id: u64,
    i: int,
)
    ensures
        0 <= i < windows.len() && windows[i].id == id && !windows[i].floating
            && windows[i].workspace_id is Some && windows[i].column() is Some && (forall|j: int|
            i < j < windows.len() && (#[trigger] windows[j]).id == id ==> windows[j].floating
                || windows[j].workspace_id is None || windows[j].column() is None) ==> all_entered(
            record,
            windows,
        ).get(id) == Some((windows[i].workspace_id->0, windows[i].column()->0)),
        (forall|j: int|
            0 <= j < windows.len() && (#[trigger] windows[j]).id == id ==> windows[j].floating
                || windows[j].workspace_id is None || windows[j].column() is None) ==> all_entered(
            record,
            windows,
        ).get(id) == record.get(id),
    decreases windows.len(),
{
    if windows.len() > 0 {
        let rest = windows.drop_last();
        let n = windows.len() - 1;
        last_known_place_is_recorded(record, rest, id, i);
        assert forall|j: int| 0 <= j < n implies #[trigger] rest[j] == windows[j] by {}
        assert(windows[n] == windows.last());
        if forall|j: int|
            0 <= j < windows.len() && (#[trigger] windows[j]).id == id ==> windows[j].floating
                || windows[j].workspace_id is None || windows[j].column() is None {
            assert forall|j: int| 0 <= j < rest.len() && (#[trigger] rest[j]).id
                == id implies rest[j].floating || rest[j].workspace_id is None
                || rest[j].column() is None by {
                assert(windows[j].id == id);
            }
            assert(windows[n].id == id ==> recorded_place(windows[n]) is None);
        }
        if 0 <= i < n && (forall|j: int|
            i < j < windows.len() && (#[trigger] windows[j]).id == id ==> windows[j].floating
                || windows[j].workspace_id is None || windows[j].column() is None) {
            assert forall|j: int| i < j < rest.len() && (#[trigger] rest[j]).id
                == id implies rest[j].floating || rest[j].workspace_id is None
                || rest[j].column() is None by {
                assert(windows[j].id == id);
            }
            assert(windows[n].id == id ==> recorded_place(windows[n]) is None);
            assert(rest[i] == windows[i]);
        }
    }
}

/// A reported window is recorded where it is tiled with a workspace and a column,
/// and nowhere else; no other window's record changes.
pub proof fn reported_window_is_recorded(record: Map<u64, (u64, usize)>, w: IpcWindow, other: u64)
    ensures
        ({
            let after = entered(record, w.id, reported_place(w));
            &&& !w.is_floating && w.workspace_id is Some
                && w.layout.pos_in_scrolling_layout is Some ==> after.get(w.id) == Some(
                (w.workspace_id->0, (w.layout.pos_in_scrolling_layout->0).0),
            )
            &&& w.is_floating || w.workspace_id is None || w.layout.pos_in_scrolling_layout is None
                ==> after == record
            &&& other != w.id ==> after.get(other) == record.get(other)
        }),
        all_reported(record, seq![w]) == entered(record, w.id, reported_place(w)),
{
    assert(seq![w].drop_last() =~= Seq::<IpcWindow>::empty());
    reveal_with_fuel(all_reported, 2);
}

/// Reported windows are recorded one after the other.
pub proof fn reports_are_recorded_in_order(
    record: Map<u64, (u64, usize)>,
    a: Seq<IpcWindow>,
    b: Seq<IpcWindow>,
)
    ensures
        all_reported(record, a + b) == all_reported(all_reported(record, a), b),
    decreases b.len(),
{
    if b.len() == 0 {
        assert(a + b =~= a);
    } else {
        reports_are_recorded_in_order(record, a, b.drop_last());
        assert((a + b).drop_last() =~= a + b.drop_last());
        assert((a + b).last() == b.last());
    }
}

/// A changed layout moves a recorded window to its new column on its own
/// workspace, and enters any other one on the current workspace. A layout outside
/// the columns changes no record.
pub proof fn layout_moves_a_window_on_its_workspace(
    record: Map<u64, (u64, usize)>,
    id: u64,
    layout: IpcLayout,
    current: u64,
    other: u64,
)
    ensures
        ({
            let after = layouts_entered(record, seq![(id, layout)], current);
            &&& layout.pos_in_scrolling_layout is None ==> after == record
            &&& layout.pos_in_scrolling_layout is Some && record.contains_key(id) ==> after.get(
                id,
            ) == Some((record[id].0, (layout.pos_in_scrolling_layout->0).0))
            &&& layout.pos_in_scrolling_layout is Some && !record.contains_key(id) ==> after.get(
                id,
            ) == Some((current, (layout.pos_in_scrolling_layout->0).0))
            &&& other != id ==> after.get(other) == record.get(other)
        }),
{
    assert(seq![(id, layout)].drop_last() =~= Seq::<(u64, IpcLayout)>::empty());
    reveal_with_fuel(layouts_entered, 2);
}

/// Changed layouts are recorded one after the other.
pub proof fn layouts_are_recorded_in_order(
    record: Map<u64, (u64, usize)>,
    a: Seq<(u64, IpcLayout)>,
    b: Seq<(u64, IpcLayout)>,
    current: u64,
)
    ensures
        layouts_entered(record, a + b, current) == layouts_entered(
            layouts_entered(record, a, current),
            b,
            current,
        ),
    decreases b.len(),
{
    if b.len() == 0 {
        assert(a + b =~= a);
    } else {
        layouts_are_recorded_in_order(record, a, b.drop_last(), current);
        assert((a + b).drop_last() =~= a + b.drop_last());
        assert((a + b).last() == b.last());
    }
}

/// The indicators are looked at again exactly where a window that is not known to
/// float has another size than the one that is known of it.
pub proof fn changed_sizes_are_noticed(
    floating: Map<u64, bool>,
    sizes: Map<u64, (i32, i32)>,
    changes: Seq<(u64, IpcLayout)>,
    i: int,
)
    ensures
        first_where(changes, resizes_tile(floating, sizes)) matches Some(k) ==> {
            &&& 0 <= k < changes.len()
            &&& floating.get(changes[k].0) != Some(true)
            &&& sizes.contains_key(changes[k].0)
            &&& sizes[changes[k].0] != changes[k].1.window_size
        },
        0 <= i < changes.len() && floating.get(changes[i].0) != Some(true) && sizes.contains_key(
            changes[i].0,
        ) && sizes[changes[i].0] != changes[i].1.window_size ==> (first_where(
            changes,
            resizes_tile(floating, sizes),
        ) matches Some(k) && k <= i),
{
    first_where_is_first(changes, resizes_tile(floating, sizes));
}

/// A new window is left to the tiling exactly where it does not float, no floating
/// rule matches it, and it has a title or no floating rule looks at titles alone.
pub proof fn panels_are_kept_out_of_the_tiling(
    w: IpcWindow,
    floating_rules: Seq<WindowRuleView>,
    i: int,
)
    ensures
        w.is_floating ==> potential_panel(w, floating_rules) == Some(false),
        !w.is_floating && 0 <= i < floating_rules.len() && rule_verdict(
            floating_rules[i],
            opt_text(w.app_id),
            opt_text(w.title),
        ) == Some(true) && (forall|j: int|
            0 <= j < i ==> rule_verdict(
                #[trigger] floating_rules[j],
                opt_text(w.app_id),
                opt_text(w.title),
            ) == Some(false)) ==> potential_panel(w, floating_rules) == Some(true),
        !w.is_floating && (forall|j: int|
            0 <= j < floating_rules.len() ==> rule_verdict(
                #[trigger] floating_rules[j],
                opt_text(w.app_id),
                opt_text(w.title),
            ) == Some(false)) ==> potential_panel(w, floating_rules) == Some(
            (w.title is None || w.title->0@.len() == 0) && exists|j: int|
                0 <= j < floating_rules.len() && (#[trigger] floating_rules[j]).title is Some
                    && floating_rules[j].app_id is None,
        ),
{
    first_matching_rule_applies(floating_rules, opt_text(w.app_id), opt_text(w.title), i);
}

/// The columns are aligned for a new window exactly where it is recorded in a
/// column beyond the first one that no window of the workspace is tiled beyond
/// and some window is tiled in.
pub proof fn last_column_is_the_furthest(
    columns: Map<u64, (u64, usize)>,
    windows: Seq<Window>,
    workspace_id: u64,
    window_id: u64,
)
    ensures
        in_last_column(columns, windows, workspace_id, window_id) <==> {
            &&& columns.contains_key(window_id)
            &&& columns[window_id].1 > 1
            &&& forall|i: int|
                0 <= i < windows.len() && !(#[trigger] windows[i]).floating
                    && windows[i].workspace_id == Some(workspace_id) && windows[i].column() is Some
                    ==> windows[i].column()->0 <= columns[window_id].1
            &&& exists|i: int|
                0 <= i < windows.len() && !(#[trigger] windows[i]).floating
                    && windows[i].workspace_id == Some(workspace_id) && windows[i].column() == Some(
                    columns[window_id].1,
                )
        },
{
    lemma_furthest_column(windows, workspace_id);
}

proof fn lemma_furthest_column(windows: Seq<Window>, workspace_id: u64)
    ensures
        ({
            let last = max_column(tiled(windows, workspace_id));
            &&& forall|i: int|
                0 <= i < windows.len() && !(#[trigger] windows[i]).floating
                    && windows[i].workspace_id == Some(workspace_id) && windows[i].column() is Some
                    ==> windows[i].column()->0 <= last
            &&& last > 0 ==> exists|i: int|
                0 <= i < windows.len() && !(#[trigger] windows[i]).floating
                    && windows[i].workspace_id == Some(workspace_id) && windows[i].column() == Some(
                    last,
                )
        }),
{
    let tiles = tiled(windows, workspace_id);
    let last = max_column(tiles);
    max_column_is_reached(tiles);
    assert forall|i: int|
        0 <= i < windows.len() && !(#[trigger] windows[i]).floating && windows[i].workspace_id
            == Some(workspace_id) && windows[i].column() is Some implies windows[i].column()->0
        <= last by {
        tiled_are_on_workspace(windows, workspace_id, windows[i]);
        assert(windows.contains(windows[i]));
        let k = choose|k: int| 0 <= k < tiles.len() && tiles[k] == windows[i];
        assert(tiles[k].column() is Some);
    }
    if last > 0 {
        let k = choose|k: int| 0 <= k < tiles.len() && (#[trigger] tiles[k]).column() == Some(last);
        tiled_are_on_workspace(windows, workspace_id, tiles[k]);
        assert(tiles.contains(tiles[k]));
        let i = choose|i: int| 0 <= i < windows.len() && windows[i] == tiles[k];
        assert(!windows[i].floating);
    }
}

/// After a window of the current workspace was closed, the first window that is
/// tiled there in the column to its left gets the focus; after one in the first
/// column, the first window there does.
pub proof fn left_neighbor_gets_the_focus(
    column: usize,
    current: u64,
    remaining: Seq<Window>,
    focus: ClosedFocus,
    i: int,
)
    requires
        focus_follows(Some((current, column)), current, remaining, focus),
        0 <= i < remaining.len(),
        !remaining[i].floating,
        remaining[i].workspace_id == Some(current),
        remaining[i].column() == Some(
            if column > 1 {
                (column - 1) as usize
            } else {
                1
            },
        ),
        forall|j: int|
            0 <= j < i && (#[trigger] remaining[j]).workspace_id == Some(current)
                && !remaining[j].floating ==> remaining[j].column() != remaining[i].column(),
    ensures
        focus.target_focus == Some(remaining[i].id),
{
    let tiles = tiled(remaining, current);
    let target = column_before(column);
    let head = remaining.take(i);
    let tail = remaining.skip(i + 1);
    let w = remaining[i];
    assert(remaining =~= head + (seq![w] + tail));
    tiled_keeps_the_order(head, seq![w] + tail, current);
    tiled_keeps_the_order(seq![w], tail, current);
    tiled_windows_do_not_float(w, current);
    let before = tiled(head, current);
    let k = before.len() as int;
    assert(tiles[k] == w);
    assert forall|j: int| 0 <= j < k implies !in_column(target)(#[trigger] tiles[j]) by {
        assert(tiles[j] == before[j]);
        tiled_are_on_workspace(head, current, before[j]);
        assert(before.contains(before[j]));
        let a = choose|a: int| 0 <= a < head.len() && head[a] == before[j];
        assert(remaining[a] == before[j]);
    }
    first_where_found(tiles, in_column(target), k);
}

/// Where no window is left in the column to the left, or it is not known where
/// the closed window was, a window that is as far to the left as any gets the
/// focus, and none only where none is tiled on the workspace.
pub proof fn furthest_left_gets_the_focus(
    closed: Option<(u64, usize)>,
    current: u64,
    remaining: Seq<Window>,
    focus: ClosedFocus,
    j: int,
)
    requires
        focus_follows(closed, current, remaining, focus),
        closed matches Some(place) ==> place.0 == current && forall|i: int|
            0 <= i < remaining.len() && !(#[trigger] remaining[i]).floating
                && remaining[i].workspace_id == Some(current) ==> remaining[i].column() != Some(
                if place.1 > 1 {
                    (place.1 - 1) as usize
                } else {
                    1
                },
            ),
        0 <= j < remaining.len(),
        !remaining[j].floating,
        remaining[j].workspace_id == Some(current),
    ensures
        exists|i: int|
            0 <= i < remaining.len() && Some((#[trigger] remaining[i]).id) == focus.target_focus
                && !remaining[i].floating && remaining[i].workspace_id == Some(current) && (
            remaining[j].column() is Some && remaining[j].column()->0 < usize::MAX
                ==> remaining[i].column() is Some && remaining[i].column()->0
                <= remaining[j].column()->0),
{
    let tiles = tiled(remaining, current);
    tiled_are_on_workspace(remaining, current, remaining[j]);
    assert(remaining.contains(remaining[j]));
    let b = choose|b: int| 0 <= b < tiles.len() && tiles[b] == remaining[j];
    if let Some(place) = closed {
        let target = column_before(place.1);
        assert forall|k: int| 0 <= k < tiles.len() implies !in_column(target)(
            #[trigger] tiles[k],
        ) by {
            tiled_are_on_workspace(remaining, current, tiles[k]);
            assert(tiles.contains(tiles[k]));
            let a = choose|a: int| 0 <= a < remaining.len() && remaining[a] == tiles[k];
            assert(remaining[a].column() == tiles[k].column());
        }
        first_where_missing(tiles, in_column(target));
    }
    assert(is_foremost(tiles, focus.target_focus));
    let k = choose|k: int|
        #[trigger] foremost(tiles, k) && tiles[k].id == focus.target_focus->0;
    foremost_is_furthest_to_the_left(tiles, k, b);
    tiled_are_on_workspace(remaining, current, tiles[k]);
    assert(tiles.contains(tiles[k]));
    let i = choose|i: int| 0 <= i < remaining.len() && remaining[i] == tiles[k];
    assert(Some(remaining[i].id) == focus.target_focus);
}

/// A window that was closed on another workspace, or in an unknown place, leaves
/// the columns where they are; the focus stays as well after one on another
/// workspace.
pub proof fn closing_elsewhere_changes_nothing(
    closed: Option<(u64, usize)>,
    current: u64,
    remaining: Seq<Window>,
    focus: ClosedFocus,
)
    requires
        focus_follows(closed, current, remaining, focus),
    ensures
        closed is None ==> !focus.align_right,
        closed matches Some(place) ==> place.0 != current ==> !focus.align_right
            && focus.target_focus is None,
{
}

/// The columns are aligned to the right exactly where the closed window was beyond
/// every window that is left tiled on the workspace, and two of them or more are
/// left.
pub proof fn columns_are_aligned_after_the_last_one_closed(
    column: usize,
    current: u64,
    remaining: Seq<Window>,
    focus: ClosedFocus,
)
    requires
        focus_follows(Some((current, column)), current, remaining, focus),
        column > 0,
    ensures
        focus.align_right <==> {
            &&& forall|i: int|
                0 <= i < remaining.len() && !(#[trigger] remaining[i]).floating
                    && remaining[i].workspace_id == Some(current) && remaining[i].column() is Some
                    ==> remaining[i].column()->0 < column
            &&& exists|i: int, j: int|
                0 <= i < j < remaining.len() && !(#[trigger] remaining[i]).floating && !(
                #[trigger] remaining[j]).floating && remaining[i].workspace_id == Some(current)
                    && remaining[j].workspace_id == Some(current)
        },
{
    lemma_furthest_column(remaining, current);
    lemma_two_tiles(remaining, current);
}

proof fn lemma_two_tiles(windows: Seq<Window>, workspace_id: u64)
    ensures
        tiled(windows, workspace_id).len() > 0 <==> exists|i: int|
            0 <= i < windows.len() && !(#[trigger] windows[i]).floating && windows[i].workspace_id
                == Some(workspace_id),
        tiled(windows, workspace_id).len() > 1 <==> exists|i: int, j: int|
            0 <= i < j < windows.len() && !(#[trigger] windows[i]).floating && !(
            #[trigger] windows[j]).floating && windows[i].workspace_id == Some(workspace_id)
                && windows[j].workspace_id == Some(workspace_id),
    decreases windows.len(),
{
    if windows.len() > 0 {
        let rest = windows.drop_last();
        let n = windows.len() - 1;
        lemma_two_tiles(rest, workspace_id);
        assert forall|j: int| 0 <= j < n implies #[trigger] rest[j] == windows[j] by {}
        assert(windows[n] == windows.last());
        if tiled(rest, workspace_id).len() > 0 {
            let i = choose|i: int|
                0 <= i < rest.len() && !(#[trigger] rest[i]).floating && rest[i].workspace_id
                    == Some(workspace_id);
            assert(!windows[i].floating);
            if windows[n].tiled_on(workspace_id) {
                assert(!windows[i].floating && !windows[n].floating);
            }
        }
        if tiled(rest, workspace_id).len() > 1 {
            let (i, j) = choose|i: int, j: int|
                0 <= i < j < rest.len() && !(#[trigger] rest[i]).floating && !(
                #[trigger] rest[j]).floating && rest[i].workspace_id == Some(workspace_id)
                    && rest[j].workspace_id == Some(workspace_id);
            assert(!windows[i].floating && !windows[j].floating);
        }
        if exists|i: int|
            0 <= i < windows.len() && !(#[trigger] windows[i]).floating && windows[i].workspace_id
                == Some(workspace_id) {
            let i = choose|i: int|
                0 <= i < windows.len() && !(#[trigger] windows[i]).floating
                    && windows[i].workspace_id == Some(workspace_id);
            if i < n {
                assert(!rest[i].floating);
            }
        }
        if exists|i: int, j: int|
            0 <= i < j < windows.len() && !(#[trigger] windows[i]).floating && !(
            #[trigger] windows[j]).floating && windows[i].workspace_id == Some(workspace_id)
                && windows[j].workspace_id == Some(workspace_id) {
            let (i, j) = choose|i: int, j: int|
                0 <= i < j < windows.len() && !(#[trigger] windows[i]).floating && !(
                #[trigger] windows[j]).floating && windows[i].workspace_id == Some(workspace_id)
                    && windows[j].workspace_id == Some(workspace_id);
            assert(!rest[i].floating);
            if j < n {
                assert(!rest[j].floating);
            }
        }
    }
}

/// Aligning goes one column to the left and back, and does not focus a window;
/// otherwise the window to focus is focused, if there is one.
pub proof fn aligning_goes_left_and_back(target_focus: Option<u64>, id: u64)
    ensures
        align_requests(target_focus, true) == seq![
            ActionView::FocusColumnLeft,
            ActionView::FocusColumnRight,
        ],
        align_requests(Some(id), false) == seq![ActionView::FocusWindow { id }],
        align_requests(None, false).len() == 0,
{
}

/// A tiled window is merged into a column before the widths are set, and the
/// columns are aligned after that; all of it looks at where the windows stand now.
pub proof fn widths_follow_the_tiling(
    opened: Seq<WorkspaceTask>,
    toggled: Seq<WorkspaceTask>,
    closed: Seq<WorkspaceTask>,
)
    requires
        opened == tasks_when_opened(OpenedStep::Tiled),
        toggled == tasks_when_toggled(false),
        closed == tasks_when_closed(false),
    ensures
        opened.no_duplicates(),
        opened.len() == 5,
        opened[0] == WorkspaceTask::RecordColumns,
        exists|i: int, j: int, k: int|
            0 < i < j < k < 4 && (#[trigger] opened[i]) == WorkspaceTask::AutoTile && (
            #[trigger] opened[j]) == WorkspaceTask::ApplyWidths && (#[trigger] opened[k])
                == WorkspaceTask::AlignIfLast,
        toggled.len() == 3,
        toggled[0] == WorkspaceTask::ApplyWidths,
        toggled[1] == WorkspaceTask::AutoTile,
        tasks_when_toggled(true).len() == 2,
        tasks_when_toggled(true)[0] == WorkspaceTask::ApplyWidths,
        closed.len() == 4,
        closed[0] == WorkspaceTask::ApplyWidths,
        closed[1] == WorkspaceTask::RecordColumns,
        closed[2] == WorkspaceTask::MoveFocus,
{
    assert(opened[1] == WorkspaceTask::AutoTile);
    assert(opened[2] == WorkspaceTask::ApplyWidths);
    assert(opened[3] == WorkspaceTask::AlignIfLast);
}

/// Each event about a window leads to what there is to do for that window, and the
/// indicators follow the focus; what the plugin does not want to know of leads to
/// nothing.
pub proof fn events_are_reacted_to(window: IpcWindow, id: u64, event: PiriEvent)
    ensures
        workspace_reaction(PiriEvent::WindowOpened { window }) is HandleOpened,
        workspace_reaction(PiriEvent::WindowChanged { window }) is HandleChanged,
        workspace_reaction(PiriEvent::WindowToggleFloating { window }) is HandleToggled,
        workspace_reaction(PiriEvent::WindowClosed { id }) == WorkspaceRuleReaction::HandleClosed(
            id,
        ),
        workspace_reaction(PiriEvent::WindowFocusChanged { id: Some(id) }) is SyncFocused,
        workspace_reaction(PiriEvent::WorkspaceActivated { id, focused: true })
            == WorkspaceRuleReaction::SyncActivated(id),
        workspace_reaction(PiriEvent::WorkspaceActivated { id, focused: false }) is Nothing,
        !workspace_interesting(event) ==> workspace_reaction(event) is Nothing,
        workspace_reaction(event) !is Nothing ==> workspace_interesting(event),
        event is WindowsChanged ==> workspace_reaction(event) is HandleAll,
        event is WindowLayoutsChanged ==> workspace_reaction(event) is HandleLayouts,
        event is Other ==> !workspace_interesting(event),
{
}

/// What is known of the other windows, and the rules, do not change when a window
/// closes.
pub proof fn other_windows_are_kept(state: WorkspaceRuleState, id: u64, other: u64)
    requires
        other != id,
    ensures
        ({
            let after = state.without_window(id);
            &&& after.window_floating_state.get(other) == state.window_floating_state.get(other)
            &&& after.maximized_windows.contains(other) == state.maximized_windows.contains(other)
            &&& after.auto_tiled_windows.contains(other) == state.auto_tiled_windows.contains(other)
            &&& after.previous_window_sizes.get(other) == state.previous_window_sizes.get(other)
            &&& after.window_columns.get(other) == state.window_columns.get(other)
            &&& after.default == state.default
            &&& after.workspaces == state.workspaces
            &&& after.floating_rules == state.floating_rules
            &&& after.autofill_executing == state.autofill_executing
            &&& after.edge_pulse_last_render == state.edge_pulse_last_render
        }),
{
}

/// A row without widths is reported where it would serve, and only there.
pub proof fn empty_row_is_reported(
    plan: WidthPlan,
    rule: WorkspaceRuleView,
    tiles: Seq<Window>,
    maximized: Set<u64>,
)
    requires
        plans_widths(plan, rule, tiles, maximized),
        !rule.auto_maximize || tiles.len() > 1,
    ensures
        plan is EmptyRow <==> {
            &&& 1 <= column_windows(tiles).len() <= rule.auto_width.len()
            &&& rule.auto_width[column_windows(tiles).len() - 1].len() == 0
        },
{
}

/// Windows are unmaximized in the order in which they are listed.
pub proof fn unmaximizing_keeps_the_order(
    a: Seq<Window>,
    b: Seq<Window>,
    w: Window,
    maximized: Set<u64>,
)
    requires
        forall|i: int, j: int|
            0 <= i < a.len() && 0 <= j < b.len() ==> (#[trigger] a[i]).id != (#[trigger] b[j]).id,
    ensures
        maximized_among(a + b, maximized) == maximized_among(a, maximized) + maximized_among(
            b,
            maximized,
        ),
        maximized_among(seq![w], maximized) == (if maximized.contains(w.id) {
            seq![w.id]
        } else {
            Seq::<u64>::empty()
        }),
    decreases b.len(),
{
    reveal_with_fuel(maximized_among, 2);
    let one = seq![w];
    assert(one.drop_last() =~= Seq::<Window>::empty());
    assert(!ids_of(one.drop_last()).contains(w.id));
    if b.len() == 0 {
        assert(a + b =~= a);
        assert(maximized_among(a, maximized) + maximized_among(b, maximized)
            =~= maximized_among(a, maximized));
    } else {
        let rest = b.drop_last();
        let n = b.len() - 1;
        assert forall|i: int, j: int| 0 <= i < a.len() && 0 <= j < rest.len() implies (
        #[trigger] a[i]).id != (#[trigger] rest[j]).id by {
            assert(rest[j] == b[j]);
        }
        unmaximizing_keeps_the_order(a, rest, w, maximized);
        assert((a + b).drop_last() =~= a + rest);
        assert((a + b).last() == b.last());
        let id = b.last().id;
        assert(b[n].id == id);
        assert(ids_of(a + rest).contains(id) == ids_of(rest).contains(id)) by {
            if ids_of(a + rest).contains(id) {
                let k = choose|k: int|
                    0 <= k < (a + rest).len() && (#[trigger] (a + rest)[k]).id == id;
                if k < a.len() {
                    assert(a[k].id != b[n].id);
                } else {
                    assert(rest[k - a.len()].id == id);
                }
            }
            if ids_of(rest).contains(id) {
                let k = choose|k: int| 0 <= k < rest.len() && (#[trigger] rest[k]).id == id;
                assert((a + rest)[a.len() + k].id == id);
            }
        }
        assert(maximized_among(a + b, maximized) =~= maximized_among(a, maximized)
            + maximized_among(b, maximized));
    }
}

/// The focus is left alone exactly while a window with the focused id floats: a
/// tiled one may lose it.
pub proof fn only_floating_windows_hold_the_focus(windows: Seq<Window>, id: u64, i: int)
    ensures
        0 <= i < windows.len() && windows[i].id == id && windows[i].floating ==> floating_with_id(
            windows,
            id,
        ),
        (forall|j: int|
            0 <= j < windows.len() && (#[trigger] windows[j]).id == id ==> !windows[j].floating)
            ==> !floating_with_id(windows, id),
{
}

/// Where a floating rule cannot be tried, no rule before it matches the window and
/// it does not float, that rule's pattern is the one that fails.
pub proof fn failing_floating_rule_is_reported(
    w: IpcWindow,
    floating_rules: Seq<WindowRuleView>,
    i: int,
    pattern: Seq<char>,
)
    requires
        !w.is_floating,
        0 <= i < floating_rules.len(),
        rule_verdict(floating_rules[i], opt_text(w.app_id), opt_text(w.title)) is None,
        forall|j: int|
            0 <= j < i ==> rule_verdict(
                #[trigger] floating_rules[j],
                opt_text(w.app_id),
                opt_text(w.title),
            ) == Some(false),
    ensures
        potential_panel(w, floating_rules) is None,
        failing_pattern(w, floating_rules, pattern) <==> pattern
            == floating_rules[i].matcher().deciding_pattern(opt_text(w.app_id), opt_text(w.title)),
{
    first_matching_rule_applies(floating_rules, opt_text(w.app_id), opt_text(w.title), i);
}

/// The plugin wants to know of every event but those that it does not know and a
/// focus that is on no window.
pub proof fn few_events_are_passed_over(event: PiriEvent)
    ensures
        workspace_interesting(event) <==> event !is Other && (event
            matches PiriEvent::WindowFocusChanged { id } ==> id is Some),
{
}

} // verus!
