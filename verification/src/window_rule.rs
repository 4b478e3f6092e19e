//! Moving, floating and focusing windows by rules.

use std::collections::{HashMap, HashSet};

use vstd::prelude::*;
use vstd::string::*;

use crate::config::{copy_rules, rule_views, Config, WindowRuleConfig, WindowRuleView};
use crate::events::PiriEvent;
use crate::matcher::{
    deciding, ref_text, MatcherView, PatternError, WindowMatcher, WindowMatcherCache,
};
use crate::named_workspace::{
    find_named_workspace, named_at, named_move, NamedMoveView,
};
use crate::niri::{IpcWindow, Window, WorkspaceInfo};
use crate::search::{
    first_where, first_where_found, first_where_is_first, first_where_missing,
};
use crate::text::{copy_opt_text, opt_str, opt_text, strip_suffix, without_suffix};

verus! {

broadcast use vstd::std_specs::hash::group_hash_axioms;

// ------------------------------------------------------------- Configuration

/// Window rule plugin config (for internal use)
#[derive(Debug)]
pub struct WindowRulePluginConfig {
    /// List of window rules
    pub rules: Vec<WindowRuleConfig>,
}

impl View for WindowRulePluginConfig {
    type V = Seq<WindowRuleView>;

    open spec fn view(&self) -> Seq<WindowRuleView> {
        rule_views(self.rules@)
    }
}

impl Default for WindowRulePluginConfig {
    fn default() -> (r: Self)
        ensures
            r@ == Seq::<WindowRuleView>::empty(),
    {
        let r = WindowRulePluginConfig { rules: Vec::new() };
        assert(r@ =~= Seq::<WindowRuleView>::empty());
        r
    }
}

impl Clone for WindowRulePluginConfig {
    fn clone(&self) -> (r: Self)
        ensures
            r@ == self@,
    {
        WindowRulePluginConfig { rules: copy_rules(&self.rules) }
    }
}

impl WindowRulePluginConfig {
    /// The rules of a configuration; none where it has no window rules.
    pub fn from_config(config: &Config) -> (r: Option<Self>)
        ensures
            match r {
                Some(c) => config.window_rule@.len() > 0 && c@ == rule_views(config.window_rule@),
                None => config.window_rule@.len() == 0,
            },
    {
        if config.window_rule.is_empty() {
            None
        } else {
            Some(WindowRulePluginConfig { rules: copy_rules(&config.window_rule) })
        }
    }
}

// ---------------------------------------------------------- Floating actions

/// How a window is moved between the layers.
#[derive(Debug, Clone, Copy, PartialEq, Eq, Structural)]
pub struct FloatingAction {
    pub floating: bool,
    pub width: Option<u32>,
    pub height: Option<u32>,
    pub reset_height: bool,
    pub centered: bool,
}

/// Whether the tile of a window has the expected width and height, decorations
/// aside.
#[derive(Debug, Clone, Copy, PartialEq, Eq, Structural)]
pub struct TileClose {
    pub width: bool,
    pub height: bool,
}

/// How many pixels decorations may add to a side.
pub const DECORATION_TOLERANCE: i64 = 8;

impl FloatingAction {
    /// Whether the action changes the size of the window.
    pub open spec fn resizes(self) -> bool {
        self.floating && (self.width is Some || self.height is Some || self.reset_height)
    }

    /// Whether the action centers the window.
    pub open spec fn centers(self) -> bool {
        self.floating && self.centered
    }

    /// Whether the action has to wait until the window floats.
    pub open spec fn defers(self, is_floating: bool) -> bool {
        self.floating && !is_floating && (self.resizes() || self.centers())
    }

    /// Whether the window has the size that the action asks for: each side that
    /// it asks for is met by the tile or by the window itself.
    pub open spec fn committed(self, tile: TileClose, window_size: (i32, i32)) -> bool {
        &&& self.width matches Some(w) ==> tile.width || side_close(w, window_size.0)
        &&& self.height matches Some(h) ==> tile.height || side_close(h, window_size.1)
    }

    pub fn should_resize(self) -> (r: bool)
        ensures
            r == self.resizes(),
    {
        self.floating && (self.width.is_some() || self.height.is_some() || self.reset_height)
    }

    pub fn should_center(self) -> (r: bool)
        ensures
            r == self.centers(),
    {
        self.floating && self.centered
    }

    pub fn should_defer_until_floating(self, is_floating: bool) -> (r: bool)
        ensures
            r == self.defers(is_floating),
    {
        self.floating && !is_floating && (self.should_resize() || self.should_center())
    }

    pub fn size_is_committed(self, tile: TileClose, window_size: (i32, i32)) -> (r: bool)
        ensures
            r == self.committed(tile, window_size),
    {
        (match self.width {
            Some(w) => tile.width || is_side_close(w, window_size.0),
            None => true,
        }) && (match self.height {
            Some(h) => tile.height || is_side_close(h, window_size.1),
            None => true,
        })
    }
}

/// Whether a side of a window is as long as expected, decorations aside.
pub open spec fn side_close(expected: u32, actual: i32) -> bool {
    -DECORATION_TOLERANCE <= actual - expected <= DECORATION_TOLERANCE
}

fn is_side_close(expected: u32, actual: i32) -> (r: bool)
    ensures
        r == side_close(expected, actual),
{
    let difference: i64 = actual as i64 - expected as i64;
    -DECORATION_TOLERANCE <= difference && difference <= DECORATION_TOLERANCE
}

impl WindowRuleView {
    /// What a rule asks of the layers, if anything.
    pub open spec fn floating_action(self) -> Option<FloatingAction> {
        match self.floating {
            Some(floating) => Some(
                FloatingAction {
                    floating,
                    width: self.floating_width,
                    height: self.floating_height,
                    reset_height: self.floating_reset_height,
                    centered: self.floating_centered,
                },
            ),
            None => None,
        }
    }

    /// The patterns of a rule.
    pub open spec fn matcher(self) -> MatcherView {
        MatcherView { app_id: self.app_id, title: self.title }
    }
}

impl WindowRuleConfig {
    /// What a rule asks of the layers, if anything.
    pub fn floating_action(&self) -> (r: Option<FloatingAction>)
        ensures
            r == self@.floating_action(),
    {
        match self.floating {
            Some(floating) => Some(
                FloatingAction {
                    floating,
                    width: self.floating_width,
                    height: self.floating_height,
                    reset_height: self.floating_reset_height,
                    centered: self.floating_centered,
                },
            ),
            None => None,
        }
    }

    /// The patterns of a rule.
    pub fn matcher<'a>(&'a self) -> (r: WindowMatcher<'a>)
        ensures
            r@ == self@.matcher(),
    {
        let app_id = match &self.app_id {
            Some(p) => Some(p.as_slice()),
            None => None,
        };
        let title = match &self.title {
            Some(p) => Some(p.as_slice()),
            None => None,
        };
        WindowMatcher::new(app_id, title)
    }
}

// ------------------------------------------------------------------ Matching

/// What a rule says of a window with an app_id and a title.
pub open spec fn rule_verdict(
    rule: WindowRuleView,
    app_id: Option<Seq<char>>,
    title: Option<Seq<char>>,
) -> Option<bool> {
    rule.matcher().verdict(app_id, title)
}

/// What each rule in a row says of a window.
pub open spec fn rule_verdicts(
    rules: Seq<WindowRuleView>,
    app_id: Option<Seq<char>>,
    title: Option<Seq<char>>,
) -> Seq<Option<bool>> {
    rules.map_values(|rule: WindowRuleView| rule_verdict(rule, app_id, title))
}

/// The position of the first rule that matches a window, or that fails before
/// one does.
pub open spec fn rule_at(
    rules: Seq<WindowRuleView>,
    app_id: Option<Seq<char>>,
    title: Option<Seq<char>>,
) -> Option<int> {
    first_where(rule_verdicts(rules, app_id, title), deciding())
}

/// Finds the first rule that matches a window.
pub fn find_rule(
    rules: &Vec<WindowRuleConfig>,
    app_id: Option<&String>,
    title: Option<&String>,
    matcher_cache: &mut WindowMatcherCache,
) -> (r: Result<Option<usize>, PatternError>)
    ensures
        match rule_at(rule_views(rules@), ref_text(app_id), ref_text(title)) {
            Some(i) => {
                &&& 0 <= i < rules@.len()
                &&& match rule_verdict(rules@[i]@, ref_text(app_id), ref_text(title)) {
                    Some(_) => r matches Ok(Some(n)) && n == i,
                    None => r matches Err(e) && e.pattern@
                        == rules@[i]@.matcher().deciding_pattern(
                        ref_text(app_id),
                        ref_text(title),
                    ),
                }
            },
            None => r == Ok::<Option<usize>, PatternError>(None),
        },
        old(matcher_cache).compiled().subset_of(final(matcher_cache).compiled()),
{
    let ghost views = rule_views(rules@);
    let ghost verdicts = rule_verdicts(views, ref_text(app_id), ref_text(title));
    for i in 0..rules.len()
        invariant
            views == rule_views(rules@),
            verdicts == rule_verdicts(views, ref_text(app_id), ref_text(title)),
            verdicts.len() == rules@.len(),
            forall|j: int| 0 <= j < i ==> !deciding()(#[trigger] verdicts[j]),
            old(matcher_cache).compiled().subset_of(matcher_cache.compiled()),
    {
        assert(views[i as int] == rules@[i as int]@);
        assert(verdicts[i as int] == rule_verdict(
            rules@[i as int]@,
            ref_text(app_id),
            ref_text(title),
        ));
        let matcher = rules[i].matcher();
        match matcher_cache.matches(app_id, title, &matcher) {
            Ok(true) => {
                proof {
                    first_where_found(verdicts, deciding(), i as int);
                }
                return Ok(Some(i));
            },
            Ok(false) => {},
            Err(e) => {
                proof {
                    first_where_found(verdicts, deciding(), i as int);
                }
                return Err(e);
            },
        }
    }
    proof {
        first_where_missing(verdicts, deciding());
    }
    Ok(None)
}

/// Moving windows to the floating layer and matching a window. A rule whose
/// pattern fails counts as one that does not match.
pub open spec fn floats_window(app_id: Option<Seq<char>>, title: Seq<char>) -> spec_fn(
    WindowRuleView,
) -> bool {
    |rule: WindowRuleView|
        rule.floating == Some(true) && rule_verdict(rule, app_id, Some(title)) == Some(true)
}

/// Index of the floating rule matching a window, if any.
pub fn matching_floating_rule(
    rules: &Vec<WindowRuleConfig>,
    matcher_cache: &mut WindowMatcherCache,
    window: &Window,
) -> (r: Option<usize>)
    ensures
        match first_where(
            rule_views(rules@),
            floats_window(opt_text(window.app_id), window.title@),
        ) {
            Some(i) => 0 <= i < rules@.len() && (r matches Some(n) && n == i),
            None => r is None,
        },
        old(matcher_cache).compiled().subset_of(final(matcher_cache).compiled()),
{
    let ghost views = rule_views(rules@);
    let ghost wanted = floats_window(opt_text(window.app_id), window.title@);
    for i in 0..rules.len()
        invariant
            views == rule_views(rules@),
            wanted == floats_window(opt_text(window.app_id), window.title@),
            forall|j: int| 0 <= j < i ==> !wanted(#[trigger] views[j]),
            old(matcher_cache).compiled().subset_of(matcher_cache.compiled()),
    {
        assert(views[i as int] == rules@[i as int]@);
        let floats = match rules[i].floating {
            Some(floating) => floating,
            None => false,
        };
        if floats {
            let matcher = rules[i].matcher();
            let matched = match matcher_cache.matches(
                window.app_id.as_ref(),
                Some(&window.title),
                &matcher,
            ) {
                Ok(b) => b,
                Err(_) => false,
            };
            if matched {
                proof {
                    first_where_found(views, wanted, i as int);
                }
                return Some(i);
            }
        }
    }
    proof {
        first_where_missing(views, wanted);
    }
    None
}

// ------------------------------------------------------------- Applied rules

/// Which rules were applied to which windows: pairs of a rule's position and a
/// window's id, each at most once.
pub struct AppliedRules {
    entries: Vec<(usize, u64)>,
}

impl View for AppliedRules {
    type V = Set<(usize, u64)>;

    closed spec fn view(&self) -> Set<(usize, u64)> {
        self.entries@.to_set()
    }
}

impl AppliedRules {
    #[verifier::type_invariant]
    spec fn well_formed(self) -> bool {
        self.entries@.no_duplicates()
    }

    /// No rule applied yet.
    pub fn new() -> (r: Self)
        ensures
            r@ == Set::<(usize, u64)>::empty(),
    {
        let r = AppliedRules { entries: Vec::new() };
        assert(r@ =~= Set::<(usize, u64)>::empty());
        r
    }

    /// Whether a rule was applied to a window.
    pub fn contains(&self, rule_index: usize, window_id: u64) -> (r: bool)
        ensures
            r == self@.contains((rule_index, window_id)),
    {
        for i in 0..self.entries.len()
            invariant
                forall|j: int|
                    0 <= j < i ==> #[trigger] self.entries@[j] != (rule_index, window_id),
        {
            let (rule, window) = self.entries[i];
            if rule == rule_index && window == window_id {
                assert(self.entries@[i as int] == (rule_index, window_id));
                return true;
            }
        }
        false
    }

    /// Notes that a rule was applied to a window.
    pub fn insert(&mut self, rule_index: usize, window_id: u64)
        ensures
            final(self)@ == old(self)@.insert((rule_index, window_id)),
    {
        proof {
            use_type_invariant(&*self);
        }
        let ghost before = self.entries@;
        if !self.contains(rule_index, window_id) {
            let mut entries: Vec<(usize, u64)> = Vec::new();
            std::mem::swap(&mut entries, &mut self.entries);
            entries.push((rule_index, window_id));
            assert(entries@ == before.push((rule_index, window_id)));
            assert forall|p: (usize, u64)| entries@.to_set().contains(p) implies
                before.to_set().insert((rule_index, window_id)).contains(p) by {
                let i = choose|i: int| 0 <= i < entries@.len() && entries@[i] == p;
                if i < before.len() {
                    assert(before[i] == p);
                }
            }
            assert forall|p: (usize, u64)|
                before.to_set().insert((rule_index, window_id)).contains(p) implies
                entries@.to_set().contains(p) by {
                if p == (rule_index, window_id) {
                    assert(entries@[before.len() as int] == p);
                } else {
                    let i = choose|i: int| 0 <= i < before.len() && before[i] == p;
                    assert(entries@[i] == p);
                }
            }
            assert(entries@.to_set() =~= before.to_set().insert((rule_index, window_id)));
            self.entries = entries;
        }
        assert(self@ =~= old(self)@.insert((rule_index, window_id)));
    }

    /// Forgets the rules that were applied to a window.
    pub fn forget(&mut self, window_id: u64)
        ensures
            final(self)@ == old(self)@.filter(|p: (usize, u64)| p.1 != window_id),
    {
        proof {
            use_type_invariant(&*self);
        }
        let ghost before = self.entries@;
        let mut kept: Vec<(usize, u64)> = Vec::new();
        for i in 0..self.entries.len()
            invariant
                self.entries@ == before,
                before.no_duplicates(),
                kept@.no_duplicates(),
                forall|j: int|
                    0 <= j < kept@.len() ==> (#[trigger] kept@[j]).1 != window_id
                        && before.take(i as int).contains(kept@[j]),
                forall|j: int|
                    0 <= j < i && (#[trigger] before[j]).1 != window_id ==> kept@.contains(
                        before[j],
                    ),
        {
            let entry = self.entries[i];
            let ghost old_kept = kept@;
            if entry.1 != window_id {
                proof {
                    assert forall|j: int| 0 <= j < old_kept.len() implies old_kept[j] != entry by {
                        let k = choose|k: int|
                            0 <= k < before.take(i as int).len() && before.take(i as int)[k]
                                == old_kept[j];
                        assert(before[k] != before[i as int]);
                    }
                }
                kept.push(entry);
            }
            proof {
                assert forall|j: int| 0 <= j < kept@.len() implies (#[trigger] kept@[j]).1
                    != window_id && before.take(i + 1).contains(kept@[j]) by {
                    if j < old_kept.len() {
                        assert(kept@[j] == old_kept[j]);
                        let k = choose|k: int|
                            0 <= k < before.take(i as int).len() && before.take(i as int)[k]
                                == old_kept[j];
                        assert(before.take(i + 1)[k] == kept@[j]);
                    } else {
                        assert(before.take(i + 1)[i as int] == kept@[j]);
                    }
                }
                assert forall|j: int| 0 <= j < i + 1 && (#[trigger] before[j]).1
                    != window_id implies kept@.contains(before[j]) by {
                    if j < i {
                        let k = choose|k: int| 0 <= k < old_kept.len() && old_kept[k] == before[j];
                        assert(kept@[k] == before[j]);
                    } else {
                        assert(kept@[kept@.len() - 1] == before[j]);
                    }
                }
            }
        }
        self.entries = kept;
        proof {
            assert(before.take(before.len() as int) =~= before);
            let expected = before.to_set().filter(|p: (usize, u64)| p.1 != window_id);
            assert forall|p: (usize, u64)| self.entries@.to_set().contains(p) implies
                expected.contains(p) by {
                let i = choose|i: int| 0 <= i < self.entries@.len() && self.entries@[i] == p;
                assert(before.contains(self.entries@[i]));
            }
            assert forall|p: (usize, u64)| expected.contains(p) implies
                self.entries@.to_set().contains(p) by {
                let i = choose|i: int| 0 <= i < before.len() && before[i] == p;
                assert(self.entries@.contains(before[i]));
            }
            assert(self.entries@.to_set() =~= expected);
        }
    }
}

// -------------------------------------------------------------------- Plugin

/// Window rule plugin that moves windows to workspaces based on app_id and title matching
pub struct WindowRulePlugin {
    config: WindowRulePluginConfig,
    /// Window matcher cache for regex pattern matching
    matcher_cache: WindowMatcherCache,
    /// Last window ID that triggered focus command
    last_focused_window: Option<u64>,
    /// Set of rule indices that have already executed focus_command (when focus_command_once is true)
    executed_rules: HashSet<usize>,
    /// Last window ID that was processed by handle_focus_command (for throttling)
    last_handled_window: Option<u64>,
    /// Windows locked to a specific workspace (window_id -> workspace_name)
    locked_windows: HashMap<u64, String>,
    /// Floating actions successfully applied, keyed by (rule index, window ID)
    applied_floating_rules: AppliedRules,
    /// Floating actions waiting for Niri to confirm the window entered the floating layer
    pending_floating_rules: HashMap<u64, (usize, FloatingAction)>,
    /// Center actions waiting for the resized floating geometry to be committed
    pending_center_rules: HashMap<u64, (usize, FloatingAction)>,
}

/// What a [`WindowRulePlugin`] knows.
#[verifier::ext_equal]
pub struct WindowRuleState {
    pub rules: Seq<WindowRuleView>,
    pub last_focused_window: Option<u64>,
    pub executed_rules: Set<usize>,
    pub last_handled_window: Option<u64>,
    pub locked_windows: Map<u64, Seq<char>>,
    pub applied_floating_rules: Set<(usize, u64)>,
    pub pending_floating_rules: Map<u64, (usize, FloatingAction)>,
    pub pending_center_rules: Map<u64, (usize, FloatingAction)>,
}

impl View for WindowRulePlugin {
    type V = WindowRuleState;

    closed spec fn view(&self) -> WindowRuleState {
        WindowRuleState {
            rules: self.config@,
            last_focused_window: self.last_focused_window,
            executed_rules: self.executed_rules@,
            last_handled_window: self.last_handled_window,
            locked_windows: self.locked_windows@.map_values(|s: String| s@),
            applied_floating_rules: self.applied_floating_rules@,
            pending_floating_rules: self.pending_floating_rules@,
            pending_center_rules: self.pending_center_rules@,
        }
    }
}

/// What to do with a floating action.
#[derive(Debug, Clone, Copy, PartialEq, Eq, Structural)]
pub enum FloatingDecision {
    /// Nothing: it was applied, or it waits for something.
    Nothing,
    /// The window floats now: finish the action that waited for that.
    FinishPending,
    /// Move the window to the floating layer, and wait until it is there.
    Defer,
    /// Move the window to its layer, and go on at once.
    Apply,
}

/// How far a floating action has come.
#[derive(Debug, Clone, Copy, PartialEq, Eq, Structural)]
pub enum FloatingPhase {
    /// The window is on its layer.
    OnLayer,
    /// The window was resized.
    Resized,
    /// The window was centered.
    Centered,
}

/// How a floating action goes on.
#[derive(Debug, Clone, Copy, PartialEq, Eq, Structural)]
pub enum FloatingStep {
    /// Resize the window.
    Resize,
    /// Center the window, and shift it away from others.
    Center,
    /// Wait until the window has the new size.
    AwaitSize,
    /// The action is applied: arrange the panels in a row.
    ArrangeRow,
}

/// How a floating action goes on: resizing comes before centering, and a window
/// that was resized is centered only once it has the new size.
pub open spec fn floating_step(action: FloatingAction, phase: FloatingPhase) -> FloatingStep {
    match phase {
        FloatingPhase::OnLayer => if action.resizes() {
            FloatingStep::Resize
        } else if action.centers() {
            FloatingStep::Center
        } else {
            FloatingStep::ArrangeRow
        },
        FloatingPhase::Resized => if action.centers() {
            FloatingStep::AwaitSize
        } else {
            FloatingStep::ArrangeRow
        },
        FloatingPhase::Centered => FloatingStep::ArrangeRow,
    }
}

/// How far the delayed fallback for a resized panel has come.
#[derive(Debug, Clone, Copy, PartialEq, Eq, Structural)]
pub enum SettlePhase {
    /// The first delay is over.
    Waited,
    /// The window was resized again, and the second delay is over.
    Resized,
    /// The window was centered.
    Centered,
}

/// How the delayed fallback for a resized panel goes on. Whatever fails on the
/// way, it goes on.
#[derive(Debug, Clone, Copy, PartialEq, Eq, Structural)]
pub enum SettleStep {
    /// Nothing is left to do.
    Stop,
    /// Resize the window again, and wait a second time.
    Resize,
    /// Center the window, and shift it away from others.
    Center,
    /// Arrange the panels on the window's workspace in a row.
    ArrangeRow,
}

/// How the delayed fallback goes on, given whether the panel was finished in the
/// meantime: it is then left alone. Else it is resized once more, centered where
/// that is asked for, and put in the row.
pub open spec fn settle(action: FloatingAction, phase: SettlePhase, done: bool) -> SettleStep {
    match phase {
        SettlePhase::Waited => if done {
            SettleStep::Stop
        } else {
            SettleStep::Resize
        },
        SettlePhase::Resized => if done {
            SettleStep::Stop
        } else if action.centers() {
            SettleStep::Center
        } else {
            SettleStep::ArrangeRow
        },
        SettlePhase::Centered => SettleStep::ArrangeRow,
    }
}

/// Takes the delayed fallback for a resized panel further.
pub fn settle_step(action: FloatingAction, phase: SettlePhase, done: bool) -> (r: SettleStep)
    ensures
        r == settle(action, phase, done),
{
    match phase {
        SettlePhase::Waited => {
            if done {
                SettleStep::Stop
            } else {
                SettleStep::Resize
            }
        },
        SettlePhase::Resized => {
            if done {
                SettleStep::Stop
            } else if action.should_center() {
                SettleStep::Center
            } else {
                SettleStep::ArrangeRow
            }
        },
        SettlePhase::Centered => SettleStep::ArrangeRow,
    }
}

/// The steps of the delayed fallback from a phase on, given whether the panel was
/// finished by the end of the first and of the second delay.
pub open spec fn settle_run(
    action: FloatingAction,
    phase: SettlePhase,
    done_first: bool,
    done_second: bool,
) -> Seq<SettleStep>
    decreases
            (match phase {
                SettlePhase::Waited => 2nat,
                SettlePhase::Resized => 1nat,
                SettlePhase::Centered => 0nat,
            }),
{
    let done = if phase == SettlePhase::Waited {
        done_first
    } else {
        done_second
    };
    let step = settle(action, phase, done);
    match step {
        SettleStep::Resize => seq![step] + settle_run(
            action,
            SettlePhase::Resized,
            done_first,
            done_second,
        ),
        SettleStep::Center => seq![step] + settle_run(
            action,
            SettlePhase::Centered,
            done_first,
            done_second,
        ),
        _ => seq![step],
    }
}

/// The delayed fallback does nothing for a panel that was finished during the
/// first delay, and no more than resize one that was finished during the second.
/// Any other panel is resized, centered where that is asked for, and put in the
/// row, in this order.
pub proof fn fallback_settles_what_is_left(
    action: FloatingAction,
    done_first: bool,
    done_second: bool,
)
    ensures
        settle_run(action, SettlePhase::Waited, done_first, done_second) == (if done_first {
            seq![SettleStep::Stop]
        } else if done_second {
            seq![SettleStep::Resize, SettleStep::Stop]
        } else if action.centers() {
            seq![SettleStep::Resize, SettleStep::Center, SettleStep::ArrangeRow]
        } else {
            seq![SettleStep::Resize, SettleStep::ArrangeRow]
        }),
{
    reveal_with_fuel(settle_run, 3);
}

impl WindowRuleState {
    /// What to do with the floating action of a rule for a window.
    pub open spec fn floating_decision(
        self,
        rule_index: usize,
        window_id: u64,
        is_floating: bool,
        action: FloatingAction,
    ) -> FloatingDecision {
        if self.applied_floating_rules.contains((rule_index, window_id)) {
            FloatingDecision::Nothing
        } else if self.pending_floating_rules.contains_key(window_id) {
            if is_floating {
                FloatingDecision::FinishPending
            } else {
                FloatingDecision::Nothing
            }
        } else if self.pending_center_rules.contains_key(window_id) {
            FloatingDecision::Nothing
        } else if action.defers(is_floating) {
            FloatingDecision::Defer
        } else {
            FloatingDecision::Apply
        }
    }

    /// What is known after a floating action went on.
    pub open spec fn after_floating_step(
        self,
        rule_index: usize,
        window_id: u64,
        action: FloatingAction,
        phase: FloatingPhase,
    ) -> WindowRuleState {
        match floating_step(action, phase) {
            FloatingStep::Resize => self,
            FloatingStep::Center => self,
            FloatingStep::AwaitSize => WindowRuleState {
                pending_center_rules: self.pending_center_rules.insert(
                    window_id,
                    (rule_index, action),
                ),
                ..self
            },
            FloatingStep::ArrangeRow => WindowRuleState {
                applied_floating_rules: self.applied_floating_rules.insert(
                    (rule_index, window_id),
                ),
                ..self
            },
        }
    }

    /// Whether a rule's focus command is still to be executed.
    pub open spec fn focus_due(self, rule_index: usize, focus_once: bool) -> bool {
        !(focus_once && self.executed_rules.contains(rule_index))
    }

    /// What is known after a rule's focus command was executed for a window.
    pub open spec fn after_focus(
        self,
        window_id: u64,
        rule_index: usize,
        focus_once: bool,
    ) -> WindowRuleState {
        WindowRuleState {
            last_focused_window: Some(window_id),
            executed_rules: if focus_once {
                self.executed_rules.insert(rule_index)
            } else {
                self.executed_rules
            },
            ..self
        }
    }

    /// What is known after a window was closed.
    pub open spec fn without_window(self, id: u64) -> WindowRuleState {
        WindowRuleState {
            locked_windows: self.locked_windows.remove(id),
            applied_floating_rules: self.applied_floating_rules.filter(
                |p: (usize, u64)| p.1 != id,
            ),
            pending_floating_rules: self.pending_floating_rules.remove(id),
            pending_center_rules: self.pending_center_rules.remove(id),
            ..self
        }
    }

    /// What is known after the rules were replaced. Windows stay locked.
    pub open spec fn with_rules(self, rules: Seq<WindowRuleView>) -> WindowRuleState {
        WindowRuleState {
            rules,
            executed_rules: Set::empty(),
            applied_floating_rules: Set::empty(),
            pending_floating_rules: Map::empty(),
            pending_center_rules: Map::empty(),
            ..self
        }
    }
}

/// What a rule asks for when a window opens.
#[derive(Debug, Clone)]
pub struct OpenPlan {
    /// The position of the rule.
    pub rule_index: usize,
    /// The workspace that the window goes to, if any.
    pub workspace: Option<String>,
    /// Whether the window is locked to that workspace.
    pub locked: bool,
    /// How the window is moved between the layers, if at all.
    pub floating: Option<FloatingAction>,
    /// The command to execute, if any.
    pub focus_command: Option<String>,
    /// Whether the command is executed only once.
    pub focus_once: bool,
}

/// The workspace that a rule names, without the '!' that locks windows to it.
pub open spec fn lock_target(workspace: Seq<char>) -> Seq<char> {
    match without_suffix(workspace, '!') {
        Some(name) => name,
        None => workspace,
    }
}

/// Whether a plan is what a rule asks for when a window opens.
pub open spec fn plans(rule: WindowRuleView, plan: OpenPlan) -> bool {
    &&& match rule.open_on_workspace {
        Some(workspace) => {
            &&& opt_text(plan.workspace) == Some(lock_target(workspace))
            &&& plan.locked == (without_suffix(workspace, '!') is Some)
        },
        None => plan.workspace is None && !plan.locked,
    }
    &&& plan.floating == rule.floating_action()
    &&& plan.floating is Some == rule.floating is Some
    &&& plan.floating matches Some(action) ==> {
        &&& rule.floating == Some(action.floating)
        &&& action.width == rule.floating_width
        &&& action.height == rule.floating_height
        &&& action.reset_height == rule.floating_reset_height
        &&& action.centered == rule.floating_centered
    }
    &&& opt_text(plan.focus_command) == rule.focus_command
    &&& plan.focus_once == rule.focus_command_once
}

/// What a rule asks for when a window opens.
pub fn open_plan(rule_index: usize, rule: &WindowRuleConfig) -> (r: OpenPlan)
    ensures
        r.rule_index == rule_index,
        plans(rule@, r),
{
    let (workspace, locked) = match &rule.open_on_workspace {
        Some(name) => {
            // Check for lock suffix '!'
            match strip_suffix(name.as_str(), '!') {
                Some(target) => (Some(target.to_owned()), true),
                None => (Some(name.clone()), false),
            }
        },
        None => (None, false),
    };
    OpenPlan {
        rule_index,
        workspace,
        locked,
        floating: rule.floating_action(),
        focus_command: copy_opt_text(&rule.focus_command),
        focus_once: rule.focus_command_once,
    }
}

/// One thing to do for a window that opened.
#[derive(Debug, Clone, Copy, PartialEq, Eq, Structural)]
pub enum OpenTask {
    /// Send the window to its workspace.
    MoveToWorkspace,
    /// Lock the window to its workspace.
    Lock,
    /// Move the window between the layers.
    Float,
    /// Execute the focus command, if it is due.
    Focus,
}

impl OpenPlan {
    /// What is done, in order, for a window that opened. A failure ends it.
    pub open spec fn in_order(self) -> Seq<OpenTask> {
        (if self.workspace is Some {
            seq![OpenTask::MoveToWorkspace]
        } else {
            seq![]
        }) + (if self.workspace is Some && self.locked {
            seq![OpenTask::Lock]
        } else {
            seq![]
        }) + (if self.floating is Some {
            seq![OpenTask::Float]
        } else {
            seq![]
        }) + (if self.focus_command is Some {
            seq![OpenTask::Focus]
        } else {
            seq![]
        })
    }

    /// What is done, in order, for a window that opened. A failure ends it.
    pub fn tasks(&self) -> (r: Vec<OpenTask>)
        ensures
            r@ == self.in_order(),
    {
        let mut r: Vec<OpenTask> = Vec::new();
        // 1. Move to workspace if specified
        if self.workspace.is_some() {
            r.push(OpenTask::MoveToWorkspace);
            if self.locked {
                r.push(OpenTask::Lock);
            }
        }
        // 2. Move to the floating or tiling layer if specified.
        if self.floating.is_some() {
            r.push(OpenTask::Float);
        }
        // 3. Execute focus command if specified (unified de-duplication)
        if self.focus_command.is_some() {
            r.push(OpenTask::Focus);
        }
        assert(r@ =~= self.in_order());
        r
    }
}

/// A command to execute on focus.
#[derive(Debug, Clone)]
pub struct FocusRule {
    /// The position of the rule.
    pub rule_index: usize,
    pub command: String,
    /// Whether the command is executed only once.
    pub once: bool,
}

/// What each rule says of a focused window: a rule without a command does not
/// match.
pub open spec fn focus_verdicts(
    rules: Seq<WindowRuleView>,
    app_id: Option<Seq<char>>,
    title: Seq<char>,
) -> Seq<Option<bool>> {
    rules.map_values(
        |rule: WindowRuleView|
            if rule.focus_command is Some {
                rule_verdict(rule, app_id, Some(title))
            } else {
                Some(false)
            },
    )
}

/// The command to execute when a window is focused: that of the first rule that
/// has one and matches the window.
pub fn find_focus_rule(
    rules: &Vec<WindowRuleConfig>,
    window: &Window,
    matcher_cache: &mut WindowMatcherCache,
) -> (r: Result<Option<FocusRule>, PatternError>)
    ensures
        ({
            let views = rule_views(rules@);
            let verdicts = focus_verdicts(views, opt_text(window.app_id), window.title@);
            match first_where(verdicts, deciding()) {
                Some(i) => {
                    &&& 0 <= i < views.len()
                    &&& match verdicts[i] {
                        Some(_) => {
                            &&& r matches Ok(Some(f))
                            &&& f.rule_index == i
                            &&& views[i].focus_command == Some(f.command@)
                            &&& f.once == views[i].focus_command_once
                        },
                        None => r matches Err(e) && e.pattern@
                            == views[i].matcher().deciding_pattern(
                            opt_text(window.app_id),
                            Some(window.title@),
                        ),
                    }
                },
                None => r == Ok::<Option<FocusRule>, PatternError>(None),
            }
        }),
        old(matcher_cache).compiled().subset_of(final(matcher_cache).compiled()),
{
    let ghost views = rule_views(rules@);
    let ghost verdicts = focus_verdicts(views, opt_text(window.app_id), window.title@);
    for i in 0..rules.len()
        invariant
            views == rule_views(rules@),
            verdicts == focus_verdicts(views, opt_text(window.app_id), window.title@),
            verdicts.len() == rules@.len(),
            forall|j: int| 0 <= j < i ==> !deciding()(#[trigger] verdicts[j]),
            old(matcher_cache).compiled().subset_of(matcher_cache.compiled()),
    {
        let rule = &rules[i];
        assert(views[i as int] == rule@);
        if let Some(command) = &rule.focus_command {
            assert(verdicts[i as int] == rule_verdict(
                rule@,
                opt_text(window.app_id),
                Some(window.title@),
            ));
            let matcher = rule.matcher();
            match matcher_cache.matches(window.app_id.as_ref(), Some(&window.title), &matcher) {
                Ok(true) => {
                    proof {
                        first_where_found(verdicts, deciding(), i as int);
                    }
                    return Ok(
                        Some(
                            FocusRule {
                                rule_index: i,
                                command: command.clone(),
                                once: rule.focus_command_once,
                            },
                        ),
                    );
                },
                Ok(false) => {},
                Err(e) => {
                    proof {
                        first_where_found(verdicts, deciding(), i as int);
                    }
                    return Err(e);
                },
            }
        }
    }
    proof {
        first_where_missing(verdicts, deciding());
    }
    Ok(None)
}

/// What to do for a changed window.
#[derive(Debug, Clone, Copy, PartialEq, Eq, Structural)]
pub enum ChangedStep {
    /// The window has the size that its centering waited for: center it.
    FinishCenter,
    /// The window does not have that size yet: wait.
    AwaitSize,
    /// Nothing waits for the window: look for a rule.
    LookForRule,
}

/// What to do about an event.
#[derive(Debug, Clone, Copy, PartialEq, Eq, Structural)]
pub enum WindowRuleReaction {
    Nothing,
    /// Execute the focus command for a window.
    HandleFocus(u64),
    /// Carry out the plan for the window that opened.
    HandleOpened,
    /// Bring the changed window back if it left the workspace that it is
    /// locked to, then finish centering it or look for a rule.
    HandleChanged,
    /// Finish the floating action that waits for a window.
    FinishFloating(u64),
    /// Look for a rule for each window.
    HandleAll,
    /// Finish centering each window that has its size.
    HandleLayouts,
    /// A window was closed and is forgotten.
    Forgotten(u64),
}

/// What to do about an event.
pub open spec fn reaction(event: PiriEvent) -> WindowRuleReaction {
    match event {
        PiriEvent::WindowFocusChanged { id } => match id {
            Some(window_id) => WindowRuleReaction::HandleFocus(window_id),
            None => WindowRuleReaction::Nothing,
        },
        PiriEvent::WindowOpened { .. } => WindowRuleReaction::HandleOpened,
        PiriEvent::WindowChanged { .. } => WindowRuleReaction::HandleChanged,
        PiriEvent::WindowToggleFloating { window } => if window.is_floating {
            WindowRuleReaction::FinishFloating(window.id)
        } else {
            WindowRuleReaction::Nothing
        },
        PiriEvent::WindowsChanged { .. } => WindowRuleReaction::HandleAll,
        PiriEvent::WindowLayoutsChanged { .. } => WindowRuleReaction::HandleLayouts,
        PiriEvent::WindowClosed { id } => WindowRuleReaction::Forgotten(id),
        _ => WindowRuleReaction::Nothing,
    }
}

/// Whether a plugin for window rules wants to know of an event.
pub open spec fn interesting(event: PiriEvent) -> bool {
    match event {
        PiriEvent::WindowOpened { .. } => true,
        PiriEvent::WindowChanged { .. } => true,
        PiriEvent::WindowToggleFloating { .. } => true,
        PiriEvent::WindowLayoutsChanged { .. } => true,
        PiriEvent::WindowsChanged { .. } => true,
        PiriEvent::WindowClosed { .. } => true,
        PiriEvent::WindowFocusChanged { id } => id is Some,
        _ => false,
    }
}

impl WindowRulePlugin {
    /// The patterns that are compiled already.
    pub closed spec fn cached(self) -> Set<Seq<char>> {
        self.matcher_cache.compiled()
    }

    /// A plugin with rules that has met no window yet.
    pub fn new(config: WindowRulePluginConfig) -> (r: Self)
        ensures
            r@ == (WindowRuleState {
                rules: config@,
                last_focused_window: None,
                executed_rules: Set::empty(),
                last_handled_window: None,
                locked_windows: Map::empty(),
                applied_floating_rules: Set::empty(),
                pending_floating_rules: Map::empty(),
                pending_center_rules: Map::empty(),
            }),
            r.cached() == Set::<Seq<char>>::empty(),
    {
        let r = WindowRulePlugin {
            config,
            matcher_cache: WindowMatcherCache::new(),
            last_focused_window: None,
            executed_rules: HashSet::new(),
            last_handled_window: None,
            locked_windows: HashMap::new(),
            applied_floating_rules: AppliedRules::new(),
            pending_floating_rules: HashMap::new(),
            pending_center_rules: HashMap::new(),
        };
        assert(r@.locked_windows =~= Map::empty());
        r
    }

    /// The rules.
    pub fn rules(&self) -> (r: &Vec<WindowRuleConfig>)
        ensures
            rule_views(r@) == self@.rules,
    {
        &self.config.rules
    }

    /// Whether a rule's focus command is still to be executed.
    pub fn focus_rule_due(&self, rule_index: usize, focus_once: bool) -> (r: bool)
        ensures
            r == self@.focus_due(rule_index, focus_once),
    {
        !(focus_once && self.executed_rules.contains(&rule_index))
    }

    /// Notes that a rule's focus command was executed for a window.
    pub fn record_focus(&mut self, window_id: u64, rule_index: usize, focus_once: bool)
        ensures
            final(self)@ == old(self)@.after_focus(window_id, rule_index, focus_once),
            final(self).cached() == old(self).cached(),
    {
        // Mark this rule as having executed focus_command if focus_once is true
        if focus_once {
            self.executed_rules.insert(rule_index);
        }
        self.last_focused_window = Some(window_id);
    }

    /// Takes in that a window was focused and says whether its focus command is
    /// looked for: not where the focus change is to be ignored as a programmatic
    /// one, nor where it comes too soon after the last one. A window whose
    /// command is looked for is noted.
    pub fn handle_focus_command(&mut self, window_id: u64, ignored: bool, too_soon: bool) -> (r:
        bool)
        ensures
            r == (!ignored && !too_soon),
            final(self)@ == (WindowRuleState {
                last_handled_window: if r {
                    Some(window_id)
                } else {
                    old(self)@.last_handled_window
                },
                ..old(self)@
            }),
            final(self).cached() == old(self).cached(),
    {
        if ignored || too_soon {
            return false;
        }
        self.last_handled_window = Some(window_id);
        true
    }

    /// The command to execute when a window is focused: that of the first rule
    /// that has one and matches the window.
    pub fn focus_rule_for(&mut self, window: &Window) -> (r: Result<
        Option<FocusRule>,
        PatternError,
    >)
        ensures
            ({
                let rules = old(self)@.rules;
                let verdicts = focus_verdicts(rules, opt_text(window.app_id), window.title@);
                match first_where(verdicts, deciding()) {
                    Some(i) => {
                        &&& 0 <= i < rules.len()
                        &&& match verdicts[i] {
                            Some(_) => {
                                &&& r matches Ok(Some(f))
                                &&& f.rule_index == i
                                &&& rules[i].focus_command == Some(f.command@)
                                &&& f.once == rules[i].focus_command_once
                            },
                            None => r matches Err(e) && e.pattern@
                                == rules[i].matcher().deciding_pattern(
                                opt_text(window.app_id),
                                Some(window.title@),
                            ),
                        }
                    },
                    None => r == Ok::<Option<FocusRule>, PatternError>(None),
                }
            }),
            final(self)@ == old(self)@,
            old(self).cached().subset_of(final(self).cached()),
    {
        let r = find_focus_rule(&self.config.rules, window, &mut self.matcher_cache);
        assert(self@ =~= old(self)@);
        r
    }

    /// The first rule that matches a window.
    pub fn matching_rule_index(&mut self, window: &IpcWindow) -> (r: Result<
        Option<usize>,
        PatternError,
    >)
        ensures
            ({
                let rules = old(self)@.rules;
                let app_id = opt_text(window.app_id);
                let title = opt_text(window.title);
                match rule_at(rules, app_id, title) {
                    Some(i) => {
                        &&& 0 <= i < rules.len()
                        &&& match rule_verdict(rules[i], app_id, title) {
                            Some(_) => r matches Ok(Some(n)) && n == i,
                            None => r matches Err(e) && e.pattern@
                                == rules[i].matcher().deciding_pattern(app_id, title),
                        }
                    },
                    None => r == Ok::<Option<usize>, PatternError>(None),
                }
            }),
            final(self)@ == old(self)@,
            old(self).cached().subset_of(final(self).cached()),
    {
        let r = find_rule(
            &self.config.rules,
            window.app_id.as_ref(),
            window.title.as_ref(),
            &mut self.matcher_cache,
        );
        assert(self@ =~= old(self)@);
        r
    }

    /// The floating action that a changed window's rule asks for, if any, with
    /// the position of the rule.
    pub fn handle_dynamic_window_rule(&mut self, window: &IpcWindow) -> (r: Result<
        Option<(usize, FloatingAction)>,
        PatternError,
    >)
        ensures
            ({
                let rules = old(self)@.rules;
                let app_id = opt_text(window.app_id);
                let title = opt_text(window.title);
                match rule_at(rules, app_id, title) {
                    Some(i) => match rule_verdict(rules[i], app_id, title) {
                        Some(_) => r == Ok::<Option<(usize, FloatingAction)>, PatternError>(
                            match rules[i].floating_action() {
                                Some(action) => Some((i as usize, action)),
                                None => None,
                            },
                        ),
                        None => r matches Err(e) && e.pattern@
                            == rules[i].matcher().deciding_pattern(app_id, title),
                    },
                    None => r == Ok::<Option<(usize, FloatingAction)>, PatternError>(None),
                }
            }),
            final(self)@ == old(self)@,
            old(self).cached().subset_of(final(self).cached()),
    {
        match self.matching_rule_index(window) {
            Ok(Some(rule_index)) => {
                assert(self@.rules[rule_index as int] == self.config.rules@[rule_index as int]@);
                Ok(
                    match self.config.rules[rule_index].floating_action() {
                        Some(action) => Some((rule_index, action)),
                        None => None,
                    },
                )
            },
            Ok(None) => Ok(None),
            Err(e) => Err(e),
        }
    }

    /// What the rule for a window asks for when the window opens.
    pub fn handle_window_opened(&mut self, window: &IpcWindow) -> (r: Result<
        Option<OpenPlan>,
        PatternError,
    >)
        ensures
            ({
                let rules = old(self)@.rules;
                let app_id = opt_text(window.app_id);
                let title = opt_text(window.title);
                match rule_at(rules, app_id, title) {
                    Some(i) => match rule_verdict(rules[i], app_id, title) {
                        Some(_) => r matches Ok(Some(plan)) && plan.rule_index == i && plans(
                            rules[i],
                            plan,
                        ),
                        None => r matches Err(e) && e.pattern@
                            == rules[i].matcher().deciding_pattern(app_id, title),
                    },
                    None => r == Ok::<Option<OpenPlan>, PatternError>(None),
                }
            }),
            final(self)@ == old(self)@,
            old(self).cached().subset_of(final(self).cached()),
    {
        match self.matching_rule_index(window) {
            Ok(Some(rule_index)) => {
                assert(self@.rules[rule_index as int] == self.config.rules@[rule_index as int]@);
                Ok(Some(open_plan(rule_index, &self.config.rules[rule_index])))
            },
            Ok(None) => Ok(None),
            Err(e) => Err(e),
        }
    }

    /// What to do with the floating action of a rule for a window.
    pub fn apply_floating_action(
        &self,
        rule_index: usize,
        window_id: u64,
        is_floating: bool,
        action: FloatingAction,
    ) -> (r: FloatingDecision)
        ensures
            r == self@.floating_decision(rule_index, window_id, is_floating, action),
    {
        if self.applied_floating_rules.contains(rule_index, window_id) {
            return FloatingDecision::Nothing;
        }
        if self.pending_floating_rules.contains_key(&window_id) {
            return if is_floating {
                FloatingDecision::FinishPending
            } else {
                FloatingDecision::Nothing
            };
        }
        if self.pending_center_rules.contains_key(&window_id) {
            return FloatingDecision::Nothing;
        }
        if action.should_defer_until_floating(is_floating) {
            FloatingDecision::Defer
        } else {
            FloatingDecision::Apply
        }
    }

    /// Takes a floating action further. A window that has to be centered once
    /// it has its size is noted as pending; an action that is done is noted as
    /// applied.
    pub fn continue_floating_action(
        &mut self,
        rule_index: usize,
        window_id: u64,
        action: FloatingAction,
        phase: FloatingPhase,
    ) -> (r: FloatingStep)
        ensures
            r == floating_step(action, phase),
            final(self)@ == old(self)@.after_floating_step(rule_index, window_id, action, phase),
            final(self).cached() == old(self).cached(),
    {
        let step = match phase {
            FloatingPhase::OnLayer => {
                if action.should_resize() {
                    FloatingStep::Resize
                } else if action.should_center() {
                    FloatingStep::Center
                } else {
                    FloatingStep::ArrangeRow
                }
            },
            FloatingPhase::Resized => {
                if action.should_center() {
                    FloatingStep::AwaitSize
                } else {
                    FloatingStep::ArrangeRow
                }
            },
            FloatingPhase::Centered => FloatingStep::ArrangeRow,
        };
        match step {
            FloatingStep::Resize => {},
            FloatingStep::Center => {},
            FloatingStep::AwaitSize => {
                self.pending_center_rules.insert(window_id, (rule_index, action));
            },
            FloatingStep::ArrangeRow => {
                self.applied_floating_rules.insert(rule_index, window_id);
            },
        }
        step
    }

    /// Notes that an action waits until its window floats.
    pub fn defer_floating(&mut self, rule_index: usize, window_id: u64, action: FloatingAction)
        ensures
            final(self)@ == (WindowRuleState {
                pending_floating_rules: old(self)@.pending_floating_rules.insert(
                    window_id,
                    (rule_index, action),
                ),
                ..old(self)@
            }),
            final(self).cached() == old(self).cached(),
    {
        self.pending_floating_rules.insert(window_id, (rule_index, action));
    }

    /// Notes that an action waits until its window has its size.
    pub fn defer_center(&mut self, rule_index: usize, window_id: u64, action: FloatingAction)
        ensures
            final(self)@ == (WindowRuleState {
                pending_center_rules: old(self)@.pending_center_rules.insert(
                    window_id,
                    (rule_index, action),
                ),
                ..old(self)@
            }),
            final(self).cached() == old(self).cached(),
    {
        self.pending_center_rules.insert(window_id, (rule_index, action));
    }

    /// Takes the action that waits until a window floats, if any. Where it then
    /// fails, [`WindowRulePlugin::defer_floating`] puts it back.
    pub fn finish_pending_floating_action(&mut self, window_id: u64) -> (r: Option<
        (usize, FloatingAction),
    >)
        ensures
            r == old(self)@.pending_floating_rules.get(window_id),
            final(self)@ == (WindowRuleState {
                pending_floating_rules: old(self)@.pending_floating_rules.remove(window_id),
                ..old(self)@
            }),
            final(self).cached() == old(self).cached(),
    {
        self.pending_floating_rules.remove(&window_id)
    }

    /// Takes the action that waits until a window has its size, if any. Where
    /// it then fails, [`WindowRulePlugin::defer_center`] puts it back.
    pub fn finish_pending_center_action(&mut self, window_id: u64) -> (r: Option<
        (usize, FloatingAction),
    >)
        ensures
            r == old(self)@.pending_center_rules.get(window_id),
            final(self)@ == (WindowRuleState {
                pending_center_rules: old(self)@.pending_center_rules.remove(window_id),
                ..old(self)@
            }),
            final(self).cached() == old(self).cached(),
    {
        self.pending_center_rules.remove(&window_id)
    }

    /// The action that waits until a window has its size, if any.
    pub fn pending_center_action(&self, window_id: u64) -> (r: Option<FloatingAction>)
        ensures
            r == (match self@.pending_center_rules.get(window_id) {
                Some(pending) => Some(pending.1),
                None => None,
            }),
    {
        match self.pending_center_rules.get(&window_id) {
            Some(pending) => Some(pending.1),
            None => None,
        }
    }

    /// What to do for a changed window.
    pub fn handle_window_changed(
        &self,
        window_id: u64,
        tile: TileClose,
        window_size: (i32, i32),
    ) -> (r: ChangedStep)
        ensures
            r == (match self@.pending_center_rules.get(window_id) {
                Some(pending) => if pending.1.committed(tile, window_size) {
                    ChangedStep::FinishCenter
                } else {
                    ChangedStep::AwaitSize
                },
                None => ChangedStep::LookForRule,
            }),
    {
        match self.pending_center_action(window_id) {
            Some(action) => {
                if action.size_is_committed(tile, window_size) {
                    ChangedStep::FinishCenter
                } else {
                    ChangedStep::AwaitSize
                }
            },
            None => ChangedStep::LookForRule,
        }
    }

    /// Locks a window to a workspace.
    pub fn lock_window(&mut self, window_id: u64, workspace: String)
        ensures
            final(self)@ == (WindowRuleState {
                locked_windows: old(self)@.locked_windows.insert(window_id, workspace@),
                ..old(self)@
            }),
            final(self).cached() == old(self).cached(),
    {
        self.locked_windows.insert(window_id, workspace);
        assert(self@.locked_windows =~= old(self)@.locked_windows.insert(window_id, workspace@));
    }

    /// Whether a window is locked to a workspace.
    pub fn is_locked(&self, window_id: u64) -> (r: bool)
        ensures
            r == self@.locked_windows.contains_key(window_id),
    {
        self.locked_windows.contains_key(&window_id)
    }

    /// Check if a locked window is still on the correct workspace. Returns the
    /// workspace to move it back to if it is not.
    pub fn enforce_workspace_lock<'a>(
        &'a self,
        window: &IpcWindow,
        workspaces: &Vec<WorkspaceInfo>,
        focused_output: Option<&str>,
    ) -> (r: Option<&'a str>)
        ensures
            opt_str(r) == escaped_from(
                self@.locked_windows.get(window.id),
                window.workspace_id,
                workspaces@,
                opt_str(focused_output),
            ),
    {
        match self.locked_windows.get(&window.id) {
            Some(target_workspace) => {
                assert(self@.locked_windows.get(window.id) == Some(target_workspace@));
                match find_named_workspace(workspaces, target_workspace.as_str(), focused_output) {
                    Some(target) => {
                        let there = match window.workspace_id {
                            Some(id) => id == target.id,
                            None => false,
                        };
                        if there {
                            None
                        } else {
                            Some(target_workspace.as_str())
                        }
                    },
                    None => None,
                }
            },
            None => {
                assert(self@.locked_windows.get(window.id) is None);
                None
            },
        }
    }

    /// Forgets a window.
    pub fn window_closed(&mut self, id: u64)
        ensures
            final(self)@ == old(self)@.without_window(id),
            final(self).cached() == old(self).cached(),
    {
        self.locked_windows.remove(&id);
        self.applied_floating_rules.forget(id);
        self.pending_floating_rules.remove(&id);
        self.pending_center_rules.remove(&id);
        assert(self@.locked_windows =~= old(self)@.locked_windows.remove(id));
    }

    /// Says what to do about an event. A window that was closed is forgotten at
    /// once.
    pub fn handle_event(&mut self, event: &PiriEvent) -> (r: WindowRuleReaction)
        ensures
            r == reaction(*event),
            final(self)@ == (match *event {
                PiriEvent::WindowClosed { id } => old(self)@.without_window(id),
                _ => old(self)@,
            }),
            final(self).cached() == old(self).cached(),
    {
        match event {
            PiriEvent::WindowFocusChanged { id } => match id {
                Some(window_id) => WindowRuleReaction::HandleFocus(*window_id),
                None => WindowRuleReaction::Nothing,
            },
            PiriEvent::WindowOpened { .. } => WindowRuleReaction::HandleOpened,
            PiriEvent::WindowChanged { .. } => WindowRuleReaction::HandleChanged,
            PiriEvent::WindowToggleFloating { window } => {
                if window.is_floating {
                    WindowRuleReaction::FinishFloating(window.id)
                } else {
                    WindowRuleReaction::Nothing
                }
            },
            PiriEvent::WindowsChanged { .. } => WindowRuleReaction::HandleAll,
            PiriEvent::WindowLayoutsChanged { .. } => WindowRuleReaction::HandleLayouts,
            PiriEvent::WindowClosed { id } => {
                self.window_closed(*id);
                WindowRuleReaction::Forgotten(*id)
            },
            _ => WindowRuleReaction::Nothing,
        }
    }

    /// Whether the plugin wants to know of an event.
    pub fn is_interested_in_event(&self, event: &PiriEvent) -> (r: bool)
        ensures
            r == interesting(*event),
    {
        match event {
            PiriEvent::WindowOpened { .. } => true,
            PiriEvent::WindowChanged { .. } => true,
            PiriEvent::WindowToggleFloating { .. } => true,
            PiriEvent::WindowLayoutsChanged { .. } => true,
            PiriEvent::WindowsChanged { .. } => true,
            PiriEvent::WindowClosed { .. } => true,
            PiriEvent::WindowFocusChanged { id } => id.is_some(),
            _ => false,
        }
    }

    /// Replaces the rules.
    pub fn update_config(&mut self, config: WindowRulePluginConfig)
        ensures
            final(self)@ == old(self)@.with_rules(config@),
            final(self).cached() == Set::<Seq<char>>::empty(),
    {
        self.config = config;
        self.matcher_cache.clear_cache();
        // Clear executed rules tracking since rule indices may have changed
        self.executed_rules.clear();
        self.applied_floating_rules = AppliedRules::new();
        self.pending_floating_rules.clear();
        self.pending_center_rules.clear();
    }
}

/// The workspace to bring a window back to: the one that it is locked to,
/// where that is known and the window is not on it.
pub open spec fn escaped_from(
    locked: Option<Seq<char>>,
    current: Option<u64>,
    workspaces: Seq<WorkspaceInfo>,
    focused_output: Option<Seq<char>>,
) -> Option<Seq<char>> {
    match locked {
        Some(target) => match named_at(workspaces, target, focused_output) {
            Some(i) => if current == Some(workspaces[i].id) {
                None
            } else {
                Some(target)
            },
            None => None,
        },
        None => None,
    }
}

// ---------------------------------------------------------------------- Laws

/// A focus command that is to be executed only once is due until it was
/// executed and not after; no other rule's command is affected.
pub proof fn focus_command_once(
    state: WindowRuleState,
    window_id: u64,
    rule_index: usize,
    other: usize,
    other_once: bool,
)
    ensures
        !state.after_focus(window_id, rule_index, true).focus_due(rule_index, true),
        state.after_focus(window_id, rule_index, false).focus_due(rule_index, false),
        other != rule_index ==> state.after_focus(window_id, rule_index, true).focus_due(
            other,
            other_once,
        ) == state.focus_due(other, other_once),
{
}

/// Once the rules were replaced, every focus command is due again, no action
/// counts as applied or waits, and windows are still locked.
pub proof fn new_rules_start_afresh(
    state: WindowRuleState,
    rules: Seq<WindowRuleView>,
    rule_index: usize,
    focus_once: bool,
    window_id: u64,
    is_floating: bool,
    action: FloatingAction,
)
    ensures
        state.with_rules(rules).focus_due(rule_index, focus_once),
        state.with_rules(rules).floating_decision(rule_index, window_id, is_floating, action)
            == if action.defers(is_floating) {
            FloatingDecision::Defer
        } else {
            FloatingDecision::Apply
        },
        state.with_rules(rules).locked_windows == state.locked_windows,
{
}

/// An action that was applied to a window is not applied to it again.
pub proof fn applied_action_is_not_repeated(
    state: WindowRuleState,
    rule_index: usize,
    window_id: u64,
    action: FloatingAction,
    phase: FloatingPhase,
    is_floating: bool,
)
    requires
        floating_step(action, phase) == FloatingStep::ArrangeRow,
    ensures
        state.after_floating_step(rule_index, window_id, action, phase).floating_decision(
            rule_index,
            window_id,
            is_floating,
            action,
        ) == FloatingDecision::Nothing,
{
}

/// A window whose action waits is left alone, until it floats where the action
/// waits for that.
pub proof fn pending_action_is_not_repeated(
    state: WindowRuleState,
    rule_index: usize,
    window_id: u64,
    is_floating: bool,
    action: FloatingAction,
)
    requires
        state.pending_floating_rules.contains_key(window_id)
            || state.pending_center_rules.contains_key(window_id),
    ensures
        ({
            let decision = state.floating_decision(rule_index, window_id, is_floating, action);
            &&& decision == FloatingDecision::Nothing || decision
                == FloatingDecision::FinishPending
            &&& decision == FloatingDecision::FinishPending ==> is_floating
                && state.pending_floating_rules.contains_key(window_id)
        }),
{
}

/// Putting back an action that was taken and failed leaves nothing changed.
pub proof fn failed_action_is_restored(
    pending: Map<u64, (usize, FloatingAction)>,
    window_id: u64,
)
    requires
        pending.contains_key(window_id),
    ensures
        pending.remove(window_id).insert(window_id, pending[window_id]) == pending,
{
    assert(pending.remove(window_id).insert(window_id, pending[window_id]) =~= pending);
}

/// Nothing is known of a window that was closed.
pub proof fn closed_window_is_forgotten(state: WindowRuleState, id: u64)
    ensures
        ({
            let after = state.without_window(id);
            &&& !after.locked_windows.contains_key(id)
            &&& !after.pending_floating_rules.contains_key(id)
            &&& !after.pending_center_rules.contains_key(id)
            &&& forall|rule: usize| !(#[trigger] after.applied_floating_rules.contains((rule, id)))
        }),
{
}

/// What is known of the other windows does not change when a window closes.
pub proof fn other_windows_are_kept(state: WindowRuleState, id: u64, other: u64)
    requires
        other != id,
    ensures
        ({
            let after = state.without_window(id);
            &&& after.locked_windows.get(other) == state.locked_windows.get(other)
            &&& after.pending_floating_rules.get(other) == state.pending_floating_rules.get(other)
            &&& after.pending_center_rules.get(other) == state.pending_center_rules.get(other)
            &&& forall|rule: usize| #[trigger]
                after.applied_floating_rules.contains((rule, other))
                    == state.applied_floating_rules.contains((rule, other))
        }),
{
}

/// A window that has to be resized is never centered before that.
pub proof fn resizing_precedes_centering(action: FloatingAction)
    requires
        action.resizes(),
    ensures
        floating_step(action, FloatingPhase::OnLayer) == FloatingStep::Resize,
        floating_step(action, FloatingPhase::Resized) != FloatingStep::Center,
{
}

/// A window on the tiling layer is neither resized nor centered.
pub proof fn tiled_window_is_left_alone(action: FloatingAction, is_floating: bool)
    requires
        !action.floating,
    ensures
        !action.defers(is_floating),
        floating_step(action, FloatingPhase::OnLayer) == FloatingStep::ArrangeRow,
{
}

/// A '!' behind a workspace's name locks windows to the workspace of that name.
pub proof fn lock_suffix(name: Seq<char>)
    ensures
        lock_target(name.push('!')) == name,
        without_suffix(name.push('!'), '!') is Some,
{
    assert(name.push('!').drop_last() =~= name);
    assert(name.push('!').take(name.len() as int) =~= name);
}

/// A locked window is brought back exactly where it is not on the workspace
/// that its lock names, and then stays.
pub proof fn locked_window_is_brought_back(
    target: Seq<char>,
    current: Option<u64>,
    workspaces: Seq<WorkspaceInfo>,
    windows: Seq<Window>,
    focused_output: Option<Seq<char>>,
)
    ensures
        escaped_from(Some(target), current, workspaces, focused_output) is Some == (named_move(
            current,
            target,
            workspaces,
            windows,
            focused_output,
        ) is MoveTo),
        named_move(
            current,
            target,
            workspaces,
            windows,
            focused_output,
        ) matches NamedMoveView::MoveTo { workspace } ==> escaped_from(
            Some(target),
            Some(workspace),
            workspaces,
            focused_output,
        ) is None,
{
}

/// A rule that says whether its windows float asks for exactly the size and
/// centering that it is written with; a rule that does not say so asks for
/// nothing.
pub proof fn floating_settings_are_taken_over(rule: WindowRuleView)
    ensures
        rule.floating is None ==> rule.floating_action() is None,
        rule.floating is Some ==> {
            &&& rule.floating_action() matches Some(action)
            &&& Some(action.floating) == rule.floating
            &&& action.width == rule.floating_width
            &&& action.height == rule.floating_height
            &&& action.reset_height == rule.floating_reset_height
            &&& action.centered == rule.floating_centered
        },
{
}

/// The plan for a window that opened holds what the rule is written with: the
/// layer, the size and the centering, the command and whether it runs but once.
pub proof fn plan_follows_the_rule(rule: WindowRuleView, plan: OpenPlan)
    requires
        plans(rule, plan),
    ensures
        rule.floating is None ==> plan.floating is None,
        rule.floating is Some ==> {
            &&& plan.floating matches Some(action)
            &&& Some(action.floating) == rule.floating
            &&& action.width == rule.floating_width
            &&& action.height == rule.floating_height
            &&& action.reset_height == rule.floating_reset_height
            &&& action.centered == rule.floating_centered
        },
        rule.focus_command is None ==> plan.focus_command is None,
        rule.focus_command matches Some(command) ==> plan.focus_command matches Some(c) && c@
            == command,
        plan.focus_once == rule.focus_command_once,
{
}

/// A window opens on the workspace that its rule names. It is locked to it
/// exactly where a '!' stands behind the name, which is not part of it.
pub proof fn plan_names_the_workspace(rule: WindowRuleView, plan: OpenPlan, name: Seq<char>)
    requires
        plans(rule, plan),
    ensures
        rule.open_on_workspace is None ==> plan.workspace is None && !plan.locked,
        rule.open_on_workspace == Some(name.push('!')) ==> plan.locked && (
        plan.workspace matches Some(w) && w@ == name),
        rule.open_on_workspace == Some(name) && (name.len() == 0 || name[name.len() - 1] != '!')
            ==> !plan.locked && (plan.workspace matches Some(w) && w@ == name),
{
    lock_suffix(name);
}

/// The first rule that matches a window is the one found, where every rule before
/// it can be tried and does not match; where none matches, none is found.
pub proof fn first_matching_rule_applies(
    rules: Seq<WindowRuleView>,
    app_id: Option<Seq<char>>,
    title: Option<Seq<char>>,
    i: int,
)
    ensures
        0 <= i < rules.len() && rule_verdict(rules[i], app_id, title) != Some(false) && (forall|
            j: int,
        |
            0 <= j < i ==> rule_verdict(#[trigger] rules[j], app_id, title) == Some(false))
            ==> rule_at(rules, app_id, title) == Some(i),
        (forall|j: int|
            0 <= j < rules.len() ==> rule_verdict(#[trigger] rules[j], app_id, title) == Some(
                false,
            )) ==> rule_at(rules, app_id, title) is None,
{
    let verdicts = rule_verdicts(rules, app_id, title);
    first_where_is_first(verdicts, deciding());
    assert forall|j: int| 0 <= j < rules.len() implies #[trigger] verdicts[j] == rule_verdict(
        rules[j],
        app_id,
        title,
    ) by {}
    if let Some(k) = rule_at(rules, app_id, title) {
        assert(rule_verdict(rules[k], app_id, title) != Some(false));
        if 0 <= i < k && rule_verdict(rules[i], app_id, title) != Some(false) {
            assert(!deciding()(verdicts[i]));
        }
    } else if 0 <= i < rules.len() {
        assert(!deciding()(verdicts[i]));
    }
}

/// A rule is matched by its own patterns: those for the app_id on the app_id of a
/// window, and those for the title on its title.
pub proof fn rules_match_by_their_patterns(
    rule: WindowRuleView,
    app_id: Option<Seq<char>>,
    title: Option<Seq<char>>,
)
    ensures
        rule_verdict(rule, app_id, title) == (MatcherView {
            app_id: rule.app_id,
            title: rule.title,
        }).verdict(app_id, title),
{
}

/// The rule for the row of panels is the first one that says that its windows
/// float and matches.
pub proof fn floating_rule_is_the_first_that_matches(
    rules: Seq<WindowRuleView>,
    app_id: Option<Seq<char>>,
    title: Seq<char>,
    i: int,
)
    requires
        0 <= i < rules.len(),
        rules[i].floating == Some(true),
        rule_verdict(rules[i], app_id, Some(title)) == Some(true),
        forall|j: int|
            0 <= j < i && (#[trigger] rules[j]).floating == Some(true) ==> rule_verdict(
                rules[j],
                app_id,
                Some(title),
            ) != Some(true),
    ensures
        first_where(rules, floats_window(app_id, title)) == Some(i),
{
    first_where_found(rules, floats_window(app_id, title), i);
}

/// The focus command is that of the first rule that has one and matches; rules
/// without a command are passed over, even where their patterns fail.
pub proof fn focus_command_is_that_of_the_first_match(
    rules: Seq<WindowRuleView>,
    app_id: Option<Seq<char>>,
    title: Seq<char>,
    i: int,
)
    requires
        0 <= i < rules.len(),
        rules[i].focus_command is Some,
        rule_verdict(rules[i], app_id, Some(title)) == Some(true),
        forall|j: int|
            0 <= j < i && (#[trigger] rules[j]).focus_command is Some ==> rule_verdict(
                rules[j],
                app_id,
                Some(title),
            ) == Some(false),
    ensures
        first_where(focus_verdicts(rules, app_id, title), deciding()) == Some(i),
        focus_verdicts(rules, app_id, title)[i] == Some(true),
{
    let verdicts = focus_verdicts(rules, app_id, title);
    assert forall|j: int| 0 <= j < i implies !deciding()(#[trigger] verdicts[j]) by {
        assert(verdicts[j] == if rules[j].focus_command is Some {
            rule_verdict(rules[j], app_id, Some(title))
        } else {
            Some(false)
        });
    }
    first_where_found(verdicts, deciding(), i);
}

/// No command is executed where no rule that has one matches.
pub proof fn no_focus_command_without_a_match(
    rules: Seq<WindowRuleView>,
    app_id: Option<Seq<char>>,
    title: Seq<char>,
)
    requires
        forall|j: int|
            0 <= j < rules.len() && (#[trigger] rules[j]).focus_command is Some ==> rule_verdict(
                rules[j],
                app_id,
                Some(title),
            ) == Some(false),
    ensures
        first_where(focus_verdicts(rules, app_id, title), deciding()) is None,
{
    let verdicts = focus_verdicts(rules, app_id, title);
    assert forall|j: int| 0 <= j < verdicts.len() implies !deciding()(#[trigger] verdicts[j]) by {
        assert(verdicts[j] == if rules[j].focus_command is Some {
            rule_verdict(rules[j], app_id, Some(title))
        } else {
            Some(false)
        });
    }
    first_where_missing(verdicts, deciding());
}

/// What an action asks of a floating window: a size or a reset of the height makes
/// it a resize, and the setting makes it a centering. On the tiling layer it asks
/// for neither. Only an action that asks for one waits, and only for a window that
/// does not float yet.
pub proof fn actions_ask_for_what_is_set(action: FloatingAction, is_floating: bool)
    ensures
        action.floating && action.width is Some ==> action.resizes(),
        action.floating && action.height is Some ==> action.resizes(),
        action.floating && action.reset_height ==> action.resizes(),
        action.width is None && action.height is None && !action.reset_height ==> !action.resizes(),
        !action.floating ==> !action.resizes() && !action.centers(),
        action.floating ==> action.centers() == action.centered,
        is_floating ==> !action.defers(is_floating),
        !is_floating ==> action.defers(is_floating) == (action.floating && (action.width is Some
            || action.height is Some || action.reset_height || action.centered)),
{
}

/// A window has the size that an action asks for where each side that is asked for
/// is within eight pixels of it, by the tile or by the window; a side that is not
/// asked for does not count.
pub proof fn sizes_within_eight_pixels_count(
    action: FloatingAction,
    tile: TileClose,
    window_size: (i32, i32),
)
    ensures
        action.width is None && action.height is None ==> action.committed(tile, window_size),
        action.committed(tile, window_size) <==> {
            &&& action.width matches Some(w) ==> tile.width || w - 8 <= window_size.0 <= w + 8
            &&& action.height matches Some(h) ==> tile.height || h - 8 <= window_size.1 <= h + 8
        },
{
}

/// An action is applied at once to a window that it was not applied to and for
/// which nothing waits, unless it has to wait until the window floats.
pub proof fn fresh_action_is_applied(
    state: WindowRuleState,
    rule_index: usize,
    window_id: u64,
    is_floating: bool,
    action: FloatingAction,
)
    requires
        !state.applied_floating_rules.contains((rule_index, window_id)),
        !state.pending_floating_rules.contains_key(window_id),
        !state.pending_center_rules.contains_key(window_id),
    ensures
        state.floating_decision(rule_index, window_id, is_floating, action) == (if action.floating
            && !is_floating && (action.width is Some || action.height is Some
            || action.reset_height || action.centered) {
            FloatingDecision::Defer
        } else {
            FloatingDecision::Apply
        }),
{
}

/// An action that waits until its window floats is finished as soon as it does,
/// unless it was applied in the meantime.
pub proof fn waiting_action_is_finished(
    state: WindowRuleState,
    rule_index: usize,
    window_id: u64,
    action: FloatingAction,
)
    requires
        !state.applied_floating_rules.contains((rule_index, window_id)),
        state.pending_floating_rules.contains_key(window_id),
    ensures
        state.floating_decision(rule_index, window_id, true, action)
            == FloatingDecision::FinishPending,
        state.floating_decision(rule_index, window_id, false, action)
            == FloatingDecision::Nothing,
{
}

/// On its layer, a window is resized, then centered once it has the size, and then
/// put in the row; what is not asked for is left out. Only an action that is done
/// counts as applied, and only a window that is to be centered after a resize
/// waits.
pub proof fn action_goes_on_in_order(
    state: WindowRuleState,
    rule_index: usize,
    window_id: u64,
    action: FloatingAction,
)
    ensures
        action.floating && (action.width is Some || action.height is Some || action.reset_height)
            ==> floating_step(action, FloatingPhase::OnLayer) == FloatingStep::Resize
            && state.after_floating_step(rule_index, window_id, action, FloatingPhase::OnLayer)
            == state,
        action.floating && action.width is None && action.height is None && !action.reset_height
            && action.centered ==> floating_step(action, FloatingPhase::OnLayer)
            == FloatingStep::Center && state.after_floating_step(
            rule_index,
            window_id,
            action,
            FloatingPhase::OnLayer,
        ) == state,
        action.floating && action.centered ==> floating_step(action, FloatingPhase::Resized)
            == FloatingStep::AwaitSize && state.after_floating_step(
            rule_index,
            window_id,
            action,
            FloatingPhase::Resized,
        ).pending_center_rules.get(window_id) == Some((rule_index, action)),
        !action.centered ==> floating_step(action, FloatingPhase::Resized)
            == FloatingStep::ArrangeRow,
        floating_step(action, FloatingPhase::Centered) == FloatingStep::ArrangeRow,
        state.after_floating_step(
            rule_index,
            window_id,
            action,
            FloatingPhase::Centered,
        ).applied_floating_rules == state.applied_floating_rules.insert((rule_index, window_id)),
{
}

/// What there is to do for a window that opened is what its plan holds: it is
/// moved before it is locked, locked before it changes the layer, and its command
/// comes last.
pub proof fn opening_goes_in_order(plan: OpenPlan, i: int, j: int)
    ensures
        plan.in_order().contains(OpenTask::MoveToWorkspace) == plan.workspace is Some,
        plan.in_order().contains(OpenTask::Lock) == (plan.workspace is Some && plan.locked),
        plan.in_order().contains(OpenTask::Float) == plan.floating is Some,
        plan.in_order().contains(OpenTask::Focus) == plan.focus_command is Some,
        0 <= i < j < plan.in_order().len() ==> {
            &&& plan.in_order()[i] != plan.in_order()[j]
            &&& plan.in_order()[j] != OpenTask::MoveToWorkspace
            &&& plan.in_order()[i] != OpenTask::Focus
            &&& plan.in_order()[j] == OpenTask::Lock ==> plan.in_order()[i]
                == OpenTask::MoveToWorkspace
        },
{
    let r = plan.in_order();
    let a = if plan.workspace is Some {
        1int
    } else {
        0
    };
    let b = a + if plan.workspace is Some && plan.locked {
        1int
    } else {
        0
    };
    let c = b + if plan.floating is Some {
        1int
    } else {
        0
    };
    if plan.workspace is Some {
        assert(r[0] == OpenTask::MoveToWorkspace);
        if plan.locked {
            assert(r[1] == OpenTask::Lock);
        }
    }
    if plan.floating is Some {
        assert(r[b] == OpenTask::Float);
    }
    if plan.focus_command is Some {
        assert(r[c] == OpenTask::Focus);
    }
}

/// A locked window is brought back where a workspace has the name and the window is
/// on another one. A window that is not locked is never brought back, nor one whose
/// workspace does not exist or that is there.
pub proof fn only_escaped_windows_are_brought_back(
    target: Seq<char>,
    current: Option<u64>,
    workspaces: Seq<WorkspaceInfo>,
    focused_output: Option<Seq<char>>,
)
    ensures
        escaped_from(None, current, workspaces, focused_output) is None,
        named_at(workspaces, target, focused_output) is None ==> escaped_from(
            Some(target),
            current,
            workspaces,
            focused_output,
        ) is None,
        named_at(workspaces, target, focused_output) matches Some(i) ==> (escaped_from(
            Some(target),
            current,
            workspaces,
            focused_output,
        ) == if current == Some(workspaces[i].id) {
            None
        } else {
            Some(target)
        }),
{
}

/// Each event about a window leads to what there is to do for that window; what
/// the plugin does not want to know of leads to nothing.
pub proof fn events_are_reacted_to(window: IpcWindow, id: u64, event: PiriEvent)
    ensures
        reaction(PiriEvent::WindowOpened { window }) is HandleOpened,
        reaction(PiriEvent::WindowChanged { window }) is HandleChanged,
        reaction(PiriEvent::WindowToggleFloating { window }) == (if window.is_floating {
            WindowRuleReaction::FinishFloating(window.id)
        } else {
            WindowRuleReaction::Nothing
        }),
        reaction(PiriEvent::WindowClosed { id }) == WindowRuleReaction::Forgotten(id),
        reaction(PiriEvent::WindowFocusChanged { id: Some(id) })
            == WindowRuleReaction::HandleFocus(id),
        event is WindowsChanged ==> reaction(event) is HandleAll,
        event is WindowLayoutsChanged ==> reaction(event) is HandleLayouts,
        !interesting(event) ==> reaction(event) is Nothing,
        interesting(event) <==> reaction(event) !is Nothing || event is WindowToggleFloating,
{
}

/// Executing a command for a window notes that window, and changes nothing that is
/// known of layers and locks.
pub proof fn focus_is_noted(
    state: WindowRuleState,
    window_id: u64,
    rule_index: usize,
    focus_once: bool,
)
    ensures
        ({
            let after = state.after_focus(window_id, rule_index, focus_once);
            &&& after.last_focused_window == Some(window_id)
            &&& !focus_once ==> after.executed_rules == state.executed_rules
            &&& after.rules == state.rules
            &&& after.locked_windows == state.locked_windows
            &&& after.applied_floating_rules == state.applied_floating_rules
            &&& after.pending_floating_rules == state.pending_floating_rules
            &&& after.pending_center_rules == state.pending_center_rules
        }),
        !focus_once ==> state.focus_due(rule_index, focus_once),
        !state.executed_rules.contains(rule_index) ==> state.focus_due(rule_index, focus_once),
{
}

/// Replaced rules are the new ones, and what was focused and handled last is still
/// known.
pub proof fn new_rules_are_taken_over(state: WindowRuleState, rules: Seq<WindowRuleView>)
    ensures
        state.with_rules(rules).rules == rules,
        state.with_rules(rules).last_focused_window == state.last_focused_window,
        state.with_rules(rules).last_handled_window == state.last_handled_window,
{
}

/// A step of an action changes nothing that is known of other windows, of other
/// rules for the window, or of rules, commands and locks.
pub proof fn steps_concern_one_window(
    state: WindowRuleState,
    rule_index: usize,
    window_id: u64,
    action: FloatingAction,
    phase: FloatingPhase,
    other: u64,
    other_rule: usize,
)
    ensures
        ({
            let after = state.after_floating_step(rule_index, window_id, action, phase);
            &&& after.rules == state.rules
            &&& after.executed_rules == state.executed_rules
            &&& after.last_focused_window == state.last_focused_window
            &&& after.last_handled_window == state.last_handled_window
            &&& after.locked_windows == state.locked_windows
            &&& after.pending_floating_rules == state.pending_floating_rules
            &&& other != window_id ==> after.pending_center_rules.get(other)
                == state.pending_center_rules.get(other)
            &&& other != window_id || other_rule != rule_index
                ==> after.applied_floating_rules.contains((other_rule, other))
                == state.applied_floating_rules.contains((other_rule, other))
        }),
{
}

} // verus!
