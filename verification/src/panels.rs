//! Floating panels side by side.
//!
//! The coordinates by which panels are put in order are only ever compared with
//! each other. They are given by order keys: integers of which one is smaller
//! than, equal to or greater than another exactly where the coordinate is.

use vstd::math::{max, min};
use vstd::prelude::*;

use crate::action::{Action, ActionView};
use crate::config::{rule_views, WindowRuleConfig, WindowRuleView};
use crate::matcher::WindowMatcherCache;
use crate::niri::{Placement, Window};
use crate::search::{first_where, first_where_found, first_where_is_first};
use crate::text::opt_text;
use crate::window_rule::{floats_window, matching_floating_rule, rule_verdict};
use crate::window_utils::{find_window, window_at};

verus! {

impl Window {
    /// Whether it is known where a window's tile stands.
    pub open spec fn has_position(self) -> bool {
        self.layout matches Some(layout) && layout.tile_pos is Some
    }

    /// Whether it is known where a window's tile stands.
    pub fn is_positioned(&self) -> (r: bool)
        ensures
            r == self.has_position(),
    {
        match &self.layout {
            Some(layout) => layout.tile_pos.is_some(),
            None => false,
        }
    }
}

// ----------------------------------------------------------------------- Row

/// The floating rule by which a window belongs to the row of panels on a
/// workspace, if it does: it floats there, and it is known where.
pub open spec fn row_rule(w: Window, rules: Seq<WindowRuleView>, workspace_id: u64) -> Option<int> {
    if w.floats_on(workspace_id) && w.has_position() {
        first_where(rules, floats_window(opt_text(w.app_id), w.title@))
    } else {
        None
    }
}

/// The row of panels among the first windows of a list: each by its position in
/// the list, with the position of its rule.
pub open spec fn row(
    windows: Seq<Window>,
    rules: Seq<WindowRuleView>,
    workspace_id: u64,
) -> Seq<(int, int)>
    decreases windows.len(),
{
    if windows.len() == 0 {
        seq![]
    } else {
        let before = row(windows.drop_last(), rules, workspace_id);
        match row_rule(windows.last(), rules, workspace_id) {
            Some(rule) => before.push((windows.len() - 1, rule)),
            None => before,
        }
    }
}

/// Collects the row of panels on a workspace.
/// Membership is decided by re-matching the rules, so panels stuck
/// waiting for layout events are still there.
pub fn row_members(
    rules: &Vec<WindowRuleConfig>,
    matcher_cache: &mut WindowMatcherCache,
    windows: &Vec<Window>,
    workspace_id: u64,
) -> (r: Vec<(usize, usize)>)
    ensures
        r@.map_values(|p: (usize, usize)| (p.0 as int, p.1 as int)) == row(
            windows@,
            rule_views(rules@),
            workspace_id,
        ),
        old(matcher_cache).compiled().subset_of(final(matcher_cache).compiled()),
{
    let mut r: Vec<(usize, usize)> = Vec::new();
    let ghost as_ints = |p: (usize, usize)| (p.0 as int, p.1 as int);
    assert(r@.map_values(as_ints) =~= row(windows@.take(0), rule_views(rules@), workspace_id));
    for i in 0..windows.len()
        invariant
            as_ints == (|p: (usize, usize)| (p.0 as int, p.1 as int)),
            r@.map_values(as_ints) == row(
                windows@.take(i as int),
                rule_views(rules@),
                workspace_id,
            ),
            old(matcher_cache).compiled().subset_of(matcher_cache.compiled()),
    {
        let window = &windows[i];
        assert(windows@.take(i + 1).drop_last() =~= windows@.take(i as int));
        assert(windows@.take(i + 1).last() == *window);
        if window.is_floating_on(workspace_id) && window.is_positioned() {
            if let Some(rule) = matching_floating_rule(rules, matcher_cache, window) {
                let ghost before = r@;
                r.push((i, rule));
                assert(r@.map_values(as_ints) =~= before.map_values(as_ints).push(
                    (i as int, rule as int),
                ));
            }
        }
    }
    assert(windows@.take(windows@.len() as int) =~= windows@);
    r
}

/// Whether one panel stands before another in the row: it is further to the
/// left, or as far and met earlier.
pub open spec fn row_before(keys: Seq<i64>, a: usize, b: usize) -> bool {
    keys[a as int] < keys[b as int] || (keys[a as int] == keys[b as int] && a < b)
}

/// Whether panels are in the order in which they stand in the row.
pub open spec fn in_row_order(keys: Seq<i64>, order: Seq<usize>) -> bool {
    forall|i: int, j: int|
        0 <= i < j < order.len() ==> row_before(keys, #[trigger] order[i], #[trigger] order[j])
}

/// Whether panels are the first ones met, each once.
pub open spec fn permutes(order: Seq<usize>, n: int) -> bool {
    &&& order.len() == n
    &&& forall|i: int| 0 <= i < order.len() ==> (#[trigger] order[i]) < n
    &&& order.no_duplicates()
}

fn place_in_row(keys: &Vec<i64>, order: &Vec<usize>, next: usize) -> (r: usize)
    requires
        next < keys@.len(),
        permutes(order@, next as int),
        in_row_order(keys@, order@),
    ensures
        r <= order@.len(),
        forall|i: int| 0 <= i < r ==> row_before(keys@, #[trigger] order@[i], next),
        forall|i: int| r <= i < order@.len() ==> row_before(keys@, next, #[trigger] order@[i]),
{
    let mut at: usize = 0;
    while at < order.len() && keys[order[at]] <= keys[next]
        invariant
            next < keys@.len(),
            at <= order@.len(),
            permutes(order@, next as int),
            forall|i: int| 0 <= i < at ==> row_before(keys@, #[trigger] order@[i], next),
        decreases order@.len() - at,
    {
        at = at + 1;
    }
    proof {
        assert forall|i: int| at <= i < order@.len() implies row_before(
            keys@,
            next,
            #[trigger] order@[i],
        ) by {
            if i > at {
                assert(row_before(keys@, order@[at as int], order@[i]));
            }
        }
    }
    at
}

/// The order in which panels stand in a row, given how far to the left each one
/// is: panels that are as far keep the order in which they were met. Nothing
/// where there are too few panels for a row.
pub fn row_order(keys: &Vec<i64>) -> (r: Option<Vec<usize>>)
    ensures
        keys@.len() < 2 ==> r is None,
        keys@.len() >= 2 ==> {
            &&& r matches Some(order)
            &&& permutes(order@, keys@.len() as int)
            &&& in_row_order(keys@, order@)
        },
{
    if keys.len() < 2 {
        return None;
    }
    let mut order: Vec<usize> = Vec::new();
    for next in 0..keys.len()
        invariant
            permutes(order@, next as int),
            in_row_order(keys@, order@),
    {
        let at: usize = place_in_row(keys, &order, next);
        let ghost before = order@;
        order.insert(at, next);
        proof {
            assert(order@ == before.insert(at as int, next));
            assert forall|i: int| 0 <= i < order@.len() implies #[trigger] order@[i]
                == if i < at {
                before[i]
            } else if i == at {
                next
            } else {
                before[i - 1]
            } by {}
            assert forall|i: int, j: int|
                0 <= i < order@.len() && 0 <= j < order@.len() && i != j implies order@[i]
                != order@[j] by {
                let bi = if i < at {
                    i
                } else {
                    i - 1
                };
                let bj = if j < at {
                    j
                } else {
                    j - 1
                };
                if i != at && j != at {
                    assert(before[bi] != before[bj]);
                } else if i == at {
                    assert(before[bj] < next);
                } else {
                    assert(before[bi] < next);
                }
            }
        }
    }
    Some(order)
}

/// There is only one order in which panels can stand in a row.
pub proof fn row_order_is_unique(keys: Seq<i64>, a: Seq<usize>, b: Seq<usize>)
    requires
        permutes(a, keys.len() as int),
        permutes(b, keys.len() as int),
        in_row_order(keys, a),
        in_row_order(keys, b),
        keys.len() <= usize::MAX,
    ensures
        a == b,
{
    let n = keys.len() as int;
    assert forall|i: int| 0 <= i < n implies a[i] == b[i] by {
        lemma_same_place(keys, a, b, i);
    }
    assert(a =~= b);
}

proof fn lemma_contains_all(order: Seq<usize>, n: int, v: usize)
    requires
        permutes(order, n),
        v < n,
        n <= usize::MAX,
    ensures
        order.contains(v),
{
    let full = Set::new(|u: usize| u < n);
    let seen = order.to_set();
    order.unique_seq_to_set();
    lemma_bounded_set(n);
    assert(seen.subset_of(full)) by {
        assert forall|u: usize| seen.contains(u) implies full.contains(u) by {
            let i = choose|i: int| 0 <= i < order.len() && order[i] == u;
        }
    }
    vstd::set_lib::lemma_subset_equality(seen, full);
    assert(full.contains(v));
    assert(seen.contains(v));
}

proof fn lemma_bounded_set(n: int)
    requires
        0 <= n <= usize::MAX,
    ensures
        Set::new(|u: usize| u < n).finite(),
        Set::new(|u: usize| u < n).len() == n,
    decreases n,
{
    let full = Set::new(|u: usize| u < n);
    if n == 0 {
        assert(full =~= Set::empty());
    } else {
        let less = Set::new(|u: usize| u < n - 1);
        lemma_bounded_set(n - 1);
        assert(full =~= less.insert((n - 1) as usize));
    }
}

proof fn lemma_same_place(keys: Seq<i64>, a: Seq<usize>, b: Seq<usize>, i: int)
    requires
        permutes(a, keys.len() as int),
        permutes(b, keys.len() as int),
        in_row_order(keys, a),
        in_row_order(keys, b),
        0 <= i < keys.len() <= usize::MAX,
    ensures
        a[i] == b[i],
    decreases i,
{
    assert forall|j: int| 0 <= j < i implies a[j] == b[j] by {
        lemma_same_place(keys, a, b, j);
    }
    lemma_contains_all(b, keys.len() as int, a[i]);
    lemma_contains_all(a, keys.len() as int, b[i]);
    let p = choose|p: int| 0 <= p < b.len() && b[p] == a[i];
    let q = choose|q: int| 0 <= q < a.len() && a[q] == b[i];
    if p < i {
        assert(a[p] == a[i]);
    } else if q < i {
        assert(b[q] == b[i]);
    } else if p > i && q > i {
        assert(row_before(keys, b[i], b[p]));
        assert(row_before(keys, a[i], a[q]));
    }
}

// ------------------------------------------------------------------- Overlap

/// Whether a window may overlap another one: it floats, it is on the same
/// workspace as far as that is known, and it is known where it stands.
pub open spec fn sibling(me: Window, w: Window) -> bool {
    &&& w.id != me.id
    &&& w.floating
    &&& me.workspace_id is Some ==> w.workspace_id == me.workspace_id
    &&& w.has_position()
}

/// The windows of a list, by position, that may overlap a window.
pub open spec fn siblings_of(windows: Seq<Window>, me: Window) -> Seq<int>
    decreases windows.len(),
{
    if windows.len() == 0 {
        seq![]
    } else {
        let before = siblings_of(windows.drop_last(), me);
        if sibling(me, windows.last()) {
            before.push(windows.len() - 1)
        } else {
            before
        }
    }
}

/// Collects the windows that may overlap a window; nothing where the window is
/// not listed.
pub fn siblings(windows: &Vec<Window>, window_id: u64) -> (r: Option<Vec<usize>>)
    ensures
        match window_at(windows@, window_id) {
            Some(m) => r matches Some(s) && s@.map_values(|i: usize| i as int) == siblings_of(
                windows@,
                windows@[m],
            ),
            None => r is None,
        },
{
    let me = match find_window(windows, window_id) {
        Some(me) => me,
        None => return None,
    };
    let mut r: Vec<usize> = Vec::new();
    let ghost as_int = |i: usize| i as int;
    assert(r@.map_values(as_int) =~= siblings_of(windows@.take(0), *me));
    for i in 0..windows.len()
        invariant
            as_int == (|i: usize| i as int),
            r@.map_values(as_int) == siblings_of(windows@.take(i as int), *me),
    {
        let w = &windows[i];
        assert(windows@.take(i + 1).drop_last() =~= windows@.take(i as int));
        assert(windows@.take(i + 1).last() == *w);
        let same_workspace = match (me.workspace_id, w.workspace_id) {
            (Some(mine), Some(other)) => mine == other,
            (Some(_), None) => false,
            (None, _) => true,
        };
        if w.id != me.id && w.floating && same_workspace && w.is_positioned() {
            let ghost before = r@;
            r.push(i);
            assert(r@.map_values(as_int) =~= before.map_values(as_int).push(i as int));
        }
    }
    assert(windows@.take(windows@.len() as int) =~= windows@);
    Some(r)
}

/// The gap that is kept between panels, in pixels.
pub const GAP: u32 = 16;

/// The length of some pixels. Lengths are measured in parts of a pixel, of which
/// there are 2^32 in one.
pub open spec fn pixels(n: int) -> int {
    n * 0x1_0000_0000
}

/// The number of whole pixels in a length, rounded down.
pub open spec fn pixels_down(length: int) -> int {
    length / 0x1_0000_0000
}

/// The number of whole pixels in a length, rounded up.
pub open spec fn pixels_up(length: int) -> int {
    (length + 0xffff_ffff) / 0x1_0000_0000
}

/// The number of whole pixels in a length, rounded to the nearest; a half is
/// rounded away from zero.
pub open spec fn pixels_round(length: int) -> int {
    if length >= 0 {
        (length + 0x8000_0000) / 0x1_0000_0000
    } else {
        -((-length + 0x8000_0000) / 0x1_0000_0000)
    }
}

fn round_down(length: i64) -> (r: i64)
    ensures
        r == pixels_down(length as int),
        -0x8000_0000 <= r < 0x8000_0000,
{
    let shifted: i128 = length as i128 + 0x8000_0000_0000_0000;
    (shifted / 0x1_0000_0000 - 0x8000_0000) as i64
}

fn round_up(length: i64) -> (r: i64)
    ensures
        r == pixels_up(length as int),
        -0x8000_0000 <= r <= 0x8000_0000,
{
    let shifted: i128 = length as i128 + 0xffff_ffff + 0x8000_0000_0000_0000;
    (shifted / 0x1_0000_0000 - 0x8000_0000) as i64
}

/// Where another window stands, by its sides. They need not be on whole pixels.
#[derive(Debug, Clone, Copy, PartialEq, Eq, Structural)]
pub struct Sides {
    pub left: i64,
    pub right: i64,
    pub top: i64,
    pub bottom: i64,
}

/// A panel: where it stands and how large it is, in pixels.
#[derive(Debug, Clone, Copy, PartialEq, Eq, Structural)]
pub struct Panel {
    pub x: i32,
    pub y: i32,
    pub width: u32,
    pub height: u32,
}

/// A length, or the wanted one where that is greater.
pub open spec fn grown(wanted: Option<u32>, length: u32) -> u32 {
    match wanted {
        Some(w) => if w > length {
            w
        } else {
            length
        },
        None => length,
    }
}

fn grow(wanted: Option<u32>, length: u32) -> (r: u32)
    ensures
        r == grown(wanted, length),
{
    match wanted {
        Some(w) => if w > length {
            w
        } else {
            length
        },
        None => length,
    }
}

impl Panel {
    /// The panel that a window is: it is as large as it measures, or as it is
    /// wanted where that is larger.
    pub fn new(placement: Placement, width: Option<u32>, height: Option<u32>) -> (r: Self)
        ensures
            r == (Panel {
                x: placement.0,
                y: placement.1,
                width: grown(width, placement.2),
                height: grown(height, placement.3),
            }),
    {
        Panel {
            x: placement.0,
            y: placement.1,
            width: grow(width, placement.2),
            height: grow(height, placement.3),
        }
    }

    /// Whether a panel overlaps another window once it is moved to that place
    /// sideways. Rectangles that only touch do not overlap.
    pub open spec fn covers(self, at: int, other: Sides) -> bool {
        &&& at < other.right
        &&& other.left < at + pixels(self.width as int)
        &&& pixels(self.y as int) < other.bottom
        &&& other.top < pixels(self.y as int) + pixels(self.height as int)
    }

    /// Whether a panel overlaps no other window at a place.
    pub open spec fn free_at(self, at: int, others: Seq<Sides>) -> bool {
        forall|i: int| 0 <= i < others.len() ==> !self.covers(at, #[trigger] others[i])
    }

    /// Whether a panel at a place does not reach beyond the right of an output
    /// of that width. Nothing is beyond an output of unknown width.
    pub open spec fn fits_at(self, at: int, output: Option<u32>) -> bool {
        output matches Some(w) ==> at + pixels(self.width as int) <= pixels(w as int)
    }

    /// Whether a panel at a place is inside an output of that width.
    pub open spec fn inside_at(self, at: int, output: Option<u32>) -> bool {
        0 <= at && self.fits_at(at, output)
    }

    /// How far to the left the windows reach that a panel overlaps at a place;
    /// nothing where it overlaps none.
    pub open spec fn leftmost(self, at: int, others: Seq<Sides>) -> Option<int>
        decreases others.len(),
    {
        if others.len() == 0 {
            None
        } else {
            let o = others.last();
            match self.leftmost(at, others.drop_last()) {
                Some(l) => if self.covers(at, o) && o.left < l {
                    Some(o.left as int)
                } else {
                    Some(l)
                },
                None => if self.covers(at, o) {
                    Some(o.left as int)
                } else {
                    None
                },
            }
        }
    }

    /// How far to the right the windows reach that a panel overlaps at a place;
    /// nothing where it overlaps none.
    pub open spec fn rightmost(self, at: int, others: Seq<Sides>) -> Option<int>
        decreases others.len(),
    {
        if others.len() == 0 {
            None
        } else {
            let o = others.last();
            match self.rightmost(at, others.drop_last()) {
                Some(r) => if self.covers(at, o) && o.right > r {
                    Some(o.right as int)
                } else {
                    Some(r)
                },
                None => if self.covers(at, o) {
                    Some(o.right as int)
                } else {
                    None
                },
            }
        }
    }

    /// Something reaches out to the left or the right exactly where a panel is
    /// not free, and nothing that it overlaps there reaches out further.
    pub proof fn reach_is_outermost(self, at: int, others: Seq<Sides>)
        ensures
            self.leftmost(at, others) is None <==> self.free_at(at, others),
            self.rightmost(at, others) is None <==> self.free_at(at, others),
            self.leftmost(at, others) matches Some(l) ==> {
                &&& exists|i: int|
                    0 <= i < others.len() && self.covers(at, #[trigger] others[i]) && others[i].left
                        == l
                &&& forall|i: int|
                    0 <= i < others.len() && self.covers(at, #[trigger] others[i]) ==> l
                        <= others[i].left
            },
            self.rightmost(at, others) matches Some(r) ==> {
                &&& exists|i: int|
                    0 <= i < others.len() && self.covers(at, #[trigger] others[i]) && others[i].right
                        == r
                &&& forall|i: int|
                    0 <= i < others.len() && self.covers(at, #[trigger] others[i]) ==> others[i].right
                        <= r
            },
        decreases others.len(),
    {
        if others.len() > 0 {
            let before = others.drop_last();
            self.reach_is_outermost(at, before);
            let n = others.len() - 1;
            assert forall|i: int| 0 <= i < n implies before[i] == #[trigger] others[i] by {}
            assert(others[n] == others.last());
            if let Some(l) = self.leftmost(at, before) {
                let i = choose|i: int|
                    0 <= i < before.len() && self.covers(at, #[trigger] before[i]) && before[i].left
                        == l;
                assert(self.covers(at, others[i]));
            }
            if let Some(r) = self.rightmost(at, before) {
                let i = choose|i: int|
                    0 <= i < before.len() && self.covers(at, #[trigger] before[i]) && before[i].right
                        == r;
                assert(self.covers(at, others[i]));
            }
            if self.free_at(at, before) && !self.covers(at, others.last()) {
                assert forall|i: int| 0 <= i < others.len() implies !self.covers(
                    at,
                    #[trigger] others[i],
                ) by {
                    if i < n {
                        assert(!self.covers(at, before[i]));
                    }
                }
            }
            if self.free_at(at, others) {
                assert forall|i: int| 0 <= i < before.len() implies !self.covers(
                    at,
                    #[trigger] before[i],
                ) by {
                    assert(!self.covers(at, others[i]));
                }
            }
        }
    }

    fn reach(&self, at: i128, others: &Vec<Sides>) -> (r: Option<(i64, i64)>)
        requires
            -0x1_0000_0000_0000_0000_0000 <= at <= 0x1_0000_0000_0000_0000_0000,
        ensures
            match r {
                Some(p) => self.leftmost(at as int, others@) == Some(p.0 as int)
                    && self.rightmost(at as int, others@) == Some(p.1 as int),
                None => self.free_at(at as int, others@),
            },
            r is Some ==> !self.free_at(at as int, others@),
    {
        let mut r: Option<(i64, i64)> = None;
        let end: i128 = at + self.width as i128 * 0x1_0000_0000;
        let top: i128 = self.y as i128 * 0x1_0000_0000;
        let bottom: i128 = top + self.height as i128 * 0x1_0000_0000;
        for i in 0..others.len()
            invariant
                end == at + pixels(self.width as int),
                top == pixels(self.y as int),
                bottom == pixels(self.y as int) + pixels(self.height as int),
                match r {
                    Some(p) => self.leftmost(at as int, others@.take(i as int)) == Some(p.0 as int)
                        && self.rightmost(at as int, others@.take(i as int)) == Some(p.1 as int),
                    None => self.leftmost(at as int, others@.take(i as int)) is None
                        && self.rightmost(at as int, others@.take(i as int)) is None,
                },
        {
            let o = others[i];
            assert(others@.take(i + 1).drop_last() =~= others@.take(i as int));
            assert(others@.take(i + 1).last() == o);
            let covered = at < o.right as i128 && (o.left as i128) < end && top < o.bottom as i128
                && (o.top as i128) < bottom;
            if covered {
                r =
                match r {
                    None => Some((o.left, o.right)),
                    Some((left, right)) => {
                        let new_left: i64 = if o.left < left {
                            o.left
                        } else {
                            left
                        };
                        let new_right: i64 = if o.right > right {
                            o.right
                        } else {
                            right
                        };
                        Some((new_left, new_right))
                    },
                };
            }
        }
        assert(others@.take(others@.len() as int) =~= others@);
        proof {
            self.reach_is_outermost(at as int, others@);
        }
        r
    }

    fn reach_at(&self, x: i64, others: &Vec<Sides>) -> (r: Option<(i64, i64)>)
        requires
            -0x3_0000_0000 <= x <= 0x3_0000_0000,
        ensures
            match r {
                Some(p) => self.leftmost(pixels(x as int), others@) == Some(p.0 as int)
                    && self.rightmost(pixels(x as int), others@) == Some(p.1 as int),
                None => self.free_at(pixels(x as int), others@),
            },
            r is Some ==> !self.free_at(pixels(x as int), others@),
    {
        self.reach(x as i128 * 0x1_0000_0000, others)
    }

    /// Whether a panel overlaps no other window where it stands.
    pub fn is_free(&self, others: &Vec<Sides>) -> (r: bool)
        ensures
            r == self.free_at(pixels(self.x as int), others@),
    {
        self.reach_at(self.x as i64, others).is_none()
    }

    /// Where a panel goes to the left, from a pixel on: past the windows that it
    /// overlaps there, and past those that it overlaps then, until it overlaps
    /// none. Nothing where it leaves the output before.
    pub open spec fn left_place(self, others: Seq<Sides>, x: int, gap: nat) -> Option<int>
        decreases
                if x < 0 {
                    0
                } else {
                    x + 1
                },
    {
        if x < 0 {
            None
        } else {
            match self.leftmost(pixels(x), others) {
                None => Some(x),
                Some(l) => {
                    proof {
                        self.reach_is_outermost(pixels(x), others);
                    }
                    self.left_place(others, pixels_down(l) - self.width - gap, gap)
                },
            }
        }
    }

    /// Where a panel goes to the right, from a pixel on, in the same way.
    pub open spec fn right_place(
        self,
        others: Seq<Sides>,
        x: int,
        gap: nat,
        output: Option<u32>,
    ) -> Option<int>
        decreases
                if x > i32::MAX {
                    0
                } else {
                    i32::MAX - x + 1
                },
    {
        if !self.fits_at(pixels(x), output) {
            None
        } else {
            match self.rightmost(pixels(x), others) {
                None => Some(x),
                Some(r) => {
                    proof {
                        self.reach_is_outermost(pixels(x), others);
                    }
                    self.right_place(others, pixels_up(r) + gap, gap, output)
                },
            }
        }
    }

    /// The pixel from which a panel looks to the left: its own, but not beyond
    /// the output.
    pub open spec fn left_start(self, output: Option<u32>) -> int {
        match output {
            Some(w) => min(w - self.width, self.x as int),
            None => self.x as int,
        }
    }

    /// The pixel from which a panel looks to the right: its own, but not beyond
    /// the output.
    pub open spec fn right_start(self) -> int {
        max(self.x as int, 0)
    }

    /// Where a panel goes on either side, whichever is nearer.
    pub open spec fn near_place(self, others: Seq<Sides>, gap: nat, output: Option<u32>) -> Option<
        int,
    > {
        match (
            self.left_place(others, self.left_start(output), gap),
            self.right_place(others, self.right_start(), gap, output),
        ) {
            (Some(left), Some(right)) => if self.x - left <= right - self.x {
                Some(left)
            } else {
                Some(right)
            },
            (Some(left), None) => Some(left),
            (None, right) => right,
        }
    }

    /// Whether a panel is inside the output at a place and overlaps nothing.
    pub open spec fn good_at(self, at: int, others: Seq<Sides>, output: Option<u32>) -> bool {
        self.inside_at(at, output) && self.free_at(at, others)
    }

    /// The pixel to which a panel is moved that goes to a place: it moves by
    /// whole pixels.
    pub open spec fn pixel_at(self, at: int) -> int {
        self.x + pixels_round(at - pixels(self.x as int))
    }

    /// Whether a place is a good one, and so is the pixel to which a panel is
    /// moved.
    pub open spec fn suits(self, at: int, others: Seq<Sides>, output: Option<u32>) -> bool {
        self.good_at(at, others, output) && self.good_at(pixels(self.pixel_at(at)), others, output)
    }

    /// The place beside what a panel overlaps that far to the left.
    pub open spec fn left_candidate(self, leftmost: int) -> int {
        leftmost - pixels(self.width as int) - pixels(GAP as int)
    }

    /// The place beside what a panel overlaps that far to the right.
    pub open spec fn right_candidate(self, rightmost: int) -> int {
        rightmost + pixels(GAP as int)
    }

    /// Where a panel goes that overlaps something everywhere: to the left or
    /// the right of what it overlaps now, where it does not leave the output
    /// there, else to the edge of the output on the side with more room.
    pub open spec fn squeezed(self, leftmost: int, rightmost: int, output: Option<u32>) -> int {
        let left = self.left_candidate(leftmost);
        let right = self.right_candidate(rightmost);
        if left >= 0 {
            left
        } else if self.fits_at(right, output) {
            right
        } else {
            let end = pixels(output->0 as int);
            if max(end - rightmost, 0) > leftmost {
                max(min(right, end - pixels(self.width as int)), 0)
            } else {
                0
            }
        }
    }

    /// The pixel to which a panel goes so that it overlaps no other window: it
    /// stays where it overlaps none. Else it goes to the left or the right of
    /// what it overlaps, to the nearer place if both are good. Where neither is,
    /// it goes on past what it overlaps there, and gives the gap up where it
    /// must.
    pub open spec fn place(self, others: Seq<Sides>, output: Option<u32>) -> int {
        let here = pixels(self.x as int);
        match (self.leftmost(here, others), self.rightmost(here, others)) {
            (Some(leftmost), Some(rightmost)) => {
                let left = self.left_candidate(leftmost);
                let right = self.right_candidate(rightmost);
                let left_ok = self.suits(left, others, output);
                let right_ok = self.suits(right, others, output);
                if left_ok && (right_ok ==> here - left <= right - here) {
                    self.pixel_at(left)
                } else if right_ok {
                    self.pixel_at(right)
                } else {
                    match self.near_place(others, GAP as nat, output) {
                        Some(x) => x,
                        None => match self.near_place(others, 0, output) {
                            Some(x) => x,
                            None => self.pixel_at(self.squeezed(leftmost, rightmost, output)),
                        },
                    }
                }
            },
            _ => self.x as int,
        }
    }

    fn find_left_place(&self, others: &Vec<Sides>, start: i64, gap: u32) -> (r: Option<i64>)
        requires
            -0x2_0000_0000 <= start <= i32::MAX,
        ensures
            match r {
                Some(x) => self.left_place(others@, start as int, gap as nat) == Some(x as int)
                    && 0 <= x <= i32::MAX,
                None => self.left_place(others@, start as int, gap as nat) is None,
            },
    {
        let mut x: i64 = start;
        while x >= 0
            invariant
                -0x3_0000_0000 <= x <= i32::MAX,
                self.left_place(others@, start as int, gap as nat) == self.left_place(
                    others@,
                    x as int,
                    gap as nat,
                ),
            decreases
                    if x < 0 {
                        0
                    } else {
                        x + 1
                    },
        {
            proof {
                self.reach_is_outermost(pixels(x as int), others@);
            }
            match self.reach_at(x, others) {
                None => return Some(x),
                Some((left, _)) => {
                    x = round_down(left) - self.width as i64 - gap as i64;
                },
            }
        }
        None
    }

    fn fits(&self, at: i128, output: Option<u32>) -> (r: bool)
        requires
            -0x1_0000_0000_0000_0000_0000 <= at <= 0x1_0000_0000_0000_0000_0000,
        ensures
            r == self.fits_at(at as int, output),
    {
        match output {
            Some(w) => at + self.width as i128 * 0x1_0000_0000 <= w as i128 * 0x1_0000_0000,
            None => true,
        }
    }

    fn find_right_place(
        &self,
        others: &Vec<Sides>,
        start: i64,
        gap: u32,
        output: Option<u32>,
    ) -> (r: Option<i64>)
        requires
            0 <= start <= i32::MAX,
            gap <= GAP,
        ensures
            match r {
                Some(x) => self.right_place(others@, start as int, gap as nat, output) == Some(
                    x as int,
                ) && 0 <= x <= 0x8000_0000 + GAP,
                None => self.right_place(others@, start as int, gap as nat, output) is None,
            },
    {
        let mut x: i64 = start;
        while self.fits(x as i128 * 0x1_0000_0000, output)
            invariant
                0 <= x <= 0x8000_0000 + GAP,
                gap <= GAP,
                self.right_place(others@, start as int, gap as nat, output) == self.right_place(
                    others@,
                    x as int,
                    gap as nat,
                    output,
                ),
            decreases 0x8000_0000 + GAP - x,
        {
            proof {
                self.reach_is_outermost(pixels(x as int), others@);
            }
            match self.reach_at(x, others) {
                None => return Some(x),
                Some((_, right)) => {
                    x = round_up(right) + gap as i64;
                },
            }
        }
        None
    }

    fn find_near_place(&self, others: &Vec<Sides>, gap: u32, output: Option<u32>) -> (r: Option<
        i64,
    >)
        requires
            gap <= GAP,
        ensures
            match r {
                Some(x) => self.near_place(others@, gap as nat, output) == Some(x as int) && 0 <= x
                    <= 0x8000_0000 + GAP,
                None => self.near_place(others@, gap as nat, output) is None,
            },
    {
        let left_start: i64 = match output {
            Some(w) => if (w as i64 - self.width as i64) < self.x as i64 {
                w as i64 - self.width as i64
            } else {
                self.x as i64
            },
            None => self.x as i64,
        };
        let right_start: i64 = if self.x < 0 {
            0
        } else {
            self.x as i64
        };
        match (
            self.find_left_place(others, left_start, gap),
            self.find_right_place(others, right_start, gap, output),
        ) {
            (Some(left), Some(right)) => if self.x as i64 - left <= right - self.x as i64 {
                Some(left)
            } else {
                Some(right)
            },
            (Some(left), None) => Some(left),
            (None, right) => right,
        }
    }

    fn is_good(&self, at: i128, others: &Vec<Sides>, output: Option<u32>) -> (r: bool)
        requires
            -0x1_0000_0000_0000_0000_0000 <= at <= 0x1_0000_0000_0000_0000_0000,
        ensures
            r == self.good_at(at as int, others@, output),
    {
        at >= 0 && self.fits(at, output) && self.reach(at, others).is_none()
    }

    fn to_pixel(&self, at: i128) -> (r: i64)
        requires
            -0x4_0000_0000_0000_0000 <= at <= 0x4_0000_0000_0000_0000,
        ensures
            r == self.pixel_at(at as int),
            -0x6_0000_0000 <= r <= 0x6_0000_0000,
    {
        let way: i128 = at - self.x as i128 * 0x1_0000_0000;
        let rounded: i128 = if way >= 0 {
            (way + 0x8000_0000) / 0x1_0000_0000
        } else {
            -((-way + 0x8000_0000) / 0x1_0000_0000)
        };
        (self.x as i128 + rounded) as i64
    }

    fn is_suitable(&self, at: i128, others: &Vec<Sides>, output: Option<u32>) -> (r: bool)
        requires
            -0x4_0000_0000_0000_0000 <= at <= 0x4_0000_0000_0000_0000,
        ensures
            r == self.suits(at as int, others@, output),
    {
        self.is_good(at, others, output) && self.is_good(
            self.to_pixel(at) as i128 * 0x1_0000_0000,
            others,
            output,
        )
    }

    fn squeeze(&self, leftmost: i64, rightmost: i64, output: Option<u32>) -> (r: i128)
        ensures
            r == self.squeezed(leftmost as int, rightmost as int, output),
            -0x4_0000_0000_0000_0000 <= r <= 0x4_0000_0000_0000_0000,
    {
        let width: i128 = self.width as i128 * 0x1_0000_0000;
        let gap: i128 = GAP as i128 * 0x1_0000_0000;
        let left: i128 = leftmost as i128 - width - gap;
        let right: i128 = rightmost as i128 + gap;
        if left >= 0 {
            return left;
        }
        let end: i128 = match output {
            Some(w) => w as i128 * 0x1_0000_0000,
            None => return right,
        };
        if right + width <= end {
            return right;
        }
        let room: i128 = if end > rightmost as i128 {
            end - rightmost as i128
        } else {
            0
        };
        if room > leftmost as i128 {
            let last: i128 = end - width;
            let at: i128 = if right < last {
                right
            } else {
                last
            };
            if at < 0 {
                0
            } else {
                at
            }
        } else {
            0
        }
    }

    /// Finds the pixel to which a panel goes so that it overlaps no other window.
    pub fn find_place(&self, others: &Vec<Sides>, output: Option<u32>) -> (r: i64)
        ensures
            r == self.place(others@, output),
            -0x6_0000_0000 <= r <= 0x6_0000_0000,
    {
        proof {
            self.reach_is_outermost(pixels(self.x as int), others@);
        }
        let (leftmost, rightmost) = match self.reach_at(self.x as i64, others) {
            Some(reach) => reach,
            None => return self.x as i64,
        };
        let here: i128 = self.x as i128 * 0x1_0000_0000;
        let gap: i128 = GAP as i128 * 0x1_0000_0000;
        let left: i128 = leftmost as i128 - self.width as i128 * 0x1_0000_0000 - gap;
        let right: i128 = rightmost as i128 + gap;
        let left_ok = self.is_suitable(left, others, output);
        let right_ok = self.is_suitable(right, others, output);
        if left_ok && (!right_ok || here - left <= right - here) {
            return self.to_pixel(left);
        }
        if right_ok {
            return self.to_pixel(right);
        }
        if let Some(x) = self.find_near_place(others, GAP, output) {
            return x;
        }
        if let Some(x) = self.find_near_place(others, 0, output) {
            return x;
        }
        self.to_pixel(self.squeeze(leftmost, rightmost, output))
    }

    /// By how many pixels a panel is moved sideways so that it overlaps no other
    /// window: as far as a move can be told.
    pub open spec fn shift(self, others: Seq<Sides>, output: Option<u32>) -> int {
        max(min(self.place(others, output) - self.x, i32::MAX as int), i32::MIN as int)
    }
}

/// Shift a freshly centered panel until it no longer overlaps other
/// floating windows on the same workspace, given the width of the output where
/// it is known. Checks left and right
/// candidate positions, choosing the one that fits within output bounds.
pub fn avoid_overlap(
    window_id: u64,
    panel: &Panel,
    others: &Vec<Sides>,
    output: Option<u32>,
) -> (r: Option<Action>)
    ensures
        match r {
            Some(action) => panel.shift(others@, output) != 0 && action@ == (
            ActionView::MoveFloatingWindow {
                id: window_id,
                x: panel.shift(others@, output) as i32,
                y: 0,
            }),
            None => panel.shift(others@, output) == 0,
        },
{
    let dx: i64 = panel.find_place(others, output) - panel.x as i64;
    let dx: i32 = if dx < i32::MIN as i64 {
        i32::MIN
    } else if dx > i32::MAX as i64 {
        i32::MAX
    } else {
        dx as i32
    };
    if dx == 0 {
        None
    } else {
        Some(Action::MoveFloatingWindow { id: window_id, x: dx, y: 0 })
    }
}

/// A panel that overlaps nothing stays where it is.
pub proof fn free_panel_stays(panel: Panel, others: Seq<Sides>, output: Option<u32>)
    requires
        panel.free_at(pixels(panel.x as int), others),
    ensures
        panel.place(others, output) == panel.x,
        panel.shift(others, output) == 0,
{
    panel.reach_is_outermost(pixels(panel.x as int), others);
}

/// Right beside the windows that it overlaps, a panel overlaps none of them.
pub proof fn moved_panel_is_clear(panel: Panel, others: Seq<Sides>, at: int, gap: nat, i: int)
    requires
        0 <= i < others.len(),
        panel.covers(at, others[i]),
    ensures
        panel.leftmost(at, others) matches Some(l) && !panel.covers(
            l - pixels(panel.width as int) - gap,
            others[i],
        ),
        panel.rightmost(at, others) matches Some(r) && !panel.covers(r + gap, others[i]),
{
    panel.reach_is_outermost(at, others);
}

proof fn lemma_left_place(panel: Panel, others: Seq<Sides>, x: int, gap: nat)
    ensures
        match panel.left_place(others, x, gap) {
            Some(p) => 0 <= p <= x && panel.free_at(pixels(p), others),
            None => gap == 0 ==> forall|y: int|
                0 <= y <= x ==> !panel.free_at(#[trigger] pixels(y), others),
        },
    decreases
            if x < 0 {
                0
            } else {
                x + 1
            },
{
    panel.reach_is_outermost(pixels(x), others);
    if x >= 0 {
        if let Some(l) = panel.leftmost(pixels(x), others) {
            let next = pixels_down(l) - panel.width - gap;
            let i = choose|i: int|
                0 <= i < others.len() && panel.covers(pixels(x), #[trigger] others[i])
                    && others[i].left == l;
            lemma_left_place(panel, others, next, gap);
            if gap == 0 && panel.left_place(others, x, gap) is None {
                assert forall|y: int| 0 <= y <= x implies !panel.free_at(
                    #[trigger] pixels(y),
                    others,
                ) by {
                    if y > next {
                        assert(panel.covers(pixels(y), others[i]));
                    }
                }
            }
        }
    }
}

proof fn lemma_right_place(
    panel: Panel,
    others: Seq<Sides>,
    x: int,
    gap: nat,
    output: Option<u32>,
)
    ensures
        match panel.right_place(others, x, gap, output) {
            Some(p) => x <= p && panel.fits_at(pixels(p), output) && panel.free_at(
                pixels(p),
                others,
            ),
            None => gap == 0 ==> forall|y: int|
                x <= y && panel.fits_at(#[trigger] pixels(y), output) ==> !panel.free_at(
                    pixels(y),
                    others,
                ),
        },
    decreases
            if x > i32::MAX {
                0
            } else {
                i32::MAX - x + 1
            },
{
    panel.reach_is_outermost(pixels(x), others);
    if panel.fits_at(pixels(x), output) {
        if let Some(r) = panel.rightmost(pixels(x), others) {
            let next = pixels_up(r) + gap;
            let i = choose|i: int|
                0 <= i < others.len() && panel.covers(pixels(x), #[trigger] others[i])
                    && others[i].right == r;
            lemma_right_place(panel, others, next, gap, output);
            if gap == 0 && panel.right_place(others, x, gap, output) is None {
                assert forall|y: int|
                    x <= y && panel.fits_at(#[trigger] pixels(y), output) implies !panel.free_at(
                    pixels(y),
                    others,
                ) by {
                    if y < next {
                        assert(panel.covers(pixels(y), others[i]));
                    }
                }
            }
        }
    }
}

proof fn lemma_near_place(panel: Panel, others: Seq<Sides>, gap: nat, output: Option<u32>)
    ensures
        match panel.near_place(others, gap, output) {
            Some(x) => panel.good_at(pixels(x), others, output),
            None => gap == 0 ==> forall|y: int|
                !panel.good_at(#[trigger] pixels(y), others, output),
        },
{
    lemma_left_place(panel, others, panel.left_start(output), gap);
    lemma_right_place(panel, others, panel.right_start(), gap, output);
    if gap == 0 && panel.near_place(others, gap, output) is None {
        assert forall|y: int| !panel.good_at(#[trigger] pixels(y), others, output) by {
            if panel.good_at(pixels(y), others, output) {
                if y <= panel.x {
                    assert(y <= panel.left_start(output));
                } else {
                    assert(y >= panel.right_start());
                }
                assert(!panel.free_at(pixels(y), others));
            }
        }
    }
}

/// Where there is a pixel inside the output at which a panel overlaps nothing,
/// a panel that overlaps something is moved to such a pixel.
pub proof fn free_place_is_taken(
    panel: Panel,
    others: Seq<Sides>,
    output: Option<u32>,
    somewhere: int,
)
    requires
        !panel.free_at(pixels(panel.x as int), others),
        panel.good_at(pixels(somewhere), others, output),
    ensures
        panel.good_at(pixels(panel.place(others, output)), others, output),
{
    panel.reach_is_outermost(pixels(panel.x as int), others);
    lemma_near_place(panel, others, GAP as nat, output);
    lemma_near_place(panel, others, 0, output);
}

/// A panel that is inside the output stays inside.
pub proof fn panel_stays_inside(panel: Panel, others: Seq<Sides>, output: Option<u32>)
    requires
        panel.inside_at(pixels(panel.x as int), output),
    ensures
        panel.inside_at(pixels(panel.place(others, output)), output),
{
    panel.reach_is_outermost(pixels(panel.x as int), others);
    lemma_near_place(panel, others, GAP as nat, output);
    lemma_near_place(panel, others, 0, output);
}

// ---------------------------------------------------------------------- Laws

/// Whether a point is on a panel that stands at a pixel.
pub open spec fn on_panel(panel: Panel, x: int, point: (int, int)) -> bool {
    &&& x * 0x1_0000_0000 <= point.0 < (x + panel.width) * 0x1_0000_0000
    &&& panel.y * 0x1_0000_0000 <= point.1 < (panel.y + panel.height) * 0x1_0000_0000
}

/// Whether a point is on another window.
pub open spec fn on_window(other: Sides, point: (int, int)) -> bool {
    &&& other.left <= point.0 < other.right
    &&& other.top <= point.1 < other.bottom
}

/// A panel overlaps another window exactly where the two rectangles have a point
/// in common. Neither may be empty.
pub proof fn overlap_is_a_common_point(panel: Panel, x: int, other: Sides)
    requires
        panel.width > 0,
        panel.height > 0,
        other.left < other.right,
        other.top < other.bottom,
    ensures
        panel.covers(x * 0x1_0000_0000, other) <==> exists|point: (int, int)|
            #[trigger] on_panel(panel, x, point) && on_window(other, point),
{
    let point = (
        max(x * 0x1_0000_0000, other.left as int),
        max(panel.y * 0x1_0000_0000, other.top as int),
    );
    if panel.covers(x * 0x1_0000_0000, other) {
        assert(on_panel(panel, x, point) && on_window(other, point));
    }
}

/// Whether another window is above, below, to the left or to the right of a
/// panel that stands at a pixel.
pub open spec fn apart(panel: Panel, x: int, other: Sides) -> bool {
    ||| other.bottom <= panel.y * 0x1_0000_0000
    ||| (panel.y + panel.height) * 0x1_0000_0000 <= other.top
    ||| other.right <= x * 0x1_0000_0000
    ||| (x + panel.width) * 0x1_0000_0000 <= other.left
}

/// A window that is above, below or beside a panel is not overlapped by it, and
/// any other one is.
pub proof fn windows_apart_do_not_overlap(panel: Panel, x: int, other: Sides)
    ensures
        panel.covers(x * 0x1_0000_0000, other) == !apart(panel, x, other),
{
}

/// A panel stays where it is if every other window is above, below or beside it.
pub proof fn panel_apart_from_all_stays(panel: Panel, others: Seq<Sides>, output: Option<u32>)
    requires
        forall|i: int|
            0 <= i < others.len() ==> apart(panel, panel.x as int, #[trigger] others[i]),
    ensures
        panel.place(others, output) == panel.x,
        panel.shift(others, output) == 0,
{
    free_panel_stays(panel, others, output);
}

/// A panel that some window is not apart from is shifted to a pixel on the output
/// at which every window is apart from it, wherever there is such a pixel.
pub proof fn shifted_panel_is_apart_from_all(
    panel: Panel,
    others: Seq<Sides>,
    output: Option<u32>,
    near: int,
    somewhere: int,
    i: int,
)
    requires
        0 <= near < others.len(),
        !apart(panel, panel.x as int, others[near]),
        0 <= somewhere,
        output matches Some(w) ==> somewhere + panel.width <= w,
        forall|j: int| 0 <= j < others.len() ==> apart(panel, somewhere, #[trigger] others[j]),
        0 <= i < others.len(),
    ensures
        ({
            let x = panel.place(others, output);
            &&& 0 <= x
            &&& output matches Some(w) ==> x + panel.width <= w
            &&& apart(panel, x, others[i])
        }),
{
    assert(panel.covers(pixels(panel.x as int), others[near]));
    free_place_is_taken(panel, others, output, somewhere);
    assert(!panel.covers(pixels(panel.place(others, output)), others[i]));
}

/// A panel on the output is never shifted off it.
pub proof fn shifted_panel_is_on_the_output(panel: Panel, others: Seq<Sides>, output: Option<u32>)
    requires
        0 <= panel.x,
        output matches Some(w) ==> panel.x + panel.width <= w,
    ensures
        0 <= panel.place(others, output),
        output matches Some(w) ==> panel.place(others, output) + panel.width <= w,
{
    panel_stays_inside(panel, others, output);
}

/// Beside a single window that it overlaps, a panel keeps a gap of sixteen
/// pixels. It goes to the side that has room for that, and to the nearer one
/// where both have.
pub proof fn gap_beside_a_single_window(
    panel: Panel,
    left: int,
    right: int,
    top: i64,
    bottom: i64,
    output: u32,
    other: Sides,
)
    requires
        other.left == left * 0x1_0000_0000,
        other.right == right * 0x1_0000_0000,
        other.top == top,
        other.bottom == bottom,
        !apart(panel, panel.x as int, other),
        left < right,
    ensures
        ({
            let x = panel.place(seq![other], Some(output));
            let to_left = left - 16 - panel.width;
            let to_right = right + 16;
            let left_fits = 0 <= to_left && to_left + panel.width <= output;
            let right_fits = 0 <= to_right && to_right + panel.width <= output;
            &&& left_fits && !right_fits ==> x == to_left
            &&& right_fits && !left_fits ==> x == to_right
            &&& left_fits && right_fits ==> x == if panel.x - to_left <= to_right - panel.x {
                to_left
            } else {
                to_right
            }
        }),
{
    let others = seq![other];
    let here = pixels(panel.x as int);
    panel.reach_is_outermost(here, others);
    assert(panel.covers(here, others[0]));
    let to_left = left - 16 - panel.width;
    let to_right = right + 16;
    assert(panel.leftmost(here, others) == Some(other.left as int));
    assert(panel.rightmost(here, others) == Some(other.right as int));
    assert(panel.left_candidate(other.left as int) == pixels(to_left));
    assert(panel.right_candidate(other.right as int) == pixels(to_right));
    assert(panel.pixel_at(pixels(to_left)) == to_left);
    assert(panel.pixel_at(pixels(to_right)) == to_right);
    assert forall|i: int| 0 <= i < others.len() implies !panel.covers(
        pixels(to_left),
        #[trigger] others[i],
    ) by {}
    assert forall|i: int| 0 <= i < others.len() implies !panel.covers(
        pixels(to_right),
        #[trigger] others[i],
    ) by {}
}

/// A length is rounded to the nearest number of pixels, away from zero where two
/// are as near.
pub proof fn nearest_pixel_is_taken(length: int)
    ensures
        ({
            let off = length - pixels_round(length) * 0x1_0000_0000;
            &&& -0x8000_0000 <= off <= 0x8000_0000
            &&& off == 0x8000_0000 ==> length < 0
            &&& off == -0x8000_0000 ==> length > 0
        }),
        pixels_down(length) * 0x1_0000_0000 <= length < (pixels_down(length) + 1) * 0x1_0000_0000,
        (pixels_up(length) - 1) * 0x1_0000_0000 < length <= pixels_up(length) * 0x1_0000_0000,
{
}

/// A panel is as wide and as high as it measures and as it is wanted, whichever
/// is more.
pub proof fn panel_is_large_enough(wanted: Option<u32>, length: u32)
    ensures
        grown(wanted, length) >= length,
        wanted matches Some(w) ==> grown(wanted, length) >= w,
        grown(wanted, length) == length || Some(grown(wanted, length)) == wanted,
{
}

/// The windows that a panel may overlap are exactly the other floating windows of
/// its workspace, or of any where its own is not known, of which it is known
/// where they stand.
pub proof fn siblings_are_the_other_floating_windows(windows: Seq<Window>, me: Window, i: int)
    requires
        0 <= i < windows.len(),
    ensures
        siblings_of(windows, me).contains(i) <==> {
            &&& windows[i].id != me.id
            &&& windows[i].floating
            &&& me.workspace_id is None || windows[i].workspace_id == me.workspace_id
            &&& windows[i].layout matches Some(layout) && layout.tile_pos is Some
        },
    decreases windows.len(),
{
    let rest = windows.drop_last();
    let before = siblings_of(rest, me);
    let n = windows.len() - 1;
    lemma_siblings_in_range(rest, me);
    if i < n {
        siblings_are_the_other_floating_windows(rest, me, i);
        assert(rest[i] == windows[i]);
        if before.contains(i) {
            let k = choose|k: int| 0 <= k < before.len() && before[k] == i;
            assert(siblings_of(windows, me)[k] == i);
        }
        if siblings_of(windows, me).contains(i) {
            let k = choose|k: int|
                0 <= k < siblings_of(windows, me).len() && siblings_of(windows, me)[k] == i;
            assert(before[k] == i);
        }
    } else {
        if sibling(me, windows[n]) {
            assert(siblings_of(windows, me)[before.len() as int] == n);
        } else if siblings_of(windows, me).contains(i) {
            let k = choose|k: int| 0 <= k < before.len() && before[k] == i;
            assert(0 <= before[k] < n);
        }
    }
}

proof fn lemma_siblings_in_range(windows: Seq<Window>, me: Window)
    ensures
        forall|k: int|
            0 <= k < siblings_of(windows, me).len() ==> 0 <= (#[trigger] siblings_of(
                windows,
                me,
            )[k]) < windows.len(),
        forall|j: int, k: int|
            0 <= j < k < siblings_of(windows, me).len() ==> (#[trigger] siblings_of(windows, me)[j])
                < (#[trigger] siblings_of(windows, me)[k]),
    decreases windows.len(),
{
    if windows.len() > 0 {
        let before = siblings_of(windows.drop_last(), me);
        let all = siblings_of(windows, me);
        lemma_siblings_in_range(windows.drop_last(), me);
        assert forall|k: int| 0 <= k < all.len() implies 0 <= (#[trigger] all[k])
            < windows.len() by {
            if k < before.len() {
                assert(all[k] == before[k]);
            }
        }
        assert forall|j: int, k: int| 0 <= j < k < all.len() implies (#[trigger] all[j]) < (
        #[trigger] all[k]) by {
            assert(all[j] == before[j]);
            if k < before.len() {
                assert(all[k] == before[k]);
            }
        }
    }
}

/// The row on a workspace holds exactly the floating windows there of which it is
/// known where they stand and that a floating rule matches, each with the first
/// such rule.
pub proof fn row_holds_the_ruled_panels(
    windows: Seq<Window>,
    rules: Seq<WindowRuleView>,
    workspace_id: u64,
    i: int,
    rule: int,
)
    requires
        0 <= i < windows.len(),
    ensures
        row(windows, rules, workspace_id).contains((i, rule)) <==> {
            &&& windows[i].floating
            &&& windows[i].workspace_id == Some(workspace_id)
            &&& windows[i].layout matches Some(layout) && layout.tile_pos is Some
            &&& 0 <= rule < rules.len()
            &&& rules[rule].floating == Some(true)
            &&& rule_verdict(rules[rule], opt_text(windows[i].app_id), Some(windows[i].title@))
                == Some(true)
            &&& forall|k: int|
                0 <= k < rule && (#[trigger] rules[k]).floating == Some(true) ==> rule_verdict(
                    rules[k],
                    opt_text(windows[i].app_id),
                    Some(windows[i].title@),
                ) != Some(true)
        },
    decreases windows.len(),
{
    let rest = windows.drop_last();
    let before = row(rest, rules, workspace_id);
    let all = row(windows, rules, workspace_id);
    let n = windows.len() - 1;
    lemma_row_in_range(rest, rules, workspace_id);
    if i < n {
        row_holds_the_ruled_panels(rest, rules, workspace_id, i, rule);
        assert(rest[i] == windows[i]);
        if before.contains((i, rule)) {
            let k = choose|k: int| 0 <= k < before.len() && before[k] == (i, rule);
            assert(all[k] == (i, rule));
        }
        if all.contains((i, rule)) {
            let k = choose|k: int| 0 <= k < all.len() && all[k] == (i, rule);
            assert(before[k] == (i, rule));
        }
    } else {
        let w = windows[n];
        let wanted = floats_window(opt_text(w.app_id), w.title@);
        first_where_is_first(rules, wanted);
        if all.contains((i, rule)) {
            let k = choose|k: int| 0 <= k < all.len() && all[k] == (i, rule);
            if k < before.len() {
                assert(0 <= before[k].0 < n);
            }
        }
        if 0 <= rule < rules.len() && wanted(rules[rule]) && forall|k: int|
            0 <= k < rule && (#[trigger] rules[k]).floating == Some(true) ==> rule_verdict(
                rules[k],
                opt_text(w.app_id),
                Some(w.title@),
            ) != Some(true) {
            assert forall|k: int| 0 <= k < rule implies !wanted(#[trigger] rules[k]) by {}
            first_where_found(rules, wanted, rule);
            if row_rule(w, rules, workspace_id) is Some {
                assert(all[before.len() as int] == (i, rule));
            }
        }
    }
}

proof fn lemma_row_in_range(windows: Seq<Window>, rules: Seq<WindowRuleView>, workspace_id: u64)
    ensures
        forall|k: int|
            0 <= k < row(windows, rules, workspace_id).len() ==> 0 <= (#[trigger] row(
                windows,
                rules,
                workspace_id,
            )[k]).0 < windows.len(),
    decreases windows.len(),
{
    if windows.len() > 0 {
        let before = row(windows.drop_last(), rules, workspace_id);
        let all = row(windows, rules, workspace_id);
        lemma_row_in_range(windows.drop_last(), rules, workspace_id);
        assert forall|k: int| 0 <= k < all.len() implies 0 <= (#[trigger] all[k]).0
            < windows.len() by {
            if k < before.len() {
                assert(all[k] == before[k]);
            }
        }
    }
}

/// Panels in the order of the row go from left to right; those that are as far
/// to the left keep the order in which they were met.
pub proof fn row_goes_from_left_to_right(keys: Seq<i64>, order: Seq<usize>, i: int, j: int)
    requires
        permutes(order, keys.len() as int),
        in_row_order(keys, order),
        0 <= i < j < order.len(),
    ensures
        keys[order[i] as int] <= keys[order[j] as int],
        keys[order[i] as int] == keys[order[j] as int] ==> order[i] < order[j],
        order[i] < keys.len(),
        order[i] != order[j],
{
    assert(row_before(keys, order[i], order[j]));
    assert(order[i] < keys.len());
}

/// A panel that goes to the left stops where it overlaps nothing, at the pixel that
/// it started from or the gap away from a window; without a gap it overlaps
/// something at every pixel that it passed.
pub proof fn left_place_is_the_first_free_one(
    panel: Panel,
    others: Seq<Sides>,
    x: int,
    gap: nat,
    y: int,
)
    ensures
        panel.left_place(others, x, gap) matches Some(p) ==> {
            &&& p <= x
            &&& p == x || exists|i: int|
                0 <= i < others.len() && p + panel.width + gap == pixels_down(
                    (#[trigger] others[i]).left as int,
                )
            &&& gap == 0 && p < y <= x ==> !panel.free_at(pixels(y), others)
        },
        x >= 0 && panel.free_at(pixels(x), others) ==> panel.left_place(others, x, gap) == Some(x),
    decreases
            if x < 0 {
                0
            } else {
                x + 1
            },
{
    panel.reach_is_outermost(pixels(x), others);
    if x >= 0 {
        if let Some(l) = panel.leftmost(pixels(x), others) {
            let next = pixels_down(l) - panel.width - gap;
            let i = choose|i: int|
                0 <= i < others.len() && panel.covers(pixels(x), #[trigger] others[i])
                    && others[i].left == l;
            left_place_is_the_first_free_one(panel, others, next, gap, y);
            if let Some(p) = panel.left_place(others, x, gap) {
                if p == next {
                    assert(p + panel.width + gap == pixels_down(others[i].left as int));
                }
                if gap == 0 && next < y <= x {
                    assert(panel.covers(pixels(y), others[i]));
                }
            }
        }
    }
}

/// A panel that goes to the right stops where it overlaps nothing, at the pixel that
/// it started from or the gap away from a window; without a gap it overlaps
/// something at every pixel that it passed.
pub proof fn right_place_is_the_first_free_one(
    panel: Panel,
    others: Seq<Sides>,
    x: int,
    gap: nat,
    output: Option<u32>,
    y: int,
)
    ensures
        panel.right_place(others, x, gap, output) matches Some(p) ==> {
            &&& x <= p
            &&& p == x || exists|i: int|
                0 <= i < others.len() && p == pixels_up((#[trigger] others[i]).right as int) + gap
            &&& gap == 0 && x <= y < p ==> !panel.free_at(pixels(y), others)
        },
        panel.fits_at(pixels(x), output) && panel.free_at(pixels(x), others) ==> panel.right_place(
            others,
            x,
            gap,
            output,
        ) == Some(x),
    decreases
            if x > i32::MAX {
                0
            } else {
                i32::MAX - x + 1
            },
{
    panel.reach_is_outermost(pixels(x), others);
    if panel.fits_at(pixels(x), output) {
        if let Some(r) = panel.rightmost(pixels(x), others) {
            let next = pixels_up(r) + gap;
            let i = choose|i: int|
                0 <= i < others.len() && panel.covers(pixels(x), #[trigger] others[i])
                    && others[i].right == r;
            right_place_is_the_first_free_one(panel, others, next, gap, output, y);
            if let Some(p) = panel.right_place(others, x, gap, output) {
                if p == next {
                    assert(p == pixels_up(others[i].right as int) + gap);
                }
                if gap == 0 && x <= y < next {
                    assert(panel.covers(pixels(y), others[i]));
                }
            }
        }
    }
}

/// Without a gap to keep, a panel goes to the nearest pixel on the output at which
/// it overlaps nothing, to the left one of two that are as near.
pub proof fn nearest_free_pixel_is_taken(
    panel: Panel,
    others: Seq<Sides>,
    output: Option<u32>,
    y: int,
)
    requires
        0 <= y,
        output matches Some(w) ==> y + panel.width <= w,
        forall|i: int| 0 <= i < others.len() ==> apart(panel, y, #[trigger] others[i]),
    ensures
        panel.near_place(others, 0, output) matches Some(x) && {
            let way = if x < panel.x {
                panel.x - x
            } else {
                x - panel.x
            };
            let other = if y < panel.x {
                panel.x - y
            } else {
                y - panel.x
            };
            way <= other && (way == other && y < panel.x ==> x <= panel.x)
        },
{
    let a = panel.left_start(output);
    let b = panel.right_start();
    lemma_left_place(panel, others, a, 0);
    lemma_right_place(panel, others, b, 0, output);
    left_place_is_the_first_free_one(panel, others, a, 0, y);
    right_place_is_the_first_free_one(panel, others, b, 0, output, y);
    assert forall|i: int| 0 <= i < others.len() implies !panel.covers(
        pixels(y),
        #[trigger] others[i],
    ) by {
        assert(apart(panel, y, others[i]));
    }
    assert(panel.free_at(pixels(y), others));
    assert(panel.fits_at(pixels(y), output));
    if y <= panel.x {
        assert(y <= a);
    } else {
        assert(y >= b);
    }
}

/// A panel that has room nowhere goes beside what it overlaps, sixteen pixels away:
/// to the left where it starts on the output there, else to the right where it ends
/// on the output there. Otherwise it goes to the edge of the output with more room:
/// to the left one, or as far to the right as the output goes.
pub proof fn squeezed_panel_goes_where_there_is_more_room(
    panel: Panel,
    left: int,
    right: int,
    output: Option<u32>,
)
    ensures
        ({
            let at = panel.squeezed(left * 0x1_0000_0000, right * 0x1_0000_0000, output);
            let to_left = left - panel.width - 16;
            let to_right = right + 16;
            &&& to_left >= 0 ==> at == to_left * 0x1_0000_0000
            &&& to_left < 0 && output is None ==> at == to_right * 0x1_0000_0000
            &&& to_left < 0 && output is Some ==> {
                let w = output->0;
                let room = if w > right {
                    w - right
                } else {
                    0
                };
                &&& to_right + panel.width <= w ==> at == to_right * 0x1_0000_0000
                &&& to_right + panel.width > w && room <= left ==> at == 0
                &&& to_right + panel.width > w && room > left && panel.width <= w ==> at == (w
                    - panel.width) * 0x1_0000_0000
                &&& to_right + panel.width > w && room > left && panel.width > w ==> at == 0
            }
        }),
{
    let w = output->0;
    assert(pixels(w as int) - pixels(panel.width as int) == pixels(w - panel.width));
    assert(panel.left_candidate(left * 0x1_0000_0000) == pixels(left - panel.width - 16));
    assert(panel.right_candidate(right * 0x1_0000_0000) == pixels(right + 16));
}

/// A panel is moved by the way to its place where a move can tell it, and to the
/// pixel itself where it goes to a pixel.
pub proof fn shift_is_the_way_to_the_place(
    panel: Panel,
    others: Seq<Sides>,
    output: Option<u32>,
    y: int,
)
    ensures
        i32::MIN <= panel.place(others, output) - panel.x <= i32::MAX ==> panel.x + panel.shift(
            others,
            output,
        ) == panel.place(others, output),
        panel.place(others, output) - panel.x > i32::MAX ==> panel.shift(others, output)
            == i32::MAX,
        panel.place(others, output) - panel.x < i32::MIN ==> panel.shift(others, output)
            == i32::MIN,
        panel.pixel_at(y * 0x1_0000_0000) == y,
{
}

/// Where neither place beside what a panel overlaps will do, the panel goes on past
/// other windows with the gap of sixteen pixels where that leads to a place, and
/// gives the gap up only where it does not: it ends beside some window or where it
/// started to look.
pub proof fn gap_is_given_up_last(panel: Panel, others: Seq<Sides>, output: Option<u32>, x: int)
    requires
        !panel.free_at(pixels(panel.x as int), others),
        ({
            let here = pixels(panel.x as int);
            let left = panel.leftmost(here, others)->0 - pixels(panel.width + 16);
            let right = panel.rightmost(here, others)->0 + pixels(16);
            !panel.suits(left, others, output) && !panel.suits(right, others, output)
        }),
        panel.near_place(others, 16, output) == Some(x),
    ensures
        panel.place(others, output) == x,
        x == panel.left_start(output) || x == panel.right_start() || exists|i: int|
            0 <= i < others.len() && (x + panel.width + 16 == pixels_down(
                (#[trigger] others[i]).left as int,
            ) || x == pixels_up(others[i].right as int) + 16),
{
    panel.reach_is_outermost(pixels(panel.x as int), others);
    left_place_is_the_first_free_one(panel, others, panel.left_start(output), 16, 0);
    right_place_is_the_first_free_one(panel, others, panel.right_start(), 16, output, 0);
    if panel.left_place(others, panel.left_start(output), 16) == Some(x) {
        if x != panel.left_start(output) {
            let i = choose|i: int|
                0 <= i < others.len() && x + panel.width + 16 == pixels_down(
                    (#[trigger] others[i]).left as int,
                );
            assert(x + panel.width + 16 == pixels_down(others[i].left as int));
        }
    } else if x != panel.right_start() {
        let i = choose|i: int|
            0 <= i < others.len() && x == pixels_up((#[trigger] others[i]).right as int) + 16;
        assert(x == pixels_up(others[i].right as int) + 16);
    }
}

/// Whether a panel of which the left side is at a place is on the output there, with
/// every other window above, below or beside it.
pub open spec fn stands_well(
    panel: Panel,
    at: int,
    others: Seq<Sides>,
    output: Option<u32>,
) -> bool {
    &&& 0 <= at
    &&& output is Some ==> at + panel.width * 0x1_0000_0000 <= output->0 * 0x1_0000_0000
    &&& forall|i: int|
        0 <= i < others.len() ==> {
            ||| (#[trigger] others[i]).bottom <= panel.y * 0x1_0000_0000
            ||| (panel.y + panel.height) * 0x1_0000_0000 <= others[i].top
            ||| others[i].right <= at
            ||| at + panel.width * 0x1_0000_0000 <= others[i].left
        }
}

/// A place will do exactly where a panel stands well there, and also at the pixel
/// that it is moved to for it.
pub proof fn places_do_before_and_after_rounding(
    panel: Panel,
    at: int,
    others: Seq<Sides>,
    output: Option<u32>,
)
    ensures
        panel.suits(at, others, output) <==> {
            let x = panel.x + pixels_round(at - panel.x * 0x1_0000_0000);
            stands_well(panel, at, others, output) && stands_well(
                panel,
                x * 0x1_0000_0000,
                others,
                output,
            )
        },
{
    lemma_stands_well(panel, at, others, output);
    lemma_stands_well(panel, pixels(panel.pixel_at(at)), others, output);
}

proof fn lemma_stands_well(panel: Panel, at: int, others: Seq<Sides>, output: Option<u32>)
    ensures
        panel.good_at(at, others, output) == stands_well(panel, at, others, output),
{
    if panel.good_at(at, others, output) {
        assert forall|i: int| 0 <= i < others.len() implies {
            ||| (#[trigger] others[i]).bottom <= panel.y * 0x1_0000_0000
            ||| (panel.y + panel.height) * 0x1_0000_0000 <= others[i].top
            ||| others[i].right <= at
            ||| at + panel.width * 0x1_0000_0000 <= others[i].left
        } by {
            assert(!panel.covers(at, others[i]));
        }
    }
    if stands_well(panel, at, others, output) {
        assert forall|i: int| 0 <= i < others.len() implies !panel.covers(
            at,
            #[trigger] others[i],
        ) by {}
    }
}

/// Of the two places beside what a panel overlaps, sixteen pixels away, the one that
/// will do is taken, and the nearer one, or the left one of two that are as near,
/// where both will.
pub proof fn nearer_of_two_places_is_taken(
    panel: Panel,
    others: Seq<Sides>,
    output: Option<u32>,
    l: int,
    r: int,
)
    requires
        0 <= l < others.len(),
        0 <= r < others.len(),
        !apart(panel, panel.x as int, others[l]),
        !apart(panel, panel.x as int, others[r]),
        forall|i: int|
            0 <= i < others.len() && !apart(panel, panel.x as int, #[trigger] others[i])
                ==> others[l].left <= others[i].left && others[i].right <= others[r].right,
    ensures
        ({
            let here = panel.x * 0x1_0000_0000;
            let left = others[l].left - (panel.width + 16) * 0x1_0000_0000;
            let right = others[r].right + 16 * 0x1_0000_0000;
            let left_ok = panel.suits(left, others, output);
            let right_ok = panel.suits(right, others, output);
            &&& left_ok && (!right_ok || here - left <= right - here) ==> panel.place(
                others,
                output,
            ) == panel.x + pixels_round(left - here)
            &&& right_ok && (!left_ok || here - left > right - here) ==> panel.place(others, output)
                == panel.x + pixels_round(right - here)
            &&& !left_ok && !right_ok && panel.near_place(others, 16, output) is Some
                ==> panel.place(others, output) == panel.near_place(others, 16, output)->0
            &&& !left_ok && !right_ok && panel.near_place(others, 16, output) is None
                && panel.near_place(others, 0, output) is Some ==> panel.place(others, output)
                == panel.near_place(others, 0, output)->0
            &&& !left_ok && !right_ok && panel.near_place(others, 16, output) is None
                && panel.near_place(others, 0, output) is None ==> panel.place(others, output)
                == panel.x + pixels_round(
                panel.squeezed(others[l].left as int, others[r].right as int, output) - here,
            )
        }),
{
    let here = pixels(panel.x as int);
    panel.reach_is_outermost(here, others);
    assert(panel.covers(here, others[l]));
    assert(panel.covers(here, others[r]));
    let a = choose|i: int|
        0 <= i < others.len() && panel.covers(here, #[trigger] others[i]) && others[i].left
            == panel.leftmost(here, others)->0;
    let b = choose|i: int|
        0 <= i < others.len() && panel.covers(here, #[trigger] others[i]) && others[i].right
            == panel.rightmost(here, others)->0;
    assert(!apart(panel, panel.x as int, others[a]));
    assert(!apart(panel, panel.x as int, others[b]));
    assert(panel.leftmost(here, others) == Some(others[l].left as int));
    assert(panel.rightmost(here, others) == Some(others[r].right as int));
}

/// The panels of a row, and the windows that a panel may overlap, come in the order
/// in which they are listed, each once.
pub proof fn listed_order_is_kept(
    windows: Seq<Window>,
    rules: Seq<WindowRuleView>,
    workspace_id: u64,
    me: Window,
    i: int,
    j: int,
)
    requires
        0 <= i < j,
    ensures
        j < row(windows, rules, workspace_id).len() ==> row(windows, rules, workspace_id)[i].0
            < row(windows, rules, workspace_id)[j].0 < windows.len(),
        j < siblings_of(windows, me).len() ==> siblings_of(windows, me)[i] < siblings_of(
            windows,
            me,
        )[j] < windows.len(),
    decreases windows.len(),
{
    if windows.len() > 0 {
        let rest = windows.drop_last();
        listed_order_is_kept(rest, rules, workspace_id, me, i, j);
        lemma_row_in_range(windows, rules, workspace_id);
        lemma_row_in_range(rest, rules, workspace_id);
        lemma_siblings_in_range(windows, me);
        let before = row(rest, rules, workspace_id);
        let all = row(windows, rules, workspace_id);
        if j < all.len() {
            assert(all[i] == before[i]);
            if j < before.len() {
                assert(all[j] == before[j]);
            }
        }
    }
}

} // verus!
