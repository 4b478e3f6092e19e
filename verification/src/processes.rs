//! Finding the window of a parent process.

use std::collections::{HashMap, HashSet};

use vstd::prelude::*;
use vstd::string::*;

use crate::niri::Window;
use crate::search::{
    first_where, first_where_found, first_where_is_first, first_where_missing,
};
use crate::text::{
    decimal, decimal_round_trip, decimal_text, holds_char, opt_str, parse_unsigned,
    split_words, unsigned_value, unsigned_value_in_range, words,
};

verus! {

broadcast use vstd::std_specs::hash::group_hash_axioms;

// ------------------------------------------------------------ Process status

/// The file that tells the status of a process.
pub fn stat_path(pid: u32) -> (r: String)
    ensures
        r@ == "/proc/"@ + decimal(pid as nat) + "/stat"@,
{
    let mut r: String = "/proc/".to_owned();
    r.append(decimal_text(pid as u64).as_str());
    r.append("/stat");
    r
}

/// The last word of the name that the words of a process status hold. The name is
/// the second word and stands in parentheses; where it has blanks in it, it goes
/// on to the last word that holds a closing parenthesis.
pub open spec fn name_end(fields: Seq<Seq<char>>) -> int
    decreases fields.len(),
{
    if fields.len() <= 2 {
        1
    } else if fields.last().contains(')') {
        fields.len() - 1
    } else {
        name_end(fields.drop_last())
    }
}

/// The parent that the status of a process tells of: behind the name come the
/// state and the parent. Nothing where that is no process id, and where it is
/// zero or the first process.
pub open spec fn parent_in(stat: Seq<char>) -> Option<u32> {
    let fields = words(stat);
    let at = name_end(fields) + 2;
    if at >= fields.len() {
        None
    } else {
        match unsigned_value(fields[at], u32::MAX as int) {
            Some(pid) => if pid == 0 || pid == 1 {
                None
            } else {
                Some(pid as u32)
            },
            None => None,
        }
    }
}

fn find_name_end(fields: &Vec<&str>) -> (r: usize)
    ensures
        r == name_end(fields@.map_values(|w: &str| w@)),
        r == 1 || r < fields@.len(),
{
    let ghost seen = fields@.map_values(|w: &str| w@);
    let mut n: usize = fields.len();
    assert(seen.take(n as int) =~= seen);
    while n > 2
        invariant
            n <= fields@.len(),
            seen == fields@.map_values(|w: &str| w@),
            name_end(seen) == name_end(seen.take(n as int)),
        decreases n,
    {
        assert(seen.take(n as int).last() == fields@[n - 1]@);
        assert(seen.take(n as int).drop_last() =~= seen.take(n - 1));
        if holds_char(fields[n - 1], ')') {
            return n - 1;
        }
        n = n - 1;
    }
    1
}

/// The parent that the status of a process tells of.
pub fn parent_pid(stat: &str) -> (r: Option<u32>)
    ensures
        r == parent_in(stat@),
{
    let fields = split_words(stat);
    let ghost seen = fields@.map_values(|w: &str| w@);
    assert(seen == words(stat@));
    let end: usize = find_name_end(&fields);
    if fields.len() < 3 || end >= fields.len() - 2 {
        return None;
    }
    assert(seen[end + 2] == fields@[end + 2]@);
    match parse_unsigned(fields[end + 2], u32::MAX as u64) {
        Some(pid) => {
            if pid == 0 || pid == 1 {
                None
            } else {
                Some(pid as u32)
            }
        },
        None => None,
    }
}

proof fn lemma_plain_name(fields: Seq<Seq<char>>)
    requires
        forall|i: int| 2 <= i < fields.len() ==> !(#[trigger] fields[i]).contains(')'),
    ensures
        name_end(fields) == 1,
    decreases fields.len(),
{
    if fields.len() > 2 {
        let before = fields.drop_last();
        assert forall|i: int| 2 <= i < before.len() implies !(#[trigger] before[i]).contains(
            ')',
        ) by {
            assert(before[i] == fields[i]);
        }
        assert(fields.last() == fields[fields.len() - 1]);
        lemma_plain_name(before);
    }
}

/// Where the name of a process is one word, its parent is the fourth word of the
/// status.
pub proof fn parent_is_the_fourth_word(stat: Seq<char>, parent: u32)
    requires
        forall|i: int| 2 <= i < words(stat).len() ==> !(#[trigger] words(stat)[i]).contains(')'),
        parent > 1,
    ensures
        parent_in(stat) == Some(parent) <==> words(stat).len() >= 4 && unsigned_value(
            words(stat)[3],
            u32::MAX as int,
        ) == Some(parent as int),
{
    lemma_plain_name(words(stat));
    if words(stat).len() >= 4 {
        unsigned_value_in_range(words(stat)[3], u32::MAX as int);
    }
}

/// The parent that a status tells of, where it could be read.
pub open spec fn parent_told(stat: Option<Seq<char>>) -> Option<u32> {
    match stat {
        Some(stat) => parent_in(stat),
        None => None,
    }
}

/// A walk from a process up through its ancestors.
pub struct AncestorWalk {
    current: u32,
    found: HashSet<u32>,
}

/// Where a walk through ancestors stands.
#[verifier::ext_equal]
pub struct AncestorWalkView {
    /// The process whose status is looked at next.
    pub current: u32,
    /// The ancestors met so far.
    pub found: Set<u32>,
}

impl View for AncestorWalk {
    type V = AncestorWalkView;

    closed spec fn view(&self) -> AncestorWalkView {
        AncestorWalkView { current: self.current, found: self.found@ }
    }
}

impl AncestorWalkView {
    /// Where a walk begins.
    pub open spec fn begun(pid: u32) -> AncestorWalkView {
        AncestorWalkView { current: pid, found: Set::empty() }
    }

    /// Where a walk stands once it took in a status.
    pub open spec fn advanced(self, stat: Option<Seq<char>>) -> AncestorWalkView {
        match parent_told(stat) {
            Some(pid) => AncestorWalkView { current: pid, found: self.found.insert(pid) },
            None => self,
        }
    }

    /// Where a walk stands once it took in one status after the other, up to
    /// the first that ends it.
    pub open spec fn walked(self, stats: Seq<Option<Seq<char>>>) -> AncestorWalkView
        decreases stats.len(),
    {
        if stats.len() == 0 || parent_told(stats[0]) is None {
            self
        } else {
            self.advanced(stats[0]).walked(stats.drop_first())
        }
    }
}

impl AncestorWalk {
    /// Begins a walk at a process.
    pub fn new(pid: u32) -> (r: Self)
        ensures
            r@ == AncestorWalkView::begun(pid),
    {
        AncestorWalk { current: pid, found: HashSet::new() }
    }

    /// The process whose status is looked at next.
    pub fn current_pid(&self) -> (r: u32)
        ensures
            r == self@.current,
    {
        self.current
    }

    /// Takes in the status of the current process, where it could be read.
    /// Returns whether the walk goes on.
    pub fn advance(&mut self, stat: Option<&str>) -> (r: bool)
        ensures
            r == (parent_told(opt_str(stat)) is Some),
            final(self)@ == old(self)@.advanced(opt_str(stat)),
    {
        let parent = match stat {
            Some(stat) => parent_pid(stat),
            None => None,
        };
        match parent {
            Some(pid) => {
                self.found.insert(pid);
                self.current = pid;
                true
            },
            None => false,
        }
    }

    /// Ends the walk.
    pub fn into_ancestors(self) -> (r: HashSet<u32>)
        ensures
            r@ == self@.found,
    {
        self.found
    }
}

/// Neither process zero nor the first process is ever taken for a parent.
pub proof fn parents_are_ordinary_processes(stat: Seq<char>)
    ensures
        parent_in(stat) matches Some(pid) ==> pid > 1,
{
    unsigned_value_in_range(words(stat)[name_end(words(stat)) + 2], u32::MAX as int);
}

/// The parents that statuses tell of, one after the other, up to the first that
/// tells of none.
pub open spec fn parent_chain(stats: Seq<Option<Seq<char>>>) -> Seq<u32>
    decreases stats.len(),
{
    if stats.len() == 0 {
        seq![]
    } else {
        match parent_told(stats[0]) {
            Some(pid) => seq![pid] + parent_chain(stats.drop_first()),
            None => seq![],
        }
    }
}

proof fn lemma_walked(walk: AncestorWalkView, stats: Seq<Option<Seq<char>>>)
    ensures
        walk.walked(stats).found == walk.found.union(parent_chain(stats).to_set()),
        walk.walked(stats).current == (if parent_chain(stats).len() == 0 {
            walk.current
        } else {
            parent_chain(stats).last()
        }),
    decreases stats.len(),
{
    let chain = parent_chain(stats);
    if stats.len() == 0 || parent_told(stats[0]) is None {
        assert(chain =~= seq![]);
        assert(walk.found =~= walk.found.union(chain.to_set()));
    } else {
        let pid = parent_told(stats[0])->0;
        let rest = parent_chain(stats.drop_first());
        lemma_walked(walk.advanced(stats[0]), stats.drop_first());
        assert(chain =~= seq![pid] + rest);
        assert forall|p: u32|
            chain.to_set().contains(p) == (p == pid || rest.to_set().contains(p)) by {
            if chain.contains(p) && p != pid {
                let i = choose|i: int| 0 <= i < chain.len() && chain[i] == p;
                assert(rest[i - 1] == p);
            }
            if rest.contains(p) {
                let i = choose|i: int| 0 <= i < rest.len() && rest[i] == p;
                assert(chain[i + 1] == p);
            }
            assert(chain[0] == pid);
        }
        assert(walk.walked(stats).found =~= walk.found.union(chain.to_set()));
    }
}

/// What a walk finds is exactly the chain of parents, up to the first process
/// that has none; the walk stands at the last of them.
pub proof fn walk_finds_the_chain_of_parents(pid: u32, stats: Seq<Option<Seq<char>>>)
    ensures
        ({
            let walk = AncestorWalkView::begun(pid).walked(stats);
            let chain = parent_chain(stats);
            &&& walk.found == chain.to_set()
            &&& walk.current == (if chain.len() == 0 {
                pid
            } else {
                chain.last()
            })
        }),
{
    lemma_walked(AncestorWalkView::begun(pid), stats);
    assert(Set::<u32>::empty().union(parent_chain(stats).to_set()) =~= parent_chain(
        stats,
    ).to_set());
}

// --------------------------------------------------------------- Process ids

/// Which windows belong to a process, as far as they were met.
pub struct PidMap {
    windows: HashMap<u32, Vec<u64>>,
}

impl View for PidMap {
    type V = Map<u32, Seq<u64>>;

    closed spec fn view(&self) -> Map<u32, Seq<u64>> {
        self.windows@.map_values(|v: Vec<u64>| v@)
    }
}

/// The windows of processes with one more window noted.
pub open spec fn noted(known: Map<u32, Seq<u64>>, pid: u32, window_id: u64) -> Map<u32, Seq<u64>> {
    known.insert(
        pid,
        (if known.contains_key(pid) {
            known[pid]
        } else {
            seq![]
        }).push(window_id),
    )
}

impl PidMap {
    /// No window met yet.
    pub fn new() -> (r: Self)
        ensures
            r@ == Map::<u32, Seq<u64>>::empty(),
    {
        let r = PidMap { windows: HashMap::new() };
        assert(r@ =~= Map::<u32, Seq<u64>>::empty());
        r
    }

    /// Notes that a window belongs to a process.
    pub fn note(&mut self, pid: u32, window_id: u64)
        ensures
            final(self)@ == noted(old(self)@, pid, window_id),
    {
        let mut ids: Vec<u64> = match self.windows.remove(&pid) {
            Some(ids) => ids,
            None => Vec::new(),
        };
        ids.push(window_id);
        self.windows.insert(pid, ids);
        assert(self@ =~= noted(old(self)@, pid, window_id));
    }
}

// ------------------------------------------------------------- Parent window

/// Belonging to one of some processes, and not being the child itself.
pub open spec fn parent_of(child_id: u64, ancestors: Set<u32>) -> spec_fn(Window) -> bool {
    |w: Window| w.id != child_id && (w.pid matches Some(pid) && ancestors.contains(pid))
}

/// The windows of processes once the windows of a row were met, the child
/// itself left out.
pub open spec fn noted_all(
    known: Map<u32, Seq<u64>>,
    windows: Seq<Window>,
    child_id: u64,
) -> Map<u32, Seq<u64>>
    decreases windows.len(),
{
    if windows.len() == 0 {
        known
    } else {
        let before = noted_all(known, windows.drop_last(), child_id);
        let w = windows.last();
        if w.id != child_id && w.pid is Some {
            noted(before, w.pid->0, w.id)
        } else {
            before
        }
    }
}

/// Notes the process of a child window, where it is known.
pub fn note_child(child_window: &Window, window_pid_map: &mut PidMap) -> (r: Option<u32>)
    ensures
        r == child_window.pid,
        final(window_pid_map)@ == (match child_window.pid {
            Some(pid) => noted(old(window_pid_map)@, pid, child_window.id),
            None => old(window_pid_map)@,
        }),
{
    if let Some(pid) = child_window.pid {
        window_pid_map.note(pid, child_window.id);
    }
    child_window.pid
}

/// Try to find parent window using PID-based matching.
/// Checks if any window's PID is in the child window's ancestor process tree.
/// The windows that are looked at are noted with their processes.
pub fn try_pid_matching<'a>(
    child_window: &Window,
    windows: &'a Vec<Window>,
    ancestor_pids: &HashSet<u32>,
    window_pid_map: &mut PidMap,
) -> (r: Option<&'a Window>)
    ensures
        match first_where(windows@, parent_of(child_window.id, ancestor_pids@)) {
            Some(i) => {
                &&& 0 <= i < windows@.len()
                &&& r == Some(&windows@[i])
                &&& final(window_pid_map)@ == noted_all(
                    old(window_pid_map)@,
                    windows@.take(i + 1),
                    child_window.id,
                )
            },
            None => {
                &&& r is None
                &&& final(window_pid_map)@ == noted_all(
                    old(window_pid_map)@,
                    windows@,
                    child_window.id,
                )
            },
        },
{
    let ghost wanted = parent_of(child_window.id, ancestor_pids@);
    for i in 0..windows.len()
        invariant
            wanted == parent_of(child_window.id, ancestor_pids@),
            window_pid_map@ == noted_all(
                old(window_pid_map)@,
                windows@.take(i as int),
                child_window.id,
            ),
            forall|j: int| 0 <= j < i ==> !wanted(#[trigger] windows@[j]),
    {
        let window = &windows[i];
        assert(windows@.take(i + 1).drop_last() =~= windows@.take(i as int));
        assert(windows@.take(i + 1).last() == *window);
        if window.id != child_window.id {
            if let Some(window_pid) = window.pid {
                window_pid_map.note(window_pid, window.id);
                if ancestor_pids.contains(&window_pid) {
                    proof {
                        first_where_found(windows@, wanted, i as int);
                    }
                    return Some(window);
                }
            }
        }
    }
    proof {
        first_where_missing(windows@, wanted);
        assert(windows@.take(windows@.len() as int) =~= windows@);
    }
    None
}

/// The window found belongs to an ancestor of the child's process, and is not
/// the child itself.
pub proof fn parent_belongs_to_an_ancestor(
    windows: Seq<Window>,
    child_id: u64,
    ancestors: Set<u32>,
)
    ensures
        first_where(windows, parent_of(child_id, ancestors)) matches Some(i) ==> {
            &&& windows[i].id != child_id
            &&& windows[i].pid matches Some(pid) && ancestors.contains(pid)
        },
{
    first_where_is_first(windows, parent_of(child_id, ancestors));
}

proof fn lemma_name_ends_at(fields: Seq<Seq<char>>, k: int)
    requires
        1 <= k < fields.len(),
        k == 1 || fields[k].contains(')'),
        forall|i: int| k < i < fields.len() ==> !(#[trigger] fields[i]).contains(')'),
    ensures
        name_end(fields) == k,
    decreases fields.len(),
{
    if fields.len() > 2 && k < fields.len() - 1 {
        let before = fields.drop_last();
        assert forall|i: int| k < i < before.len() implies !(#[trigger] before[i]).contains(
            ')',
        ) by {
            assert(before[i] == fields[i]);
        }
        assert(before[k] == fields[k]);
        assert(fields.last() == fields[fields.len() - 1]);
        lemma_name_ends_at(before, k);
    }
}

/// The parent is the second word behind the name, which goes on to the last closing
/// parenthesis of the status. A number that is no ordinary process is no parent.
pub proof fn parent_stands_behind_the_name(stat: Seq<char>, k: int, parent: u32)
    requires
        1 <= k < words(stat).len(),
        k == 1 || words(stat)[k].contains(')'),
        forall|i: int| k < i < words(stat).len() ==> !(#[trigger] words(stat)[i]).contains(')'),
    ensures
        k + 2 >= words(stat).len() ==> parent_in(stat) is None,
        k + 2 < words(stat).len() && words(stat)[k + 2] == decimal(parent as nat) ==> parent_in(
            stat,
        ) == (if parent > 1 {
            Some(parent)
        } else {
            None
        }),
        k + 2 < words(stat).len() && unsigned_value(words(stat)[k + 2], u32::MAX as int) is None
            ==> parent_in(stat) is None,
{
    lemma_name_ends_at(words(stat), k);
    decimal_round_trip(parent as nat, u32::MAX as int);
}

/// The chain of parents goes on for as long as the statuses tell of one, and holds
/// each of them.
pub proof fn chain_goes_on_while_parents_are_told(stats: Seq<Option<Seq<char>>>, n: int)
    requires
        0 <= n <= stats.len(),
        forall|i: int|
            0 <= i < n ==> (#[trigger] stats[i]) is Some && parent_in(stats[i]->0) is Some,
        n < stats.len() ==> stats[n] is None || parent_in(stats[n]->0) is None,
    ensures
        parent_chain(stats).len() == n,
        forall|i: int|
            0 <= i < n ==> #[trigger] parent_chain(stats)[i] == parent_in(stats[i]->0)->0,
    decreases n,
{
    if n > 0 {
        let rest = stats.drop_first();
        assert(stats[0] is Some);
        assert forall|i: int| 0 <= i < n - 1 implies (#[trigger] rest[i]) is Some && parent_in(
            rest[i]->0,
        ) is Some by {
            assert(rest[i] == stats[i + 1]);
        }
        if n < stats.len() {
            assert(rest[n - 1] == stats[n]);
        }
        chain_goes_on_while_parents_are_told(rest, n - 1);
        assert forall|i: int| 0 <= i < n implies #[trigger] parent_chain(stats)[i] == parent_in(
            stats[i]->0,
        )->0 by {
            if i > 0 {
                assert(parent_chain(stats)[i] == parent_chain(rest)[i - 1]);
                assert(rest[i - 1] == stats[i]);
            }
        }
    }
}

/// Noting a window adds it behind those of its process that were met before, and
/// changes nothing of other processes.
pub proof fn noted_windows_are_kept(known: Map<u32, Seq<u64>>, pid: u32, window_id: u64, other: u32)
    ensures
        ({
            let after = noted(known, pid, window_id);
            &&& after.contains_key(pid)
            &&& after[pid].last() == window_id
            &&& known.contains_key(pid) ==> after[pid].drop_last() == known[pid]
            &&& !known.contains_key(pid) ==> after[pid].len() == 1
            &&& other != pid ==> after.contains_key(other) == known.contains_key(other)
            &&& other != pid && known.contains_key(other) ==> after[other] == known[other]
        }),
{
    if known.contains_key(pid) {
        assert(known[pid].push(window_id).drop_last() =~= known[pid]);
    }
}

/// Windows are noted one after the other, each with its process; the child and
/// windows without a known process are left out.
pub proof fn windows_are_noted_in_order(
    known: Map<u32, Seq<u64>>,
    a: Seq<Window>,
    b: Seq<Window>,
    w: Window,
    child_id: u64,
)
    ensures
        noted_all(known, a + b, child_id) == noted_all(noted_all(known, a, child_id), b, child_id),
        noted_all(known, seq![w], child_id) == (if w.id == child_id || w.pid is None {
            known
        } else {
            noted(known, w.pid->0, w.id)
        }),
        noted_all(known, Seq::<Window>::empty(), child_id) == known,
    decreases b.len(),
{
    reveal_with_fuel(noted_all, 2);
    assert(seq![w].drop_last() =~= Seq::<Window>::empty());
    if b.len() == 0 {
        assert(a + b =~= a);
    } else {
        windows_are_noted_in_order(known, a, b.drop_last(), w, child_id);
        assert((a + b).drop_last() =~= a + b.drop_last());
        assert((a + b).last() == b.last());
    }
}

/// Where a window other than the child belongs to an ancestor, one is found, no
/// later than it.
pub proof fn ancestors_window_is_found(
    windows: Seq<Window>,
    child_id: u64,
    ancestors: Set<u32>,
    i: int,
)
    requires
        0 <= i < windows.len(),
        windows[i].id != child_id,
        windows[i].pid is Some,
        ancestors.contains(windows[i].pid->0),
    ensures
        first_where(windows, parent_of(child_id, ancestors)) matches Some(k) && k <= i,
{
    first_where_is_first(windows, parent_of(child_id, ancestors));
}

} // verus!
