//! Matching windows against regular expressions.

use vstd::prelude::*;
use vstd::hash_map::StringHashMap;
use vstd::string::*;

use crate::niri::Window;
use crate::pattern::{compile, compiled_texts, escape, escaped, is_match, matched_texts};
use crate::search::{
    first_where, first_where_found, first_where_is_first, first_where_missing,
};
use crate::text::{chars_of, opt_text, texts};

verus! {

// ------------------------------------------------------------------ Verdicts

/// What comes of trying a pattern on a text: whether it matches, or nothing
/// where the pattern does not compile.
pub open spec fn pattern_outcome(pattern: Seq<char>, text: Seq<char>) -> Option<bool> {
    match compiled_texts(pattern) {
        Some(matched) => Some(matched.contains(text)),
        None => None,
    }
}

/// Being an outcome after which no further pattern is tried: a match or a
/// failure.
pub open spec fn deciding() -> spec_fn(Option<bool>) -> bool {
    |o: Option<bool>| o != Some(false)
}

/// What a row of outcomes comes to: the first match or failure, else no match.
pub open spec fn verdict(outcomes: Seq<Option<bool>>) -> Option<bool> {
    match first_where(outcomes, deciding()) {
        Some(i) => outcomes[i],
        None => Some(false),
    }
}

/// The position of the first match or failure in a row of outcomes.
pub fn deciding_index(outcomes: &Vec<Option<bool>>) -> (r: Option<usize>)
    ensures
        match r {
            Some(i) => i < outcomes@.len() && first_where(outcomes@, deciding()) == Some(i as int),
            None => first_where(outcomes@, deciding()) is None,
        },
{
    for i in 0..outcomes.len()
        invariant
            forall|j: int| 0 <= j < i ==> !deciding()(#[trigger] outcomes@[j]),
    {
        match outcomes[i] {
            Some(false) => {},
            _ => {
                proof {
                    first_where_found(outcomes@, deciding(), i as int);
                }
                return Some(i);
            },
        }
    }
    proof {
        first_where_missing(outcomes@, deciding());
    }
    None
}

/// What a row of outcomes comes to: the first match or failure, else no match.
pub fn verdict_of(outcomes: &Vec<Option<bool>>) -> (r: Option<bool>)
    ensures
        r == verdict(outcomes@),
{
    match deciding_index(outcomes) {
        Some(i) => outcomes[i],
        None => Some(false),
    }
}

/// One match decides, unless a failure comes before it: the other patterns
/// need not match.
pub proof fn any_match_suffices(outcomes: Seq<Option<bool>>, i: int)
    requires
        0 <= i < outcomes.len(),
        outcomes[i] == Some(true),
        forall|j: int| 0 <= j < i ==> (#[trigger] outcomes[j]) is Some,
    ensures
        verdict(outcomes) == Some(true),
{
    first_where_is_first(outcomes, deciding());
    if let Some(d) = first_where(outcomes, deciding()) {
        assert(outcomes[d] is Some);
    }
}

/// Nothing that stands behind a match or failure counts.
pub proof fn verdict_of_prefix(outcomes: Seq<Option<bool>>, n: int)
    requires
        0 <= n <= outcomes.len(),
        n < outcomes.len() ==> verdict(outcomes.take(n)) != Some(false),
    ensures
        verdict(outcomes.take(n)) == verdict(outcomes),
        first_where(outcomes.take(n), deciding()) == first_where(outcomes, deciding()),
{
    let head = outcomes.take(n);
    if n == outcomes.len() {
        assert(head =~= outcomes);
    } else {
        first_where_is_first(head, deciding());
        let d = first_where(head, deciding())->0;
        assert forall|j: int| 0 <= j < d implies !deciding()(#[trigger] outcomes[j]) by {
            assert(outcomes[j] == head[j]);
        }
        first_where_found(outcomes, deciding(), d);
    }
}

/// Two rows of outcomes, one behind the other, come to what the first comes
/// to, unless that is no match.
pub proof fn verdict_of_sum(a: Seq<Option<bool>>, b: Seq<Option<bool>>)
    ensures
        verdict(a + b) == (if verdict(a) == Some(false) {
            verdict(b)
        } else {
            verdict(a)
        }),
        first_where(a + b, deciding()) == (match first_where(a, deciding()) {
            Some(i) => Some(i),
            None => match first_where(b, deciding()) {
                Some(i) => Some(a.len() + i),
                None => None,
            },
        }),
{
    first_where_is_first(a, deciding());
    first_where_is_first(b, deciding());
    let s = a + b;
    assert forall|j: int| 0 <= j < a.len() implies (#[trigger] s[j]) == a[j] by {}
    assert forall|j: int| a.len() <= j < s.len() implies (#[trigger] s[j]) == b[j - a.len()] by {}
    match first_where(a, deciding()) {
        Some(i) => {
            first_where_found(s, deciding(), i);
        },
        None => match first_where(b, deciding()) {
            Some(i) => {
                first_where_found(s, deciding(), a.len() + i);
            },
            None => {
                first_where_missing(s, deciding());
            },
        },
    }
}

// ------------------------------------------------------------------ Matchers

/// Window matcher configuration for matching windows by app_id and/or title
#[derive(Debug, Clone)]
pub struct WindowMatcher<'a> {
    /// Optional regex patterns to match app_id (any one matches)
    pub app_id: Option<&'a [String]>,
    /// Optional regex patterns to match title (any one matches)
    pub title: Option<&'a [String]>,
}

/// The patterns of a [`WindowMatcher`].
#[verifier::ext_equal]
pub struct MatcherView {
    pub app_id: Option<Seq<Seq<char>>>,
    pub title: Option<Seq<Seq<char>>>,
}

/// The texts of a row of patterns that may be left out.
pub open spec fn opt_patterns(patterns: Option<&[String]>) -> Option<Seq<Seq<char>>> {
    match patterns {
        Some(p) => Some(texts(p@)),
        None => None,
    }
}

impl<'a> View for WindowMatcher<'a> {
    type V = MatcherView;

    open spec fn view(&self) -> MatcherView {
        MatcherView { app_id: opt_patterns(self.app_id), title: opt_patterns(self.title) }
    }
}

impl<'a> WindowMatcher<'a> {
    /// Create a new window matcher
    pub fn new(app_id: Option<&'a [String]>, title: Option<&'a [String]>) -> (r: Self)
        ensures
            r.app_id == app_id,
            r.title == title,
    {
        WindowMatcher { app_id, title }
    }
}

/// The trials that patterns give rise to: each pattern on the text, or none
/// where either is left out.
pub open spec fn trials(
    patterns: Option<Seq<Seq<char>>>,
    text: Option<Seq<char>>,
) -> Seq<(Seq<char>, Seq<char>)> {
    match (patterns, text) {
        (Some(p), Some(t)) => p.map_values(|x: Seq<char>| (x, t)),
        _ => seq![],
    }
}

/// What comes of each trial in a row.
pub open spec fn outcomes(trials: Seq<(Seq<char>, Seq<char>)>) -> Seq<Option<bool>> {
    trials.map_values(|t: (Seq<char>, Seq<char>)| pattern_outcome(t.0, t.1))
}

impl MatcherView {
    /// The trials that a matcher makes on a window: the patterns for the
    /// app_id first, then those for the title.
    pub open spec fn trials(
        self,
        app_id: Option<Seq<char>>,
        title: Option<Seq<char>>,
    ) -> Seq<(Seq<char>, Seq<char>)> {
        trials(self.app_id, app_id) + trials(self.title, title)
    }

    /// Whether a matcher matches a window; nothing where a pattern fails that
    /// is tried before one matches.
    pub open spec fn verdict(self, app_id: Option<Seq<char>>, title: Option<Seq<char>>) -> Option<
        bool,
    > {
        verdict(outcomes(self.trials(app_id, title)))
    }

    /// The pattern that the verdict on a window rests on.
    pub open spec fn deciding_pattern(
        self,
        app_id: Option<Seq<char>>,
        title: Option<Seq<char>>,
    ) -> Seq<char> {
        let t = self.trials(app_id, title);
        t[first_where(outcomes(t), deciding())->0].0
    }
}

/// If both app_id and title patterns are given, one of them matching is enough.
pub proof fn either_matching_suffices(
    m: MatcherView,
    app_id: Option<Seq<char>>,
    title: Option<Seq<char>>,
)
    ensures
        m.verdict(app_id, title) == (match verdict(outcomes(trials(m.app_id, app_id))) {
            Some(false) => verdict(outcomes(trials(m.title, title))),
            decided => decided,
        }),
{
    let a = trials(m.app_id, app_id);
    let b = trials(m.title, title);
    assert(outcomes(a + b) =~= outcomes(a) + outcomes(b));
    verdict_of_sum(outcomes(a), outcomes(b));
}

/// A matcher without patterns matches no window.
pub proof fn no_patterns_match_nothing(app_id: Option<Seq<char>>, title: Option<Seq<char>>)
    ensures
        (MatcherView { app_id: None, title: None }).verdict(app_id, title) == Some(false),
{
    let m = MatcherView { app_id: None, title: None };
    assert(outcomes(m.trials(app_id, title)) =~= seq![]);
}

// --------------------------------------------------------------------- Cache

/// A pattern that does not compile.
#[derive(Debug, Clone, PartialEq, Eq)]
pub struct PatternError {
    pub pattern: String,
}

/// Window matcher with regex cache for efficient pattern matching
pub struct WindowMatcherCache {
    regex_cache: StringHashMap<regex::Regex>,
}

impl WindowMatcherCache {
    #[verifier::type_invariant]
    spec fn well_formed(self) -> bool {
        forall|p: Seq<char>| #[trigger]
            self.regex_cache@.contains_key(p) ==> compiled_texts(p) == Some(
                matched_texts(self.regex_cache@[p]),
            )
    }

    /// The patterns that are compiled already.
    pub closed spec fn compiled(self) -> Set<Seq<char>> {
        self.regex_cache@.dom()
    }

    /// Create a new window matcher cache
    pub fn new() -> (r: Self)
        ensures
            r.compiled() == Set::<Seq<char>>::empty(),
    {
        let r = WindowMatcherCache { regex_cache: StringHashMap::new() };
        assert(r.compiled() =~= Set::<Seq<char>>::empty());
        r
    }

    /// Get or compile a regex pattern (with caching). Patterns are compiled
    /// case-insensitive to handle app_id/title case variations
    /// (e.g. "Alacritty" vs "alacritty").
    fn get_regex(&mut self, pattern: &str) -> (r: Result<&regex::Regex, PatternError>)
        ensures
            match r {
                Ok(regex) => {
                    &&& compiled_texts(pattern@) == Some(matched_texts(*regex))
                    &&& final(self).compiled() == old(self).compiled().insert(pattern@)
                },
                Err(e) => {
                    &&& compiled_texts(pattern@) is None
                    &&& e.pattern@ == pattern@
                    &&& final(self).compiled() == old(self).compiled()
                },
            },
    {
        proof {
            use_type_invariant(&*self);
        }
        let ghost before = self.regex_cache@;
        if !self.regex_cache.contains_key(pattern) {
            let regex = match compile(pattern) {
                Ok(regex) => regex,
                Err(_) => return Err(PatternError { pattern: pattern.to_owned() }),
            };
            let mut cache: StringHashMap<regex::Regex> = StringHashMap::new();
            std::mem::swap(&mut cache, &mut self.regex_cache);
            cache.insert(pattern.to_owned(), regex);
            self.regex_cache = cache;
        }
        assert(self.regex_cache@.dom() =~= before.dom().insert(pattern@));
        proof {
            use_type_invariant(&*self);
        }
        match self.regex_cache.get(pattern) {
            Some(regex) => Ok(regex),
            None => Err(PatternError { pattern: pattern.to_owned() }),
        }
    }

    /// Tries patterns on a text, one after the other, up to the first match or
    /// failure.
    fn try_patterns(&mut self, patterns: &[String], text: &str) -> (r: Vec<Option<bool>>)
        ensures
            ({
                let all = outcomes(trials(Some(texts(patterns@)), Some(text@)));
                &&& r@.len() <= all.len()
                &&& r@ == all.take(r@.len() as int)
                &&& r@.len() < all.len() ==> verdict(r@) != Some(false)
                &&& first_where(r@, deciding()) matches Some(i) ==> i == r@.len() - 1
            }),
            old(self).compiled().subset_of(final(self).compiled()),
    {
        let ghost all = outcomes(trials(Some(texts(patterns@)), Some(text@)));
        let mut r: Vec<Option<bool>> = Vec::new();
        for i in 0..patterns.len()
            invariant
                all == outcomes(trials(Some(texts(patterns@)), Some(text@))),
                all.len() == patterns@.len(),
                r@ == all.take(i as int),
                forall|j: int| 0 <= j < r@.len() ==> !deciding()(#[trigger] r@[j]),
                old(self).compiled().subset_of(self.compiled()),
        {
            let outcome = match self.get_regex(patterns[i].as_str()) {
                Ok(regex) => Some(is_match(regex, text)),
                Err(_) => None,
            };
            assert(all[i as int] == pattern_outcome(patterns@[i as int]@, text@));
            let ghost before = r@;
            r.push(outcome);
            assert(r@ =~= all.take(i + 1));
            assert forall|j: int| 0 <= j < i implies !deciding()(#[trigger] r@[j]) by {
                assert(r@[j] == before[j]);
            }
            match outcome {
                Some(false) => {},
                _ => {
                    proof {
                        first_where_found(r@, deciding(), i as int);
                    }
                    return r;
                },
            }
        }
        proof {
            first_where_missing(r@, deciding());
        }
        r
    }

    /// Whether any pattern of a list matches a text, both of which may be left
    /// out; or the pattern that failed before one matched.
    fn any_matches(&mut self, patterns: Option<&[String]>, text: Option<&String>) -> (r: Result<
        bool,
        PatternError,
    >)
        ensures
            ({
                let t = trials(
                    opt_patterns(patterns),
                    match text {
                        Some(x) => Some(x@),
                        None => None,
                    },
                );
                match r {
                    Ok(b) => verdict(outcomes(t)) == Some(b),
                    Err(e) => {
                        &&& verdict(outcomes(t)) is None
                        &&& e.pattern@ == t[first_where(outcomes(t), deciding())->0].0
                        &&& compiled_texts(e.pattern@) is None
                    },
                }
            }),
            old(self).compiled().subset_of(final(self).compiled()),
    {
        if let Some(patterns) = patterns {
            if let Some(text) = text {
                let ghost t = trials(Some(texts(patterns@)), Some(text@));
                let tried = self.try_patterns(patterns, text.as_str());
                proof {
                    verdict_of_prefix(outcomes(t), tried@.len() as int);
                    first_where_is_first(tried@, deciding());
                }
                return match verdict_of(&tried) {
                    Some(b) => Ok(b),
                    None => {
                        let last: usize = tried.len() - 1;
                        assert(t[last as int].0 == patterns@[last as int]@);
                        Err(PatternError { pattern: patterns[last].clone() })
                    },
                };
            }
        }
        assert(outcomes(Seq::<(Seq<char>, Seq<char>)>::empty()) =~= seq![]);
        Ok(false)
    }

    /// Check if a window matches the matcher criteria
    /// Returns true if:
    /// - Any app_id pattern matches (if specified)
    /// - Any title pattern matches (if specified)
    /// - If both are specified, match if either matches (OR logic)
    /// - If only one is specified, it must match
    pub fn matches(
        &mut self,
        window_app_id: Option<&String>,
        window_title: Option<&String>,
        matcher: &WindowMatcher<'_>,
    ) -> (r: Result<bool, PatternError>)
        ensures
            match r {
                Ok(b) => matcher@.verdict(ref_text(window_app_id), ref_text(window_title)) == Some(
                    b,
                ),
                Err(e) => {
                    &&& matcher@.verdict(ref_text(window_app_id), ref_text(window_title)) is None
                    &&& e.pattern@ == matcher@.deciding_pattern(
                        ref_text(window_app_id),
                        ref_text(window_title),
                    )
                    &&& compiled_texts(e.pattern@) is None
                },
            },
            old(self).compiled().subset_of(final(self).compiled()),
    {
        let ghost a = trials(matcher@.app_id, ref_text(window_app_id));
        let ghost b = trials(matcher@.title, ref_text(window_title));
        proof {
            assert(outcomes(a + b) =~= outcomes(a) + outcomes(b));
            verdict_of_sum(outcomes(a), outcomes(b));
            first_where_is_first(outcomes(a), deciding());
            first_where_is_first(outcomes(b), deciding());
        }
        if self.any_matches(matcher.app_id, window_app_id)? {
            return Ok(true);
        }
        self.any_matches(matcher.title, window_title)
    }

    /// Clear the regex cache (useful when config changes)
    pub fn clear_cache(&mut self)
        ensures
            final(self).compiled() == Set::<Seq<char>>::empty(),
    {
        self.regex_cache = StringHashMap::new();
        assert(self.compiled() =~= Set::<Seq<char>>::empty());
    }
}

impl Default for WindowMatcherCache {
    fn default() -> (r: Self)
        ensures
            r.compiled() == Set::<Seq<char>>::empty(),
    {
        WindowMatcherCache::new()
    }
}

/// The text behind a reference that may be left out.
pub open spec fn ref_text(s: Option<&String>) -> Option<Seq<char>> {
    match s {
        Some(s) => Some(s@),
        None => None,
    }
}

// ------------------------------------------------------------------- Windows

/// Whether a matcher matches a window; nothing where a pattern fails that is
/// tried before one matches.
pub open spec fn window_verdict(w: Window, m: MatcherView) -> Option<bool> {
    m.verdict(opt_text(w.app_id), Some(w.title@))
}

/// The verdict on each window in a row.
pub open spec fn window_verdicts(windows: Seq<Window>, m: MatcherView) -> Seq<Option<bool>> {
    windows.map_values(|w: Window| window_verdict(w, m))
}

/// Find a window using WindowMatcher (regex-based matching)
/// This is the unified method for finding windows by app_id and/or title
pub fn find_window_by_matcher<'a>(
    windows: &'a Vec<Window>,
    matcher: &WindowMatcher<'_>,
    matcher_cache: &mut WindowMatcherCache,
) -> (r: Result<Option<&'a Window>, PatternError>)
    ensures
        match first_where(window_verdicts(windows@, matcher@), deciding()) {
            Some(i) => match window_verdict(windows@[i], matcher@) {
                Some(_) => r == Ok::<Option<&Window>, PatternError>(Some(&windows@[i])),
                None => r matches Err(e) && e.pattern@ == matcher@.deciding_pattern(
                    opt_text(windows@[i].app_id),
                    Some(windows@[i].title@),
                ),
            },
            None => r == Ok::<Option<&Window>, PatternError>(None),
        },
        old(matcher_cache).compiled().subset_of(final(matcher_cache).compiled()),
{
    let ghost verdicts = window_verdicts(windows@, matcher@);
    for i in 0..windows.len()
        invariant
            verdicts == window_verdicts(windows@, matcher@),
            verdicts.len() == windows@.len(),
            forall|j: int| 0 <= j < i ==> !deciding()(#[trigger] verdicts[j]),
            old(matcher_cache).compiled().subset_of(matcher_cache.compiled()),
    {
        let window = &windows[i];
        assert(verdicts[i as int] == window_verdict(*window, matcher@));
        match matcher_cache.matches(window.app_id.as_ref(), Some(&window.title), matcher) {
            Ok(true) => {
                proof {
                    first_where_found(verdicts, deciding(), i as int);
                }
                return Ok(Some(window));
            },
            Ok(false) => {},
            Err(e) => {
                proof {
                    first_where_found(verdicts, deciding(), i as int);
                }
                return Err(e);
            },
        }
    }
    proof {
        first_where_missing(verdicts, deciding());
    }
    Ok(None)
}

/// Whether a window is selected, given what the two lists of patterns that
/// exclude it and the patterns that select it come to: an excluding match or
/// failure counts first, and where there are no selecting patterns every
/// window that is not excluded is selected.
pub open spec fn selection(
    excluded_by_app_id: Option<bool>,
    excluded_by_title: Option<bool>,
    selected: Option<Option<bool>>,
) -> Option<bool> {
    match (excluded_by_app_id, excluded_by_title) {
        (None, _) => None,
        (Some(true), _) => Some(false),
        (Some(false), None) => None,
        (Some(false), Some(true)) => Some(false),
        (Some(false), Some(false)) => match selected {
            None => Some(true),
            Some(verdict) => verdict,
        },
    }
}

/// Whether a window is selected by patterns.
pub open spec fn window_selection(
    w: Window,
    app_id: Option<Seq<Seq<char>>>,
    title: Option<Seq<Seq<char>>>,
    exclude_app_id: Option<Seq<Seq<char>>>,
    exclude_title: Option<Seq<Seq<char>>>,
) -> Option<bool> {
    selection(
        window_verdict(w, MatcherView { app_id: exclude_app_id, title: None }),
        window_verdict(w, MatcherView { app_id: None, title: exclude_title }),
        if app_id is None && title is None {
            None
        } else {
            Some(window_verdict(w, MatcherView { app_id, title }))
        },
    )
}

/// The pattern on which a matcher's verdict on a window rests.
pub open spec fn window_deciding_pattern(w: Window, m: MatcherView) -> Seq<char> {
    m.deciding_pattern(opt_text(w.app_id), Some(w.title@))
}

/// The pattern that fails where a window can be neither selected nor passed
/// over: the deciding one of the first of the three matchers that fails.
pub open spec fn failing_selection(
    w: Window,
    app_id: Option<Seq<Seq<char>>>,
    title: Option<Seq<Seq<char>>>,
    exclude_app_id: Option<Seq<Seq<char>>>,
    exclude_title: Option<Seq<Seq<char>>>,
) -> Seq<char> {
    let by_app_id = MatcherView { app_id: exclude_app_id, title: None };
    let by_title = MatcherView { app_id: None, title: exclude_title };
    if window_verdict(w, by_app_id) is None {
        window_deciding_pattern(w, by_app_id)
    } else if window_verdict(w, by_title) is None {
        window_deciding_pattern(w, by_title)
    } else {
        window_deciding_pattern(w, MatcherView { app_id, title })
    }
}

/// The texts of a list of patterns that may be left out.
pub open spec fn vec_patterns(patterns: Option<&Vec<String>>) -> Option<Seq<Seq<char>>> {
    match patterns {
        Some(p) => Some(texts(p@)),
        None => None,
    }
}

fn slice_of<'a>(patterns: Option<&'a Vec<String>>) -> (r: Option<&'a [String]>)
    ensures
        opt_patterns(r) == vec_patterns(patterns),
{
    match patterns {
        Some(p) => Some(p.as_slice()),
        None => None,
    }
}

/// Check if a window matches the given matcher (with optional exclude patterns)
/// This is a generic window matching function that supports both selecting and exclude patterns
pub fn matches_window(
    window: &Window,
    app_id_patterns: Option<&Vec<String>>,
    title_patterns: Option<&Vec<String>>,
    exclude_app_id_patterns: Option<&Vec<String>>,
    exclude_title_patterns: Option<&Vec<String>>,
    matcher_cache: &mut WindowMatcherCache,
) -> (r: Result<bool, PatternError>)
    ensures
        match window_selection(
            *window,
            vec_patterns(app_id_patterns),
            vec_patterns(title_patterns),
            vec_patterns(exclude_app_id_patterns),
            vec_patterns(exclude_title_patterns),
        ) {
            Some(b) => r == Ok::<bool, PatternError>(b),
            None => {
                &&& r matches Err(e)
                &&& e.pattern@ == failing_selection(
                    *window,
                    vec_patterns(app_id_patterns),
                    vec_patterns(title_patterns),
                    vec_patterns(exclude_app_id_patterns),
                    vec_patterns(exclude_title_patterns),
                )
                &&& compiled_texts(e.pattern@) is None
            },
        },
        old(matcher_cache).compiled().subset_of(final(matcher_cache).compiled()),
{
    proof {
        no_patterns_match_nothing(opt_text(window.app_id), Some(window.title@));
    }
    // First check exclude rules
    if exclude_app_id_patterns.is_some() {
        let exclude_matcher = WindowMatcher::new(slice_of(exclude_app_id_patterns), None);
        if matcher_cache.matches(window.app_id.as_ref(), Some(&window.title), &exclude_matcher)? {
            return Ok(false);
        }
    }
    if exclude_title_patterns.is_some() {
        let exclude_matcher = WindowMatcher::new(None, slice_of(exclude_title_patterns));
        if matcher_cache.matches(window.app_id.as_ref(), Some(&window.title), &exclude_matcher)? {
            return Ok(false);
        }
    }
    // If no selecting patterns are specified, match all (unless excluded)
    if app_id_patterns.is_none() && title_patterns.is_none() {
        return Ok(true);
    }
    let matcher = WindowMatcher::new(slice_of(app_id_patterns), slice_of(title_patterns));
    matcher_cache.matches(window.app_id.as_ref(), Some(&window.title), &matcher)
}

/// A window that an exclude pattern matches is never selected, whatever the
/// selecting patterns say.
pub proof fn exclusion_takes_precedence(
    w: Window,
    app_id: Option<Seq<Seq<char>>>,
    title: Option<Seq<Seq<char>>>,
    exclude_app_id: Option<Seq<Seq<char>>>,
    exclude_title: Option<Seq<Seq<char>>>,
)
    requires
        window_verdict(w, MatcherView { app_id: exclude_app_id, title: None }) == Some(true)
            || window_verdict(w, MatcherView { app_id: None, title: exclude_title }) == Some(true),
    ensures
        window_selection(w, app_id, title, exclude_app_id, exclude_title) != Some(true),
{
}

/// Without patterns to select by, every window is selected that no exclude
/// pattern matches, whatever the exclude patterns are.
pub proof fn everything_else_is_selected(
    w: Window,
    exclude_app_id: Option<Seq<Seq<char>>>,
    exclude_title: Option<Seq<Seq<char>>>,
)
    requires
        window_verdict(w, MatcherView { app_id: exclude_app_id, title: None }) == Some(false),
        window_verdict(w, MatcherView { app_id: None, title: exclude_title }) == Some(false),
    ensures
        window_selection(w, None, None, exclude_app_id, exclude_title) == Some(true),
{
}

/// With patterns to select by, a window that no exclude pattern matches is
/// selected exactly where they match it.
pub proof fn selecting_patterns_decide(
    w: Window,
    app_id: Option<Seq<Seq<char>>>,
    title: Option<Seq<Seq<char>>>,
    exclude_app_id: Option<Seq<Seq<char>>>,
    exclude_title: Option<Seq<Seq<char>>>,
)
    requires
        app_id is Some || title is Some,
        window_verdict(w, MatcherView { app_id: exclude_app_id, title: None }) == Some(false),
        window_verdict(w, MatcherView { app_id: None, title: exclude_title }) == Some(false),
    ensures
        window_selection(w, app_id, title, exclude_app_id, exclude_title) == window_verdict(
            w,
            MatcherView { app_id, title },
        ),
{
}

/// A window is never selected by mistake: where patterns to select by are given
/// and do not match it, or an exclude pattern cannot be tried, it is not.
pub proof fn unmatched_window_is_not_selected(
    w: Window,
    app_id: Option<Seq<Seq<char>>>,
    title: Option<Seq<Seq<char>>>,
    exclude_app_id: Option<Seq<Seq<char>>>,
    exclude_title: Option<Seq<Seq<char>>>,
)
    ensures
        window_selection(w, app_id, title, exclude_app_id, exclude_title) == Some(true) ==> {
            &&& window_verdict(w, MatcherView { app_id: exclude_app_id, title: None }) == Some(
                false,
            )
            &&& window_verdict(w, MatcherView { app_id: None, title: exclude_title }) == Some(
                false,
            )
            &&& app_id is Some || title is Some ==> window_verdict(
                w,
                MatcherView { app_id, title },
            ) == Some(true)
        },
        window_verdict(w, MatcherView { app_id: exclude_app_id, title: None }) is None
            ==> window_selection(w, app_id, title, exclude_app_id, exclude_title) is None,
{
}

// ------------------------------------------------------------------- Waiting

/// Whether a character makes a text count as a regular expression.
pub open spec fn marks_pattern(c: char) -> bool {
    c == '.' || c == '+' || c == '*' || c == '?' || c == '[' || c == ']' || c == '(' || c == ')'
}

/// The pattern that a text to wait for stands for: the text itself where it
/// counts as a regular expression, else the text with its meta characters
/// escaped.
pub open spec fn awaited_pattern(window_match: Seq<char>) -> Seq<char> {
    if exists|i: int| 0 <= i < window_match.len() && marks_pattern(#[trigger] window_match[i]) {
        window_match
    } else {
        escaped(window_match)
    }
}

/// The pattern that a text to wait for stands for.
pub fn window_pattern(window_match: &str) -> (r: String)
    ensures
        r@ == awaited_pattern(window_match@),
{
    let chars = chars_of(window_match);
    for i in 0..chars.len()
        invariant
            chars@ == window_match@,
            forall|j: int| 0 <= j < i ==> !marks_pattern(#[trigger] window_match@[j]),
    {
        let c: char = chars[i];
        if c == '.' || c == '+' || c == '*' || c == '?' || c == '[' || c == ']' || c == '(' || c
            == ')' {
            assert(marks_pattern(window_match@[i as int]));
            return window_match.to_owned();
        }
    }
    escape(window_match)
}

/// What to do after looking for an awaited window.
#[derive(Debug, Clone, Copy, PartialEq, Eq, Structural)]
pub enum WaitStep {
    /// The window is there.
    Found,
    /// Wait a little, then look again.
    LookAgain,
    /// Give up.
    TimedOut,
}

/// What to do after that many looks for an awaited window, given whether the
/// last one found it.
pub open spec fn wait_step(looks: int, max_attempts: int, found: bool) -> WaitStep {
    if found {
        WaitStep::Found
    } else if looks < max_attempts {
        WaitStep::LookAgain
    } else {
        WaitStep::TimedOut
    }
}

/// Says what to do after that many looks for an awaited window.
pub fn wait_for_window(looks: u32, max_attempts: u32, found: bool) -> (r: WaitStep)
    ensures
        r == wait_step(looks as int, max_attempts as int, found),
{
    if found {
        WaitStep::Found
    } else if looks < max_attempts {
        WaitStep::LookAgain
    } else {
        WaitStep::TimedOut
    }
}

/// How a wait ends that took some looks, and after how many, given what each
/// look finds.
pub open spec fn wait_end(looks: int, max_attempts: int, found: bool, sights: Seq<bool>) -> (
    int,
    WaitStep,
)
    decreases max_attempts - looks,
{
    match wait_step(looks, max_attempts, found) {
        WaitStep::LookAgain => wait_end(looks + 1, max_attempts, sights[looks], sights),
        step => (looks, step),
    }
}

proof fn lemma_wait_end(looks: int, max_attempts: int, found: bool, sights: Seq<bool>)
    requires
        0 <= looks <= max_attempts <= sights.len(),
        looks > 0 ==> found == sights[looks - 1],
        looks == 0 ==> !found,
        forall|i: int| 0 <= i < looks - 1 ==> !sights[i],
    ensures
        ({
            let (n, step) = wait_end(looks, max_attempts, found, sights);
            &&& looks <= n <= max_attempts
            &&& step == WaitStep::Found ==> n > 0 && sights[n - 1] && forall|i: int|
                0 <= i < n - 1 ==> !sights[i]
            &&& step == WaitStep::TimedOut ==> n == max_attempts && forall|i: int|
                0 <= i < max_attempts ==> !sights[i]
            &&& step != WaitStep::LookAgain
        }),
    decreases max_attempts - looks,
{
    if !found && looks < max_attempts {
        lemma_wait_end(looks + 1, max_attempts, sights[looks], sights);
    }
}

/// A wait takes no more looks than it may. It ends with the first look that
/// finds the window, and it times out exactly where none of them does.
pub proof fn waiting_ends(max_attempts: u32, sights: Seq<bool>)
    requires
        max_attempts <= sights.len(),
    ensures
        ({
            let (looks, step) = wait_end(0, max_attempts as int, false, sights);
            &&& 0 <= looks <= max_attempts
            &&& step == WaitStep::Found || step == WaitStep::TimedOut
            &&& step == WaitStep::TimedOut <==> forall|i: int|
                0 <= i < max_attempts ==> !(#[trigger] sights[i])
            &&& step == WaitStep::Found ==> looks > 0 && sights[looks - 1] && forall|i: int|
                0 <= i < looks - 1 ==> !(#[trigger] sights[i])
        }),
{
    lemma_wait_end(0, max_attempts as int, false, sights);
}

// ------------------------------------------------------------ What is matched

/// Whether some pattern of a list finds a match in a text, both of which may be
/// left out.
pub open spec fn some_matches(patterns: Option<Seq<Seq<char>>>, text: Option<Seq<char>>) -> bool {
    exists|i: int|
        patterns is Some && text is Some && 0 <= i < patterns->0.len() && compiled_texts(
            #[trigger] patterns->0[i],
        ) is Some && compiled_texts(patterns->0[i])->0.contains(text->0)
}

/// Whether every pattern of a list compiles.
pub open spec fn all_compile(patterns: Option<Seq<Seq<char>>>) -> bool {
    patterns is Some ==> forall|i: int|
        0 <= i < patterns->0.len() ==> compiled_texts(#[trigger] patterns->0[i]) is Some
}

proof fn lemma_list_matches(patterns: Option<Seq<Seq<char>>>, text: Option<Seq<char>>)
    requires
        all_compile(patterns),
    ensures
        verdict(outcomes(trials(patterns, text))) == Some(some_matches(patterns, text)),
{
    let t = trials(patterns, text);
    let o = outcomes(t);
    first_where_is_first(o, deciding());
    if patterns is Some && text is Some {
        let p = patterns->0;
        assert forall|i: int| 0 <= i < p.len() implies #[trigger] o[i] == Some(
            compiled_texts(p[i])->0.contains(text->0),
        ) by {
            assert(compiled_texts(p[i]) is Some);
            assert(t[i] == (p[i], text->0));
        }
        match first_where(o, deciding()) {
            Some(i) => {
                assert(o[i] == Some(true));
                assert(compiled_texts(p[i]) is Some);
            },
            None => {
                if some_matches(patterns, text) {
                    let i = choose|i: int|
                        0 <= i < p.len() && compiled_texts(#[trigger] p[i]) is Some
                            && compiled_texts(p[i])->0.contains(text->0);
                    assert(!deciding()(o[i]));
                }
            },
        }
    } else {
        assert(o =~= Seq::<Option<bool>>::empty());
    }
}

/// Where all patterns compile, a matcher matches a window exactly where one of
/// those for the app_id finds a match in its app_id or one of those for the title
/// finds one in its title.
pub proof fn one_pattern_is_enough(
    m: MatcherView,
    app_id: Option<Seq<char>>,
    title: Option<Seq<char>>,
)
    requires
        all_compile(m.app_id),
        all_compile(m.title),
    ensures
        m.verdict(app_id, title) == Some(
            some_matches(m.app_id, app_id) || some_matches(m.title, title),
        ),
{
    lemma_list_matches(m.app_id, app_id);
    lemma_list_matches(m.title, title);
    either_matching_suffices(m, app_id, title);
}

/// Where all patterns compile, a window is selected exactly where no pattern that
/// excludes it finds a match, and a pattern that selects it does or none are given.
pub proof fn selection_is_by_matches(
    w: Window,
    app_id: Option<Seq<Seq<char>>>,
    title: Option<Seq<Seq<char>>>,
    exclude_app_id: Option<Seq<Seq<char>>>,
    exclude_title: Option<Seq<Seq<char>>>,
)
    requires
        all_compile(app_id),
        all_compile(title),
        all_compile(exclude_app_id),
        all_compile(exclude_title),
    ensures
        window_selection(w, app_id, title, exclude_app_id, exclude_title) == Some(
            !some_matches(exclude_app_id, opt_text(w.app_id)) && !some_matches(
                exclude_title,
                Some(w.title@),
            ) && ((app_id is None && title is None) || some_matches(app_id, opt_text(w.app_id))
                || some_matches(title, Some(w.title@))),
        ),
{
    let a = opt_text(w.app_id);
    let t = Some(w.title@);
    one_pattern_is_enough(MatcherView { app_id: exclude_app_id, title: None }, a, t);
    one_pattern_is_enough(MatcherView { app_id: None, title: exclude_title }, a, t);
    one_pattern_is_enough(MatcherView { app_id, title }, a, t);
}

/// A pattern that does not compile is what matching fails with, where every pattern
/// of its list before it compiles and finds no match.
pub proof fn first_broken_pattern_is_reported(
    patterns: Seq<Seq<char>>,
    other: Option<Seq<Seq<char>>>,
    text: Seq<char>,
    title: Option<Seq<char>>,
    i: int,
)
    requires
        0 <= i < patterns.len(),
        compiled_texts(patterns[i]) is None,
        forall|j: int|
            0 <= j < i ==> compiled_texts(#[trigger] patterns[j]) is Some && !compiled_texts(
                patterns[j],
            )->0.contains(text),
    ensures
        ({
            let m = MatcherView { app_id: Some(patterns), title: other };
            &&& m.verdict(Some(text), title) is None
            &&& m.deciding_pattern(Some(text), title) == patterns[i]
        }),
        ({
            let m = MatcherView { app_id: None, title: Some(patterns) };
            &&& m.verdict(title, Some(text)) is None
            &&& m.deciding_pattern(title, Some(text)) == patterns[i]
        }),
{
    let m = MatcherView { app_id: Some(patterns), title: other };
    let t = m.trials(Some(text), title);
    let o = outcomes(t);
    assert forall|j: int| 0 <= j <= i implies #[trigger] o[j] == pattern_outcome(
        patterns[j],
        text,
    ) by {
        assert(t[j] == (patterns[j], text));
    }
    assert forall|j: int| 0 <= j < i implies !deciding()(#[trigger] o[j]) by {
        assert(compiled_texts(patterns[j]) is Some);
    }
    first_where_found(o, deciding(), i);
    let m2 = MatcherView { app_id: None, title: Some(patterns) };
    let t2 = m2.trials(title, Some(text));
    let o2 = outcomes(t2);
    assert forall|j: int| 0 <= j <= i implies #[trigger] o2[j] == pattern_outcome(
        patterns[j],
        text,
    ) by {
        assert(t2[j] == (patterns[j], text));
    }
    assert forall|j: int| 0 <= j < i implies !deciding()(#[trigger] o2[j]) by {
        assert(compiled_texts(patterns[j]) is Some);
    }
    first_where_found(o2, deciding(), i);
}

/// The window found is the first one that matches; where all patterns compile, one
/// is found exactly where one matches.
pub proof fn first_matching_window_is_found(windows: Seq<Window>, m: MatcherView, i: int)
    requires
        all_compile(m.app_id),
        all_compile(m.title),
    ensures
        match first_where(window_verdicts(windows, m), deciding()) {
            Some(k) => {
                &&& 0 <= k < windows.len()
                &&& some_matches(m.app_id, opt_text(windows[k].app_id)) || some_matches(
                    m.title,
                    Some(windows[k].title@),
                )
                &&& 0 <= i < k ==> !some_matches(m.app_id, opt_text(windows[i].app_id))
                    && !some_matches(m.title, Some(windows[i].title@))
            },
            None => 0 <= i < windows.len() ==> !some_matches(
                m.app_id,
                opt_text(windows[i].app_id),
            ) && !some_matches(m.title, Some(windows[i].title@)),
        },
{
    let v = window_verdicts(windows, m);
    first_where_is_first(v, deciding());
    if 0 <= i < windows.len() {
        one_pattern_is_enough(m, opt_text(windows[i].app_id), Some(windows[i].title@));
        assert(v[i] == window_verdict(windows[i], m));
    }
    if let Some(k) = first_where(v, deciding()) {
        one_pattern_is_enough(m, opt_text(windows[k].app_id), Some(windows[k].title@));
        assert(v[k] == window_verdict(windows[k], m));
    }
}

/// A text to wait for is taken for a regular expression exactly where it holds a
/// point, a plus sign, an asterisk, a question mark, a bracket or a parenthesis;
/// any other one is escaped.
pub proof fn awaited_text_is_escaped_unless_it_is_a_pattern(text: Seq<char>)
    ensures
        text.contains('.') || text.contains('+') || text.contains('*') || text.contains('?')
            || text.contains('[') || text.contains(']') || text.contains('(') || text.contains(')')
            ==> awaited_pattern(text) == text,
        !text.contains('.') && !text.contains('+') && !text.contains('*') && !text.contains('?')
            && !text.contains('[') && !text.contains(']') && !text.contains('(') && !text.contains(
            ')',
        ) ==> awaited_pattern(text) == escaped(text),
{
    if exists|i: int| 0 <= i < text.len() && marks_pattern(#[trigger] text[i]) {
        let i = choose|i: int| 0 <= i < text.len() && marks_pattern(#[trigger] text[i]);
        assert(text.contains(text[i]));
    }
}

/// Where a window can be neither selected nor passed over, the pattern reported is
/// the first one that does not compile among those that are tried: the ones that
/// exclude by app_id first, then those that exclude by title, then those that
/// select.
pub proof fn first_broken_list_is_reported(
    w: Window,
    patterns: Seq<Seq<char>>,
    a: Option<Seq<Seq<char>>>,
    b: Option<Seq<Seq<char>>>,
    c: Option<Seq<Seq<char>>>,
    i: int,
    text: Seq<char>,
)
    requires
        0 <= i < patterns.len(),
        compiled_texts(patterns[i]) is None,
        forall|j: int|
            0 <= j < i ==> compiled_texts(#[trigger] patterns[j]) is Some && !compiled_texts(
                patterns[j],
            )->0.contains(text),
    ensures
        w.app_id is Some && text == w.app_id->0@ ==> window_selection(
            w,
            a,
            b,
            Some(patterns),
            c,
        ) is None && failing_selection(w, a, b, Some(patterns), c) == patterns[i],
        text == w.title@ && all_compile(c) && !some_matches(c, opt_text(w.app_id))
            ==> window_selection(w, a, b, c, Some(patterns)) is None && failing_selection(
            w,
            a,
            b,
            c,
            Some(patterns),
        ) == patterns[i],
        w.app_id is Some && text == w.app_id->0@ && all_compile(b) && all_compile(c)
            && !some_matches(b, opt_text(w.app_id)) && !some_matches(c, Some(w.title@))
            ==> window_selection(w, Some(patterns), a, b, c) is None && failing_selection(
            w,
            Some(patterns),
            a,
            b,
            c,
        ) == patterns[i],
{
    let app_id = opt_text(w.app_id);
    let title = Some(w.title@);
    if w.app_id is Some && text == w.app_id->0@ {
        first_broken_pattern_is_reported(patterns, None, text, title, i);
        first_broken_pattern_is_reported(patterns, a, text, title, i);
    }
    if text == w.title@ {
        first_broken_pattern_is_reported(patterns, None, text, app_id, i);
    }
    if all_compile(c) {
        one_pattern_is_enough(MatcherView { app_id: c, title: None }, app_id, title);
        one_pattern_is_enough(MatcherView { app_id: None, title: c }, app_id, title);
    }
    if all_compile(b) {
        one_pattern_is_enough(MatcherView { app_id: b, title: None }, app_id, title);
    }
}

} // verus!
