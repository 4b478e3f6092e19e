//! Matching windows.

use piri::matcher::{
    deciding_index, find_window_by_matcher, matches_window, verdict_of, wait_for_window,
    window_pattern, WaitStep, WindowMatcher, WindowMatcherCache,
};
use piri::niri::Window;

fn window(id: u64, app_id: Option<&str>, title: &str) -> Window {
    Window {
        id,
        title: title.into(),
        app_id: app_id.map(|s| s.to_string()),
        class: None,
        floating: false,
        workspace_id: None,
        workspace: None,
        output: None,
        layout: None,
        pid: None,
    }
}

fn list(patterns: &[&str]) -> Vec<String> {
    patterns.iter().map(|s| s.to_string()).collect()
}

#[test]
fn the_first_match_or_failure_decides() {
    assert_eq!(verdict_of(&vec![]), Some(false));
    assert_eq!(verdict_of(&vec![Some(false), Some(false)]), Some(false));
    assert_eq!(verdict_of(&vec![Some(false), Some(true), None]), Some(true));
    assert_eq!(verdict_of(&vec![Some(false), None, Some(true)]), None);
    assert_eq!(deciding_index(&vec![Some(false), None, Some(true)]), Some(1));
    assert_eq!(deciding_index(&vec![Some(false)]), None);
}

#[test]
fn matching_ignores_case() {
    let mut cache = WindowMatcherCache::new();
    let patterns = list(&["^alacritty$"]);
    let matcher = WindowMatcher::new(Some(&patterns), None);
    let app_id = "Alacritty".to_string();
    assert_eq!(cache.matches(Some(&app_id), None, &matcher), Ok(true));
    let other = "Alacritty2".to_string();
    assert_eq!(cache.matches(Some(&other), None, &matcher), Ok(false));
}

#[test]
fn one_of_app_id_and_title_is_enough() {
    let mut cache = WindowMatcherCache::default();
    let apps = list(&["firefox", "chromium"]);
    let titles = list(&["Mail$"]);
    let both = WindowMatcher::new(Some(&apps), Some(&titles));
    let app = "org.chromium".to_string();
    let mail = "Inbox - Mail".to_string();
    let news = "News".to_string();
    let term = "kitty".to_string();
    assert_eq!(cache.matches(Some(&app), Some(&news), &both), Ok(true));
    assert_eq!(cache.matches(Some(&term), Some(&mail), &both), Ok(true));
    assert_eq!(cache.matches(Some(&term), Some(&news), &both), Ok(false));
    assert_eq!(cache.matches(None, Some(&mail), &both), Ok(true));
    assert_eq!(cache.matches(None, None, &both), Ok(false));
    let none = WindowMatcher::new(None, None);
    assert_eq!(cache.matches(Some(&app), Some(&mail), &none), Ok(false));
}

#[test]
fn a_broken_pattern_is_reported_unless_one_matches_before_it() {
    let mut cache = WindowMatcherCache::new();
    let patterns = list(&["a", "("]);
    let matcher = WindowMatcher::new(Some(&patterns), None);
    assert_eq!(cache.matches(Some(&"a".into()), None, &matcher), Ok(true));
    let error = cache.matches(Some(&"b".into()), None, &matcher).unwrap_err();
    assert_eq!(error.pattern, "(");
    // It is reported again: failures are not cached as anything else.
    assert!(cache.matches(Some(&"b".into()), None, &matcher).is_err());
    // Without a text to try it on, a pattern cannot fail.
    assert_eq!(cache.matches(None, None, &matcher), Ok(false));
}

#[test]
fn clearing_the_cache_changes_no_answer() {
    let mut cache = WindowMatcherCache::new();
    let patterns = list(&["fire"]);
    let matcher = WindowMatcher::new(None, Some(&patterns));
    let title = "Firefox".to_string();
    let first = cache.matches(None, Some(&title), &matcher);
    let second = cache.matches(None, Some(&title), &matcher);
    cache.clear_cache();
    let third = cache.matches(None, Some(&title), &matcher);
    assert_eq!(first, Ok(true));
    assert_eq!(second, Ok(true));
    assert_eq!(third, Ok(true));
}

#[test]
fn windows_are_found_in_order() {
    let mut cache = WindowMatcherCache::new();
    let windows = vec![
        window(1, Some("kitty"), "shell"),
        window(2, Some("Firefox"), "News"),
        window(3, Some("firefox"), "Mail"),
    ];
    let patterns = list(&["firefox"]);
    let matcher = WindowMatcher::new(Some(&patterns), None);
    let found = find_window_by_matcher(&windows, &matcher, &mut cache).unwrap();
    assert_eq!(found.unwrap().id, 2);
    let patterns = list(&["emacs"]);
    let matcher = WindowMatcher::new(Some(&patterns), None);
    assert!(find_window_by_matcher(&windows, &matcher, &mut cache)
        .unwrap()
        .is_none());
    let patterns = list(&["kit", "["]);
    let matcher = WindowMatcher::new(Some(&patterns), None);
    assert_eq!(
        find_window_by_matcher(&windows, &matcher, &mut cache)
            .unwrap()
            .unwrap()
            .id,
        1
    );
    let patterns = list(&["fire", "["]);
    let matcher = WindowMatcher::new(Some(&patterns), None);
    let error = find_window_by_matcher(&windows, &matcher, &mut cache).unwrap_err();
    assert_eq!(error.pattern, "[");
}

#[test]
fn exclusion_comes_first() {
    let mut cache = WindowMatcherCache::new();
    let w = window(1, Some("mpv"), "Movie");
    let mpv = list(&["mpv"]);
    let movie = list(&["movie"]);
    let other = list(&["other"]);
    let broken = list(&["*"]);
    assert_eq!(matches_window(&w, None, None, None, None, &mut cache), Ok(true));
    assert_eq!(
        matches_window(&w, Some(&mpv), None, Some(&mpv), None, &mut cache),
        Ok(false)
    );
    assert_eq!(
        matches_window(&w, Some(&mpv), None, None, Some(&movie), &mut cache),
        Ok(false)
    );
    assert_eq!(
        matches_window(&w, Some(&mpv), None, Some(&other), Some(&other), &mut cache),
        Ok(true)
    );
    assert_eq!(
        matches_window(&w, Some(&other), Some(&movie), None, None, &mut cache),
        Ok(true)
    );
    assert_eq!(
        matches_window(&w, Some(&other), None, None, None, &mut cache),
        Ok(false)
    );
    assert_eq!(
        matches_window(&w, None, None, Some(&broken), None, &mut cache)
            .unwrap_err()
            .pattern,
        "*"
    );
    assert_eq!(
        matches_window(&w, Some(&broken), None, Some(&mpv), None, &mut cache),
        Ok(false)
    );
    let worse = list(&["nothing", "("]);
    assert_eq!(
        matches_window(&w, Some(&broken), None, None, Some(&worse), &mut cache)
            .unwrap_err()
            .pattern,
        "("
    );
}

#[test]
fn plain_texts_to_wait_for_are_escaped() {
    assert_eq!(window_pattern("float-term|x"), regex::escape("float-term|x"));
    assert_eq!(window_pattern("float-term|x"), "float\\-term\\|x");
    assert_eq!(window_pattern("^kitty$"), "\\^kitty\\$");
    assert_eq!(window_pattern("org.gnome"), "org.gnome");
    assert_eq!(window_pattern("a+b-c"), "a+b-c");
    assert_eq!(window_pattern("(x)"), "(x)");
    assert_eq!(window_pattern(""), "");
    assert_eq!(window_pattern("a\\b{c}#&~"), regex::escape("a\\b{c}#&~"));
}

#[test]
fn waiting_ends_with_the_last_attempt() {
    assert_eq!(wait_for_window(1, 3, false), WaitStep::LookAgain);
    assert_eq!(wait_for_window(3, 3, false), WaitStep::TimedOut);
    assert_eq!(wait_for_window(3, 3, true), WaitStep::Found);
    assert_eq!(wait_for_window(0, 0, false), WaitStep::TimedOut);
    let run = |max_attempts: u32, sights: &[bool]| {
        let (mut looks, mut found) = (0u32, false);
        loop {
            match wait_for_window(looks, max_attempts, found) {
                WaitStep::LookAgain => {
                    found = sights[looks as usize];
                    looks += 1;
                }
                step => return (looks, step),
            }
        }
    };
    assert_eq!(run(3, &[false, true, false]), (2, WaitStep::Found));
    assert_eq!(run(3, &[false, false, true]), (3, WaitStep::Found));
    assert_eq!(run(2, &[false, false, true]), (2, WaitStep::TimedOut));
}
