use logview::scroll::{ScrollState, SCALE};
use logview::search::{navigate_next, navigate_previous, Highlight, SearchState};
use logview::store::CircularLogBuffer;

fn window(entries: &[(usize, &str)]) -> Vec<(usize, String)> {
    entries.iter().map(|&(n, s)| (n, s.to_string())).collect()
}

#[test]
fn literal_search_is_case_sensitive() {
    let mut s = SearchState::default();
    s.update_search("error".to_string(), false);
    let w = window(&[(10, "info: ok"), (11, "ERROR: fail"), (12, "error: retry")]);
    s.evaluate(&w);
    assert_eq!(s.matches, vec![12]);
}

#[test]
fn navigation_from_current_match() {
    let mut s = SearchState::default();
    s.matches = vec![3, 7, 15];
    s.current_match = Some(7);
    s.next_match();
    assert_eq!(s.current_match, Some(15));
    s.current_match = Some(7);
    s.previous_match();
    assert_eq!(s.current_match, Some(3));
}

#[test]
fn navigation_without_current_match() {
    let mut s = SearchState::default();
    s.matches = vec![3, 7, 15];
    s.next_match();
    assert_eq!(s.current_match, Some(3));
    s.current_match = None;
    s.previous_match();
    assert_eq!(s.current_match, Some(15));
}

#[test]
fn navigation_falls_back_at_the_ends() {
    let mut s = SearchState::default();
    s.matches = vec![3, 7, 15];
    s.current_match = Some(15);
    s.next_match();
    assert_eq!(s.current_match, Some(3));
    s.current_match = Some(3);
    s.previous_match();
    assert_eq!(s.current_match, Some(15));
}

#[test]
fn navigation_noop_without_matches() {
    let mut s = SearchState::default();
    s.next_match();
    assert_eq!(s.current_match, None);
    s.previous_match();
    assert_eq!(s.current_match, None);
}

#[test]
fn changing_query_clears_matches() {
    let mut s = SearchState::default();
    s.update_search("e".to_string(), false);
    let w = window(&[(0, "e"), (1, "x")]);
    s.evaluate(&w);
    assert_eq!(s.matches, vec![0]);
    s.current_match = Some(0);
    s.update_search("x".to_string(), false);
    assert!(s.matches.is_empty());
    assert_eq!(s.current_match, None);
}

#[test]
fn regex_mode_matches_pattern() {
    let mut s = SearchState::default();
    s.update_search("^err".to_string(), true);
    let w = window(&[(0, "error"), (1, "no err here")]);
    s.evaluate(&w);
    assert_eq!(s.matches, vec![0]);
}

#[test]
fn invalid_pattern_is_inert() {
    let mut s = SearchState::default();
    s.update_search("foo(bar".to_string(), true);
    assert!(!s.matches_pattern("foo(bar"));
    let w = window(&[(0, "foo(bar")]);
    s.evaluate(&w);
    assert!(s.matches.is_empty());
}

#[test]
fn empty_query_disables_search() {
    let mut s = SearchState::default();
    s.update_search(String::new(), false);
    assert!(!s.matches_pattern("anything"));
    s.update_search(String::new(), true);
    assert!(!s.matches_pattern("anything"));
}

#[test]
fn literal_mode_escapes_metacharacters() {
    let mut s = SearchState::default();
    s.update_search("a.b".to_string(), false);
    assert!(s.matches_pattern("xa.bx"));
    assert!(!s.matches_pattern("aXb"));
    s.update_search("a.b".to_string(), true);
    assert!(s.matches_pattern("aXb"));
}

#[test]
fn evaluate_rescopes_to_new_window() {
    let mut s = SearchState::default();
    s.update_search("m".to_string(), false);
    s.evaluate(&window(&[(5, "m"), (6, "m"), (7, "x")]));
    assert_eq!(s.matches, vec![5, 6]);
    s.current_match = Some(5);
    s.evaluate(&window(&[(6, "m"), (7, "m x")]));
    assert_eq!(s.matches, vec![6, 7]);
    assert_eq!(s.current_match, None);
    s.current_match = Some(6);
    s.evaluate(&window(&[(6, "m"), (7, "m")]));
    assert_eq!(s.current_match, Some(6));
}

#[test]
fn highlight_classes() {
    let mut s = SearchState::default();
    s.matches = vec![2, 4];
    s.current_match = Some(4);
    assert_eq!(s.line_highlight(4), Highlight::Current);
    assert_eq!(s.line_highlight(2), Highlight::Matched);
    assert_eq!(s.line_highlight(3), Highlight::Plain);
}

#[test]
fn navigate_next_repositions_scroll() {
    let mut s = SearchState::default();
    s.matches = vec![3, 7, 15];
    s.current_match = Some(7);
    let mut sc = ScrollState::new();
    navigate_next(&mut s, &mut sc, 100);
    assert_eq!(s.current_match, Some(15));
    assert!(!sc.autoscroll);
    assert_eq!(sc.fractional_offset, 15 * SCALE / 100);
}

#[test]
fn navigate_previous_repositions_scroll() {
    let mut s = SearchState::default();
    s.matches = vec![3, 7, 15];
    s.current_match = Some(7);
    let mut sc = ScrollState::new();
    navigate_previous(&mut s, &mut sc, 100);
    assert_eq!(s.current_match, Some(3));
    assert!(!sc.autoscroll);
    assert_eq!(sc.fractional_offset, 3 * SCALE / 100);
}

#[test]
fn navigate_noop_without_matches() {
    let mut s = SearchState::default();
    let mut sc = ScrollState::new();
    navigate_next(&mut s, &mut sc, 100);
    assert_eq!(s.current_match, None);
    assert!(sc.autoscroll);
    assert_eq!(sc.fractional_offset, SCALE);
}

#[test]
fn visible_window_search_end_to_end() {
    let mut b = CircularLogBuffer::new(100);
    for i in 0..200usize {
        if i % 50 == 0 {
            b.push(format!("error at {}", i));
        } else {
            b.push(format!("ok {}", i));
        }
    }
    let sc = ScrollState::new();
    let (start, end) = sc.window_range(b.total_lines(), 60);
    assert_eq!((start, end), (140, 200));
    let w = b.get_window(start, end);
    assert_eq!(w.len(), 60);
    let mut s = SearchState::default();
    s.update_search("error".to_string(), false);
    s.evaluate(&w);
    assert_eq!(s.matches, vec![150]);
}
