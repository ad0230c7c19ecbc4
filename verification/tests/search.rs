use roost::tui::search::{compute_score, fuzzy_match, FuzzyEngine, SearchState};

fn test_items() -> Vec<(&'static str, usize)> {
    vec![("nvim", 0), ("neovim", 1), ("ghostty", 2)]
}

#[test]
fn filter_empty_query_returns_all() {
    let mut engine = FuzzyEngine::new();
    let items = vec!["nvim", "vim", "alacritty"];
    engine.filter(&items);
    assert_eq!(engine.match_count(), 3);
    assert_eq!(engine.selected_index(), Some(0));
}

#[test]
fn filter_finds_fuzzy_matches() {
    let mut engine = FuzzyEngine::new();
    let items = vec!["nvim", "vim", "alacritty", "zsh"];
    engine.push_char('v');
    engine.push_char('i');
    engine.filter(&items);
    assert!(engine.match_count() >= 2);
    let indices: Vec<usize> = engine.matches().iter().map(|m| m.index).collect();
    assert!(indices.contains(&0));
    assert!(indices.contains(&1));
}

#[test]
fn filter_case_insensitive() {
    let mut engine = FuzzyEngine::new();
    let items = vec!["Nvim", "VIM", "Alacritty"];
    engine.push_char('v');
    engine.push_char('i');
    engine.filter(&items);
    assert_eq!(engine.match_count(), 2);
}

#[test]
fn filter_skips_chars() {
    let mut engine = FuzzyEngine::new();
    let items = vec!["alacritty", "kitty", "wezterm"];
    engine.push_char('a');
    engine.push_char('t');
    engine.push_char('y');
    engine.filter(&items);
    assert!(engine.match_count() >= 1);
    assert_eq!(engine.matches()[0].index, 0);
}

#[test]
fn word_boundary_bonus_scores_higher() {
    let mut engine = FuzzyEngine::new();
    let items = vec!["nvim", "vim"];
    engine.push_char('v');
    engine.push_char('i');
    engine.filter(&items);
    assert_eq!(engine.match_count(), 2);
    assert_eq!(engine.matches()[0].index, 1);
}

#[test]
fn consecutive_bonus_scores_higher() {
    let mut engine = FuzzyEngine::new();
    let items = vec!["vxxim", "vim"];
    engine.push_char('v');
    engine.push_char('i');
    engine.push_char('m');
    engine.filter(&items);
    assert_eq!(engine.match_count(), 2);
    assert_eq!(engine.matches()[0].index, 1);
}

#[test]
fn cursor_bounds() {
    let mut engine = FuzzyEngine::new();
    let items = vec!["a", "b", "c", "d"];
    engine.filter(&items);
    assert_eq!(engine.cursor(), 0);

    engine.move_down();
    assert_eq!(engine.cursor(), 1);
    engine.move_down();
    engine.move_down();
    assert_eq!(engine.cursor(), 3);
    engine.move_down();
    assert_eq!(engine.cursor(), 3);

    engine.move_up();
    engine.move_up();
    engine.move_up();
    engine.move_up();
    assert_eq!(engine.cursor(), 0);
}

#[test]
fn no_matches_cursor_zero() {
    let mut engine = FuzzyEngine::new();
    let items = vec!["nvim", "vim"];
    engine.push_char('z');
    engine.push_char('z');
    engine.push_char('z');
    engine.filter(&items);
    assert!(engine.matches().is_empty());
    assert_eq!(engine.cursor(), 0);
    assert_eq!(engine.selected_index(), None);
}

#[test]
fn backspace_updates_filter() {
    let mut engine = FuzzyEngine::new();
    let items = vec!["nvim", "vim", "alacritty"];
    engine.push_char('v');
    engine.push_char('i');
    engine.push_char('m');
    engine.filter(&items);
    assert_eq!(engine.match_count(), 2);
    engine.backspace();
    engine.filter(&items);
    assert_eq!(engine.match_count(), 2);
}

#[test]
fn clear_resets_engine() {
    let mut engine = FuzzyEngine::new();
    let items = vec!["nvim", "vim"];
    engine.push_char('v');
    engine.filter(&items);
    assert_eq!(engine.match_count(), 2);
    engine.clear();
    assert!(!engine.is_active());
    assert_eq!(engine.match_count(), 0);
}

#[test]
fn scores_and_positions_are_exact() {
    let mut engine = FuzzyEngine::new();
    let items = vec!["nvim", "vim", "my-vim"];
    engine.push_char('v');
    engine.push_char('i');
    engine.filter(&items);
    let got: Vec<(usize, i32, Vec<usize>)> = engine
        .matches()
        .iter()
        .map(|m| (m.index, m.score, m.positions.clone()))
        .collect();
    // vim: 10+5 + 10+3 - 0 = 28; my-vim: 10+5 + 10+3 - 3 = 25; nvim: 10 + 10+3 - 1 = 22
    assert_eq!(
        got,
        vec![(1, 28, vec![0, 1]), (2, 25, vec![3, 4]), (0, 22, vec![1, 2])]
    );
}

#[test]
fn equal_scores_keep_item_order() {
    let mut engine = FuzzyEngine::new();
    let items = vec!["ab", "ab", "ab"];
    engine.push_char('a');
    engine.filter(&items);
    let indices: Vec<usize> = engine.matches().iter().map(|m| m.index).collect();
    assert_eq!(indices, vec![0, 1, 2]);
}

#[test]
fn filter_clamps_cursor_to_new_matches() {
    let mut engine = FuzzyEngine::new();
    let items = vec!["a", "b", "c"];
    engine.filter(&items);
    engine.move_down();
    engine.move_down();
    assert_eq!(engine.cursor(), 2);
    engine.push_char('a');
    engine.filter(&items);
    assert_eq!(engine.match_count(), 1);
    assert_eq!(engine.cursor(), 0);
    assert_eq!(engine.query(), "a");
}

#[test]
fn filter_checked_reports_success() {
    let mut engine = FuzzyEngine::new();
    engine.push_char('v');
    assert!(engine.filter_checked(&["vim", "emacs"]));
    assert_eq!(engine.match_count(), 1);
}

#[test]
fn test_fuzzy_match_exact() {
    assert!(fuzzy_match("nvim", "nvim"));
}

#[test]
fn test_fuzzy_match_prefix() {
    assert!(fuzzy_match("nvim", "nv"));
}

#[test]
fn test_fuzzy_match_subsequence() {
    assert!(fuzzy_match("nvim", "nvm"));
}

#[test]
fn test_fuzzy_match_out_of_order_fails() {
    assert!(!fuzzy_match("ivm", "nvim"));
}

#[test]
fn test_fuzzy_match_empty_query() {
    assert!(fuzzy_match("anything", ""));
}

#[test]
fn test_fuzzy_match_query_longer_than_text_fails() {
    assert!(!fuzzy_match("short", "verylongquery"));
}

#[test]
fn test_fuzzy_match_case_insensitive_in_rebuild() {
    let items: Vec<(&str, usize)> = vec![("NVIM", 0), ("nvim", 1)];
    let mut state = SearchState::new();
    state.query = "nvim".to_string();
    state.rebuild(&items);
    assert_eq!(state.result_count(), 2);
}

#[test]
fn test_search_state_rebuild_filters() {
    let items = test_items();
    let mut state = SearchState::new();
    state.query = "nv".to_string();
    state.rebuild(&items);
    assert!(state.result_count() > 0);
    assert!(state.result_count() < items.len());
}

#[test]
fn test_search_state_push_extends_query() {
    let items = test_items();
    let mut state = SearchState::new();
    state.push('n', &items);
    assert_eq!(state.query, "n");
    state.push('v', &items);
    assert_eq!(state.query, "nv");
}

#[test]
fn test_search_state_pop_removes_last() {
    let items = test_items();
    let mut state = SearchState::new();
    state.query = "nv".to_string();
    let still_active = state.pop(&items);
    assert_eq!(state.query, "n");
    assert!(still_active);
    let still_active = state.pop(&items);
    assert_eq!(state.query, "");
    assert!(!still_active);
}

#[test]
fn test_search_state_move_up_down() {
    let items = test_items();
    let mut state = SearchState::new();
    state.rebuild(&items);
    state.cursor = 1;
    state.move_up();
    assert_eq!(state.cursor, 0);
    state.move_down();
    assert!(state.cursor >= 1);
}

#[test]
fn test_search_state_new_is_empty() {
    let state = SearchState::new();
    assert_eq!(state.result_count(), 0);
    assert!(state.query.is_empty());
    assert_eq!(state.cursor, 0);
}

#[test]
fn search_state_rebuild_yields_ids_in_order() {
    let items = vec![("ghostty", 7), ("nvim", 3), ("neovim", 9)];
    let mut state = SearchState::new();
    state.query = "NV".to_string();
    state.rebuild(&items);
    assert_eq!(state.results, vec![3, 9]);
    assert_eq!(state.selected_index(), Some(3));
}

#[test]
fn default_engine_is_the_new_engine() {
    let e = FuzzyEngine::default();
    assert_eq!(e.query(), "");
    assert!(e.matches().is_empty());
    assert_eq!(e.cursor(), 0);
    assert!(!e.is_active());
    assert_eq!(e.selected_index(), None);
}

#[test]
fn query_follows_the_calls() {
    let mut e = FuzzyEngine::new();
    e.push_char('n');
    e.push_char('v');
    e.filter(&["nvim", "vim", "zsh"]);
    e.move_down();
    e.backspace();
    e.push_char('i');
    assert_eq!(e.query(), "ni");
    e.filter(&["nvim", "vim", "zsh"]);
    assert!(e.match_count() == 0 && e.cursor() == 0 || e.cursor() < e.match_count());
    e.clear();
    e.backspace();
    assert_eq!(e.query(), "");
    assert_eq!(e.cursor(), 0);
}

#[test]
fn score_counts_repeated_positions() {
    let c: Vec<char> = "ab".chars().collect();
    // Two hits at position 0: 10 + 5 each, no run bonus, minus the first position.
    assert_eq!(compute_score(&['a', 'a'], &c, &[0, 0, 0]), 45);
    // A position at the end of the candidate reads the character before it.
    assert_eq!(compute_score(&['x'], &c, &[2]), 8);
}
