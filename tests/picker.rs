use zellij_nucleo::keys::{key_action_of, Key, KeyAction, KeyCode};
use zellij_nucleo::ranking::rank_entries;
use zellij_nucleo::render::{page_window, render_frame, render_row, shown_count};
use zellij_nucleo::config::{parse_case_matching, parse_flag};
use zellij_nucleo::oracle::MAX_QUERY_LEN;
use zellij_nucleo::{CaseMatching, Entry, Event, InputMode, Picker, Response, SearchResult};

fn entry(s: &str, data: u32) -> Entry<u32> {
    Entry { string: s.to_string(), data }
}

fn key(code: KeyCode) -> Key {
    Key { code, ctrl: false, alt: false, shift: false, super_key: false }
}

fn ctrl(c: char) -> Key {
    Key { code: KeyCode::Char(c), ctrl: true, alt: false, shift: false, super_key: false }
}

fn picker_with(strings: &[&str]) -> Picker<u32> {
    let mut p: Picker<u32> = Picker::new();
    let entries: Vec<Entry<u32>> = strings.iter().enumerate().map(|(i, s)| entry(s, i as u32)).collect();
    p.extend(entries);
    p
}

fn result_strings(p: &Picker<u32>) -> Vec<String> {
    p.search_results().iter().map(|r| r.chars.iter().collect()).collect()
}

fn selected_string(r: Option<Response<u32>>) -> Option<(String, u32)> {
    match r {
        Some(Response::Select(e)) => Some((e.string, e.data)),
        _ => None,
    }
}

#[test]
fn empty_query_lists_every_entry() {
    let p = picker_with(&["banana", "apple", "cherry"]);
    assert_eq!(result_strings(&p), vec!["apple", "banana", "cherry"]);
    for r in p.search_results() {
        assert_eq!(r.score, 0);
        assert!(r.indices.is_empty());
    }
    assert!(p.needs_redraw());
}

#[test]
fn ranking_twice_gives_the_same_results() {
    let entries = vec![entry("src/main.rs", 0), entry("src/lib.rs", 1), entry("README.md", 2), entry("Cargo.toml", 3)];
    let mut matcher = nucleo_matcher::Matcher::new(nucleo_matcher::Config::DEFAULT);
    let a = rank_entries(&entries, "r", CaseMatching::Smart, false, &mut matcher);
    let b = rank_entries(&entries, "r", CaseMatching::Smart, false, &mut matcher);
    assert_eq!(a.len(), b.len());
    for (x, y) in a.iter().zip(b.iter()) {
        assert_eq!(x.entry, y.entry);
        assert_eq!(x.chars, y.chars);
        assert_eq!(x.score, y.score);
        assert_eq!(x.indices, y.indices);
    }
}

#[test]
fn ranking_orders_by_score_then_position_then_string() {
    let entries = vec![entry("xab", 0), entry("ab", 1), entry("zzz", 2), entry("ab", 3)];
    let mut matcher = nucleo_matcher::Matcher::new(nucleo_matcher::Config::DEFAULT);
    let r = rank_entries(&entries, "ab", CaseMatching::Smart, false, &mut matcher);
    assert_eq!(r.len(), 3);
    for w in r.windows(2) {
        assert_ne!(w[0].rank_cmp(&w[1]), std::cmp::Ordering::Greater);
    }
    let ab: Vec<usize> = r.iter().filter(|x| x.chars == vec!['a', 'b']).map(|x| x.entry).collect();
    assert_eq!(ab, vec![1, 3]);
}

#[test]
fn comparator_separates_distinct_strings() {
    let a = SearchResult { entry: 0, chars: vec!['a', 'b'], score: 5, indices: vec![1] };
    let b = SearchResult { entry: 1, chars: vec!['a', 'c'], score: 5, indices: vec![1] };
    assert_eq!(a.rank_cmp(&b), std::cmp::Ordering::Less);
    assert_eq!(b.rank_cmp(&a), std::cmp::Ordering::Greater);
    let c = SearchResult { entry: 2, chars: vec!['z'], score: 9, indices: vec![3] };
    assert_eq!(c.rank_cmp(&a), std::cmp::Ordering::Less);
    let d = SearchResult { entry: 3, chars: vec!['z'], score: 5, indices: vec![] };
    assert_eq!(d.rank_cmp(&a), std::cmp::Ordering::Less);
    let e = SearchResult { entry: 4, chars: vec!['a', 'b'], score: 5, indices: vec![1] };
    assert_eq!(a.rank_cmp(&e), std::cmp::Ordering::Equal);
}

#[test]
fn selection_follows_entry_across_reranking() {
    let mut p = picker_with(&["apple", "banana", "cherry"]);
    p.select(1);
    p.extend(vec![entry("aardvark", 9)]);
    assert_eq!(result_strings(&p), vec!["aardvark", "apple", "banana", "cherry"]);
    assert_eq!(p.selected_index(), 2);
}

#[test]
fn selection_resets_when_entry_disappears() {
    let mut p = picker_with(&["apple", "banana", "cherry"]);
    p.select(2);
    p.clear();
    assert_eq!(p.selected_index(), 0);
    p.extend(vec![entry("apple", 0), entry("banana", 1)]);
    assert_eq!(p.selected_index(), 0);
}

#[test]
fn down_and_up_cycle() {
    let mut p = picker_with(&["a", "b", "c", "d"]);
    p.select(1);
    for _ in 0..4 {
        p.down();
    }
    assert_eq!(p.selected_index(), 1);
    for _ in 0..4 {
        p.up();
    }
    assert_eq!(p.selected_index(), 1);
    p.select(3);
    p.down();
    assert_eq!(p.selected_index(), 0);
    p.up();
    assert_eq!(p.selected_index(), 3);
}

#[test]
fn moving_on_empty_list_changes_nothing() {
    let mut p: Picker<u32> = Picker::new();
    p.down();
    p.up();
    assert_eq!(p.selected_index(), 0);
    assert!(!p.needs_redraw());
    assert!(p.handle_key(&key(KeyCode::Enter)).is_none());
}

#[test]
fn mode_transitions() {
    let mut p = picker_with(&["a", "b"]);
    assert_eq!(p.input_mode(), InputMode::Normal);
    assert!(p.handle_key(&key(KeyCode::Char('/'))).is_none());
    assert_eq!(p.input_mode(), InputMode::Search);
    assert!(p.handle_key(&key(KeyCode::Esc)).is_none());
    assert_eq!(p.input_mode(), InputMode::Normal);
    assert!(matches!(p.handle_key(&ctrl('c')), Some(Response::Cancel)));
    p.enter_search_mode();
    assert!(matches!(p.handle_key(&ctrl('c')), Some(Response::Cancel)));
    assert!(matches!(p.update(&Event::Key(ctrl('c'))), Some(Response::Cancel)));
    assert!(p.update(&Event::Other).is_none());
}

#[test]
fn binding_table() {
    assert_eq!(key_action_of(InputMode::Normal, &key(KeyCode::Char('j'))), KeyAction::Down);
    assert_eq!(key_action_of(InputMode::Search, &key(KeyCode::Char('j'))), KeyAction::Type('j'));
    assert_eq!(key_action_of(InputMode::Search, &key(KeyCode::Tab)), KeyAction::Down);
    let shift_tab = Key { code: KeyCode::Tab, ctrl: false, alt: false, shift: true, super_key: false };
    assert_eq!(key_action_of(InputMode::Normal, &shift_tab), KeyAction::Up);
    assert_eq!(key_action_of(InputMode::Search, &ctrl('u')), KeyAction::ClearQuery);
    assert_eq!(key_action_of(InputMode::Normal, &ctrl('u')), KeyAction::Ignore);
    assert_eq!(key_action_of(InputMode::Normal, &key(KeyCode::Char('3'))), KeyAction::Pick(2));
    assert_eq!(key_action_of(InputMode::Normal, &key(KeyCode::Char('x'))), KeyAction::Ignore);
}

#[test]
fn nine_selects_last_and_digits_select_position() {
    let names = ["a0", "a1", "a2", "a3", "a4", "a5", "a6", "a7", "a8", "a9"];
    let mut p = picker_with(&names);
    assert_eq!(selected_string(p.handle_key(&key(KeyCode::Char('9')))), Some(("a9".to_string(), 9)));
    assert_eq!(selected_string(p.handle_key(&key(KeyCode::Char('5')))), Some(("a4".to_string(), 4)));
    let mut q = picker_with(&["x", "y", "z"]);
    assert!(q.handle_key(&key(KeyCode::Char('5'))).is_none());
    assert_eq!(selected_string(q.handle_key(&key(KeyCode::Char('9')))), Some(("z".to_string(), 2)));
}

#[test]
fn enter_selects_current_entry() {
    let mut p = picker_with(&["apple", "banana", "cherry"]);
    p.handle_key(&key(KeyCode::Down));
    assert_eq!(selected_string(p.handle_key(&key(KeyCode::Enter))), Some(("banana".to_string(), 1)));
}

#[test]
fn typing_filters_and_resets_selection() {
    let mut p = picker_with(&["apple", "banana", "cherry"]);
    p.select(2);
    p.handle_key(&key(KeyCode::Char('/')));
    p.handle_key(&key(KeyCode::Char('b')));
    assert_eq!(p.query(), "b");
    assert_eq!(result_strings(&p), vec!["banana"]);
    assert_eq!(p.search_results()[0].indices, vec![0]);
    assert_eq!(p.selected_index(), 0);
    p.handle_key(&key(KeyCode::Backspace));
    assert_eq!(p.query(), "");
    assert_eq!(result_strings(&p).len(), 3);
    p.handle_key(&key(KeyCode::Backspace));
    assert_eq!(p.query(), "");
    p.handle_key(&key(KeyCode::Char('z')));
    assert!(p.search_results().is_empty());
    p.handle_key(&ctrl('u'));
    assert_eq!(p.query(), "");
    assert_eq!(result_strings(&p).len(), 3);
}

#[test]
fn case_matching_respect_drops_other_case() {
    let mut p = picker_with(&["Apple", "apple"]);
    p.use_case_matching_respect();
    p.enter_search_mode();
    p.handle_key(&key(KeyCode::Char('a')));
    assert_eq!(result_strings(&p), vec!["apple"]);
    p.use_case_matching_ignore();
    assert_eq!(result_strings(&p).len(), 2);
    p.use_case_matching_smart();
    assert_eq!(result_strings(&p).len(), 2);
    p.set_match_paths();
    assert_eq!(result_strings(&p).len(), 2);
    p.clear_match_paths();
    assert_eq!(result_strings(&p).len(), 2);
}

#[test]
fn page_window_boundaries() {
    assert_eq!(page_window(4, 4), (4, 0));
    assert_eq!(page_window(8, 4), (8, 0));
    assert_eq!(page_window(3, 4), (0, 3));
    assert_eq!(page_window(7, 4), (4, 3));
}

#[test]
fn render_shows_page_of_selection() {
    let names = ["a1", "a2", "a3", "a4", "a5", "a6", "a7", "a8", "a9"];
    let mut p = picker_with(&names);
    p.select(4);
    let frame = p.render(5, 40);
    assert!(!p.needs_redraw());
    let lines: Vec<&str> = frame.split('\n').collect();
    assert_eq!(lines.len(), 5);
    assert_eq!(lines[1], "\x1b[33m>\x1b[39m \x1b[33ma\x1b[39m\x1b[33m5\x1b[39m");
    assert_eq!(lines[2], "  a6");
    assert_eq!(lines[4], "  a8");
    p.select(8);
    let frame = p.render(5, 40);
    let lines: Vec<&str> = frame.split('\n').collect();
    assert_eq!(lines.len(), 2);
    assert!(lines[1].starts_with("\x1b[33m>\x1b[39m "));
}

#[test]
fn render_query_line() {
    let mut p = picker_with(&["a"]);
    let frame = p.render(1, 40);
    assert_eq!(frame, "  \x1b[90m(press / to search)\x1b[39m\n");
    p.enter_search_mode();
    let frame = p.render(1, 40);
    assert_eq!(frame, "  \x1b[42m \x1b[49m\n");
    assert_eq!(p.render(0, 40), "");
}

#[test]
fn long_strings_are_truncated() {
    let chars: Vec<char> = "abcdefghijklmnopqrstuvwxyz".chars().collect();
    assert_eq!(shown_count(&chars, 20), 12);
    assert_eq!(shown_count(&chars, 40), 26);
    assert_eq!(shown_count(&chars, 7), 0);
    let r = SearchResult { entry: 0, chars: chars.clone(), score: 0, indices: vec![] };
    let row = render_row(&r, false, 20);
    assert_eq!(row, "  abcdefghijkl\x1b[90m [...]\x1b[39m");
    let wide: Vec<char> = "日本語日本語日本語".chars().collect();
    assert_eq!(shown_count(&wide, 20), 6);
}

#[test]
fn matched_characters_are_highlighted() {
    let r = SearchResult { entry: 0, chars: vec!['a', 'b'], score: 1, indices: vec![1] };
    assert_eq!(render_row(&r, false, 40), "  a\x1b[36mb\x1b[39m");
    let results = vec![r];
    let frame = render_frame(&results, 0, "b", InputMode::Normal, 3, 40);
    assert_eq!(frame, "  b\n\x1b[33m>\x1b[39m \x1b[33ma\x1b[39m\x1b[36mb\x1b[39m");
}

#[test]
fn load_reads_options() {
    let mut p = picker_with(&["a"]);
    p.load(Some("ignore"), Some("true"), Some("true"));
    assert_eq!(p.input_mode(), InputMode::Search);
    p.load(None, None, Some("false"));
    assert_eq!(p.input_mode(), InputMode::Normal);
    assert_eq!(parse_case_matching("respect"), Some(CaseMatching::Respect));
    assert_eq!(parse_case_matching("smart"), Some(CaseMatching::Smart));
    assert_eq!(parse_case_matching("loud"), None);
    assert_eq!(parse_flag("false"), Some(false));
    assert_eq!(parse_flag("yes"), None);
}

#[test]
fn entries_keeps_insertion_order() {
    let p = picker_with(&["b", "a"]);
    let e = p.entries();
    assert_eq!(e.len(), 2);
    assert_eq!(e[0].string, "b");
    assert_eq!(e[1].data, 1);
}

#[test]
fn entry_as_ref_is_its_string() {
    let e = entry("label", 7);
    let s: &str = e.as_ref();
    assert_eq!(s, "label");
}

#[test]
fn default_picker_is_empty_and_normal() {
    let p: Picker<u32> = Picker::default();
    assert!(p.entries().is_empty());
    assert!(p.search_results().is_empty());
    assert_eq!(p.input_mode(), InputMode::Normal);
    assert_eq!(p.query(), "");
    assert!(!p.needs_redraw());
}

#[test]
fn comparator_uses_earliest_matched_position() {
    let a = SearchResult { entry: 0, chars: vec!['a'], score: 5, indices: vec![5, 0] };
    let b = SearchResult { entry: 1, chars: vec!['b'], score: 5, indices: vec![3] };
    assert_eq!(a.rank_cmp(&b), std::cmp::Ordering::Less);
    assert_eq!(b.rank_cmp(&a), std::cmp::Ordering::Greater);
}

#[test]
fn load_without_options_changes_nothing() {
    let mut p = picker_with(&["apple", "banana"]);
    p.render(3, 40);
    assert!(!p.needs_redraw());
    p.load(None, None, None);
    assert!(!p.needs_redraw());
    assert_eq!(result_strings(&p), vec!["apple", "banana"]);
}

#[test]
fn frame_without_results_ends_query_line() {
    let mut p: Picker<u32> = Picker::new();
    assert_eq!(p.render(4, 40), "  \x1b[90m(press / to search)\x1b[39m\n");
}

#[test]
fn path_matching_reranks_with_delimiters() {
    let entries = vec![entry("a:b/c", 0), entry("x/y", 1)];
    let mut matcher = nucleo_matcher::Matcher::new(nucleo_matcher::Config::DEFAULT);
    let plain = rank_entries(&entries, "b", CaseMatching::Smart, false, &mut matcher);
    let paths = rank_entries(&entries, "b", CaseMatching::Smart, true, &mut matcher);
    assert_eq!(plain.len(), 1);
    assert_eq!(paths.len(), 1);
    assert_eq!(paths[0].indices, vec![2]);
    let again = rank_entries(&entries, "b", CaseMatching::Smart, false, &mut matcher);
    assert_eq!(again[0].score, plain[0].score);
}

#[test]
fn typing_into_a_full_query_changes_nothing() {
    let mut p = picker_with(&["a"]);
    p.enter_search_mode();
    for _ in 0..MAX_QUERY_LEN {
        p.handle_key(&key(KeyCode::Char('a')));
    }
    assert_eq!(p.query().chars().count(), MAX_QUERY_LEN);
    p.render(3, 40);
    assert!(p.handle_key(&key(KeyCode::Char('a'))).is_none());
    assert_eq!(p.query().chars().count(), MAX_QUERY_LEN);
    assert!(!p.needs_redraw());
}
