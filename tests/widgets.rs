use eprompt::frame::{Row, RowKind};
use eprompt::fuzzy::{contains_chars, filter_input, matching_indices, FuzzyState};
use eprompt::keys::{FuzzyEvent, Key, KeyPress, SelectEvent};
use eprompt::select::{MultiSelectState, PromptError, SelectState};

fn chars(s: &str) -> Vec<char> {
    s.chars().collect()
}

fn texts(list: &[&str]) -> Vec<Vec<char>> {
    list.iter().map(|s| chars(s)).collect()
}

fn press(code: Key, ctrl: bool) -> KeyPress {
    KeyPress { code, ctrl }
}

#[test]
fn select_two_down_then_enter_picks_third() {
    let opts = [1, 2, 3, 4, 5];
    let mut s = SelectState::new(opts.len()).unwrap();
    assert_eq!(s.step(SelectEvent::Down), None);
    assert_eq!(s.step(SelectEvent::Down), None);
    let i = s.step(SelectEvent::Enter).unwrap();
    assert_eq!((i, &opts[i]), (2, &3));
}

#[test]
fn select_down_saturates_at_last() {
    let mut s = SelectState::new(5).unwrap();
    for _ in 0..20 {
        s.step(SelectEvent::Down);
        assert!(s.cursor() <= 4);
    }
    assert_eq!(s.cursor(), 4);
    assert_eq!(s.step(SelectEvent::Enter), Some(4));
}

#[test]
fn select_down_on_single_option_stays() {
    let mut s = SelectState::new(1).unwrap();
    s.step(SelectEvent::Down);
    assert_eq!(s.cursor(), 0);
}

#[test]
fn select_up_at_top_stays() {
    let mut s = SelectState::new(3).unwrap();
    for _ in 0..5 {
        s.step(SelectEvent::Up);
        assert_eq!(s.cursor(), 0);
    }
    s.step(SelectEvent::Down);
    s.step(SelectEvent::Down);
    s.step(SelectEvent::Up);
    assert_eq!(s.cursor(), 1);
}

#[test]
fn select_space_does_not_confirm() {
    let mut s = SelectState::new(3).unwrap();
    s.step(SelectEvent::Down);
    assert_eq!(s.step(SelectEvent::Select), None);
    assert_eq!(s.cursor(), 1);
}

#[test]
fn empty_lists_are_refused() {
    assert_eq!(SelectState::new(0).err(), Some(PromptError::NoOptions));
    assert_eq!(MultiSelectState::new(0).err(), Some(PromptError::NoOptions));
}

#[test]
fn multi_select_returns_list_order() {
    let opts = ["a", "b", "c"];
    let mut s = MultiSelectState::new(opts.len()).unwrap();
    for e in [SelectEvent::Select, SelectEvent::Down, SelectEvent::Down, SelectEvent::Select] {
        assert!(s.step(e).is_none());
    }
    let chosen: Vec<(usize, &str)> =
        s.step(SelectEvent::Enter).unwrap().into_iter().map(|i| (i, opts[i])).collect();
    assert_eq!(chosen, vec![(0, "a"), (2, "c")]);
}

#[test]
fn multi_select_order_is_not_toggle_order() {
    let mut s = MultiSelectState::new(3).unwrap();
    s.step(SelectEvent::Down);
    s.step(SelectEvent::Down);
    s.step(SelectEvent::Select);
    s.step(SelectEvent::Up);
    s.step(SelectEvent::Up);
    s.step(SelectEvent::Select);
    assert_eq!(s.step(SelectEvent::Enter), Some(vec![0, 2]));
}

#[test]
fn multi_select_without_toggles_is_empty() {
    let mut s = MultiSelectState::new(3).unwrap();
    s.step(SelectEvent::Down);
    s.step(SelectEvent::Noop);
    assert_eq!(s.step(SelectEvent::Enter), Some(vec![]));
}

#[test]
fn multi_select_toggle_twice_restores() {
    let mut s = MultiSelectState::new(3).unwrap();
    s.step(SelectEvent::Down);
    assert!(!s.is_chosen(1));
    s.step(SelectEvent::Select);
    assert!(s.is_chosen(1));
    s.step(SelectEvent::Select);
    assert!(!s.is_chosen(1));
    assert_eq!(s.chosen_indices(), Vec::<usize>::new());
}

#[test]
fn select_keys_classify() {
    assert_eq!(SelectEvent::from(Key::Up), SelectEvent::Up);
    assert_eq!(SelectEvent::from(Key::Char('k')), SelectEvent::Up);
    assert_eq!(SelectEvent::from(Key::Char('K')), SelectEvent::Up);
    assert_eq!(SelectEvent::from(Key::Down), SelectEvent::Down);
    assert_eq!(SelectEvent::from(Key::Char('j')), SelectEvent::Down);
    assert_eq!(SelectEvent::from(Key::Char('J')), SelectEvent::Down);
    assert_eq!(SelectEvent::from(Key::Enter), SelectEvent::Enter);
    assert_eq!(SelectEvent::from(Key::Char(' ')), SelectEvent::Select);
    assert_eq!(SelectEvent::from(Key::Char('x')), SelectEvent::Noop);
    assert_eq!(SelectEvent::from(Key::Backspace), SelectEvent::Noop);
    assert_eq!(SelectEvent::from(Key::Other), SelectEvent::Noop);
}

#[test]
fn fuzzy_keys_classify() {
    assert_eq!(FuzzyEvent::from(press(Key::Char('k'), true)), FuzzyEvent::Up);
    assert_eq!(FuzzyEvent::from(press(Key::Char('j'), true)), FuzzyEvent::Down);
    assert_eq!(FuzzyEvent::from(press(Key::Char('x'), true)), FuzzyEvent::Noop);
    assert_eq!(FuzzyEvent::from(press(Key::Enter, true)), FuzzyEvent::Noop);
    assert_eq!(FuzzyEvent::from(press(Key::Char('k'), false)), FuzzyEvent::FilterChar('k'));
    assert_eq!(FuzzyEvent::from(press(Key::Enter, false)), FuzzyEvent::Enter);
    assert_eq!(FuzzyEvent::from(press(Key::Backspace, false)), FuzzyEvent::Backspace);
    assert_eq!(FuzzyEvent::from(press(Key::Up, false)), FuzzyEvent::Up);
    assert_eq!(FuzzyEvent::from(press(Key::Down, false)), FuzzyEvent::Down);
    assert_eq!(FuzzyEvent::from(press(Key::Other, false)), FuzzyEvent::Noop);
}

#[test]
fn fuzzy_filter_yo() {
    let opts = texts(&["You", "Yoyo", "Nope"]);
    assert_eq!(filter_input(&opts, &chars("yo")), vec![0, 1]);
}

#[test]
fn fuzzy_filter_ignores_case_of_filter() {
    let opts = texts(&["You", "Yoyo", "Nope"]);
    assert_eq!(filter_input(&opts, &chars("YO")), vec![0, 1]);
    assert_eq!(filter_input(&opts, &chars("NOP")), vec![2]);
    assert_eq!(filter_input(&opts, &chars("")), vec![0, 1, 2]);
    assert_eq!(filter_input(&opts, &chars("z")), Vec::<usize>::new());
}

#[test]
fn matching_is_case_sensitive_on_given_texts() {
    let opts = texts(&["You", "yoyo", "nope"]);
    assert_eq!(matching_indices(&opts, &chars("yo")), vec![1]);
    assert_eq!(matching_indices(&opts, &chars("o")), vec![0, 1, 2]);
}

#[test]
fn substring_search() {
    assert!(contains_chars(&chars("yoyo"), &chars("oy")));
    assert!(contains_chars(&chars("yoyo"), &chars("yoyo")));
    assert!(contains_chars(&chars("yoyo"), &chars("")));
    assert!(contains_chars(&chars(""), &chars("")));
    assert!(!contains_chars(&chars("yoyo"), &chars("yoyoy")));
    assert!(!contains_chars(&chars("yoyo"), &chars("oo")));
}

#[test]
fn fuzzy_typing_filters_and_resets_cursor() {
    let opts = texts(&["You", "Yoyo", "Nope"]);
    let mut s = FuzzyState::new(&opts);
    assert_eq!(s.filtered(), &vec![0, 1, 2]);
    s.step(FuzzyEvent::Down);
    assert_eq!(s.cursor(), 1);
    s.step(FuzzyEvent::FilterChar('y'));
    assert_eq!(s.cursor(), 0);
    s.step(FuzzyEvent::Down);
    assert_eq!(s.cursor(), 1);
    s.step(FuzzyEvent::FilterChar('o'));
    assert_eq!(s.cursor(), 0);
    assert_eq!(s.filtered(), &vec![0, 1]);
    s.step(FuzzyEvent::Down);
    s.step(FuzzyEvent::Backspace);
    assert_eq!(s.cursor(), 0);
    assert_eq!(s.filter(), &chars("y"));
    assert_eq!(s.filtered(), &vec![0, 1]);
    s.step(FuzzyEvent::Down);
    assert_eq!(s.step(FuzzyEvent::Enter), Some(1));
}

#[test]
fn fuzzy_enter_without_match_is_ignored() {
    let opts = texts(&["You", "Yoyo", "Nope"]);
    let mut s = FuzzyState::new(&opts);
    s.step(FuzzyEvent::FilterChar('q'));
    assert!(s.filtered().is_empty());
    s.step(FuzzyEvent::Down);
    assert_eq!(s.cursor(), 0);
    assert_eq!(s.step(FuzzyEvent::Enter), None);
    s.step(FuzzyEvent::Backspace);
    s.step(FuzzyEvent::Backspace);
    assert_eq!(s.filter(), &Vec::<char>::new());
    assert_eq!(s.step(FuzzyEvent::Enter), Some(0));
}

#[test]
fn fuzzy_frame_is_capped_to_height() {
    let names: Vec<String> = (0..10).map(|i| format!("item{}", i)).collect();
    let opts: Vec<Vec<char>> = names.iter().map(|s| chars(s)).collect();
    let mut s = FuzzyState::new(&opts);
    let rows = s.render(4);
    assert_eq!(rows.len(), 3);
    assert_eq!(rows[0], Row { option: 0, active: true, kind: RowKind::Fuzzy });
    for _ in 0..5 {
        s.step(FuzzyEvent::Down);
    }
    let rows = s.render(4);
    let shown: Vec<usize> = rows.iter().map(|r| r.option).collect();
    assert_eq!(shown, vec![3, 4, 5]);
    assert!(rows[2].active && !rows[0].active && !rows[1].active);
    assert!(s.render(1).is_empty());
    assert_eq!(s.render(100).len(), 10);
}

#[test]
fn fuzzy_filter_line() {
    let opts = texts(&["a"]);
    let mut s = FuzzyState::new(&opts);
    s.step(FuzzyEvent::FilterChar('a'));
    s.step(FuzzyEvent::FilterChar('B'));
    assert_eq!(s.filter_line(), chars("> aB"));
}

#[test]
fn select_frame_marks_cursor_row() {
    let mut s = SelectState::new(3).unwrap();
    s.step(SelectEvent::Down);
    let rows = s.render();
    assert_eq!(rows.len(), 3);
    assert_eq!(rows[1], Row { option: 1, active: true, kind: RowKind::Single });
    assert_eq!(rows[0], Row { option: 0, active: false, kind: RowKind::Single });
    assert_eq!(rows[1].prefix(), chars("\t> "));
    assert_eq!(rows[0].prefix(), chars("\t  "));
}

#[test]
fn multi_frame_shows_checkboxes() {
    let mut s = MultiSelectState::new(2).unwrap();
    s.step(SelectEvent::Select);
    let rows = s.render();
    assert_eq!(rows.len(), 2);
    assert_eq!(rows[0].prefix(), chars("\t> [x] "));
    assert_eq!(rows[1].prefix(), chars("\t  [ ] "));
    let fuzzy = Row { option: 0, active: true, kind: RowKind::Fuzzy };
    assert_eq!(fuzzy.prefix(), chars("> "));
}

#[test]
fn ignored_key_keeps_frame() {
    let mut s = SelectState::new(4).unwrap();
    s.step(SelectEvent::Down);
    let before = s.render();
    s.step(SelectEvent::from(Key::Char('x')));
    assert_eq!(s.render(), before);

    let mut m = MultiSelectState::new(3).unwrap();
    m.step(SelectEvent::Select);
    let before = m.render();
    m.step(SelectEvent::from(Key::Backspace));
    assert_eq!(m.render(), before);

    let opts = texts(&["You", "Yoyo", "Nope"]);
    let mut f = FuzzyState::new(&opts);
    f.step(FuzzyEvent::FilterChar('o'));
    f.step(FuzzyEvent::Down);
    let before = f.render(10);
    let line = f.filter_line();
    f.step(FuzzyEvent::from(press(Key::Char('x'), true)));
    assert_eq!(f.render(10), before);
    assert_eq!(f.filter_line(), line);
}
