use clipcrate::config::DedupMode;
use clipcrate::entry::Entry;
use clipcrate::picker::{action, can_search, rank, Action, Key, Outcome, Picker};
use clipcrate::store::Store;
use fuzzy_matcher::skim::SkimMatcherV2;
use fuzzy_matcher::FuzzyMatcher;

fn store(texts: &[&str]) -> Store {
    let mut s = Store::open("d", Vec::new());
    for (i, t) in texts.iter().enumerate() {
        s.push_text_at(t, DedupMode::All, i as i64, 1000);
    }
    s
}

fn shown<'a>(p: &Picker, s: &'a Store) -> Vec<&'a str> {
    p.view.iter().map(|i| s.entries[*i].text.as_str()).collect()
}

fn type_in(p: &mut Picker, s: &mut Store, text: &str) {
    for c in text.chars() {
        assert_eq!(p.on_key(s, Key::Char(c, false)), Outcome::Continue);
    }
}

#[test]
fn newest_first_and_pins_on_top() {
    let mut s = store(&["a", "b", "c", "d"]);
    s.toggle_pin(1);
    s.toggle_pin(2);
    let p = Picker::new(&s);
    assert_eq!(shown(&p, &s), vec!["b", "a", "d", "c"]);
    assert_eq!(p.selected, Some(0));
    assert!(can_search(&s));
}

#[test]
fn an_empty_history_selects_nothing() {
    let mut s = store(&[]);
    let mut p = Picker::new(&s);
    assert_eq!(p.selected, None);
    assert_eq!(p.on_key(&mut s, Key::Enter), Outcome::Done(None));
    assert_eq!(p.on_key(&mut s, Key::Down), Outcome::Continue);
    assert_eq!(p.on_key(&mut s, Key::Delete), Outcome::Save);
    assert_eq!(p.on_key(&mut s, Key::Char('p', true)), Outcome::Save);
    assert_eq!(p.selected, None);
}

#[test]
fn searching_ranks_by_score() {
    let texts = ["the Cargo file", "c a r g o", "cargo build", "unrelated", "CARGO"];
    let mut s = store(&texts);
    let mut p = Picker::new(&s);
    type_in(&mut p, &mut s, "cargo");
    let matcher = SkimMatcherV2::default().ignore_case();
    let mut want: Vec<(usize, i64)> = Vec::new();
    for (i, t) in texts.iter().enumerate() {
        if let Some(score) = matcher.fuzzy_match(t, "cargo") {
            want.push((i, -score));
        }
    }
    want.sort_by_key(|(_, k)| *k);
    assert_eq!(p.view, want.iter().map(|w| w.0).collect::<Vec<_>>());
    assert_eq!(p.view.len(), 4);
    assert!(!p.view.contains(&3));
}

#[test]
fn a_pin_goes_before_a_better_match() {
    let mut s = store(&["c-a-r-g-o", "cargo"]);
    s.toggle_pin(1);
    let mut p = Picker::new(&s);
    type_in(&mut p, &mut s, "cargo");
    assert_eq!(shown(&p, &s), vec!["c-a-r-g-o", "cargo"]);
}

#[test]
fn erasing_widens_the_search() {
    let mut s = store(&["alpha", "beta"]);
    let mut p = Picker::new(&s);
    type_in(&mut p, &mut s, "alx");
    assert_eq!(p.view.len(), 0);
    assert_eq!(p.selected, None);
    p.on_key(&mut s, Key::Backspace);
    assert_eq!(p.query, "al");
    assert_eq!(shown(&p, &s), vec!["alpha"]);
    p.on_key(&mut s, Key::Backspace);
    p.on_key(&mut s, Key::Backspace);
    p.on_key(&mut s, Key::Backspace);
    assert_eq!(p.query, "");
    assert_eq!(p.view.len(), 2);
}

#[test]
fn the_selection_stays_in_the_list() {
    let texts: Vec<String> = (0..25).map(|n| format!("entry {n}")).collect();
    let refs: Vec<&str> = texts.iter().map(|t| t.as_str()).collect();
    let mut s = store(&refs);
    let mut p = Picker::new(&s);
    let mut go = |key: Key, want: usize| {
        assert_eq!(p.on_key(&mut s, key), Outcome::Continue);
        assert_eq!(p.selected, Some(want), "{key:?}");
    };
    go(Key::Up, 0);
    go(Key::Down, 1);
    go(Key::PageDown, 11);
    go(Key::PageUp, 1);
    go(Key::PageUp, 0);
    go(Key::End, 24);
    go(Key::Down, 24);
    go(Key::PageDown, 24);
    go(Key::Home, 0);
    go(Key::Other, 0);
}

#[test]
fn enter_picks_and_esc_cancels() {
    let mut s = store(&["a", "b", "c"]);
    let mut p = Picker::new(&s);
    p.on_key(&mut s, Key::Down);
    assert_eq!(p.on_key(&mut s, Key::Enter), Outcome::Done(Some(2)));
    assert_eq!(p.on_key(&mut s, Key::Esc), Outcome::Done(None));
    assert_eq!(p.on_key(&mut s, Key::Char('c', true)), Outcome::Done(None));
    assert_eq!(s.len(), 3);
}

#[test]
fn ctrl_p_pins_the_selected_entry() {
    let mut s = store(&["a", "b", "c"]);
    let mut p = Picker::new(&s);
    p.on_key(&mut s, Key::End);
    assert_eq!(p.on_key(&mut s, Key::Char('p', true)), Outcome::Save);
    assert!(s.get(1).unwrap().pinned);
    assert_eq!(shown(&p, &s), vec!["a", "c", "b"]);
    assert_eq!(p.selected, Some(2));
}

#[test]
fn delete_and_ctrl_d_remove_the_selected_entry() {
    let mut s = store(&["a", "b", "c"]);
    let mut p = Picker::new(&s);
    assert_eq!(p.on_key(&mut s, Key::Delete), Outcome::Save);
    assert_eq!(shown(&p, &s), vec!["b", "a"]);
    p.on_key(&mut s, Key::Down);
    assert_eq!(p.on_key(&mut s, Key::Char('d', true)), Outcome::Save);
    assert_eq!(shown(&p, &s), vec!["b"]);
    assert_eq!(p.selected, Some(0));
    assert_eq!(p.query, "");
}

#[test]
fn keys_that_do_not_search_are_always_taken() {
    let s = store(&["a"]);
    let p = Picker::new(&s);
    for key in [Key::Esc, Key::Enter, Key::Up, Key::End, Key::Delete, Key::Backspace] {
        assert!(p.takes(&s, key));
    }
    assert!(p.takes(&s, Key::Char('x', false)));
    assert!(p.takes(&s, Key::Char('p', true)));
}

#[test]
fn other_characters_are_typed() {
    assert_eq!(action(Key::Char('d', false)), Action::Type('d'));
    assert_eq!(action(Key::Char('x', true)), Action::Type('x'));
    assert_eq!(action(Key::Char('c', false)), Action::Type('c'));
    assert_eq!(action(Key::Home), Action::Move(isize::MIN / 2));
    assert_eq!(action(Key::End), Action::Move(isize::MAX / 2));
}

#[test]
fn ranking_is_stable() {
    let pins = vec![false, true, false, true, false];
    let scores = vec![Some(5), Some(1), None, Some(1), Some(5)];
    assert_eq!(rank(&pins, &scores), vec![1, 3, 0, 4]);
    assert_eq!(rank(&Vec::new(), &Vec::new()), Vec::<usize>::new());
}

#[test]
fn the_screen_shows_rows_and_preview() {
    let mut s = store(&["plain", "first\nsecond\nthird"]);
    s.toggle_pin(1);
    let p = Picker::new(&s);
    let screen = p.render(&s, 61_000, 2);
    assert_eq!(screen.prompt, "❯ ");
    assert_eq!(screen.rows.len(), 2);
    let row = &screen.rows[0];
    assert_eq!((row.pin.as_str(), row.head.as_str(), row.multi.as_str()), ("📌 ", "plain", ""));
    assert_eq!(row.details, "  1m · 5 B");
    assert!(row.selected);
    let row = &screen.rows[1];
    assert_eq!((row.pin.as_str(), row.head.as_str(), row.multi.as_str()), ("  ", "first", " ⏎"));
    assert_eq!(row.details, "  1m · 18 B");
    assert!(!row.selected);
    assert_eq!(screen.title, " preview · #1 · 5 B ");
    assert_eq!(screen.pane_height, 4);
}

fn body(text: &str, room: usize) -> Vec<(String, bool)> {
    let s = store(&[text]);
    let p = Picker::new(&s);
    p.render(&s, 0, room).body.into_iter().map(|l| (l.text, l.dim)).collect()
}

#[test]
fn the_preview_is_cut_with_an_ellipsis() {
    let line = |t: &str| (t.to_string(), false);
    let more = || ("…".to_string(), true);
    assert_eq!(body("a\nb\nc", 2), vec![line("a"), line("b"), more()]);
    assert_eq!(body("a\nb", 2), vec![line("a"), line("b")]);
    assert_eq!(body("a", 2), vec![line("a"), more()]);
    assert_eq!(body("a", 0), vec![more()]);
    assert_eq!(body("", 0), vec![]);
    assert_eq!(body("", 3), vec![more()]);
}

#[test]
fn images_and_nothing_have_a_preview_too() {
    let s = Store::open("d", vec![Entry::new_image(4, 0, "images/x.png", 2048)]);
    let mut p = Picker::new(&s);
    let screen = p.render(&s, 0, 8);
    assert_eq!(screen.rows[0].head, "[image]");
    assert_eq!(screen.title, " preview · #4 · 2.0 KiB ");
    assert_eq!(screen.body.len(), 1);
    assert_eq!(screen.body[0].text, "[image payload]");
    assert!(screen.body[0].dim);

    let mut s = s;
    type_in(&mut p, &mut s, "zzz");
    let screen = p.render(&s, 0, 8);
    assert_eq!(screen.prompt, "❯ zzz");
    assert_eq!(screen.rows.len(), 0);
    assert_eq!(screen.title, " preview ");
    assert_eq!(screen.body[0].text, "(no matches)");
}
