use chatters::commands::{complete_from_list, last_part_of_shell_string, Completion, IndexOrString};
use chatters::keybinds::{KeyCode, KeyEvent, KeyEvents, KeyModifiers};
use chatters::tui::list::ListState;

fn completions(v: Vec<Completion>) -> Vec<(String, String)> {
    v.into_iter().map(|c| (c.display, c.append)).collect()
}

fn pair(display: &str, append: &str) -> (String, String) {
    (display.to_owned(), append.to_owned())
}

#[test]
fn test_list_completion() {
    let list = ["foo".to_owned(), "bar".to_owned(), "baz".to_owned()];
    assert_eq!(completions(complete_from_list("f", &list)), vec![pair("foo", "oo")]);
    assert_eq!(completions(complete_from_list("foo", &list)), vec![pair("foo", "")]);
    assert_eq!(
        completions(complete_from_list("b", &list)),
        vec![pair("bar", "ar"), pair("baz", "az")]
    );
    assert_eq!(completions(complete_from_list("bar", &list)), vec![pair("bar", "")]);
}

#[test]
fn test_last_part_of_shell_string() {
    assert_eq!(last_part_of_shell_string("abc"), "abc");
    assert_eq!(last_part_of_shell_string("'abc"), "'abc");
    assert_eq!(last_part_of_shell_string("'abc'"), "'abc'");
    assert_eq!(last_part_of_shell_string("'abc' foo"), "foo");
    assert_eq!(last_part_of_shell_string("'abc' 'foo"), "'foo");
    assert_eq!(last_part_of_shell_string("'abc' 'foo'"), "'foo'");
    assert_eq!(last_part_of_shell_string("abc foo"), "foo");
}

#[test]
fn test_index_or_string_from_str() {
    assert!(matches!(IndexOrString::from_str("1"), Ok(IndexOrString::Index(1))));
    assert!(matches!(IndexOrString::from_str("+1"), Ok(IndexOrString::Index(1))));
    match IndexOrString::from_str("/test/") {
        Ok(IndexOrString::Str(s)) => assert_eq!(s, "/test/"),
        other => panic!("unexpected {:?}", other),
    }
    match IndexOrString::from_str("12/test/") {
        Ok(IndexOrString::Str(s)) => assert_eq!(s, "12/test/"),
        other => panic!("unexpected {:?}", other),
    }
}

fn mods(control: bool, shift: bool) -> KeyModifiers {
    KeyModifiers { control, shift, ..KeyModifiers::empty() }
}

#[test]
fn parse_key_events() {
    let events = KeyEvents::from_str("a<enter><c-esc>").unwrap();
    assert_eq!(
        events.0,
        vec![
            KeyEvent { code: KeyCode::Char('a'), modifiers: KeyModifiers::empty() },
            KeyEvent { code: KeyCode::Enter, modifiers: KeyModifiers::empty() },
            KeyEvent { code: KeyCode::Esc, modifiers: mods(true, false) },
        ]
    );
}

#[test]
fn parse_key_event() {
    assert_eq!(
        KeyEvent::from_str("a"),
        Ok(KeyEvent { code: KeyCode::Char('a'), modifiers: KeyModifiers::empty() })
    );
    assert_eq!(
        KeyEvent::from_str("<c-a>"),
        Ok(KeyEvent { code: KeyCode::Char('a'), modifiers: mods(true, false) })
    );
    assert_eq!(
        KeyEvent::from_str("<s-c-a>"),
        Ok(KeyEvent { code: KeyCode::Char('a'), modifiers: mods(true, true) })
    );
    assert_eq!(
        KeyEvent::from_str("<esc>"),
        Ok(KeyEvent { code: KeyCode::Esc, modifiers: KeyModifiers::empty() })
    );
}

#[test]
fn display_key_event() {
    let shown: Vec<String> = ["a", "A", "<c-a>", "<c-A>", "<up>", "<c-up>"]
        .iter()
        .map(|s| KeyEvent::from_str(s).unwrap().to_text())
        .collect();
    assert_eq!(shown, vec!["a", "A", "<C-a>", "<C-A>", "<Up>", "<C-Up>"]);
}

/// The offset and selection after drawing, and where the drawn items go.
fn draw(state: &mut ListState, sizes: &Vec<usize>, gap: usize, extent: usize) -> (usize, Option<usize>, Vec<usize>) {
    state.scroll(sizes, gap, extent);
    let positions = state.visible_positions(sizes, gap, extent);
    (state.offset(), state.selected(), positions)
}

#[test]
fn test_vertical_list() {
    let sizes = vec![1, 3, 10];
    let mut state = ListState::default();
    assert_eq!(draw(&mut state, &sizes, 0, 10), (0, None, vec![0, 1, 4]));

    state.select_last();
    assert_eq!(draw(&mut state, &sizes, 0, 10), (2, Some(2), vec![0]));

    state.select_previous();
    assert_eq!(draw(&mut state, &sizes, 0, 10), (1, Some(1), vec![0, 3]));
}

#[test]
fn test_vertical_list_keep_large_list_filling_screen() {
    let sizes = vec![1; 20];
    let mut state = ListState::new(15, Some(20));
    assert_eq!(
        draw(&mut state, &sizes, 0, 10),
        (10, Some(19), vec![0, 1, 2, 3, 4, 5, 6, 7, 8, 9])
    );
}

#[test]
fn test_horizontal_list() {
    let sizes: Vec<usize> = (0..20).map(|i: usize| i.to_string().len()).collect();
    let mut state = ListState::default();
    let (offset, selected, positions) = draw(&mut state, &sizes, 1, 20);
    assert_eq!((offset, selected), (0, None));
    assert_eq!(positions, vec![0, 2, 4, 6, 8, 10, 12, 14, 16, 18]);

    state.select_next();
    let (offset, selected, _) = draw(&mut state, &sizes, 1, 20);
    assert_eq!((offset, selected), (0, Some(0)));

    state.select_last();
    let (offset, selected, positions) = draw(&mut state, &sizes, 1, 20);
    assert_eq!((offset, selected), (13, Some(19)));
    assert_eq!(positions, vec![0, 3, 6, 9, 12, 15, 18]);

    state.select_previous();
    let (offset, selected, _) = draw(&mut state, &sizes, 1, 20);
    assert_eq!((offset, selected), (13, Some(18)));
}
