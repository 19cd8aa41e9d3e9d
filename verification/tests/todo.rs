use raxis::todo::{is_blank, trim, TodoState};

#[test]
fn trim_removes_surrounding_whitespace() {
    assert_eq!(trim("  Buy milk \n"), "Buy milk");
    assert_eq!(trim("\u{3000}x y\u{a0}"), "x y");
    assert_eq!(trim("   "), "");
    assert_eq!(trim(""), "");
    assert_eq!(trim("a"), "a");
    assert_eq!(trim(" \t a b \t "), " \t a b \t ".trim());
}

#[test]
fn blank_text_is_only_whitespace() {
    assert!(is_blank(" \t\n"));
    assert!(is_blank(""));
    assert!(!is_blank(" x "));
}

fn texts(state: &TodoState) -> Vec<(u32, String, bool)> {
    state.items().iter().map(|i| (i.id, i.text.clone(), i.completed)).collect()
}

#[test]
fn adding_toggling_and_removing_items() {
    let mut todos = TodoState::new(1);
    assert!(todos.add("Learn Raxis framework"));
    assert!(todos.add("  Build todo app  "));
    assert!(!todos.add("   "));
    assert_eq!(todos.next_id(), 3);
    assert!(todos.toggle(2));
    assert_eq!(
        texts(&todos),
        vec![
            (1, "Learn Raxis framework".to_string(), false),
            (2, "Build todo app".to_string(), true),
        ]
    );
    assert!(!todos.toggle(7));
    assert!(todos.toggle(2));
    assert!(!todos.items()[1].completed);
    todos.remove(1);
    assert_eq!(texts(&todos), vec![(2, "Build todo app".to_string(), false)]);
    todos.remove(9);
    assert_eq!(todos.items().len(), 1);
    assert!(todos.add("Ship it"));
    assert_eq!(texts(&todos)[1], (3, "Ship it".to_string(), false));
}

#[test]
fn removing_the_entry_just_added_restores_the_list() {
    let mut todos = TodoState::new(10);
    todos.add("one");
    let before = texts(&todos);
    let next = todos.next_id();
    todos.add("two");
    todos.remove(next);
    assert_eq!(texts(&todos), before);
}
