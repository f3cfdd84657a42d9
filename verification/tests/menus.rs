use tictactoe::menus::{Menu, MenuEntry};

#[test]
fn entries_get_distinct_identifiers() {
    let mut menu = Menu::new();
    let first = menu.push(MenuEntry::new("First".to_string(), 1));
    let second = menu.push(MenuEntry::new("Second".to_string(), 2));
    assert_ne!(first, second);
}

#[test]
fn input_selects_the_entry_with_the_entered_number() {
    let mut menu = Menu::new();
    let first = menu.push(MenuEntry::new("First".to_string(), 1));
    let second = menu.push(MenuEntry::new("Second".to_string(), 2));
    assert_eq!(Some(first), menu.handle_input("1"));
    assert_eq!(Some(second), menu.handle_input("2"));
    assert_eq!(Some(second), menu.handle_input("+2"));
}

#[test]
fn input_that_names_no_entry_selects_nothing() {
    let mut menu = Menu::new();
    let _ = menu.push(MenuEntry::new("First".to_string(), 1));
    assert_eq!(None, menu.handle_input("3"));
    assert_eq!(None, menu.handle_input(""));
    assert_eq!(None, menu.handle_input("one"));
    assert_eq!(None, menu.handle_input("1 "));
}

#[test]
fn disabled_and_invisible_entries_cannot_be_selected() {
    let mut menu = Menu::new();
    let mut disabled = MenuEntry::new("Disabled".to_string(), 1);
    disabled.is_enabled = false;
    let _ = menu.push(disabled);
    let mut hidden = MenuEntry::new("Hidden".to_string(), 2);
    hidden.is_visible = false;
    let _ = menu.push(hidden);
    assert_eq!(None, menu.handle_input("1"));
    assert_eq!(None, menu.handle_input("2"));
}

#[test]
fn the_first_entry_with_a_key_shadows_later_ones() {
    let mut menu = Menu::new();
    let mut first = MenuEntry::new("First".to_string(), 5);
    first.is_enabled = false;
    let _ = menu.push(first);
    let _second = menu.push(MenuEntry::new("Second".to_string(), 5));
    // The scan stops at the first entry carrying the key; that one is
    // disabled, so nothing is selected.
    assert_eq!(None, menu.handle_input("5"));
}

#[test]
fn new_entries_start_enabled_and_visible() {
    let entry = MenuEntry::new("Anything".to_string(), 9);
    assert!(entry.is_enabled);
    assert!(entry.is_visible);
    assert_eq!(9, entry.key);
    assert_eq!("Anything", entry.text);
}
