use venya::select::{
    displayed_value, filtered_options, get_selected_item_image, get_selected_option,
    item_is_selected, radio_is_selected, search_options, select_value, toggle_selected,
    SelectEvent, SelectMode, SelectOption, SelectState, SelectTheme,
};

fn opt(key: &str, value: &str, alt: Option<&str>, extra: Option<&str>) -> SelectOption {
    SelectOption {
        key: key.to_string(),
        value: value.to_string(),
        alt_value: alt.map(|s| s.to_string()),
        image_url: Some(format!("/img/{}.png", key)),
        extra_info: extra.map(|s| s.to_string()),
        disabled: false,
    }
}

fn fruits() -> Vec<SelectOption> {
    vec![
        opt("apple", "Apple", None, Some("Red fruit")),
        opt("banana", "Banana", Some("Yellow Banana"), None),
        opt("cherry", "Cherry", None, None),
    ]
}

fn keys(v: &[SelectOption]) -> Vec<String> {
    v.iter().map(|o| o.key.clone()).collect()
}

fn empty_state() -> SelectState {
    SelectState {
        selected_key: None,
        value_data: String::new(),
        text_value: String::new(),
        is_focused: true,
        show_option: true,
        selected_items: vec![],
    }
}

#[test]
fn search_looks_at_every_text_ignoring_case() {
    let all = fruits();
    assert_eq!(keys(&search_options(&all, "AN")), vec!["banana"]);
    assert_eq!(keys(&search_options(&all, "red")), vec!["apple"]);
    assert_eq!(keys(&search_options(&all, "RR")), vec!["cherry"]);
    assert_eq!(keys(&search_options(&all, "yellow")), vec!["banana"]);
    assert_eq!(keys(&search_options(&all, "")), vec!["apple", "banana", "cherry"]);
    assert!(search_options(&all, "kiwi").is_empty());
}

#[test]
fn filter_looks_at_values_only() {
    let all = fruits();
    assert_eq!(keys(&filtered_options(&all, "")), vec!["apple", "banana", "cherry"]);
    assert_eq!(keys(&filtered_options(&all, "ERR")), vec!["cherry"]);
    assert!(filtered_options(&all, "yellow").is_empty());
}

#[test]
fn selected_option_lookup() {
    let all = fruits();
    assert_eq!(get_selected_option(&all, "banana"), Some("Banana".to_string()));
    assert_eq!(get_selected_option(&all, "kiwi"), None);
    assert_eq!(get_selected_item_image(&all, "cherry"), Some("/img/cherry.png".to_string()));
    assert_eq!(get_selected_item_image(&all, "kiwi"), None);
}

#[test]
fn toggling_keys() {
    let items = vec!["a".to_string(), "b".to_string()];
    assert!(item_is_selected(&items, "a"));
    assert!(!item_is_selected(&items, "c"));
    let (added, announce) = toggle_selected(&items, "c");
    assert_eq!(added, vec!["a", "b", "c"]);
    assert!(announce);
    let (removed, announce) = toggle_selected(&added, "c");
    assert_eq!(removed, items);
    assert!(!announce);
    let doubled = vec!["a".to_string(), "b".to_string(), "a".to_string()];
    let (removed, _) = toggle_selected(&doubled, "a");
    assert_eq!(removed, vec!["b"]);
}

#[test]
fn picking_one_option() {
    let all = fruits();
    let mut state = empty_state();
    let mode = SelectMode { auto_complete: false, with_key: false, is_multiple: false };
    let events = select_value(&mut state, &all[1], &mode);
    assert_eq!(state.selected_key, Some("banana".to_string()));
    assert_eq!(state.value_data, "Banana");
    assert_eq!(state.text_value, "Yellow Banana");
    assert!(!state.is_focused);
    assert!(!state.show_option);
    assert_eq!(events.len(), 2);
    assert!(matches!(&events[0], SelectEvent::Change(k) if k == "banana"));
    assert!(matches!(&events[1], SelectEvent::OptionSelected(o) if o.key == "banana"));
    assert_eq!(displayed_value(&state, false), "Yellow Banana");
    assert_eq!(displayed_value(&state, true), "Banana");
}

#[test]
fn picking_with_keys_shown_keeps_the_list_open() {
    let all = fruits();
    let mut state = empty_state();
    let mode = SelectMode { auto_complete: false, with_key: true, is_multiple: false };
    let events = select_value(&mut state, &all[0], &mode);
    assert_eq!(state.value_data, "apple");
    assert!(state.is_focused);
    assert!(state.show_option);
    assert_eq!(events.len(), 2);
}

#[test]
fn picking_several_options() {
    let all = fruits();
    let mut state = empty_state();
    let mode = SelectMode { auto_complete: false, with_key: false, is_multiple: true };
    let events = select_value(&mut state, &all[2], &mode);
    assert_eq!(state.selected_items, vec!["cherry"]);
    assert_eq!(events.len(), 1);
    assert!(matches!(&events[0], SelectEvent::MultipleItemsChange(v) if v == &vec!["cherry".to_string()]));
    let events = select_value(&mut state, &all[2], &mode);
    assert!(state.selected_items.is_empty());
    assert!(events.is_empty());
    assert!(state.is_focused);
}

#[test]
fn picking_with_auto_complete() {
    let all = fruits();
    let mut state = empty_state();
    let mode = SelectMode { auto_complete: true, with_key: false, is_multiple: false };
    let events = select_value(&mut state, &all[0], &mode);
    assert_eq!(events.len(), 2);
    assert!(matches!(&events[0], SelectEvent::Change(k) if k == "apple"));
    assert!(matches!(&events[1], SelectEvent::OptionSelected(o) if o.key == "apple"));
    assert_eq!(state.text_value, "Apple");
    assert!(!state.show_option);
    let multi = SelectMode { auto_complete: true, with_key: false, is_multiple: true };
    let mut state = empty_state();
    let events = select_value(&mut state, &all[1], &multi);
    assert_eq!(events.len(), 2);
    assert!(matches!(&events[0], SelectEvent::OptionSelected(o) if o.key == "banana"));
    assert!(matches!(&events[1], SelectEvent::MultipleItemsChange(v) if v == &vec!["banana".to_string()]));
}

#[test]
fn radio_marks_the_chosen_key() {
    let all = fruits();
    assert!(radio_is_selected(&Some("apple".to_string()), &all[0]));
    assert!(!radio_is_selected(&Some("apple".to_string()), &all[1]));
    assert!(!radio_is_selected(&None, &all[0]));
}

#[test]
fn theme_names() {
    assert_eq!(SelectTheme::default().name(), "light");
    assert_eq!(SelectTheme::Dark.name(), "dark");
    assert_eq!(fruits()[1].label(), "Yellow Banana");
    assert_eq!(fruits()[0].label(), "Apple");
}

#[test]
fn empty_search_keeps_every_option() {
    let all = fruits();
    assert_eq!(keys(&search_options(&all, "")), keys(&all));
}
