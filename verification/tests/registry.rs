use calendar_registry::{Calendar, CalendarForm, CalendarStore, StoreError};

fn calendar(id: &str, name: &str, enabled: bool) -> Calendar {
    Calendar {
        id: id.to_string(),
        name: name.to_string(),
        color: "#336699".to_string(),
        source_url: format!("https://example.com/{}.ics", name),
        enabled,
    }
}

#[test]
fn new_store_is_empty_and_keeps_its_path() {
    let store = CalendarStore::new("calendars.csv");
    assert_eq!(store.csv_path(), "calendars.csv");
    assert!(store.get_all().is_empty());
    assert!(store.get_enabled().is_empty());
    assert_eq!(store.get("anything"), None);
}

#[test]
fn add_get_toggle_delete_scenario() {
    let mut store = CalendarStore::new("calendars.csv");
    let record = Calendar {
        id: String::new(),
        name: "Test".to_string(),
        color: "#ff0000".to_string(),
        source_url: "https://example.com/a.ics".to_string(),
        enabled: true,
    };
    assert!(store.add(record).is_ok());

    let all = store.get_all();
    assert_eq!(all.len(), 1);
    let id = all[0].id.clone();
    assert!(!id.is_empty());

    let stored = store.get(&id).expect("the record that was added");
    assert_eq!(stored.id, id);
    assert_eq!(stored.name, "Test");
    assert_eq!(stored.color, "#ff0000");
    assert_eq!(stored.source_url, "https://example.com/a.ics");
    assert!(stored.enabled);

    assert_eq!(store.get_enabled(), vec![stored.clone()]);

    assert!(store.toggle_enabled(&id).is_ok());
    assert!(!store.get(&id).expect("still there").enabled);
    assert!(store.get_enabled().is_empty());

    assert!(store.delete(&id).is_ok());
    assert_eq!(store.get(&id), None);
    assert!(store.get_all().is_empty());
}

#[test]
fn drawn_id_has_the_hyphenated_form() {
    let mut store = CalendarStore::new("calendars.csv");
    store.add(calendar("", "one", true)).unwrap();
    let id = store.get_all()[0].id.clone();
    assert_eq!(id.chars().count(), 36);
    let hyphens: Vec<usize> = id.char_indices().filter(|(_, c)| *c == '-').map(|(i, _)| i).collect();
    assert_eq!(hyphens, vec![8, 13, 18, 23]);
}

#[test]
fn blank_adds_get_ids_of_their_own() {
    let mut store = CalendarStore::new("calendars.csv");
    let n = 25;
    for i in 0..n {
        store.add(calendar("", &format!("feed{}", i), i % 2 == 0)).unwrap();
    }
    let all = store.get_all();
    assert_eq!(all.len(), n);
    for i in 0..n {
        assert_eq!(all[i].name, format!("feed{}", i));
        assert!(!all[i].id.is_empty());
        for j in 0..i {
            assert_ne!(all[i].id, all[j].id);
        }
    }
}

#[test]
fn add_with_id_takes_the_offer_only_for_a_blank_id() {
    let mut store = CalendarStore::new("calendars.csv");
    store.add_with_id(calendar("", "blank", true), "offered".to_string()).unwrap();
    store.add_with_id(calendar("own", "named", false), "ignored".to_string()).unwrap();
    assert_eq!(
        store.get_all(),
        vec![calendar("offered", "blank", true), calendar("own", "named", false)]
    );
    assert_eq!(store.get("ignored"), None);
}

#[test]
fn add_under_a_held_id_overwrites_in_place() {
    let mut store = CalendarStore::new("calendars.csv");
    store.add(calendar("a", "first", true)).unwrap();
    store.add(calendar("b", "second", true)).unwrap();
    store.add(calendar("a", "third", false)).unwrap();
    assert_eq!(store.get_all(), vec![calendar("a", "third", false), calendar("b", "second", true)]);
}

#[test]
fn add_with_id_under_a_held_offer_overwrites() {
    let mut store = CalendarStore::new("calendars.csv");
    store.add_with_id(calendar("", "first", true), "same".to_string()).unwrap();
    store.add_with_id(calendar("", "second", true), "same".to_string()).unwrap();
    assert_eq!(store.get_all(), vec![calendar("same", "second", true)]);
}

#[test]
fn update_replaces_in_place_and_forces_the_id() {
    let mut store = CalendarStore::new("calendars.csv");
    store.add(calendar("a", "first", true)).unwrap();
    store.add(calendar("b", "second", true)).unwrap();
    store.add(calendar("c", "third", true)).unwrap();
    assert!(store.update("b", calendar("other", "changed", false)).is_ok());
    assert_eq!(
        store.get_all(),
        vec![calendar("a", "first", true), calendar("b", "changed", false), calendar("c", "third", true)]
    );
    assert_eq!(store.get("other"), None);
    assert_eq!(store.get("b"), Some(calendar("b", "changed", false)));
}

#[test]
fn delete_takes_out_one_record_and_keeps_the_order() {
    let mut store = CalendarStore::new("calendars.csv");
    store.add(calendar("a", "first", true)).unwrap();
    store.add(calendar("b", "second", true)).unwrap();
    store.add(calendar("c", "third", true)).unwrap();
    assert!(store.delete("b").is_ok());
    assert_eq!(store.get_all(), vec![calendar("a", "first", true), calendar("c", "third", true)]);
}

#[test]
fn enabled_records_are_the_flagged_ones() {
    let mut store = CalendarStore::new("calendars.csv");
    store.add(calendar("a", "first", true)).unwrap();
    store.add(calendar("b", "second", false)).unwrap();
    store.add(calendar("c", "third", true)).unwrap();
    store.add(calendar("d", "fourth", false)).unwrap();
    let all = store.get_all();
    let shown = store.get_enabled();
    let expected: Vec<Calendar> = all.iter().filter(|c| c.enabled).cloned().collect();
    assert_eq!(shown, expected);
    assert_eq!(shown, vec![calendar("a", "first", true), calendar("c", "third", true)]);
    store.toggle_enabled("a").unwrap();
    store.toggle_enabled("b").unwrap();
    assert_eq!(store.get_enabled(), vec![calendar("b", "second", true), calendar("c", "third", true)]);
}

#[test]
fn absent_id_is_not_found_and_changes_nothing() {
    let mut store = CalendarStore::new("calendars.csv");
    store.add(calendar("a", "first", true)).unwrap();
    store.add(calendar("b", "second", false)).unwrap();
    let before = store.get_all();
    assert_eq!(store.update("nobody", calendar("nobody", "x", true)), Err(StoreError::NotFound));
    assert_eq!(store.delete("nobody"), Err(StoreError::NotFound));
    assert_eq!(store.toggle_enabled("nobody"), Err(StoreError::NotFound));
    assert_eq!(store.get("nobody"), None);
    assert_eq!(store.get_all(), before);
}

#[test]
fn operations_on_an_empty_registry_are_not_found() {
    let mut store = CalendarStore::new("calendars.csv");
    assert_eq!(store.update("a", calendar("a", "x", true)), Err(StoreError::NotFound));
    assert_eq!(store.delete("a"), Err(StoreError::NotFound));
    assert_eq!(store.toggle_enabled("a"), Err(StoreError::NotFound));
    assert!(store.get_all().is_empty());
}

#[test]
fn deleted_id_is_not_found_afterwards() {
    let mut store = CalendarStore::new("calendars.csv");
    store.add(calendar("a", "first", true)).unwrap();
    store.add(calendar("b", "second", false)).unwrap();
    store.delete("a").unwrap();
    let before = store.get_all();
    assert_eq!(store.delete("a"), Err(StoreError::NotFound));
    assert_eq!(store.toggle_enabled("a"), Err(StoreError::NotFound));
    assert_eq!(store.update("a", calendar("a", "again", true)), Err(StoreError::NotFound));
    assert_eq!(store.get_all(), before);
}

#[test]
fn toggle_twice_restores_the_flag() {
    let mut store = CalendarStore::new("calendars.csv");
    store.add(calendar("a", "first", true)).unwrap();
    store.add(calendar("b", "second", false)).unwrap();
    let before = store.get_all();
    store.toggle_enabled("b").unwrap();
    assert_eq!(store.get("b"), Some(calendar("b", "second", true)));
    store.toggle_enabled("b").unwrap();
    assert_eq!(store.get_all(), before);
}

#[test]
fn blank_id_can_be_looked_up_when_it_was_loaded() {
    let mut store = CalendarStore::new("calendars.csv");
    store.add_with_id(calendar("", "blank", true), String::new()).unwrap();
    assert_eq!(store.get(""), Some(calendar("", "blank", true)));
    assert!(store.delete("").is_ok());
    assert!(store.get_all().is_empty());
}

#[test]
fn snapshots_do_not_reach_into_the_registry() {
    let mut store = CalendarStore::new("calendars.csv");
    store.add(calendar("a", "first", true)).unwrap();
    let mut all = store.get_all();
    all[0].name = "changed".to_string();
    all.clear();
    let mut one = store.get("a").unwrap();
    one.enabled = false;
    assert_eq!(store.get_all(), vec![calendar("a", "first", true)]);
}

#[test]
fn ids_are_compared_exactly() {
    let mut store = CalendarStore::new("calendars.csv");
    store.add(calendar("abc", "first", true)).unwrap();
    assert_eq!(store.get("ab"), None);
    assert_eq!(store.get("abcd"), None);
    assert_eq!(store.get("ABC"), None);
    assert_eq!(store.get("abc "), None);
    assert!(store.get("abc").is_some());
}

#[test]
fn form_with_a_ticked_box_is_enabled() {
    let form = CalendarForm {
        name: "Work".to_string(),
        color: "#00ff00".to_string(),
        source_url: "https://example.com/work.ics".to_string(),
        enabled: Some("on".to_string()),
    };
    assert_eq!(
        form.into_calendar(String::new()),
        Calendar {
            id: String::new(),
            name: "Work".to_string(),
            color: "#00ff00".to_string(),
            source_url: "https://example.com/work.ics".to_string(),
            enabled: true,
        }
    );
}

#[test]
fn form_with_an_empty_box_value_is_still_enabled() {
    let form = CalendarForm {
        name: "Work".to_string(),
        color: "#00ff00".to_string(),
        source_url: "u".to_string(),
        enabled: Some(String::new()),
    };
    assert!(form.into_calendar("k".to_string()).enabled);
}

#[test]
fn form_without_the_box_is_disabled_and_takes_the_id() {
    let form = CalendarForm {
        name: "Work".to_string(),
        color: "#00ff00".to_string(),
        source_url: "https://example.com/work.ics".to_string(),
        enabled: None,
    };
    let c = form.into_calendar("fixed".to_string());
    assert_eq!(c.id, "fixed");
    assert!(!c.enabled);
}

#[test]
fn store_error_messages() {
    assert_eq!(StoreError::NotFound.message(), "Calendar not found");
    assert_eq!(StoreError::Persistence.message(), "Calendar store could not be persisted");
}
