use calendar_registry::{
    feed_body, feed_path, feed_source, Calendar, CalendarStore, FeedError, Fetched,
};

fn store_with_one() -> CalendarStore {
    let mut store = CalendarStore::new("calendars.csv");
    store
        .add(Calendar {
            id: "holidays".to_string(),
            name: "Holidays".to_string(),
            color: "#d73027".to_string(),
            source_url: "https://unreachable.invalid/basic.ics".to_string(),
            enabled: true,
        })
        .unwrap();
    store
}

#[test]
fn feed_of_an_unknown_id_is_not_found() {
    let store = store_with_one();
    assert_eq!(feed_source(&store, "nobody"), Err(FeedError::NotFound));
    assert_eq!(feed_source(&CalendarStore::new("calendars.csv"), "holidays"), Err(FeedError::NotFound));
}

#[test]
fn feed_of_a_known_id_is_fetched_from_its_source() {
    let store = store_with_one();
    assert_eq!(
        feed_source(&store, "holidays"),
        Ok("https://unreachable.invalid/basic.ics".to_string())
    );
}

#[test]
fn feed_of_a_disabled_record_is_still_served() {
    let mut store = store_with_one();
    store.toggle_enabled("holidays").unwrap();
    assert!(feed_source(&store, "holidays").is_ok());
}

#[test]
fn unreachable_source_is_reported_and_leaves_the_registry() {
    let store = store_with_one();
    let before = store.get_all();
    let source = feed_source(&store, "holidays");
    assert!(source.is_ok());
    assert_eq!(feed_body(Fetched::Unreachable), Err(FeedError::UpstreamUnreachable));
    assert_eq!(store.get_all(), before);
}

#[test]
fn body_that_is_no_text_is_reported() {
    assert_eq!(feed_body(Fetched::Unreadable), Err(FeedError::UpstreamBodyError));
}

#[test]
fn body_is_passed_on_as_it_came() {
    let text = "BEGIN:VCALENDAR\r\nnot even checked \u{1f4c5}\r\n".to_string();
    assert_eq!(feed_body(Fetched::Body(text.clone())), Ok(text));
    assert_eq!(feed_body(Fetched::Body(String::new())), Ok(String::new()));
}

#[test]
fn failures_have_statuses_of_their_own() {
    assert_eq!(FeedError::NotFound.status_code(), 404);
    assert_eq!(FeedError::UpstreamUnreachable.status_code(), 502);
    assert_eq!(FeedError::UpstreamBodyError.status_code(), 500);
    assert_eq!(FeedError::NotFound.message(), "Calendar not found");
    assert_eq!(FeedError::UpstreamUnreachable.message(), "Failed to fetch calendar");
    assert_eq!(FeedError::UpstreamBodyError.message(), "Failed to read response text");
}

#[test]
fn feed_path_names_the_record() {
    assert_eq!(feed_path("holidays"), "/ical/holidays");
    assert_eq!(feed_path(""), "/ical/");
    assert_eq!(
        feed_path("6f1c2a8e-0000-4000-8000-000000000000"),
        "/ical/6f1c2a8e-0000-4000-8000-000000000000"
    );
}
