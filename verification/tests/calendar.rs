use desktop_cockpit::calendar::LocalEventsProvider;
use desktop_cockpit::domain::Event;

fn event(time: &str, title: &str) -> Event {
    Event {
        time: time.to_string(),
        title: title.to_string(),
        description: None,
    }
}

#[test]
fn sorts_events_by_time() {
    let events = vec![event("13:30", "Daily"), event("10:00", "Aula Marc")];

    let sorted = LocalEventsProvider::events_for_today(&events);

    assert_eq!(sorted[0].title, "Aula Marc");
    assert_eq!(sorted[1].title, "Daily");
}

#[test]
fn limits_next_events() {
    let events = vec![event("09:00", "One"), event("10:00", "Two")];

    let next = LocalEventsProvider::next_events(&events, 1);

    assert_eq!(next.len(), 1);
    assert_eq!(next[0].title, "One");
}

#[test]
fn keeps_order_of_events_at_the_same_time() {
    let events = vec![
        event("11:00", "Late"),
        event("09:00", "First"),
        event("09:00", "Second"),
        event("08:00", "Early"),
        event("09:00", "Third"),
    ];

    let sorted = LocalEventsProvider::events_for_today(&events);
    let titles: Vec<&str> = sorted.iter().map(|e| e.title.as_str()).collect();

    assert_eq!(titles, vec!["Early", "First", "Second", "Third", "Late"]);
}

#[test]
fn orders_times_as_text() {
    let events = vec![event("9:00", "Nine"), event("10:00", "Ten"), event("", "Blank")];

    let sorted = LocalEventsProvider::events_for_today(&events);
    let titles: Vec<&str> = sorted.iter().map(|e| e.title.as_str()).collect();

    assert_eq!(titles, vec!["Blank", "Ten", "Nine"]);
}

#[test]
fn sorting_twice_changes_nothing() {
    let events = vec![event("14:00", "B"), event("08:30", "A"), event("14:00", "C")];

    let once = LocalEventsProvider::events_for_today(&events);
    let twice = LocalEventsProvider::events_for_today(&once);

    assert_eq!(once, twice);
}

#[test]
fn next_events_with_a_large_limit_keeps_all() {
    let events = vec![event("10:00", "Two"), event("09:00", "One")];

    let next = LocalEventsProvider::next_events(&events, 5);

    assert_eq!(next.len(), 2);
    assert_eq!(next[0].title, "One");
    assert!(LocalEventsProvider::next_events(&events, 0).is_empty());
    assert!(LocalEventsProvider::events_for_today(&[]).is_empty());
}

#[test]
fn sorting_keeps_descriptions() {
    let mut late = event("12:00", "Lunch");
    late.description = Some("with team".to_string());
    let events = vec![late.clone(), event("08:00", "Standup")];

    let sorted = LocalEventsProvider::events_for_today(&events);

    assert_eq!(sorted[1], late);
}
