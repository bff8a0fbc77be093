use sdnc::database::models::{column_id, Event, ScheduledEvent, ScheduledEventMetadata};
use sdnc::events::{
    discord_event_ids, events_to_remove, events_to_upsert, store_action, upcoming_cutoff,
    EventStoreAction, GuildEventNotification, event_is_upcoming, upcoming_event_ids,
};

fn scheduled(id: u64, user_count: Option<u64>, location: Option<&str>) -> ScheduledEvent {
    ScheduledEvent {
        id,
        guild_id: 1224949123141210173,
        name: format!("Game night {id}"),
        description: Some("Bring darts".to_string()),
        start_time: "2025-10-04T19:30:00.000Z".to_string(),
        end_time: Some("2025-10-04T22:00:00.000Z".to_string()),
        metadata: Some(ScheduledEventMetadata { location: location.map(|l| l.to_string()) }),
        user_count,
    }
}

#[test]
fn event_row_copies_the_discord_event() {
    let e = Event::from(scheduled(42, Some(7), Some("Balboa Park")));
    assert_eq!(e.event_id, 42);
    assert_eq!(e.guild_id, 1224949123141210173);
    assert_eq!(e.start_time, "2025-10-04T19:30:00.000Z");
    assert_eq!(e.end_time.as_deref(), Some("2025-10-04T22:00:00.000Z"));
    assert_eq!(e.event_name, "Game night 42");
    assert_eq!(e.event_description.as_deref(), Some("Bring darts"));
    assert_eq!(e.event_location.as_deref(), Some("Balboa Park"));
    assert_eq!(e.rsvps, 7);
}

#[test]
fn event_without_user_count_has_no_rsvps() {
    let e = Event::from(scheduled(1, None, None));
    assert_eq!(e.rsvps, 0);
    assert_eq!(e.event_location, None);
}

#[test]
fn event_without_metadata_has_no_location() {
    let mut s = scheduled(1, Some(2), Some("ignored"));
    s.metadata = None;
    assert_eq!(Event::from(s).event_location, None);
}

#[test]
fn rsvp_count_is_truncated_to_the_column_type() {
    let e = Event::from(scheduled(1, Some((1u64 << 32) + 5), None));
    assert_eq!(e.rsvps, 5);
}

#[test]
fn created_and_updated_events_are_written() {
    match store_action(GuildEventNotification::Created(scheduled(5, Some(1), None))) {
        EventStoreAction::Insert(e) => assert_eq!((e.event_id, e.rsvps), (5, 1)),
        _ => panic!("expected an insert"),
    }
    match store_action(GuildEventNotification::Updated(scheduled(6, None, None))) {
        EventStoreAction::Update(e) => assert_eq!((e.event_id, e.rsvps), (6, 0)),
        _ => panic!("expected an update"),
    }
}

#[test]
fn deleted_events_stay_in_the_table() {
    assert!(matches!(
        store_action(GuildEventNotification::Deleted(scheduled(5, None, None))),
        EventStoreAction::Nothing
    ));
}

#[test]
fn interest_then_withdrawal_cancels_out() {
    let add = store_action(GuildEventNotification::UserAdded(9));
    let remove = store_action(GuildEventNotification::UserRemoved(9));
    match (add, remove) {
        (
            EventStoreAction::AdjustRsvps { event_id: a, delta: da },
            EventStoreAction::AdjustRsvps { event_id: b, delta: db },
        ) => {
            assert_eq!((a, b), (9, 9));
            assert_eq!((da, db), (1, -1));
            assert_eq!(da + db, 0);
        }
        _ => panic!("expected two RSVP adjustments"),
    }
}

#[test]
fn every_guild_event_is_upserted_in_order() {
    let rows = events_to_upsert(vec![scheduled(3, None, None), scheduled(1, Some(4), None)]);
    let ids: Vec<u64> = rows.iter().map(|e| e.event_id).collect();
    assert_eq!(ids, vec![3, 1]);
    assert_eq!(rows[1].rsvps, 4);
}

#[test]
fn guild_event_ids_keep_their_order() {
    let events = vec![scheduled(30, None, None), scheduled(10, None, None), scheduled(20, None, None)];
    assert_eq!(discord_event_ids(&events), vec![30, 10, 20]);
}

#[test]
fn only_events_missing_from_the_guild_are_removed() {
    let upcoming = vec![1, 2, 3, 4];
    let guild = vec![4, 2, 9];
    assert_eq!(events_to_remove(&upcoming, &guild), vec![1, 3]);
}

#[test]
fn nothing_is_removed_when_the_guild_has_every_event() {
    assert_eq!(events_to_remove(&vec![5, 6], &vec![6, 5]), Vec::<u64>::new());
    assert_eq!(events_to_remove(&vec![], &vec![1]), Vec::<u64>::new());
}

#[test]
fn removed_events_are_never_upserted() {
    let discord = vec![scheduled(2, None, None), scheduled(7, None, None)];
    let ids = discord_event_ids(&discord);
    let stale = events_to_remove(&vec![1, 2, 3, 7, 8], &ids);
    let rows = events_to_upsert(discord);
    assert_eq!(stale, vec![1, 3, 8]);
    assert!(rows.iter().all(|e| !stale.contains(&e.event_id)));
}

#[test]
fn cutoff_is_the_rfc3339_utc_time() {
    assert_eq!(upcoming_cutoff(0, 0).as_deref(), Some("1970-01-01T00:00:00+00:00"));
    assert_eq!(upcoming_cutoff(1759606200, 500_000_000).as_deref(), Some("2025-10-04T19:30:00.500+00:00"));
}

#[test]
fn cutoff_out_of_range_is_none() {
    assert_eq!(upcoming_cutoff(i64::MAX, 0), None);
}

#[test]
fn stored_ids_match_the_double_column() {
    let samples = [
        0u64,
        1,
        (1 << 53) - 1,
        1 << 53,
        (1 << 53) + 1,
        (1 << 53) + 3,
        (1 << 54) + 2,
        (1 << 54) + 6,
        1224949123141210173,
        1423060568952017120,
        1423060568952017121,
        u64::MAX - 1024,
        u64::MAX - 1023,
        u64::MAX,
    ];
    for id in samples {
        assert_eq!(column_id(id), id as f64 as u64, "id {id}");
    }
    let mut x: u64 = 0x9E37_79B9_7F4A_7C15;
    for _ in 0..10_000 {
        x ^= x << 13;
        x ^= x >> 7;
        x ^= x << 17;
        assert_eq!(column_id(x), x as f64 as u64, "id {x}");
        let small = x >> 8;
        assert_eq!(column_id(small), small as f64 as u64, "id {small}");
    }
}

#[test]
fn guild_events_stored_under_rounded_ids_are_kept() {
    let guild = vec![1224949123141210173u64, 1423060568952017121];
    let upcoming: Vec<u64> = guild.iter().map(|&id| id as f64 as u64).chain([7u64]).collect();
    assert_eq!(events_to_remove(&upcoming, &guild), vec![7]);
}

fn row(id: u64, start: &str, end: Option<&str>) -> Event {
    Event {
        event_id: id,
        guild_id: 1,
        start_time: start.to_string(),
        end_time: end.map(|s| s.to_string()),
        event_name: "e".to_string(),
        event_description: None,
        event_location: None,
        rsvps: 0,
    }
}

// 2025-10-04T19:30:00Z
const NOW: i64 = 1759606200;

#[test]
fn event_ending_later_is_upcoming() {
    assert!(event_is_upcoming(&row(1, "2025-10-04T18:00:00Z", Some("2025-10-04T20:00:00Z")), NOW, 0));
    assert!(event_is_upcoming(&row(1, "2025-10-04T18:00:00Z", Some("2025-10-04T12:30:00-07:00")), NOW, 0));
    assert!(!event_is_upcoming(&row(1, "2025-10-04T18:00:00Z", Some("2025-10-04T19:29:59.999Z")), NOW, 0));
}

#[test]
fn event_without_end_counts_by_its_start() {
    assert!(event_is_upcoming(&row(1, "2025-10-05T10:00:00Z", None), NOW, 0));
    assert!(!event_is_upcoming(&row(1, "2025-10-01T10:00:00Z", None), NOW, 0));
    assert!(event_is_upcoming(&row(1, "2025-10-04T19:30:00Z", None), NOW, 0));
    assert!(!event_is_upcoming(&row(1, "2025-10-04T19:30:00Z", None), NOW, 1));
}

#[test]
fn unreadable_times_count_as_past() {
    assert!(!event_is_upcoming(&row(1, "soon", None), NOW, 0));
    assert!(!event_is_upcoming(&row(1, "2025-10-05T10:00:00Z", Some("later")), NOW, 0));
}

#[test]
fn upcoming_ids_keep_the_table_order() {
    let rows = vec![
        row(5, "2025-10-05T10:00:00Z", None),
        row(6, "2025-09-01T10:00:00Z", Some("2025-09-01T12:00:00Z")),
        row(7, "2025-09-01T10:00:00Z", Some("2026-01-01T00:00:00Z")),
    ];
    assert_eq!(upcoming_event_ids(&rows, NOW, 0), vec![5, 7]);
}
