//! Keeping the `events` table in step with the Discord guild.
//!
//! The gateway handlers and the periodic synchronisation run outside this crate;
//! what they do to the table is decided here.
use vstd::prelude::*;

use crate::database::models::{column_id, event_of, stored_id, Event, ScheduledEvent};
use crate::timefmt::{parse_rfc3339, rfc3339_instant, unix_to_rfc3339, utc_rfc3339};

verus! {

/// A notification from the Discord gateway about the guild's scheduled events.
pub enum GuildEventNotification {
    /// A scheduled event was created.
    Created(ScheduledEvent),
    /// A scheduled event was edited.
    Updated(ScheduledEvent),
    /// A scheduled event was deleted.
    Deleted(ScheduledEvent),
    /// A member marked themselves interested in the event with this id.
    UserAdded(u64),
    /// A member withdrew their interest in the event with this id.
    UserRemoved(u64),
}

/// What the `events` table is to undergo for a notification.
pub enum EventStoreAction {
    /// Insert this row.
    Insert(Event),
    /// Update the row with this row's `event_id` from this row: every column takes
    /// this row's value, except the optional ones for which this row has `None`,
    /// which keep their stored value (see `overlay`).
    Update(Event),
    /// Add `delta` to the `rsvps` of the row with id `event_id`.
    AdjustRsvps { event_id: u64, delta: i32 },
    /// Leave the table as it is.
    Nothing,
}

/// The action that a notification calls for.
pub open spec fn action_of(notification: GuildEventNotification) -> EventStoreAction {
    match notification {
        GuildEventNotification::Created(e) => EventStoreAction::Insert(event_of(e)),
        GuildEventNotification::Updated(e) => EventStoreAction::Update(event_of(e)),
        GuildEventNotification::Deleted(_) => EventStoreAction::Nothing,
        GuildEventNotification::UserAdded(id) => EventStoreAction::AdjustRsvps { event_id: id, delta: 1i32 },
        GuildEventNotification::UserRemoved(id) => EventStoreAction::AdjustRsvps { event_id: id, delta: -1i32 },
    }
}

/// Decides what a gateway notification does to the `events` table: a created or
/// edited event is inserted or overwritten by its row, a deleted one is left in
/// place, and a member's interest moves the event's RSVP count by one.
pub fn store_action(notification: GuildEventNotification) -> (action: EventStoreAction)
    ensures
        action == action_of(notification),
        notification matches GuildEventNotification::Created(e) ==> (action matches EventStoreAction::Insert(
            r,
        ) && r.event_id == e.id && r.guild_id == e.guild_id && r.start_time == e.start_time
                && r.end_time == e.end_time && r.event_name == e.name && r.event_description
                == e.description && r.event_location == (match e.metadata {
                Some(m) => m.location,
                None => None,
            }) && r.rsvps == (match e.user_count {
                Some(n) => n as i32,
                None => 0i32,
            })),
        notification matches GuildEventNotification::Updated(e) ==> (action matches EventStoreAction::Update(
            r,
        ) && r.event_id == e.id && r.guild_id == e.guild_id && r.start_time == e.start_time
                && r.end_time == e.end_time && r.event_name == e.name && r.event_description
                == e.description && r.event_location == (match e.metadata {
                Some(m) => m.location,
                None => None,
            }) && r.rsvps == (match e.user_count {
                Some(n) => n as i32,
                None => 0i32,
            })),
        notification is Deleted ==> action is Nothing,
        notification matches GuildEventNotification::UserAdded(id) ==> action == (
        EventStoreAction::AdjustRsvps { event_id: id, delta: 1i32 }),
        notification matches GuildEventNotification::UserRemoved(id) ==> action == (
        EventStoreAction::AdjustRsvps { event_id: id, delta: -1i32 }),
{
    match notification {
        GuildEventNotification::Created(e) => EventStoreAction::Insert(Event::from(e)),
        GuildEventNotification::Updated(e) => EventStoreAction::Update(Event::from(e)),
        GuildEventNotification::Deleted(_) => EventStoreAction::Nothing,
        GuildEventNotification::UserAdded(id) => EventStoreAction::AdjustRsvps { event_id: id, delta: 1 },
        GuildEventNotification::UserRemoved(id) => EventStoreAction::AdjustRsvps { event_id: id, delta: -1 },
    }
}

/// A created event is inserted, and an edited one updated, as exactly the row made
/// from the Discord event: its ids, times, name and description unchanged, its
/// location from the metadata, and its RSVP count from the user count (zero when
/// absent); a deletion leaves the table, and interest moves RSVPs by one.
pub proof fn lemma_notification_actions(notification: GuildEventNotification)
    ensures
        notification matches GuildEventNotification::Created(e) ==> (action_of(notification) matches EventStoreAction::Insert(
            r,
        ) && r.event_id == e.id && r.guild_id == e.guild_id && r.start_time == e.start_time
                && r.end_time == e.end_time && r.event_name == e.name && r.event_description
                == e.description && r.event_location == (match e.metadata {
                Some(m) => m.location,
                None => None,
            }) && r.rsvps == (match e.user_count {
                Some(n) => n as i32,
                None => 0i32,
            })),
        notification matches GuildEventNotification::Updated(e) ==> (action_of(notification) matches EventStoreAction::Update(
            r,
        ) && r.event_id == e.id && r.guild_id == e.guild_id && r.start_time == e.start_time
                && r.end_time == e.end_time && r.event_name == e.name && r.event_description
                == e.description && r.event_location == (match e.metadata {
                Some(m) => m.location,
                None => None,
            }) && r.rsvps == (match e.user_count {
                Some(n) => n as i32,
                None => 0i32,
            })),
        notification is Deleted ==> action_of(notification) is Nothing,
        notification matches GuildEventNotification::UserAdded(id) ==> action_of(notification) == (
        EventStoreAction::AdjustRsvps { event_id: id, delta: 1i32 }),
        notification matches GuildEventNotification::UserRemoved(id) ==> action_of(notification) == (
        EventStoreAction::AdjustRsvps { event_id: id, delta: -1i32 }),
{
}

/// The change in an event's RSVP count that an action makes.
pub open spec fn rsvp_change(action: EventStoreAction, event_id: u64) -> int {
    match action {
        EventStoreAction::AdjustRsvps { event_id: id, delta } => if id == event_id { delta as int } else { 0 },
        _ => 0,
    }
}

/// A member who marks an event and then withdraws leaves its RSVP count as it was.
pub proof fn lemma_interest_then_withdrawal_cancels(event_id: u64)
    ensures
        rsvp_change(action_of(GuildEventNotification::UserAdded(event_id)), event_id)
            + rsvp_change(action_of(GuildEventNotification::UserRemoved(event_id)), event_id) == 0,
{
}

/// The rows to insert or overwrite for the guild's current events, in their order.
pub fn events_to_upsert(discord_events: Vec<ScheduledEvent>) -> (rows: Vec<Event>)
    ensures
        rows@.len() == discord_events@.len(),
        forall|i: int| 0 <= i < rows@.len() ==> #[trigger] rows@[i] == event_of(discord_events@[i]),
{
    let ghost given = discord_events@;
    let mut rows: Vec<Event> = Vec::new();
    let mut remaining = discord_events;
    while remaining.len() > 0
        invariant
            rows@.len() <= given.len(),
            remaining@ == given.subrange(rows@.len() as int, given.len() as int),
            forall|i: int| 0 <= i < rows@.len() ==> #[trigger] rows@[i] == event_of(given[i]),
        decreases remaining@.len(),
    {
        let e = remaining.remove(0);
        rows.push(Event::from(e));
    }
    rows
}

/// The Discord ids of the guild's events, in their order.
pub open spec fn guild_ids(discord_events: Seq<ScheduledEvent>) -> Seq<u64> {
    discord_events.map_values(|e: ScheduledEvent| e.id)
}

/// The ids of the guild's current events.
pub fn discord_event_ids(discord_events: &Vec<ScheduledEvent>) -> (ids: Vec<u64>)
    ensures
        ids@ == guild_ids(discord_events@),
{
    let mut ids: Vec<u64> = Vec::new();
    let n = discord_events.len();
    for i in 0..n
        invariant
            n == discord_events@.len(),
            ids@ == guild_ids(discord_events@.take(i as int)),
    {
        assert(discord_events@.take(i + 1) == discord_events@.take(i as int).push(discord_events@[i as int]));
        ids.push(discord_events[i].id);
    }
    assert(discord_events@.take(n as int) == discord_events@);
    ids
}

fn contains_id(ids: &Vec<u64>, id: u64) -> (found: bool)
    ensures
        found == ids@.contains(id),
{
    let n = ids.len();
    for i in 0..n
        invariant
            n == ids@.len(),
            forall|j: int| 0 <= j < i ==> ids@[j] != id,
    {
        if ids[i] == id {
            assert(ids@[i as int] == id);
            return true;
        }
    }
    false
}

/// The keys under which the table stores rows for these Discord ids.
pub open spec fn stored_ids(ids: Seq<u64>) -> Seq<u64> {
    ids.map_values(|id: u64| stored_id(id))
}

/// The ids, among the upcoming events that the table reports (by its key column),
/// of those under which no event of the guild is stored, in the table's order.
pub open spec fn stale_ids(upcoming_ids: Seq<u64>, discord_ids: Seq<u64>) -> Seq<u64> {
    upcoming_ids.filter(|id: u64| !stored_ids(discord_ids).contains(id))
}

/// Which upcoming stored events to delete. `upcoming_ids` are the keys the table
/// reports for its upcoming events and `discord_ids` the exact Discord ids of the
/// guild's events; a key is stale when no guild event is stored under it (the
/// comparison is made as the table makes it, on stored ids).
pub fn events_to_remove(upcoming_ids: &Vec<u64>, discord_ids: &Vec<u64>) -> (stale: Vec<u64>)
    ensures
        stale@ == stale_ids(upcoming_ids@, discord_ids@),
{
    let mut keys: Vec<u64> = Vec::new();
    let m = discord_ids.len();
    for i in 0..m
        invariant
            m == discord_ids@.len(),
            keys@ == stored_ids(discord_ids@.take(i as int)),
    {
        assert(discord_ids@.take(i + 1) == discord_ids@.take(i as int).push(discord_ids@[i as int]));
        keys.push(column_id(discord_ids[i]));
    }
    assert(discord_ids@.take(m as int) == discord_ids@);
    let ghost keep = |id: u64| !stored_ids(discord_ids@).contains(id);
    let mut stale: Vec<u64> = Vec::new();
    let n = upcoming_ids.len();
    for i in 0..n
        invariant
            n == upcoming_ids@.len(),
            keys@ == stored_ids(discord_ids@),
            keep == (|id: u64| !stored_ids(discord_ids@).contains(id)),
            stale@ == upcoming_ids@.take(i as int).filter(keep),
    {
        let id = upcoming_ids[i];
        proof {
            assert(upcoming_ids@.take(i + 1) == upcoming_ids@.take(i as int).push(id));
            upcoming_ids@.take(i as int).lemma_filter_push(id, keep);
        }
        if !contains_id(&keys, id) {
            stale.push(id);
        }
    }
    assert(upcoming_ids@.take(n as int) == upcoming_ids@);
    stale
}

/// A reported upcoming key is deleted exactly when no event of the guild is
/// stored under it; in particular no event that the synchronisation writes is
/// deleted by it.
pub proof fn lemma_synchronization_removes_exactly_stale(
    discord_events: Seq<ScheduledEvent>,
    upcoming_ids: Seq<u64>,
)
    ensures
        forall|id: u64|
            #[trigger] stale_ids(upcoming_ids, guild_ids(discord_events)).contains(id) <==> (
            upcoming_ids.contains(id) && !stored_ids(guild_ids(discord_events)).contains(id)),
        forall|i: int, j: int|
            0 <= i < stale_ids(upcoming_ids, guild_ids(discord_events)).len() && 0
                <= j < discord_events.len() ==> #[trigger] stale_ids(
                upcoming_ids,
                guild_ids(discord_events),
            )[i] != stored_id(#[trigger] event_of(discord_events[j]).event_id),
{
    let keys = stored_ids(guild_ids(discord_events));
    let keep = |id: u64| !keys.contains(id);
    let stale = stale_ids(upcoming_ids, guild_ids(discord_events));
    broadcast use vstd::seq_lib::group_filter_ensures;
    assert forall|id: u64| #[trigger] stale.contains(id) <==> (upcoming_ids.contains(id) && !keys.contains(id)) by {
        if stale.contains(id) {
            upcoming_ids.lemma_filter_contains_rev(keep, id);
            let k = choose|k: int| 0 <= k < stale.len() && stale[k] == id;
            upcoming_ids.lemma_filter_pred(keep, k);
        }
        if upcoming_ids.contains(id) && !keys.contains(id) {
            let k = choose|k: int| 0 <= k < upcoming_ids.len() && upcoming_ids[k] == id;
            upcoming_ids.lemma_filter_contains(keep, k);
        }
    }
    assert forall|i: int, j: int|
        0 <= i < stale.len() && 0 <= j < discord_events.len() implies #[trigger] stale[i]
            != stored_id(#[trigger] event_of(discord_events[j]).event_id) by {
        upcoming_ids.lemma_filter_pred(keep, i);
        assert(keys[j] == stored_id(discord_events[j].id));
        assert(keys.contains(keys[j]));
    }
}

/// The text against which the table's end times are compared to find upcoming
/// events: the RFC 3339 form of the current UTC time.
pub fn upcoming_cutoff(now_secs: i64, now_nanos: u32) -> (cutoff: Option<String>)
    ensures
        match cutoff {
            Some(t) => utc_rfc3339(now_secs, now_nanos) == Some(t@),
            None => utc_rfc3339(now_secs, now_nanos) is None,
        },
{
    unix_to_rfc3339(now_secs, now_nanos)
}

/// Whether an instant, given as (timestamp, sub-second nanoseconds, offset), is at
/// or after the instant `now_secs`, `now_nanos`.
pub open spec fn at_or_after(t: (i64, u32, i32), now_secs: i64, now_nanos: u32) -> bool {
    t.0 > now_secs || (t.0 == now_secs && t.1 >= now_nanos)
}

/// Whether a stored event is still to come at the instant `now_secs`, `now_nanos`:
/// it ends at or after then or, with no end time, starts at or after then. A time
/// that is not RFC 3339 text counts as past.
pub open spec fn is_upcoming(e: Event, now_secs: i64, now_nanos: u32) -> bool {
    match e.end_time {
        Some(end) => match rfc3339_instant(end@) {
            Some(t) => at_or_after(t, now_secs, now_nanos),
            None => false,
        },
        None => match rfc3339_instant(e.start_time@) {
            Some(t) => at_or_after(t, now_secs, now_nanos),
            None => false,
        },
    }
}

fn time_at_or_after(text: &str, now_secs: i64, now_nanos: u32) -> (after: bool)
    ensures
        after == match rfc3339_instant(text@) {
            Some(t) => at_or_after(t, now_secs, now_nanos),
            None => false,
        },
{
    match parse_rfc3339(text) {
        Some(t) => t.0 > now_secs || (t.0 == now_secs && t.1 >= now_nanos),
        None => false,
    }
}

/// Decides whether a stored event is still to come at the instant given by its
/// Unix timestamp and nanoseconds.
pub fn event_is_upcoming(e: &Event, now_secs: i64, now_nanos: u32) -> (upcoming: bool)
    ensures
        upcoming == is_upcoming(*e, now_secs, now_nanos),
        e.end_time matches Some(end) ==> (upcoming <==> (rfc3339_instant(end@) matches Some(t) && (t.0
            > now_secs || (t.0 == now_secs && t.1 >= now_nanos)))),
        e.end_time is None ==> (upcoming <==> (rfc3339_instant(e.start_time@) matches Some(t) && (t.0
            > now_secs || (t.0 == now_secs && t.1 >= now_nanos)))),
{
    match &e.end_time {
        Some(end) => time_at_or_after(end.as_str(), now_secs, now_nanos),
        None => time_at_or_after(e.start_time.as_str(), now_secs, now_nanos),
    }
}

/// An event with an end time is still to come exactly when that end, parsed, is
/// at or after now, whatever its start; an event without one exactly when its
/// start is; an unreadable time makes it past.
pub proof fn lemma_upcoming_is_decided_by_end_time(e: Event, now_secs: i64, now_nanos: u32)
    ensures
        e.end_time matches Some(end) ==> (is_upcoming(e, now_secs, now_nanos) <==> (rfc3339_instant(end@) matches Some(t) && (t.0
            > now_secs || (t.0 == now_secs && t.1 >= now_nanos)))),
        e.end_time is None ==> (is_upcoming(e, now_secs, now_nanos) <==> (rfc3339_instant(e.start_time@) matches Some(t) && (t.0
            > now_secs || (t.0 == now_secs && t.1 >= now_nanos)))),
{
}

/// The ids (as stored) of the rows that are still to come, in the rows' order.
pub open spec fn upcoming_ids_of(rows: Seq<Event>, now_secs: i64, now_nanos: u32) -> Seq<u64> {
    rows.filter(|e: Event| is_upcoming(e, now_secs, now_nanos)).map_values(|e: Event| e.event_id)
}

/// Picks, from the stored rows, the ids of the events still to come.
pub fn upcoming_event_ids(rows: &Vec<Event>, now_secs: i64, now_nanos: u32) -> (ids: Vec<u64>)
    ensures
        ids@ == upcoming_ids_of(rows@, now_secs, now_nanos),
{
    let ghost keep = |e: Event| is_upcoming(e, now_secs, now_nanos);
    let mut ids: Vec<u64> = Vec::new();
    let n = rows.len();
    for i in 0..n
        invariant
            n == rows@.len(),
            keep == (|e: Event| is_upcoming(e, now_secs, now_nanos)),
            ids@ == rows@.take(i as int).filter(keep).map_values(|e: Event| e.event_id),
    {
        proof {
            assert(rows@.take(i + 1) == rows@.take(i as int).push(rows@[i as int]));
            rows@.take(i as int).lemma_filter_push(rows@[i as int], keep);
        }
        if event_is_upcoming(&rows[i], now_secs, now_nanos) {
            ids.push(rows[i].event_id);
            proof {
                let before = rows@.take(i as int).filter(keep);
                assert(before.push(rows@[i as int]).map_values(|e: Event| e.event_id)
                    =~= before.map_values(|e: Event| e.event_id).push(rows@[i as int].event_id));
            }
        }
    }
    assert(rows@.take(n as int) == rows@);
    ids
}

/// The row as the table holds it: its ids as stored.
pub open spec fn stored_row(e: Event) -> Event {
    Event {
        event_id: stored_id(e.event_id),
        guild_id: stored_id(e.guild_id),
        start_time: e.start_time,
        end_time: e.end_time,
        event_name: e.event_name,
        event_description: e.event_description,
        event_location: e.event_location,
        rsvps: e.rsvps,
    }
}

/// The key under which the table stores a row.
pub open spec fn row_key(e: Event) -> u64 {
    stored_id(e.event_id)
}

/// The row that an update from `new` leaves in place of `old`: the update sets
/// every column from `new` but skips an optional column for which `new` holds
/// `None`, which keeps `old`'s value (diesel's changeset for an `Option` field).
pub open spec fn overlay(old: Event, new: Event) -> Event {
    Event {
        event_id: new.event_id,
        guild_id: new.guild_id,
        start_time: new.start_time,
        end_time: if new.end_time is Some { new.end_time } else { old.end_time },
        event_name: new.event_name,
        event_description: if new.event_description is Some {
            new.event_description
        } else {
            old.event_description
        },
        event_location: if new.event_location is Some {
            new.event_location
        } else {
            old.event_location
        },
        rsvps: new.rsvps,
    }
}

/// The row an upsert of `new` leaves: `new` where no row was stored, else `new`
/// over the stored row.
pub open spec fn upserted_row(old: Option<Event>, new: Event) -> Event {
    match old {
        Some(o) => overlay(o, new),
        None => new,
    }
}

/// The row stored under `k`, if any.
pub open spec fn row_at(table: Map<u64, Event>, k: u64) -> Option<Event> {
    if table.contains_key(k) {
        Some(table[k])
    } else {
        None
    }
}

/// The table after one row is upserted (inserted, or on a conflicting key used to
/// update the stored row).
pub open spec fn upsert_row(table: Map<u64, Event>, row: Event) -> Map<u64, Event> {
    table.insert(row_key(row), upserted_row(row_at(table, row_key(row)), stored_row(row)))
}

/// The table after each row in turn is upserted on its (stored) `event_id`.
pub open spec fn upsert_rows(table: Map<u64, Event>, rows: Seq<Event>) -> Map<u64, Event>
    decreases rows.len(),
{
    if rows.len() == 0 {
        table
    } else {
        upsert_rows(upsert_row(table, rows[0]), rows.drop_first())
    }
}

/// Whether some row has key `k`.
pub open spec fn has_key(rows: Seq<Event>, k: u64) -> bool {
    exists|i: int| 0 <= i < rows.len() && row_key(rows[i]) == k
}

/// The combined update that the rows with key `k` make, in their order.
pub open spec fn patch(rows: Seq<Event>, k: u64) -> Event
    decreases rows.len(),
{
    if rows.len() == 0 {
        arbitrary()
    } else if row_key(rows[0]) == k && !has_key(rows.drop_first(), k) {
        stored_row(rows[0])
    } else if row_key(rows[0]) == k {
        overlay(stored_row(rows[0]), patch(rows.drop_first(), k))
    } else {
        patch(rows.drop_first(), k)
    }
}

/// The table after the rows with these keys are deleted.
pub open spec fn delete_rows(table: Map<u64, Event>, ids: Seq<u64>) -> Map<u64, Event> {
    table.remove_keys(ids.to_set())
}

/// The keys under which the guild's events are stored.
pub open spec fn guild_keys(discord_events: Seq<ScheduledEvent>) -> Set<u64> {
    stored_ids(guild_ids(discord_events)).to_set()
}

/// The keys of the stored events still to come at the given instant.
pub open spec fn upcoming_keys(table: Map<u64, Event>, now_secs: i64, now_nanos: u32) -> Set<u64> {
    Set::new(|k: u64| table.contains_key(k) && is_upcoming(table[k], now_secs, now_nanos))
}

/// The rows a synchronisation writes for the guild's events.
pub open spec fn guild_rows(discord_events: Seq<ScheduledEvent>) -> Seq<Event> {
    discord_events.map_values(|e: ScheduledEvent| event_of(e))
}

/// The table after a synchronisation at the given instant: the guild's events
/// upserted, then the events still to come under whose key no guild event is
/// stored deleted.
pub open spec fn synchronized_table(
    table: Map<u64, Event>,
    discord_events: Seq<ScheduledEvent>,
    now_secs: i64,
    now_nanos: u32,
) -> Map<u64, Event> {
    let upserted = upsert_rows(table, guild_rows(discord_events));
    upserted.remove_keys(
        upcoming_keys(upserted, now_secs, now_nanos).difference(guild_keys(discord_events)),
    )
}

proof fn lemma_overlay_laws(x: Event, a: Event, b: Event)
    ensures
        overlay(overlay(x, a), b) == overlay(x, overlay(a, b)),
        overlay(overlay(x, a), a) == overlay(x, a),
        overlay(a, a) == a,
{
}

proof fn lemma_upsert_rows(table: Map<u64, Event>, rows: Seq<Event>)
    ensures
        forall|k: u64| #[trigger] upsert_rows(table, rows).contains_key(k) <==> (table.contains_key(k)
            || has_key(rows, k)),
        forall|k: u64|
            !has_key(rows, k) && table.contains_key(k) ==> #[trigger] upsert_rows(table, rows)[k]
                == table[k],
        forall|k: u64|
            has_key(rows, k) ==> #[trigger] upsert_rows(table, rows)[k] == upserted_row(
                row_at(table, k),
                patch(rows, k),
            ),
    decreases rows.len(),
{
    if rows.len() > 0 {
        let first = rows[0];
        let rest = rows.drop_first();
        let next = upsert_row(table, first);
        lemma_upsert_rows(next, rest);
        assert(upsert_rows(table, rows) == upsert_rows(next, rest));
        assert forall|k: u64| has_key(rows, k) <==> (row_key(first) == k || has_key(rest, k)) by {
            if has_key(rows, k) {
                let i = choose|i: int| 0 <= i < rows.len() && row_key(rows[i]) == k;
                if i > 0 {
                    assert(rest[i - 1] == rows[i]);
                }
            }
            if has_key(rest, k) {
                let i = choose|i: int| 0 <= i < rest.len() && row_key(rest[i]) == k;
                assert(rows[i + 1] == rest[i]);
            }
            if row_key(first) == k {
                assert(row_key(rows[0]) == k);
            }
        }
        assert forall|k: u64|
            has_key(rows, k) implies #[trigger] upsert_rows(table, rows)[k] == upserted_row(
            row_at(table, k),
            patch(rows, k),
        ) by {
            if row_key(first) == k {
                assert(row_at(next, k) == Some(upserted_row(row_at(table, k), stored_row(first))));
                if has_key(rest, k) {
                    lemma_overlay_laws(table[k], stored_row(first), patch(rest, k));
                    assert(patch(rows, k) == overlay(stored_row(first), patch(rest, k)));
                } else {
                    assert(patch(rows, k) == stored_row(first));
                }
            } else {
                assert(row_at(next, k) == row_at(table, k));
                assert(patch(rows, k) == patch(rest, k));
            }
        }
    }
}

proof fn lemma_patch_of_distinct(rows: Seq<Event>, i: int)
    requires
        0 <= i < rows.len(),
        forall|a: int, b: int| 0 <= a < b < rows.len() ==> row_key(rows[a]) != row_key(rows[b]),
    ensures
        has_key(rows, row_key(rows[i])),
        patch(rows, row_key(rows[i])) == stored_row(rows[i]),
    decreases rows.len(),
{
    let k = row_key(rows[i]);
    let rest = rows.drop_first();
    if i == 0 {
        assert forall|j: int| 0 <= j < rest.len() implies row_key(rest[j]) != k by {
            assert(rest[j] == rows[j + 1]);
        }
    } else {
        assert(rest[i - 1] == rows[i]);
        assert forall|a: int, b: int| 0 <= a < b < rest.len() implies row_key(rest[a]) != row_key(rest[b]) by {
            assert(rest[a] == rows[a + 1]);
            assert(rest[b] == rows[b + 1]);
        }
        lemma_patch_of_distinct(rest, i - 1);
        assert(row_key(rows[0]) != k);
    }
}

proof fn lemma_upsert_twice(table: Map<u64, Event>, rows: Seq<Event>)
    ensures
        upsert_rows(upsert_rows(table, rows), rows) == upsert_rows(table, rows),
{
    let once = upsert_rows(table, rows);
    let twice = upsert_rows(once, rows);
    lemma_upsert_rows(table, rows);
    lemma_upsert_rows(once, rows);
    assert forall|k: u64| #[trigger] twice.contains_key(k) <==> once.contains_key(k) by {}
    assert forall|k: u64| #[trigger] twice.contains_key(k) implies twice[k] == once[k] by {
        if has_key(rows, k) {
            let p = patch(rows, k);
            match row_at(table, k) {
                Some(o) => lemma_overlay_laws(o, p, p),
                None => lemma_overlay_laws(p, p, p),
            }
        }
    }
    assert(twice =~= once);
}

/// Guild events are stored under distinct keys.
pub open spec fn distinct_keys(discord_events: Seq<ScheduledEvent>) -> bool {
    forall|i: int, j: int|
        0 <= i < j < discord_events.len() ==> stored_id(discord_events[i].id) != stored_id(
            discord_events[j].id,
        )
}

proof fn lemma_guild_rows_keys(discord_events: Seq<ScheduledEvent>)
    ensures
        forall|k: u64| has_key(guild_rows(discord_events), k) <==> #[trigger] guild_keys(discord_events).contains(k),
        forall|j: int|
            0 <= j < discord_events.len() ==> #[trigger] row_key(guild_rows(discord_events)[j])
                == stored_id(discord_events[j].id),
{
    let rows = guild_rows(discord_events);
    let keys = stored_ids(guild_ids(discord_events));
    assert forall|j: int| 0 <= j < discord_events.len() implies #[trigger] row_key(rows[j]) == stored_id(
        discord_events[j].id,
    ) by {}
    assert forall|k: u64| has_key(rows, k) <==> #[trigger] guild_keys(discord_events).contains(k) by {
        if has_key(rows, k) {
            let i = choose|i: int| 0 <= i < rows.len() && row_key(rows[i]) == k;
            assert(keys[i] == k);
        }
        if keys.contains(k) {
            let i = choose|i: int| 0 <= i < keys.len() && keys[i] == k;
            assert(row_key(rows[i]) == k);
        }
    }
}

proof fn lemma_synchronized_table_facts(
    table: Map<u64, Event>,
    discord_events: Seq<ScheduledEvent>,
    now_secs: i64,
    now_nanos: u32,
)
    ensures
        forall|j: int|
            0 <= j < discord_events.len() ==> {
                &&& synchronized_table(table, discord_events, now_secs, now_nanos).contains_key(
                    stored_id(#[trigger] discord_events[j].id),
                )
                &&& synchronized_table(table, discord_events, now_secs, now_nanos)[stored_id(
                    discord_events[j].id,
                )] == upserted_row(
                    row_at(table, stored_id(discord_events[j].id)),
                    patch(guild_rows(discord_events), stored_id(discord_events[j].id)),
                )
            },
        distinct_keys(discord_events) ==> forall|j: int|
            0 <= j < discord_events.len() ==> synchronized_table(
                table,
                discord_events,
                now_secs,
                now_nanos,
            )[stored_id(#[trigger] discord_events[j].id)] == upserted_row(
                row_at(table, stored_id(discord_events[j].id)),
                stored_row(event_of(discord_events[j])),
            ),
        forall|k: u64|
            #[trigger] synchronized_table(table, discord_events, now_secs, now_nanos).contains_key(k)
                && is_upcoming(
                synchronized_table(table, discord_events, now_secs, now_nanos)[k],
                now_secs,
                now_nanos,
            ) ==> guild_keys(discord_events).contains(k),
        forall|k: u64|
            #[trigger] synchronized_table(table, discord_events, now_secs, now_nanos).contains_key(k)
                ==> table.contains_key(k) || guild_keys(discord_events).contains(k),
{
    let rows = guild_rows(discord_events);
    let upserted = upsert_rows(table, rows);
    let after = synchronized_table(table, discord_events, now_secs, now_nanos);
    lemma_upsert_rows(table, rows);
    lemma_guild_rows_keys(discord_events);
    assert forall|j: int| 0 <= j < discord_events.len() implies {
        &&& after.contains_key(stored_id(#[trigger] discord_events[j].id))
        &&& after[stored_id(discord_events[j].id)] == upserted_row(
            row_at(table, stored_id(discord_events[j].id)),
            patch(rows, stored_id(discord_events[j].id)),
        )
    } by {
        let k = stored_id(discord_events[j].id);
        assert(row_key(rows[j]) == k);
        assert(has_key(rows, k));
        assert(guild_keys(discord_events).contains(k));
        assert(upserted.contains_key(k));
    }
    if distinct_keys(discord_events) {
        assert forall|a: int, b: int| 0 <= a < b < rows.len() implies row_key(rows[a]) != row_key(rows[b]) by {
            assert(row_key(rows[a]) == stored_id(discord_events[a].id));
            assert(row_key(rows[b]) == stored_id(discord_events[b].id));
        }
        assert forall|j: int| 0 <= j < discord_events.len() implies after[stored_id(
            #[trigger] discord_events[j].id,
        )] == upserted_row(
            row_at(table, stored_id(discord_events[j].id)),
            stored_row(event_of(discord_events[j])),
        ) by {
            lemma_patch_of_distinct(rows, j);
            assert(rows[j] == event_of(discord_events[j]));
            assert(row_key(rows[j]) == stored_id(discord_events[j].id));
        }
    }
    assert forall|k: u64|
        #[trigger] after.contains_key(k) && is_upcoming(after[k], now_secs, now_nanos) implies guild_keys(
        discord_events,
    ).contains(k) by {
        assert(upserted.contains_key(k) && upserted[k] == after[k]);
    }
    assert forall|k: u64| #[trigger] after.contains_key(k) implies table.contains_key(k)
        || guild_keys(discord_events).contains(k) by {
        assert(upserted.contains_key(k));
    }
}

/// A synchronisation brings the table in step with the guild. The deletions that
/// `events_to_remove` picks from the ids of the upcoming stored events give
/// `synchronized_table`. In it every event of the guild is stored under its key,
/// as the combined update of the guild's rows with that key over the row stored
/// before (for distinct keys: its own row, with optional columns it leaves empty
/// kept from the stored row); no event still to come is left under which no
/// guild event is stored; and no row appears that was neither stored before nor
/// an event of the guild.
pub proof fn lemma_synchronization_brings_table_in_step(
    table: Map<u64, Event>,
    discord_events: Seq<ScheduledEvent>,
    upcoming_ids: Seq<u64>,
    now_secs: i64,
    now_nanos: u32,
)
    requires
        upcoming_ids.to_set() == upcoming_keys(
            upsert_rows(table, guild_rows(discord_events)),
            now_secs,
            now_nanos,
        ),
    ensures
        delete_rows(
            upsert_rows(table, guild_rows(discord_events)),
            stale_ids(upcoming_ids, guild_ids(discord_events)),
        ) == synchronized_table(table, discord_events, now_secs, now_nanos),
        forall|j: int|
            0 <= j < discord_events.len() ==> {
                &&& synchronized_table(table, discord_events, now_secs, now_nanos).contains_key(
                    stored_id(#[trigger] discord_events[j].id),
                )
                &&& synchronized_table(table, discord_events, now_secs, now_nanos)[stored_id(
                    discord_events[j].id,
                )] == upserted_row(
                    row_at(table, stored_id(discord_events[j].id)),
                    patch(guild_rows(discord_events), stored_id(discord_events[j].id)),
                )
            },
        distinct_keys(discord_events) ==> forall|j: int|
            0 <= j < discord_events.len() ==> synchronized_table(
                table,
                discord_events,
                now_secs,
                now_nanos,
            )[stored_id(#[trigger] discord_events[j].id)] == upserted_row(
                row_at(table, stored_id(discord_events[j].id)),
                stored_row(event_of(discord_events[j])),
            ),
        forall|k: u64|
            #[trigger] synchronized_table(table, discord_events, now_secs, now_nanos).contains_key(k)
                && is_upcoming(
                synchronized_table(table, discord_events, now_secs, now_nanos)[k],
                now_secs,
                now_nanos,
            ) ==> guild_keys(discord_events).contains(k),
        forall|k: u64|
            #[trigger] synchronized_table(table, discord_events, now_secs, now_nanos).contains_key(k)
                ==> table.contains_key(k) || guild_keys(discord_events).contains(k),
{
    let upserted = upsert_rows(table, guild_rows(discord_events));
    let stale = stale_ids(upcoming_ids, guild_ids(discord_events));
    lemma_synchronization_removes_exactly_stale(discord_events, upcoming_ids);
    let removed = upcoming_keys(upserted, now_secs, now_nanos).difference(guild_keys(discord_events));
    assert forall|k: u64| stale.to_set().contains(k) <==> removed.contains(k) by {
        assert(stale.to_set().contains(k) <==> stale.contains(k));
        assert(upcoming_ids.to_set().contains(k) <==> upcoming_ids.contains(k));
    }
    assert(stale.to_set() =~= removed);
    assert(delete_rows(upserted, stale) =~= synchronized_table(table, discord_events, now_secs, now_nanos));
    lemma_synchronized_table_facts(table, discord_events, now_secs, now_nanos);
}

/// The ids that `upcoming_event_ids` picks from the table's rows are the keys of
/// its events still to come.
pub proof fn lemma_upcoming_ids_are_upcoming_keys(
    table: Map<u64, Event>,
    rows: Seq<Event>,
    now_secs: i64,
    now_nanos: u32,
)
    requires
        forall|k: u64| #[trigger] table.contains_key(k) <==> exists|i: int| 0 <= i < rows.len() && rows[i].event_id == k,
        forall|i: int| 0 <= i < rows.len() ==> table[#[trigger] rows[i].event_id] == rows[i],
    ensures
        upcoming_ids_of(rows, now_secs, now_nanos).to_set() == upcoming_keys(table, now_secs, now_nanos),
{
    let keep = |e: Event| is_upcoming(e, now_secs, now_nanos);
    let kept = rows.filter(keep);
    let ids = upcoming_ids_of(rows, now_secs, now_nanos);
    broadcast use vstd::seq_lib::group_filter_ensures;
    assert forall|k: u64| ids.to_set().contains(k) <==> upcoming_keys(table, now_secs, now_nanos).contains(k) by {
        if ids.contains(k) {
            let a = choose|a: int| 0 <= a < ids.len() && ids[a] == k;
            rows.lemma_filter_pred(keep, a);
            assert(kept.contains(kept[a]));
            rows.lemma_filter_contains_rev(keep, kept[a]);
            let i = choose|i: int| 0 <= i < rows.len() && rows[i] == kept[a];
            assert(rows[i].event_id == k);
            assert(table.contains_key(k));
        }
        if upcoming_keys(table, now_secs, now_nanos).contains(k) {
            let i = choose|i: int| 0 <= i < rows.len() && rows[i].event_id == k;
            assert(table[rows[i].event_id] == rows[i]);
            rows.lemma_filter_contains(keep, i);
            let a = choose|a: int| 0 <= a < kept.len() && kept[a] == rows[i];
            assert(ids[a] == k);
        }
    }
    assert(ids.to_set() =~= upcoming_keys(table, now_secs, now_nanos));
}

/// Synchronising twice with the same guild events at the same instant leaves the
/// table as synchronising once does.
pub proof fn lemma_synchronization_is_idempotent(
    table: Map<u64, Event>,
    discord_events: Seq<ScheduledEvent>,
    now_secs: i64,
    now_nanos: u32,
)
    ensures
        synchronized_table(
            synchronized_table(table, discord_events, now_secs, now_nanos),
            discord_events,
            now_secs,
            now_nanos,
        ) == synchronized_table(table, discord_events, now_secs, now_nanos),
{
    let rows = guild_rows(discord_events);
    let upserted = upsert_rows(table, rows);
    let once = synchronized_table(table, discord_events, now_secs, now_nanos);
    let again = upsert_rows(once, rows);
    lemma_upsert_rows(table, rows);
    lemma_upsert_rows(once, rows);
    lemma_upsert_rows(upserted, rows);
    lemma_upsert_twice(table, rows);
    lemma_guild_rows_keys(discord_events);
    assert forall|k: u64| #[trigger] again.contains_key(k) <==> once.contains_key(k) by {
        if has_key(rows, k) {
            assert(guild_keys(discord_events).contains(k));
            assert(upserted.contains_key(k));
        }
    }
    assert forall|k: u64| #[trigger] again.contains_key(k) implies again[k] == once[k] by {
        if has_key(rows, k) {
            assert(guild_keys(discord_events).contains(k));
            assert(once.contains_key(k) && once[k] == upserted[k]);
            assert(row_at(once, k) == row_at(upserted, k));
            assert(upsert_rows(upserted, rows)[k] == upserted[k]);
        }
    }
    assert(again =~= once);
    let removed = upcoming_keys(once, now_secs, now_nanos).difference(guild_keys(discord_events));
    assert forall|k: u64| !removed.contains(k) by {
        if once.contains_key(k) && is_upcoming(once[k], now_secs, now_nanos) {
            assert(upserted.contains_key(k) && upserted[k] == once[k]);
        }
    }
    assert(removed =~= Set::empty());
    assert(once.remove_keys(removed) =~= once);
}

} // verus!
