//! The event grid page: what each stored event shows.
use vstd::prelude::*;

use crate::database::models::Event;
use crate::decimal::{decimal, u64_to_decimal};
use crate::timefmt::{format_instant, parse_rfc3339, rfc3339_instant, strftime};

verus! {

/// What the "event_grid" template shows of one event.
pub struct EventDetails {
    pub name: String,
    pub start_time: String,
    pub end_time: Option<String>,
    pub description: Option<String>,
    pub location: Option<String>,
    pub rsvps: i32,
    /// The Discord URL of the event, such as
    /// "https://discord.com/events/1224949123141210173/1423060568952017120".
    pub discord_link: String,
}

/// How a stored time is shown: the RFC 3339 text parsed by `chrono` and written
/// with the pattern `%m/%d/%Y %l:%M%P` (such as "10/04/2025  7:30pm"); `None`
/// where the text does not parse or the instant cannot be written.
pub open spec fn shown_time(stored: Seq<char>) -> Option<Seq<char>> {
    match rfc3339_instant(stored) {
        Some(instant) => strftime(instant, "%m/%d/%Y %l:%M%P"@),
        None => None,
    }
}

/// The Discord URL of event `event_id` in guild `guild_id`.
pub open spec fn discord_link_of(guild_id: u64, event_id: u64) -> Seq<char> {
    "https://discord.com/events/"@ + decimal(guild_id as nat) + "/"@ + decimal(event_id as nat)
}

/// Whether both times of an event are RFC 3339 text that `chrono` parses.
pub open spec fn times_parse(e: Event) -> bool {
    &&& rfc3339_instant(e.start_time@) is Some
    &&& e.end_time matches Some(t) ==> rfc3339_instant(t@) is Some
}

/// Whether both times of an event can be shown.
pub open spec fn showable(e: Event) -> bool {
    &&& shown_time(e.start_time@) is Some
    &&& e.end_time matches Some(t) ==> shown_time(t@) is Some
}

/// `d` is what the page shows of the stored event `e`.
pub open spec fn shows(d: EventDetails, e: Event) -> bool {
    &&& d.name == e.event_name
    &&& shown_time(e.start_time@) == Some(d.start_time@)
    &&& match e.end_time {
        Some(t) => d.end_time matches Some(s) && shown_time(t@) == Some(s@),
        None => d.end_time is None,
    }
    &&& d.description == e.event_description
    &&& d.location == e.event_location
    &&& d.rsvps == e.rsvps
    &&& d.discord_link@ == discord_link_of(e.guild_id, e.event_id)
}

/// Builds the Discord URL of an event: the guild id and the event id in decimal.
pub fn discord_link(guild_id: u64, event_id: u64) -> (link: String)
    ensures
        link@ == discord_link_of(guild_id, event_id),
{
    let mut link = String::from_str("https://discord.com/events/");
    let guild = u64_to_decimal(guild_id);
    let event = u64_to_decimal(event_id);
    link.append(guild.as_str());
    link.append("/");
    link.append(event.as_str());
    link
}

/// Shows a stored RFC 3339 time as the event grid does.
pub fn show_time(stored: &str) -> (shown: Option<String>)
    ensures
        match shown {
            Some(s) => shown_time(stored@) == Some(s@),
            None => shown_time(stored@) is None,
        },
        rfc3339_instant(stored@) is Some ==> shown is Some,
{
    match parse_rfc3339(stored) {
        Some(instant) => format_instant(instant, "%m/%d/%Y %l:%M%P"),
        None => None,
    }
}

/// What the page shows of one stored event; `None` when one of its times cannot
/// be shown.
pub fn event_details(e: Event) -> (details: Option<EventDetails>)
    ensures
        match details {
            Some(d) => shows(d, e),
            None => !showable(e),
        },
        times_parse(e) ==> details is Some,
{
    let start_time = match show_time(e.start_time.as_str()) {
        Some(s) => s,
        None => return None,
    };
    let end_time = match &e.end_time {
        Some(t) => match show_time(t.as_str()) {
            Some(s) => Some(s),
            None => return None,
        },
        None => None,
    };
    let discord_link = discord_link(e.guild_id, e.event_id);
    Some(EventDetails {
        name: e.event_name,
        start_time,
        end_time,
        description: e.event_description,
        location: e.event_location,
        rsvps: e.rsvps,
        discord_link,
    })
}

/// What the grid shows of every stored event, in the table's order; `None` when
/// some event has a time that cannot be shown.
#[verifier::loop_isolation(false)]
pub fn all_event_details(events: Vec<Event>) -> (details: Option<Vec<EventDetails>>)
    ensures
        details is Some <==> forall|i: int| 0 <= i < events@.len() ==> #[trigger] showable(events@[i]),
        details matches Some(v) ==> {
            &&& v@.len() == events@.len()
            &&& forall|i: int| 0 <= i < v@.len() ==> #[trigger] shows(v@[i], events@[i])
        },
        (forall|i: int| 0 <= i < events@.len() ==> #[trigger] times_parse(events@[i])) ==> details is Some,
{
    let ghost given = events@;
    let mut shown: Vec<EventDetails> = Vec::new();
    let mut remaining = events;
    while remaining.len() > 0
        invariant
            shown@.len() <= given.len(),
            remaining@ == given.subrange(shown@.len() as int, given.len() as int),
            forall|i: int| 0 <= i < shown@.len() ==> #[trigger] shows(shown@[i], given[i]),
            forall|i: int| 0 <= i < shown@.len() ==> #[trigger] showable(given[i]),
        decreases remaining@.len(),
    {
        let e = remaining.remove(0);
        let ghost k = shown@.len() as int;
        assert(given[k] == e);
        match event_details(e) {
            Some(d) => shown.push(d),
            None => {
                assert(!showable(given[k]));
                return None;
            },
        }
    }
    Some(shown)
}

/// The page served when the events cannot be read from the table.
pub fn events_error_page() -> (page: String)
    ensures
        page@ == "<p>Error getting events.</>"@,
{
    String::from_str("<p>Error getting events.</>")
}

} // verus!
