//! Rows of the `events` table and the Discord events they are made from.
use vstd::prelude::*;

verus! {

/// One row of the `events` table.
///
/// Times are RFC 3339 text, as the table stores them; identifiers are the Discord
/// snowflakes of the event and of its guild.
pub struct Event {
    pub event_id: u64,
    pub guild_id: u64,
    pub start_time: String,
    pub end_time: Option<String>,
    pub event_name: String,
    pub event_description: Option<String>,
    pub event_location: Option<String>,
    pub rsvps: i32,
}

/// Entity metadata of a Discord scheduled event.
pub struct ScheduledEventMetadata {
    pub location: Option<String>,
}

/// The fields of a Discord scheduled event that the backend reads.
///
/// Times are the RFC 3339 text of Discord's timestamps (UTC).
pub struct ScheduledEvent {
    pub id: u64,
    pub guild_id: u64,
    pub name: String,
    pub description: Option<String>,
    pub start_time: String,
    pub end_time: Option<String>,
    pub metadata: Option<ScheduledEventMetadata>,
    pub user_count: Option<u64>,
}

/// Where an event takes place: the location in its metadata, if it has both.
pub open spec fn location_of(metadata: Option<ScheduledEventMetadata>) -> Option<String> {
    match metadata {
        Some(m) => m.location,
        None => None,
    }
}

/// The number of RSVPs stored for a Discord event: its user count, or zero when
/// Discord gives none, cast to the column's `i32`.
pub open spec fn rsvps_of(user_count: Option<u64>) -> i32 {
    match user_count {
        Some(n) => n as i32,
        None => 0i32,
    }
}

/// The row stored for a Discord scheduled event.
pub open spec fn event_of(value: ScheduledEvent) -> Event {
    Event {
        event_id: value.id,
        guild_id: value.guild_id,
        start_time: value.start_time,
        end_time: value.end_time,
        event_name: value.name,
        event_description: value.description,
        event_location: location_of(value.metadata),
        rsvps: rsvps_of(value.user_count),
    }
}

/// The stored row carries the Discord event's ids, times (an absent end time
/// stays absent), name and description unchanged, the location from its metadata
/// (none without metadata), and its user count as RSVPs (zero when absent).
pub proof fn lemma_event_row_fields(value: ScheduledEvent)
    ensures
        event_of(value).event_id == value.id,
        event_of(value).guild_id == value.guild_id,
        event_of(value).start_time == value.start_time,
        event_of(value).end_time == value.end_time,
        event_of(value).event_name == value.name,
        event_of(value).event_description == value.description,
        value.metadata is None ==> event_of(value).event_location is None,
        value.metadata matches Some(m) ==> event_of(value).event_location == m.location,
        value.user_count is None ==> event_of(value).rsvps == 0,
        value.user_count matches Some(n) ==> event_of(value).rsvps == n as i32,
{
}

impl From<ScheduledEvent> for Event {
    fn from(value: ScheduledEvent) -> (event: Self) {
        let event_location = match value.metadata {
            Some(m) => m.location,
            None => None,
        };
        let rsvps: i32 = match value.user_count {
            Some(n) => n as i32,
            None => 0,
        };
        Event {
            event_id: value.id,
            guild_id: value.guild_id,
            start_time: value.start_time,
            end_time: value.end_time,
            event_name: value.name,
            event_description: value.description,
            event_location,
            rsvps,
        }
    }
}

impl vstd::std_specs::convert::FromSpecImpl<ScheduledEvent> for Event {
    open spec fn obeys_from_spec() -> bool {
        true
    }

    open spec fn from_spec(value: ScheduledEvent) -> Self {
        event_of(value)
    }
}

/// The power of two by which an id is scaled to fit the 53 significant bits of a
/// `Double`: 1 below 2^53, and doubled with each further bit.
pub open spec fn double_scale(n: nat) -> nat
    decreases n,
{
    if n < 0x20_0000_0000_0000 {
        1
    } else {
        2 * double_scale(n / 2)
    }
}

/// The nearest multiple of `double_scale(n)` to `n`, ties going to the even
/// multiple: the value a `Double` column holds for `n`.
pub open spec fn nearest_double(n: nat) -> nat {
    let p = double_scale(n);
    let q = n / p;
    let r = n % p;
    if r * 2 > p || (r * 2 == p && q % 2 == 1) {
        (q + 1) * p
    } else {
        q * p
    }
}

/// The id under which the `events` table (whose id columns are `Double`) stores
/// the Discord id `id`, read back as an integer; `u64::MAX` where the stored value
/// rounds up past it.
pub open spec fn stored_id(id: u64) -> u64 {
    if nearest_double(id as nat) > u64::MAX {
        u64::MAX
    } else {
        nearest_double(id as nat) as u64
    }
}

proof fn lemma_scale_step(n: nat, p: nat)
    requires
        p > 0,
        n / p >= 0x20_0000_0000_0000,
        double_scale(n) == p * double_scale(n / p),
    ensures
        double_scale(n) == (p * 2) * double_scale(n / (p * 2)),
{
    vstd::arithmetic::div_mod::lemma_div_denominator(n as int, p as int, 2);
    assert(double_scale(n / p) == 2 * double_scale((n / p) / 2));
    let x = double_scale(n / (p * 2));
    assert(p * (2 * x) == (p * 2) * x) by (nonlinear_arith);
}

/// The id the `events` table stores for a Discord id: the id rounded to the
/// nearest `Double`, as `id as f64 as u64` gives it.
pub fn column_id(id: u64) -> (stored: u64)
    ensures
        stored == stored_id(id),
{
    let mut p: u64 = 1;
    while id / p >= 0x20_0000_0000_0000
        invariant
            1 <= p <= 0x1000,
            double_scale(id as nat) == p * double_scale((id / p) as nat),
        decreases id / p,
    {
        proof {
            lemma_scale_step(id as nat, p as nat);
            vstd::arithmetic::div_mod::lemma_fundamental_div_mod(id as int, p as int);
            assert(p * (id / p) <= id);
            assert(p * 0x20_0000_0000_0000 <= p * (id / p)) by (nonlinear_arith)
                requires id / p >= 0x20_0000_0000_0000, p >= 1;
            assert(p < 0x800) by (nonlinear_arith)
                requires p * 0x20_0000_0000_0000 <= id, id <= u64::MAX;
            vstd::arithmetic::div_mod::lemma_div_denominator(id as int, p as int, 2);
            assert((id / p) / 2 < id / p);
        }
        p = p * 2;
    }
    assert(double_scale((id / p) as nat) == 1);
    assert(double_scale(id as nat) == p) by {
        let x = double_scale((id / p) as nat);
        assert(p * x == p) by (nonlinear_arith)
            requires x == 1;
    }
    let q = id / p;
    let r = id % p;
    let up = r * 2 > p || (r * 2 == p && q % 2 == 1);
    let q2: u64 = if up { q + 1 } else { q };
    match q2.checked_mul(p) {
        Some(v) => v,
        None => u64::MAX,
    }
}

} // verus!
