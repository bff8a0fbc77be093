use sdnc::database::models::Event;
use sdnc::decimal::u64_to_decimal;
use sdnc::handlers::generate_invite::{invite_response, InviteForm, InviteResponse};
use sdnc::handlers::get_events::{
    all_event_details, discord_link, event_details, events_error_page, show_time,
};

fn stored(start: &str, end: Option<&str>) -> Event {
    Event {
        event_id: 1423060568952017120,
        guild_id: 1224949123141210173,
        start_time: start.to_string(),
        end_time: end.map(|s| s.to_string()),
        event_name: "Nerf war".to_string(),
        event_description: None,
        event_location: Some("Mission Bay".to_string()),
        rsvps: 12,
    }
}

#[test]
fn discord_link_names_guild_and_event() {
    assert_eq!(
        discord_link(1224949123141210173, 1423060568952017120),
        "https://discord.com/events/1224949123141210173/1423060568952017120"
    );
}

#[test]
fn decimal_matches_to_string() {
    for n in [0u64, 7, 10, 99, 1000, 18446744073709551615] {
        assert_eq!(u64_to_decimal(n), n.to_string());
    }
}

#[test]
fn times_are_shown_in_their_own_offset() {
    assert_eq!(show_time("2025-10-04T19:30:00-07:00").as_deref(), Some("10/04/2025  7:30pm"));
    assert_eq!(show_time("2025-12-31T00:05:00Z").as_deref(), Some("12/31/2025 12:05am"));
}

#[test]
fn unparsable_time_is_not_shown() {
    assert_eq!(show_time("next tuesday"), None);
}

#[test]
fn event_details_show_the_stored_event() {
    let d = event_details(stored("2025-10-04T19:30:00-07:00", Some("2025-10-04T22:15:00-07:00"))).unwrap();
    assert_eq!(d.name, "Nerf war");
    assert_eq!(d.start_time, "10/04/2025  7:30pm");
    assert_eq!(d.end_time.as_deref(), Some("10/04/2025 10:15pm"));
    assert_eq!(d.description, None);
    assert_eq!(d.location.as_deref(), Some("Mission Bay"));
    assert_eq!(d.rsvps, 12);
    assert_eq!(d.discord_link, "https://discord.com/events/1224949123141210173/1423060568952017120");
}

#[test]
fn event_without_end_has_no_end_shown() {
    let d = event_details(stored("2025-10-04T19:30:00Z", None)).unwrap();
    assert_eq!(d.end_time, None);
}

#[test]
fn event_with_bad_end_time_is_not_shown() {
    assert!(event_details(stored("2025-10-04T19:30:00Z", Some("soon"))).is_none());
}

#[test]
fn all_events_shown_in_order() {
    let mut second = stored("2025-11-01T10:00:00Z", None);
    second.event_name = "Second".to_string();
    let shown = all_event_details(vec![stored("2025-10-04T19:30:00Z", None), second]).unwrap();
    assert_eq!(shown.len(), 2);
    assert_eq!(shown[1].name, "Second");
    assert_eq!(shown[1].start_time, "11/01/2025 10:00am");
}

#[test]
fn one_bad_event_spoils_the_page() {
    let shown = all_event_details(vec![stored("2025-10-04T19:30:00Z", None), stored("bad", None)]);
    assert!(shown.is_none());
    assert_eq!(all_event_details(vec![]).map(|v| v.len()), Some(0));
}

#[test]
fn database_error_page_text() {
    assert_eq!(events_error_page(), "<p>Error getting events.</>");
}

#[test]
fn valid_captcha_gives_single_use_one_minute_invite() {
    assert!(matches!(
        invite_response(Ok(true)),
        InviteResponse::CreateInvite { max_age: 60, max_uses: 1 }
    ));
}

#[test]
fn invalid_captcha_is_refused() {
    match invite_response(Ok(false)) {
        InviteResponse::Message(m) => assert_eq!(m, "Invalid captcha"),
        _ => panic!("no invite for an invalid captcha"),
    }
}

#[test]
fn captcha_error_is_reported() {
    match invite_response(Err("timed out".to_string())) {
        InviteResponse::Message(m) => assert_eq!(m, "Error validating captcha: timed out"),
        _ => panic!("no invite when the check failed"),
    }
}

#[test]
fn invite_form_carries_the_token() {
    let form = InviteForm { g_recaptcha_response: "tok".to_string() };
    assert_eq!(form.g_recaptcha_response, "tok");
}
