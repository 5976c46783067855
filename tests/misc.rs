use party_hub::calendar::{calendar_file, CalendarError, escape_ics, safe_file_name};
use party_hub::datetime::{format_date_time, LocalDate, LocalDateTime, deadline_passed};
use party_hub::lang::{detect_language, static_content_type};
use party_hub::model::{Guest, Invitation, Party};
use party_hub::blocks::{index_blocks, find_first_attendance};
use party_hub::json::parse_json;
use party_hub::json::Json;
use party_hub::notify::{
    change_note_excerpt, choose_mail_route, domain_of, message_id, push_payload, recipient_address,
    sort_by_preference, update_notice, update_email_body, invited_notice, invited_email_body, MailRoute,
};
use party_hub::pages::{page_path, save_refusal_message, cookie_is_secure};
use party_hub::answers::SaveRefusal;
use party_hub::text::full_name;

#[test]
fn formats_dates_per_language() {
    assert_eq!(format_date_time("2025-03-07T18:30:00", "de"), ("07.03.2025".to_string(), "18:30".to_string()));
    assert_eq!(format_date_time("2025-03-07T18:30", "en"), ("03/07/2025".to_string(), "06:30 PM".to_string()));
    assert_eq!(format_date_time("2025-03-07", "de"), ("07.03.2025".to_string(), String::new()));
    assert_eq!(format_date_time("", "en"), (String::new(), String::new()));
    assert_eq!(format_date_time("tomorrow", "en"), (String::new(), String::new()));
}

#[test]
fn deadline_compares_seconds() {
    let now = LocalDateTime { date: LocalDate { year: 2025, month: 1, day: 1 }, hour: 10, minute: 0, second: 1, nanosecond: 0 };
    assert!(deadline_passed(&now, "2025-01-01T10:00:00"));
    assert!(!deadline_passed(&now, "2025-01-01T10:00:01"));
    assert!(!deadline_passed(&now, ""));
}

#[test]
fn detects_language() {
    assert_eq!(detect_language(Some("de-DE,de;q=0.8,en;q=0.6")), "de");
    assert_eq!(detect_language(Some("en-US,en;q=0.9, de;q=0.5")), "de");
    assert_eq!(detect_language(Some("en-US,en;q=0.9")), "en");
    assert_eq!(detect_language(Some("fr;q=de")), "en");
    assert_eq!(detect_language(None), "en");
    assert_eq!(detect_language(Some("")), "en");
}

#[test]
fn static_files_and_types() {
    assert_eq!(static_content_type("index.js"), Some("application/javascript"));
    assert_eq!(static_content_type("style.css"), Some("text/css"));
    assert_eq!(static_content_type("whyemptycat.png"), Some("image/png"));
    assert_eq!(static_content_type("favicon.ico"), Some("image/x-icon"));
    assert_eq!(static_content_type("trash-2.svg"), Some("image/svg+xml"));
    assert_eq!(static_content_type("secret.txt"), None);
    assert_eq!(static_content_type("../party.db"), None);
}

#[test]
fn calendar_file_for_party() {
    let now = LocalDateTime { date: LocalDate { year: 2025, month: 1, day: 2 }, hour: 3, minute: 4, second: 5, nanosecond: 0 };
    let f = calendar_file("inv1", "Summer, fun/party", "2025-07-01T18:00", 90, "Park\nGate", &now).unwrap();
    assert!(f.body.starts_with("BEGIN:VCALENDAR\r\n"));
    assert!(f.body.contains("UID:inv1@party-hub\r\n"));
    assert!(f.body.contains("DTSTAMP:20250102T030405Z\r\n"));
    assert!(f.body.contains("DTSTART:20250701T180000\r\n"));
    assert!(f.body.contains("DTEND:20250701T193000\r\n"));
    assert!(f.body.contains("SUMMARY:Summer\\, fun/party\r\n"));
    assert!(f.body.contains("LOCATION:Park\\nGate\r\n"));
    assert!(f.body.contains("URL:https://party-hub.com/inv1\r\n"));
    assert!(f.body.ends_with("END:VEVENT\r\nEND:VCALENDAR\r\n"));
    assert_eq!(f.disposition, "inline; filename=\"Summer, fun-party.ics\"");
    assert_eq!(calendar_file("i", "n", "2025-07-01", 60, "", &now).err(), Some(CalendarError::InvalidDate));
}

#[test]
fn escapes() {
    assert_eq!(escape_ics("a,b\nc"), "a\\,b\\nc");
    assert_eq!(safe_file_name("a/b\\c"), "a-b-c");
}

#[test]
fn notes_and_notices() {
    assert_eq!(change_note_excerpt("   "), None);
    assert_eq!(change_note_excerpt("  new time \n"), Some("new time"));
    let long = "x".repeat(2500);
    assert_eq!(change_note_excerpt(&long).map(|s| s.len()), Some(2000));
    let cut_inside = format!("{}é", "x".repeat(1999));
    assert_eq!(change_note_excerpt(&cut_inside), Some("x".repeat(1999).as_str()));
    assert_eq!(update_notice("Bash", "moved"), "Update regarding Bash: moved");
    assert_eq!(update_email_body("moved", "http://h", "i1"), "moved\n\nView your invitation at: http://h/i1");
    assert_eq!(invited_notice("Bash"), "You've been invited to Bash!");
    assert_eq!(invited_email_body("Bash", "http://h", "i1"), "You've been invited to Bash!\n\nView your invitation at: http://h/i1");
}

#[test]
fn names_and_addresses() {
    assert_eq!(full_name("Ada", "Lovelace"), "Ada Lovelace");
    assert_eq!(full_name("Ada", ""), "Ada");
    assert_eq!(recipient_address("", "Doe", "d@x.org"), "Doe <d@x.org>");
    assert_eq!(domain_of("a@b.org"), Some("b.org"));
    assert_eq!(domain_of("a@b@c"), Some("b"));
    assert_eq!(domain_of("nobody"), None);
    assert_eq!(message_id("17", "tok", "Party <p@party.org>"), "<17.tok@party.org>");
    assert_eq!(message_id("17", "tok", "plain"), "<17.tok@localhost>");
}

#[test]
fn mail_routes() {
    assert_eq!(choose_mail_route(Some("client"), false), MailRoute::Client);
    assert_eq!(choose_mail_route(Some("direct"), true), MailRoute::Direct);
    assert_eq!(choose_mail_route(None, true), MailRoute::Client);
    assert_eq!(choose_mail_route(Some("other"), false), MailRoute::Direct);
}

#[test]
fn mx_records_sorted() {
    let r = sort_by_preference(vec![(20, "b".to_string()), (10, "a".to_string()), (20, "c".to_string()), (5, "d".to_string())]);
    let prefs: Vec<u16> = r.iter().map(|x| x.0).collect();
    assert_eq!(prefs, vec![5, 10, 20, 20]);
    let hosts: Vec<String> = r.iter().map(|x| x.1.clone()).collect();
    assert_eq!(hosts, vec!["d".to_string(), "a".to_string(), "b".to_string(), "c".to_string()]);
}

#[test]
fn push_payload_fields() {
    let p = push_payload("hi", "inv");
    assert_eq!(p.get("message").and_then(|v| v.as_str()), Some("hi"));
    assert_eq!(p.get("url").and_then(|v| v.as_str()), Some("/inv"));
}

#[test]
fn pages_and_messages() {
    assert_eq!(page_path("auth", "de"), "pages/de/auth_de.html");
    assert_eq!(page_path("index", "en"), "pages/en/index_en.html");
    assert_eq!(save_refusal_message(SaveRefusal::Frozen, "en"), "This party is frozen and no longer accepting responses");
    assert_eq!(save_refusal_message(SaveRefusal::PartyFull, "de"), "Diese Party hat die maximale Anzahl an Gästen erreicht");
    assert!(cookie_is_secure(None));
    assert!(!cookie_is_secure(Some("dev")));
    assert!(cookie_is_secure(Some("prod")));
}

#[test]
fn record_summaries() {
    let p = Party {
        id: "p".into(), name: "Bash".into(), author: "a".into(), invitation_blocks: "[]".into(), date: "d".into(),
        respond_until: "".into(), frozen: true, public: false, max_guests: 7, has_rsvp_block: false,
    };
    let s = p.to_summary_json();
    assert_eq!(s.get("name").and_then(|v| v.as_str()), Some("Bash"));
    assert_eq!(s.get("max_guests").and_then(|v| v.as_i64()), Some(7));
    assert_eq!(s.get("frozen").and_then(|v| v.as_bool()), Some(true));
    assert!(s.get("author").is_none());
    let g = Guest {
        id: "g".into(), salutation: "Dr".into(), first: "Ada".into(), last: "L".into(), email: "e".into(),
        note: "n".into(), author: "a".into(),
    };
    let j = g.to_json();
    assert_eq!(j.get("salutation").and_then(|v| v.as_str()), Some("Dr"));
    assert!(j.get("author").is_none());
    assert!(matches!(p.get_invitation_blocks_json(), Json::Array(ref v) if v.is_empty()));
}

#[test]
fn stored_answers_parse_or_stay_empty() {
    let mut inv = Invitation {
        id: "i".into(), guest_id: "g".into(), party_id: "p".into(),
        invitation_block_answers: r#"{"a1":0}"#.into(), organizer: false,
    };
    assert_eq!(inv.get_answers_json().get("a1").and_then(|v| v.as_i64()), Some(0));
    inv.invitation_block_answers = "broken".into();
    assert!(matches!(inv.get_answers_json(), Json::Object(ref e) if e.is_empty()));
}

#[test]
fn last_attendance_block_counts_for_index() {
    let blocks = parse_json(r#"[{"id":"x","template":"attendance"},{"id":"y","template":"attendance"}]"#).unwrap();
    assert_eq!(index_blocks(&blocks).attendance_id, Some("y".to_string()));
    assert_eq!(find_first_attendance(&blocks), Some("x".to_string()));
}
