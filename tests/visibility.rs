use party_hub::json::{parse_json, Json, JsonNumber};
use party_hub::visibility::{other_guests_answers, StoredAnswers, VisibleAnswer};

fn stored(name: &str, answers: &str) -> StoredAnswers {
    StoredAnswers { guest_name: name.to_string(), answers_text: answers.to_string() }
}

fn int_answer(a: &VisibleAnswer) -> Option<i64> {
    match &a.answer {
        Json::Number(JsonNumber::Int(i)) => Some(*i),
        _ => None,
    }
}

fn keys(g: &[VisibleAnswer]) -> Vec<String> {
    g.iter().map(|a| a.block_id.clone()).collect()
}

const BLOCKS_PLAIN_ATTENDANCE: &str = r#"[{"id":"a1","template":"attendance"},{"id":"b1","template":"text","content":"{\"public\":true}"}]"#;
const BLOCKS_PUBLIC_ATTENDANCE: &str = r#"[{"id":"a1","template":"attendance","content":"{\"public\":true}"},{"id":"b1","template":"text","content":"{\"public\":true}"},{"id":"c1","template":"text","content":"{\"public\":false}"}]"#;

#[test]
fn example_party_non_organizer_sees_only_attendance_of_guest_not_attending() {
    // b1 is withheld because X did not say yes; the attendance answer shows,
    // since the party has a public block.
    let r = other_guests_answers(BLOCKS_PLAIN_ATTENDANCE, true, false, vec![stored("X", r#"{"a1":2,"b1":"hi"}"#)]);
    assert_eq!(r.len(), 1);
    assert_eq!(keys(&r[0]), vec!["a1".to_string()]);
    assert_eq!(int_answer(&r[0][0]), Some(2));
    assert_eq!(r[0][0].guest_name, "X");
}

#[test]
fn attendance_marked_private_stays_hidden() {
    let blocks = r#"[{"id":"a1","template":"attendance","content":"{\"public\":false}"},{"id":"b1","template":"text","content":"{\"public\":true}"}]"#;
    let r = other_guests_answers(blocks, true, false, vec![stored("X", r#"{"a1":2,"b1":"hi"}"#), stored("Y", r#"{"a1":0,"b1":"yo"}"#)]);
    assert_eq!(r.len(), 1);
    assert_eq!(keys(&r[0]), vec!["b1".to_string()]);
    assert_eq!(r[0][0].guest_name, "Y");
}

#[test]
fn attendance_hidden_without_any_public_block() {
    let blocks = r#"[{"id":"a1","template":"attendance"},{"id":"b1","template":"text"}]"#;
    let r = other_guests_answers(blocks, true, false, vec![stored("X", r#"{"a1":0,"b1":"hi"}"#)]);
    assert!(r.is_empty());
}

#[test]
fn example_party_public_attendance_shows_only_attendance() {
    let r = other_guests_answers(BLOCKS_PUBLIC_ATTENDANCE, true, false, vec![stored("X", r#"{"a1":2,"b1":"hi"}"#)]);
    assert_eq!(r.len(), 1);
    assert_eq!(keys(&r[0]), vec!["a1".to_string()]);
    assert_eq!(int_answer(&r[0][0]), Some(2));
    assert_eq!(r[0][0].guest_name, "X");
}

#[test]
fn non_public_block_hidden_even_when_attending() {
    let r = other_guests_answers(BLOCKS_PUBLIC_ATTENDANCE, true, false, vec![stored("Y", r#"{"a1":0,"b1":"yes","c1":"secret"}"#)]);
    assert_eq!(r.len(), 1);
    assert_eq!(keys(&r[0]), vec!["a1".to_string(), "b1".to_string()]);
}

#[test]
fn guest_without_visible_answers_is_dropped() {
    let r = other_guests_answers(
        BLOCKS_PUBLIC_ATTENDANCE,
        true,
        false,
        vec![stored("A", r#"{"c1":"x"}"#), stored("B", r#"{"b1":"z","a1":0}"#)],
    );
    assert_eq!(r.len(), 1);
    assert_eq!(r[0][0].guest_name, "B");
}

#[test]
fn organizer_sees_everything_with_marks() {
    let r = other_guests_answers(
        BLOCKS_PUBLIC_ATTENDANCE,
        true,
        true,
        vec![stored("X", r#"{"a1":2,"b1":"hi","c1":"s"}"#), stored("Y", r#"{"a1":0,"c1":"t"}"#), stored("Z", r#"{}"#)],
    );
    assert_eq!(r.len(), 3);
    assert_eq!(keys(&r[0]), vec!["a1".to_string(), "b1".to_string(), "c1".to_string()]);
    assert_eq!(r[0][0].guest_name, "X");
    assert_eq!(r[0][1].guest_name, "X (?)");
    assert_eq!(r[0][2].guest_name, "X (?)");
    assert_eq!(r[1][0].guest_name, "Y");
    assert_eq!(r[1][1].guest_name, "Y");
    assert!(r[2].is_empty());
}

#[test]
fn organizer_no_marks_without_rsvp_block() {
    let r = other_guests_answers(BLOCKS_PUBLIC_ATTENDANCE, false, true, vec![stored("X", r#"{"a1":2,"b1":"hi"}"#)]);
    assert_eq!(r[0][1].guest_name, "X");
}

#[test]
fn organizer_marks_missing_attendance_answer() {
    let r = other_guests_answers(BLOCKS_PUBLIC_ATTENDANCE, true, true, vec![stored("X", r#"{"b1":"hi"}"#)]);
    assert_eq!(r[0][0].guest_name, "X (?)");
}

#[test]
fn without_rsvp_block_public_answers_are_shown() {
    let r = other_guests_answers(BLOCKS_PUBLIC_ATTENDANCE, false, false, vec![stored("X", r#"{"a1":2,"b1":"hi"}"#)]);
    assert_eq!(keys(&r[0]), vec!["a1".to_string(), "b1".to_string()]);
}

#[test]
fn malformed_answers_and_blocks_degrade_to_nothing() {
    let r = other_guests_answers(BLOCKS_PUBLIC_ATTENDANCE, true, true, vec![stored("X", "{not json"), stored("Y", r#"{"b1":"ok"}"#)]);
    assert_eq!(r.len(), 1);
    assert_eq!(r[0][0].guest_name, "Y (?)");
    let r2 = other_guests_answers("garbage", true, false, vec![stored("Y", r#"{"b1":"ok"}"#)]);
    assert!(r2.is_empty());
}

#[test]
fn block_content_not_a_string_is_not_public() {
    let blocks = r#"[{"id":"b1","template":"text","content":{"public":true}}]"#;
    let r = other_guests_answers(blocks, false, false, vec![stored("X", r#"{"b1":"hi"}"#)]);
    assert!(r.is_empty());
}

#[test]
fn parse_json_reads_values() {
    let v = parse_json(r#"{"a":[1,true,null,"s",1.5]}"#).unwrap();
    let a = v.get("a").unwrap();
    match a {
        Json::Array(items) => {
            assert_eq!(items.len(), 5);
            assert_eq!(items[0].as_i64(), Some(1));
            assert_eq!(items[1].as_bool(), Some(true));
            assert!(matches!(items[2], Json::Null));
            assert_eq!(items[3].as_str(), Some("s"));
            assert!(matches!(&items[4], Json::Number(JsonNumber::Other(t)) if t == "1.5"));
        }
        _ => panic!("not an array"),
    }
    assert!(parse_json("{").is_none());
    assert!(v.get("b").is_none());
}
