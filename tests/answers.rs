use party_hub::answers::{review_answers, filter_answers, count_yes, SaveRefusal};
use party_hub::blocks::{index_blocks, check_blocks, BlocksError, find_first_attendance};
use party_hub::datetime::{LocalDate, LocalDateTime};
use party_hub::json::{parse_json, Json};
use party_hub::registration::{review_registration, RegistrationRefusal};

const BLOCKS: &str = r#"[{"id":"a1","template":"attendance"},{"id":"b1","template":"text","content":"{\"public\":true}"}]"#;

fn at(year: i32, month: u32, day: u32, hour: u32, minute: u32) -> LocalDateTime {
    LocalDateTime { date: LocalDate { year, month, day }, hour, minute, second: 0, nanosecond: 0 }
}

fn keys_of(j: &Json) -> Vec<String> {
    match j {
        Json::Object(e) => e.iter().map(|(k, _)| k.clone()).collect(),
        _ => panic!("not an object"),
    }
}

fn now() -> LocalDateTime {
    at(2025, 6, 1, 12, 0)
}

#[test]
fn unknown_keys_dropped_on_save() {
    let answers = parse_json(r#"{"a1":1,"zz":"x","b1":"hello"}"#).unwrap();
    let r = review_answers(false, "", &now(), BLOCKS, 0, answers, "", &vec![]).unwrap();
    assert_eq!(keys_of(&r), vec!["a1".to_string(), "b1".to_string()]);
}

#[test]
fn non_object_answers_keep_nothing() {
    let blocks = parse_json(BLOCKS).unwrap();
    let r = filter_answers(parse_json("[1,2]").unwrap(), &index_blocks(&blocks));
    assert!(keys_of(&r).is_empty());
}

#[test]
fn frozen_party_refuses() {
    let answers = parse_json(r#"{"a1":0}"#).unwrap();
    let r = review_answers(true, "", &now(), BLOCKS, 0, answers, "", &vec![]);
    assert_eq!(r.err(), Some(SaveRefusal::Frozen));
}

#[test]
fn deadline_passed_refuses() {
    let answers = parse_json(r#"{"a1":1}"#).unwrap();
    let r = review_answers(false, "2025-05-31T10:00", &now(), BLOCKS, 0, answers, "", &vec![]);
    assert_eq!(r.err(), Some(SaveRefusal::DeadlinePassed));
}

#[test]
fn date_only_deadline_lasts_the_day() {
    let answers = parse_json(r#"{"a1":1}"#).unwrap();
    let r = review_answers(false, "2025-06-01", &now(), BLOCKS, 0, answers, "", &vec![]);
    assert!(r.is_ok());
    let late = LocalDateTime { date: LocalDate { year: 2025, month: 6, day: 1 }, hour: 23, minute: 59, second: 59, nanosecond: 1 };
    let answers = parse_json(r#"{"a1":1}"#).unwrap();
    let r = review_answers(false, "2025-06-01", &late, BLOCKS, 0, answers, "", &vec![]);
    assert_eq!(r.err(), Some(SaveRefusal::DeadlinePassed));
}

#[test]
fn unreadable_deadline_never_passes() {
    let answers = parse_json(r#"{"a1":1}"#).unwrap();
    let r = review_answers(false, "soon", &now(), BLOCKS, 0, answers, "", &vec![]);
    assert!(r.is_ok());
}

#[test]
fn full_party_refuses_new_yes() {
    let others = vec![r#"{"a1":0}"#.to_string(), r#"{"a1":0}"#.to_string(), r#"{"a1":2}"#.to_string(), String::new()];
    let answers = parse_json(r#"{"a1":0}"#).unwrap();
    let r = review_answers(false, "", &now(), BLOCKS, 2, answers, r#"{"a1":1}"#, &others);
    assert_eq!(r.err(), Some(SaveRefusal::PartyFull));
}

#[test]
fn full_party_lets_a_yes_stay_and_takes_no() {
    let others = vec![r#"{"a1":0}"#.to_string(), r#"{"a1":0}"#.to_string()];
    let answers = parse_json(r#"{"a1":0,"b1":"x"}"#).unwrap();
    assert!(review_answers(false, "", &now(), BLOCKS, 2, answers, r#"{"a1":0}"#, &others).is_ok());
    let answers = parse_json(r#"{"a1":2}"#).unwrap();
    assert!(review_answers(false, "", &now(), BLOCKS, 2, answers, "", &others).is_ok());
    let answers = parse_json(r#"{"a1":0}"#).unwrap();
    assert!(review_answers(false, "", &now(), BLOCKS, 3, answers, "", &others).is_ok());
}

#[test]
fn count_yes_skips_empty_and_malformed() {
    let texts = vec![r#"{"a1":0}"#.to_string(), "".to_string(), "{x".to_string(), r#"{"a1":"0"}"#.to_string(), r#"{"a1":0,"b":1}"#.to_string()];
    assert_eq!(count_yes(&texts, "a1"), 2);
}

#[test]
fn check_blocks_verdicts() {
    assert_eq!(check_blocks(BLOCKS), Ok(true));
    assert_eq!(check_blocks(r#"[{"id":"b1","template":"text"}]"#), Ok(false));
    assert_eq!(check_blocks("[]"), Ok(false));
    assert_eq!(
        check_blocks(r#"[{"id":"a","template":"attendance"},{"id":"b","template":"attendance"}]"#),
        Err(BlocksError::MultipleAttendance)
    );
    assert_eq!(check_blocks(r#"{"id":"a"}"#), Err(BlocksError::InvalidJson));
    assert_eq!(check_blocks("not json"), Err(BlocksError::InvalidJson));
}

#[test]
fn index_blocks_finds_ids_and_attendance() {
    let blocks = parse_json(r#"[{"id":"a1","template":"attendance","content":"{\"public\":true}"},{"template":"text"},{"id":"b1","template":"text","content":"{\"public\":false}"}]"#).unwrap();
    let idx = index_blocks(&blocks);
    assert_eq!(idx.ids, vec!["a1".to_string(), "b1".to_string()]);
    assert_eq!(idx.public_ids, vec!["a1".to_string()]);
    assert_eq!(idx.attendance_id, Some("a1".to_string()));
    assert_eq!(find_first_attendance(&blocks), Some("a1".to_string()));
}

#[test]
fn registration_verdicts() {
    let answers = vec![r#"{"a1":0}"#.to_string(), r#"{"a1":1}"#.to_string()];
    assert_eq!(review_registration(false, 0, BLOCKS, &answers), Some(RegistrationRefusal::NotPublic));
    assert_eq!(review_registration(true, 0, BLOCKS, &answers), None);
    assert_eq!(review_registration(true, 1, BLOCKS, &answers), Some(RegistrationRefusal::PartyFull));
    assert_eq!(review_registration(true, 2, BLOCKS, &answers), None);
    // Without an attendance block every invitation counts.
    assert_eq!(review_registration(true, 2, "[]", &answers), Some(RegistrationRefusal::PartyFull));
    assert_eq!(review_registration(true, 3, "[]", &answers), None);
}
