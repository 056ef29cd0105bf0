use slatus::{
    expiration_for, get_status_outcome, plan_clear, plan_set, set_status_outcome, ProfileFields, RemoteReply,
    SavedStatus, SlatusError, StatusMap,
};

fn s(x: &str) -> String {
    x.to_string()
}

#[test]
fn expiration_ten_minutes() {
    assert_eq!(expiration_for(1_700_000_000, 10), Some(1_700_000_600));
}

#[test]
fn expiration_zero_minutes_never_expires() {
    assert_eq!(expiration_for(1_700_000_000, 0), Some(0));
}

#[test]
fn expiration_overflow() {
    assert_eq!(expiration_for(u64::MAX - 59, 1), None);
    assert_eq!(expiration_for(u64::MAX - 60, 1), Some(u64::MAX));
}

#[test]
fn plan_set_uses_preset_and_expiration() {
    let mut m = StatusMap::new();
    m.insert(s("lunch"), SavedStatus { text: s("Lunch"), emoji: s(":pizza:") });
    let u = plan_set(&m, &s("lunch"), 10, 1000).unwrap();
    assert_eq!(u.text, "Lunch");
    assert_eq!(u.emoji, ":pizza:");
    assert_eq!(u.expiration, 1600);
    assert_eq!(plan_set(&m, &s("lunch"), 0, 1000).unwrap().expiration, 0);
}

#[test]
fn plan_set_unknown_name() {
    let m = StatusMap::new();
    assert_eq!(plan_set(&m, &s("x"), 0, 0).unwrap_err(), SlatusError::NotFound(s("x")));
}

#[test]
fn plan_set_expiration_too_large() {
    let mut m = StatusMap::new();
    m.insert(s("a"), SavedStatus { text: s("t"), emoji: s("e") });
    assert_eq!(plan_set(&m, &s("a"), u64::MAX, 1).unwrap_err(), SlatusError::InvalidInput);
}

#[test]
fn clear_equals_set_of_empty_preset() {
    let mut m = StatusMap::new();
    m.insert(s("blank"), SavedStatus { text: s(""), emoji: s("") });
    let set = plan_set(&m, &s("blank"), 0, 12345).unwrap();
    let clear = plan_clear();
    assert_eq!((set.text, set.emoji, set.expiration), (clear.text, clear.emoji, clear.expiration));
}

#[test]
fn failure_reply_is_rejected_with_message() {
    let reply = RemoteReply::from_response(false, Some(s("invalid_auth")), None);
    assert_eq!(set_status_outcome(reply.clone()), Err(SlatusError::RemoteRejected(s("invalid_auth"))));
    assert_eq!(get_status_outcome(reply).unwrap_err(), SlatusError::RemoteRejected(s("invalid_auth")));
}

#[test]
fn failure_reply_without_message() {
    let reply = RemoteReply::from_response(false, None, None);
    assert_eq!(set_status_outcome(reply), Err(SlatusError::RemoteRejected(s("Unknown error"))));
}

#[test]
fn success_reply_sets() {
    let reply = RemoteReply::from_response(true, None, None);
    assert_eq!(set_status_outcome(reply), Ok(()));
}

#[test]
fn get_reply_missing_fields_are_empty() {
    let p = ProfileFields { status_text: Some(s("Lunch")), status_emoji: None };
    let reply = RemoteReply::from_response(true, None, Some(p));
    assert_eq!(get_status_outcome(reply).unwrap(), (s("Lunch"), s("")));
}

#[test]
fn get_reply_without_profile_is_decode_failure() {
    let reply = RemoteReply::from_response(true, None, None);
    assert_eq!(get_status_outcome(reply).unwrap_err(), SlatusError::DecodeFailure);
}
