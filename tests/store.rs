use slatus::{load_statuses, remove_status, save_statuses, upsert_status, SavedStatus, SlatusError, StatusMap};

fn s(x: &str) -> String {
    x.to_string()
}

fn preset(text: &str, emoji: &str) -> SavedStatus {
    SavedStatus { text: s(text), emoji: s(emoji) }
}

#[test]
fn missing_store_is_empty() {
    let m = load_statuses(None).unwrap();
    assert!(m.is_empty());
    assert_eq!(m.len(), 0);
}

#[test]
fn save_then_load_gives_same_mapping() {
    let mut m = StatusMap::new();
    m.insert(s("lunch"), preset("Out for lunch", ":pizza:"));
    m.insert(s("meeting"), preset("In a \"meeting\"\n", ":calendar:"));
    m.insert(s("ünï"), preset("", ""));
    let text = save_statuses(&m);
    let back = load_statuses(Some(&text)).unwrap();
    assert_eq!(back.len(), 3);
    assert_eq!(back.get(&s("lunch")).unwrap().text, "Out for lunch");
    assert_eq!(back.get(&s("lunch")).unwrap().emoji, ":pizza:");
    assert_eq!(back.get(&s("meeting")).unwrap().text, "In a \"meeting\"\n");
    assert_eq!(back.get(&s("ünï")).unwrap().emoji, "");
}

#[test]
fn saved_text_is_a_pretty_json_object() {
    let mut m = StatusMap::new();
    m.insert(s("a"), preset("x", "y"));
    let text = save_statuses(&m);
    assert!(text.contains("\"a\": {"));
    assert!(text.contains("\"text\": \"x\""));
    assert!(text.contains("\"emoji\": \"y\""));
    assert!(text.contains('\n'));
}

#[test]
fn empty_mapping_round_trips() {
    let text = save_statuses(&StatusMap::new());
    assert_eq!(text, "{}");
    assert!(load_statuses(Some(&text)).unwrap().is_empty());
}

#[test]
fn reads_file_written_in_field_order_text_emoji() {
    let text = "{\n  \"wfh\": {\n    \"text\": \"Working from home\",\n    \"emoji\": \":house:\"\n  }\n}";
    let m = load_statuses(Some(text)).unwrap();
    assert_eq!(m.len(), 1);
    assert_eq!(m.get(&s("wfh")).unwrap().text, "Working from home");
    assert_eq!(m.get(&s("wfh")).unwrap().emoji, ":house:");
}

#[test]
fn unparsable_store_is_corrupt() {
    assert!(matches!(load_statuses(Some("not json")), Err(SlatusError::CorruptStore)));
    assert!(matches!(load_statuses(Some("[1, 2]")), Err(SlatusError::CorruptStore)));
    assert!(matches!(load_statuses(Some("")), Err(SlatusError::CorruptStore)));
}

#[test]
fn preset_without_emoji_is_corrupt() {
    let text = "{\"a\": {\"text\": \"x\"}}";
    assert!(matches!(load_statuses(Some(text)), Err(SlatusError::CorruptStore)));
}

#[test]
fn upsert_overwrites_same_name() {
    let first = upsert_status(None, s("a"), s("x"), s("y")).unwrap();
    let text = save_statuses(&first);
    let second = upsert_status(Some(&text), s("a"), s("p"), s("q")).unwrap();
    let text = save_statuses(&second);
    let m = load_statuses(Some(&text)).unwrap();
    assert_eq!(m.len(), 1);
    assert_eq!(m.get(&s("a")).unwrap().text, "p");
    assert_eq!(m.get(&s("a")).unwrap().emoji, "q");
}

#[test]
fn upsert_on_corrupt_store_fails() {
    assert!(matches!(upsert_status(Some("{"), s("a"), s("x"), s("y")), Err(SlatusError::CorruptStore)));
}

#[test]
fn remove_twice_second_finds_nothing() {
    let mut m = StatusMap::new();
    m.insert(s("a"), preset("x", "y"));
    m.insert(s("b"), preset("u", "v"));
    let text = save_statuses(&m);
    let after = remove_status(Some(&text), &s("a")).unwrap().unwrap();
    assert_eq!(after.len(), 1);
    assert!(after.get(&s("a")).is_none());
    let text = save_statuses(&after);
    assert!(remove_status(Some(&text), &s("a")).unwrap().is_none());
}

#[test]
fn remove_from_missing_store_finds_nothing() {
    assert!(remove_status(None, &s("a")).unwrap().is_none());
}

#[test]
fn map_insert_get_remove() {
    let mut m = StatusMap::new();
    m.insert(s("a"), preset("x", "y"));
    m.insert(s("b"), preset("u", "v"));
    m.insert(s("a"), preset("p", "q"));
    assert_eq!(m.len(), 2);
    assert_eq!(m.get(&s("a")).unwrap().text, "p");
    assert_eq!(m.entries().len(), 2);
    assert!(m.remove(&s("a")));
    assert!(!m.remove(&s("a")));
    assert_eq!(m.len(), 1);
    assert_eq!(m.get(&s("b")).unwrap().emoji, "v");
}
