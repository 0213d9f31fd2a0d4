use speedtest::history::{HistoryRecord, TestHistory};

fn record(id: &str, value: u32) -> HistoryRecord<u32> {
    HistoryRecord { id: id.to_string(), timestamp: format!("ts-{}", id), result: value }
}

#[test]
fn added_records_come_first() {
    let mut h: TestHistory<u32> = TestHistory::new();
    h.add_record_with("1".to_string(), "t1".to_string(), 10);
    h.add_record_with("2".to_string(), "t2".to_string(), 20);
    let all = h.get_all(50);
    assert_eq!(all.len(), 2);
    assert_eq!(all[0].id, "2");
    assert_eq!(all[1].id, "1");
    assert_eq!(all[0].result, 20);
}

#[test]
fn get_all_is_limited() {
    let h = TestHistory::from_records((0..10).map(|i| record(&i.to_string(), i)).collect());
    assert_eq!(h.get_all(3).len(), 3);
    assert_eq!(h.get_all(3)[2].id, "2");
    assert_eq!(h.get_all(50).len(), 10);
    assert_eq!(h.get_all(0).len(), 0);
}

#[test]
fn get_by_id_finds_the_newest_with_that_id() {
    let h = TestHistory::from_records(vec![record("a", 1), record("b", 2), record("a", 3)]);
    let r = h.get_by_id("a").unwrap();
    assert_eq!(r.result, 1);
    assert_eq!(r.timestamp, "ts-a");
    assert!(h.get_by_id("zzz").is_none());
}

#[test]
fn delete_removes_every_record_with_the_id() {
    let mut h = TestHistory::from_records(vec![record("a", 1), record("b", 2), record("a", 3)]);
    assert!(h.delete_record("a"));
    assert_eq!(h.len(), 1);
    assert_eq!(h.records()[0].id, "b");
    assert!(!h.delete_record("a"));
    assert!(h.get_by_id("a").is_none());
}

#[test]
fn add_then_delete_restores() {
    let mut h = TestHistory::from_records(vec![record("x", 1), record("y", 2)]);
    h.add_record_with("new".to_string(), "now".to_string(), 9);
    assert_eq!(h.get_by_id("new").unwrap().result, 9);
    assert!(h.delete_record("new"));
    let ids: Vec<String> = h.records().iter().map(|r| r.id.clone()).collect();
    assert_eq!(ids, vec!["x".to_string(), "y".to_string()]);
}

#[test]
fn clear_all_empties() {
    let mut h = TestHistory::from_records(vec![record("x", 1)]);
    h.clear_all();
    assert_eq!(h.len(), 0);
    assert!(h.get_all(50).is_empty());
}

#[test]
fn add_record_stamps_with_the_clock() {
    let mut h: TestHistory<u32> = TestHistory::new();
    let id = h.add_record(5);
    assert_eq!(id.len(), 14);
    assert!(id.chars().all(|c| c.is_ascii_digit()));
    let r = h.get_by_id(&id).unwrap();
    assert_eq!(r.result, 5);
    let t: Vec<char> = r.timestamp.chars().collect();
    assert!(t.len() >= 25);
    assert_eq!((t[4], t[7], t[10], t[13], t[16]), ('-', '-', 'T', ':', ':'));
    assert!(t[t.len() - 3] == ':' && (t[t.len() - 6] == '+' || t[t.len() - 6] == '-'));
}
