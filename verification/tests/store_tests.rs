use reminder::database::Database;
use reminder::date::Date;
use reminder::interval::Interval;
use reminder::remindable::Remindable;
use reminder::result::Error;

fn task(key: &str, name: &str, date: &str, ivl: &str) -> Remindable {
    Remindable::from_strings(
        String::from(key),
        String::from(name),
        String::from(date),
        String::from(ivl),
    )
    .unwrap()
}

#[test]
fn insert_then_get_returns_identical_fields() {
    let mut db = Database::open_in_memory().unwrap();
    db.add_remindable(task("k1", "first task", "3.10.2022", "W2")).unwrap();
    let got = db.get_remindable_by_key(String::from("k1")).unwrap();
    assert_eq!(got.key, "k1");
    assert_eq!(got.name, "first task");
    assert_eq!(got.last_update, Date { year: 2022, month: 10, day: 3 });
    assert_eq!(got.remind_interval, Interval::Weeks(2));
}

#[test]
fn one_week_interval_is_retagged_as_days() {
    // The formatting threshold is strictly greater than one week, so `w1` is
    // stored as `D7` and reads back as a seven-day interval: the magnitude
    // survives the round trip, the unit tag does not.
    let mut db = Database::open_in_memory().unwrap();
    db.add_remindable(task("k1", "n", "3.10.2022", "w1")).unwrap();
    let got = db.get_remindable_by_key(String::from("k1")).unwrap();
    assert_eq!(got.remind_interval, Interval::Days(7));
    assert_eq!(got.get_remind_interval_string(), "D7");
}

#[test]
fn duplicate_insert_fails() {
    let mut db = Database::open_in_memory().unwrap();
    db.add_remindable(task("k1", "first", "1.1.2024", "D3")).unwrap();
    let r = db.add_remindable(task("k1", "second", "2.1.2024", "D4"));
    assert!(matches!(r, Err(Error::DuplicateKey)));
    let got = db.get_remindable_by_key(String::from("k1")).unwrap();
    assert_eq!(got.name, "first");
}

#[test]
fn get_missing_key_is_not_found() {
    let db = Database::open_in_memory().unwrap();
    let r = db.get_remindable_by_key(String::from("nope"));
    assert!(matches!(r, Err(Error::NotFound)));
}

#[test]
fn delete_by_pattern_removes_matching_keys_only() {
    let mut db = Database::open_in_memory().unwrap();
    db.add_remindable(task("k1", "a", "1.1.2024", "D1")).unwrap();
    db.add_remindable(task("k2", "b", "1.1.2024", "D1")).unwrap();
    db.add_remindable(task("alpha", "c", "1.1.2024", "D1")).unwrap();
    db.delete_entry_by_key(String::from("k%")).unwrap();
    assert!(matches!(db.get_remindable_by_key(String::from("k1")), Err(Error::NotFound)));
    assert!(matches!(db.get_remindable_by_key(String::from("k2")), Err(Error::NotFound)));
    assert!(db.get_remindable_by_key(String::from("alpha")).is_ok());
    assert_eq!(db.get_remindables().unwrap().len(), 1);
}

#[test]
fn delete_exact_key() {
    let mut db = Database::open_in_memory().unwrap();
    db.add_remindable(task("water", "a", "1.1.2024", "D1")).unwrap();
    db.add_remindable(task("garden", "b", "1.1.2024", "D1")).unwrap();
    db.delete_entry_by_key(String::from("water")).unwrap();
    assert!(matches!(db.get_remindable_by_key(String::from("water")), Err(Error::NotFound)));
    assert!(db.get_remindable_by_key(String::from("garden")).is_ok());
}

#[test]
fn update_missing_key_fails_and_leaves_store_unchanged() {
    let mut db = Database::open_in_memory().unwrap();
    db.add_remindable(task("k1", "kept", "1.1.2024", "D3")).unwrap();
    let r = db.update_remindable(task("ghost", "new", "2.2.2024", "D5"));
    assert!(matches!(r, Err(Error::NotFound)));
    let all = db.get_remindables().unwrap();
    assert_eq!(all.len(), 1);
    assert_eq!(all[0].key, "k1");
    assert_eq!(all[0].name, "kept");
    assert_eq!(all[0].last_update, Date { year: 2024, month: 1, day: 1 });
    assert_eq!(all[0].remind_interval, Interval::Days(3));
}

#[test]
fn update_overwrites_every_field() {
    let mut db = Database::open_in_memory().unwrap();
    db.add_remindable(task("k1", "old name", "1.1.2024", "D3")).unwrap();
    db.update_remindable(task("k1", "new name", "5.6.2025", "W2")).unwrap();
    let got = db.get_remindable_by_key(String::from("k1")).unwrap();
    assert_eq!(got.name, "new name");
    assert_eq!(got.last_update, Date { year: 2025, month: 6, day: 5 });
    assert_eq!(got.remind_interval, Interval::Weeks(2));
}

#[test]
fn list_all_decodes_every_record() {
    let mut db = Database::open_in_memory().unwrap();
    db.add_remindable(task("a", "first", "1.1.2024", "D1")).unwrap();
    db.add_remindable(task("b", "second", "2.2.2024", "W3")).unwrap();
    let mut all = db.get_remindables().unwrap();
    all.sort_by(|x, y| x.key.cmp(&y.key));
    assert_eq!(all.len(), 2);
    assert_eq!(all[0].key, "a");
    assert_eq!(all[0].remind_interval, Interval::Days(1));
    assert_eq!(all[1].key, "b");
    assert_eq!(all[1].last_update, Date { year: 2024, month: 2, day: 2 });
}

#[test]
fn list_all_of_empty_store_is_empty() {
    let db = Database::open_in_memory().unwrap();
    assert_eq!(db.get_remindables().unwrap().len(), 0);
}

#[test]
fn stored_text_is_normalized() {
    let mut db = Database::open_in_memory().unwrap();
    db.add_remindable(task("k1", "n", "03.01.2021", "d10")).unwrap();
    let got = db.get_remindable_by_key(String::from("k1")).unwrap();
    assert_eq!(got.get_last_update_string(), "3.1.2021");
    assert_eq!(got.get_remind_interval_string(), "D10");
}

#[test]
fn mark_done_today_clears_todo() {
    let mut db = Database::open_in_memory().unwrap();
    db.add_remindable(task("gym", "go", "1.1.2000", "D1")).unwrap();
    let stale = db.get_remindable_by_key(String::from("gym")).unwrap();
    assert!(stale.is_todo());
    db.set_remindable_done_today(String::from("gym")).unwrap();
    let fresh = db.get_remindable_by_key(String::from("gym")).unwrap();
    assert!(!fresh.is_todo());
    assert_eq!(fresh.name, "go");
    assert_eq!(fresh.remind_interval, Interval::Days(1));
}

#[test]
fn mark_done_on_missing_key_is_not_found() {
    let mut db = Database::open_in_memory().unwrap();
    let r = db.set_remindable_done_today(String::from("ghost"));
    assert!(matches!(r, Err(Error::NotFound)));
}

#[test]
fn update_last_update_by_key() {
    let mut db = Database::open_in_memory().unwrap();
    db.add_remindable(task("k1", "n", "1.1.2024", "D3")).unwrap();
    db.update_last_update(String::from("k1"), String::from("9.9.2024")).unwrap();
    let got = db.get_remindable_by_key(String::from("k1")).unwrap();
    assert_eq!(got.last_update, Date { year: 2024, month: 9, day: 9 });
    assert_eq!(got.remind_interval, Interval::Days(3));
}

#[test]
fn update_last_update_rejects_bad_text() {
    let mut db = Database::open_in_memory().unwrap();
    db.add_remindable(task("k1", "n", "1.1.2024", "D3")).unwrap();
    let r = db.update_last_update(String::from("k1"), String::from("not a date"));
    assert!(matches!(r, Err(Error::Parse(_))));
    let got = db.get_remindable_by_key(String::from("k1")).unwrap();
    assert_eq!(got.last_update, Date { year: 2024, month: 1, day: 1 });
}

#[test]
fn update_interval_by_key() {
    let mut db = Database::open_in_memory().unwrap();
    db.add_remindable(task("k1", "n", "1.1.2024", "D3")).unwrap();
    db.update_remindable_interval(String::from("k1"), String::from("W4")).unwrap();
    let got = db.get_remindable_by_key(String::from("k1")).unwrap();
    assert_eq!(got.remind_interval, Interval::Weeks(4));
    assert_eq!(got.last_update, Date { year: 2024, month: 1, day: 1 });
}

#[test]
fn update_name_by_key() {
    let mut db = Database::open_in_memory().unwrap();
    db.add_remindable(task("k1", "old", "1.1.2024", "D3")).unwrap();
    db.update_name(String::from("k1"), String::from("new")).unwrap();
    let got = db.get_remindable_by_key(String::from("k1")).unwrap();
    assert_eq!(got.name, "new");
}

#[test]
fn open_on_unreachable_path_is_storage_error() {
    let r = Database::open("/this/path/does/not/exist/reminder.db");
    assert!(matches!(r, Err(Error::Storage(_))));
}
