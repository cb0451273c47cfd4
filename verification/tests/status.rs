use dispo::status::{check_status, engage, fix_status, holds_id};

fn v(xs: &[&str]) -> Vec<String> {
    xs.iter().map(|s| s.to_string()).collect()
}

#[test]
fn check_status_names_first_engaged() {
    let engaged = v(&["1", "2", "3"]);
    assert_eq!(check_status(&engaged, &v(&["5", "6"])), Ok(()));
    assert_eq!(check_status(&engaged, &v(&["5", "3", "2"])), Err("status: 3".to_string()));
    assert_eq!(check_status(&engaged, &v(&[])), Ok(()));
}

#[test]
fn engage_adds_only_free_players() {
    let mut engaged = v(&["1"]);
    assert_eq!(engage(&mut engaged, &v(&["2", "3"])), Ok(()));
    assert_eq!(engaged, v(&["1", "2", "3"]));
    assert_eq!(engage(&mut engaged, &v(&["4", "2"])), Err("status: 2".to_string()));
    assert_eq!(engaged, v(&["1", "2", "3"]));
}

#[test]
fn release_removes_every_copy() {
    let mut engaged = v(&["1", "2", "1", "3"]);
    fix_status(&mut engaged, &v(&["1", "9"]));
    assert_eq!(engaged, v(&["2", "3"]));
}

#[test]
fn engage_then_release_round_trip() {
    let start = v(&["7", "8"]);
    let mut engaged = start.clone();
    let ids = v(&["10", "11"]);
    assert!(engage(&mut engaged, &ids).is_ok());
    assert!(check_status(&engaged, &v(&["11"])).is_err());
    fix_status(&mut engaged, &ids);
    assert_eq!(engaged, start);
}

#[test]
fn holds_id_finds_strings() {
    let e = v(&["a", "b"]);
    assert!(holds_id(&e, &"b".to_string()));
    assert!(!holds_id(&e, &"c".to_string()));
}

#[test]
fn engaged_list_stays_distinct() {
    let mut engaged = v(&["1", "2"]);
    assert!(engage(&mut engaged, &v(&["3", "4"])).is_ok());
    assert!(engage(&mut engaged, &v(&["5", "1"])).is_err());
    let mut sorted = engaged.clone();
    sorted.sort();
    sorted.dedup();
    assert_eq!(sorted.len(), engaged.len());
}
