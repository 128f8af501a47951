use std::collections::HashMap;

use pollus::error::AuthError;
use pollus::poll::{
    add_default_config, add_submissions, check_poll_id, config_ids, configs_from_groups,
    configs_from_rows, default_config, default_times, entries_fit, fill_missing_days, missing_days,
    times_table,
    users_from_rows, ConfigGroup, ConfigRow, PollConfig, PollEntry, PollUser, SubmissionRow,
    UserRow, WEEK_LEN,
};

const HOUR: u64 = 3_600_000_000_000;
const H20: u64 = 20 * HOUR;
const H21: u64 = 21 * HOUR;
const H22: u64 = 22 * HOUR;
const H23: u64 = 23 * HOUR;

fn row(cfg: i64, date: i32, time: u64) -> ConfigRow {
    ConfigRow { cfg, date, time }
}

fn sub(user: i64, cfg: i64, value: i16, time: u64) -> SubmissionRow {
    SubmissionRow { user, cfg, value, time }
}

fn config(date: i32, times: &[u64]) -> PollConfig {
    PollConfig { date, times: times_table(&times.to_vec()) }
}

#[test]
fn short_poll_ids_are_not_found() {
    assert_eq!(check_poll_id("abc"), Err(AuthError::NotFound));
    assert_eq!(check_poll_id("abcdefg"), Err(AuthError::NotFound));
    assert_eq!(check_poll_id("abcdefgh"), Ok(()));
    // eight bytes in four characters
    assert_eq!(check_poll_id("ääää"), Ok(()));
}

#[test]
fn default_times_are_the_evening_hours() {
    assert_eq!(default_times(), vec![H20, H21, H22, H23]);
    let c = default_config(738_000);
    assert_eq!(c.date, 738_000);
    assert_eq!(c.times.len(), 4);
    for t in [H20, H21, H22, H23] {
        assert_eq!(c.times[&t], vec![]);
    }
}

#[test]
fn times_table_collapses_repeats() {
    let t = times_table(&vec![5, 7, 5]);
    assert_eq!(t.len(), 2);
    assert!(t[&5].is_empty() && t[&7].is_empty());
}

#[test]
fn configs_are_built_from_rows() {
    let cfg = configs_from_rows(vec![row(1, 100, H20), row(2, 101, H21), row(1, 100, H22)]);
    assert_eq!(cfg.len(), 2);
    assert_eq!(cfg[&1], config(100, &[H20, H22]));
    assert_eq!(cfg[&2], config(101, &[H21]));
    assert!(configs_from_rows(vec![]).is_empty());
}

#[test]
fn later_group_of_an_id_stands() {
    let groups = vec![
        ConfigGroup { cfg: 1, date: 10, times: vec![1] },
        ConfigGroup { cfg: 1, date: 11, times: vec![2] },
    ];
    let cfg = configs_from_groups(&groups);
    assert_eq!(cfg.len(), 1);
    assert_eq!(cfg[&1], config(11, &[2]));
}

#[test]
fn missing_days_of_the_week() {
    let mut cfg = HashMap::new();
    cfg.insert(1, config(100, &[1]));
    cfg.insert(2, config(102, &[1]));
    cfg.insert(3, config(99, &[1]));
    assert_eq!(missing_days(&cfg, 100), vec![101, 103, 104, 105, 106]);
    assert_eq!(missing_days(&HashMap::new(), 0), vec![0, 1, 2, 3, 4, 5, 6]);
}

#[test]
fn filling_the_missing_days_covers_the_week() {
    let mut cfg = HashMap::new();
    cfg.insert(1, config(100, &[1]));
    cfg.insert(2, config(104, &[1]));
    let days = missing_days(&cfg, 100);
    for (i, day) in days.iter().enumerate() {
        add_default_config(&mut cfg, 10 + i as i64, *day);
    }
    assert!(missing_days(&cfg, 100).is_empty());
    assert_eq!(cfg.len(), WEEK_LEN as usize);
    assert_eq!(cfg[&1], config(100, &[1]));
    assert_eq!(cfg[&10], default_config(101));
}

#[test]
fn config_ids_lists_each_id_once() {
    let mut cfg = HashMap::new();
    cfg.insert(5, config(1, &[]));
    cfg.insert(3, config(2, &[]));
    cfg.insert(9, config(3, &[]));
    let mut ids = config_ids(&cfg);
    ids.sort();
    assert_eq!(ids, vec![3, 5, 9]);
}

#[test]
fn submissions_must_fit_the_configs() {
    let mut cfg = HashMap::new();
    cfg.insert(1, config(100, &[H20]));
    assert!(entries_fit(&cfg, &vec![sub(7, 1, 2, H20)]));
    assert!(!entries_fit(&cfg, &vec![sub(7, 1, 2, H21)]));
    assert!(!entries_fit(&cfg, &vec![sub(7, 2, 2, H20)]));
    assert!(entries_fit(&cfg, &vec![]));
}

#[test]
fn submissions_land_under_their_time_in_order() {
    let mut cfg = HashMap::new();
    cfg.insert(1, config(100, &[H20, H21]));
    cfg.insert(2, config(101, &[H20]));
    let rows = vec![
        sub(7, 1, 2, H20),
        sub(8, 1, 0, H20),
        sub(7, 2, 1, H20),
        sub(7, 1, 1, H21),
    ];
    let mut users = add_submissions(&mut cfg, &rows);
    users.sort();
    assert_eq!(users, vec![7, 8]);
    assert_eq!(
        cfg[&1].times[&H20],
        vec![PollEntry { user: 7, value: 2 }, PollEntry { user: 8, value: 0 }]
    );
    assert_eq!(cfg[&1].times[&H21], vec![PollEntry { user: 7, value: 1 }]);
    assert_eq!(cfg[&2].times[&H20], vec![PollEntry { user: 7, value: 1 }]);
    assert_eq!(cfg[&1].date, 100);
}

#[test]
fn users_are_built_from_rows() {
    let rows = vec![
        UserRow { id: 1, firstname: "Ada".to_string(), lastname: Some("Lovelace".to_string()) },
        UserRow { id: 2, firstname: "Alan".to_string(), lastname: None },
        UserRow { id: 1, firstname: "Augusta".to_string(), lastname: None },
    ];
    let users = users_from_rows(&rows);
    assert_eq!(users.len(), 2);
    assert_eq!(users[&1], PollUser { firstname: "Augusta".to_string(), lastname: None });
    assert_eq!(users[&2], PollUser { firstname: "Alan".to_string(), lastname: None });
}

#[test]
fn filling_in_one_step_covers_the_week_and_a_second_read_adds_nothing() {
    let mut cfg = HashMap::new();
    cfg.insert(1, config(101, &[H20]));
    cfg.insert(2, config(103, &[H21]));
    let days = missing_days(&cfg, 100);
    assert_eq!(days, vec![100, 102, 104, 105, 106]);
    let ids: Vec<i64> = vec![20, 21, 22, 23, 24];
    fill_missing_days(&mut cfg, &days, &ids);
    assert_eq!(cfg.len(), 7);
    assert_eq!(cfg[&20], default_config(100));
    assert_eq!(cfg[&24], default_config(106));
    assert_eq!(cfg[&1], config(101, &[H20]));
    assert!(missing_days(&cfg, 100).is_empty());
}
