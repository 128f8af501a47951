//! Reading a poll: its configurations (one per day, each with the times
//! that can be answered), the answers given so far, and the users who gave
//! them. Every read makes sure that the poll has a configuration for each
//! of the next seven days.

use vstd::prelude::*;
use std::collections::{HashMap, HashSet};
use itertools::Itertools;
use vstd::std_specs::iter::IteratorSpec;
use crate::error::AuthError;

verus! {

broadcast use vstd::std_specs::hash::group_hash_axioms;

/// Poll ids shorter than this (in bytes) name no poll.
pub const MIN_POLL_ID_LEN: usize = 8;

/// A poll id that is too short is answered with `NotFound` before any
/// lookup.
pub fn check_poll_id(id: &str) -> (res: Result<(), AuthError>)
    ensures
        id.len() < MIN_POLL_ID_LEN ==> res == Err::<(), AuthError>(AuthError::NotFound),
        id.len() >= MIN_POLL_ID_LEN ==> res is Ok,
{
    if id.len() < MIN_POLL_ID_LEN {
        Err(AuthError::NotFound)
    } else {
        Ok(())
    }
}

/// One user's answer for one time of a configuration.
#[derive(Clone, Copy, Debug, PartialEq, Eq, Structural)]
pub struct PollEntry {
    pub user: i64,
    pub value: i16,
}

/// The configuration of a poll for one day: the day (counted in days from
/// 0001-01-01, which is day 1) and, for each time that can be answered (in
/// nanoseconds from midnight), the answers given for it.
#[derive(Debug, PartialEq, Eq)]
pub struct PollConfig {
    pub date: i32,
    pub times: HashMap<u64, Vec<PollEntry>>,
}

/// A configuration with its answer lists taken as sequences.
pub struct ConfigView {
    pub date: i32,
    pub times: Map<u64, Seq<PollEntry>>,
}

impl View for PollConfig {
    type V = ConfigView;

    open spec fn view(&self) -> ConfigView {
        ConfigView { date: self.date, times: self.times@.map_values(|v: Vec<PollEntry>| v@) }
    }
}

/// The configurations of a poll, by id, each taken by its view.
pub open spec fn configs_view(m: Map<i64, PollConfig>) -> Map<i64, ConfigView> {
    m.map_values(|c: PollConfig| c@)
}

/// A table with the given times and no answers yet.
pub open spec fn empty_times(times: Set<u64>) -> Map<u64, Seq<PollEntry>> {
    Map::new(|t: u64| times.contains(t), |t: u64| Seq::<PollEntry>::empty())
}

/// Builds the answer table of a configuration with these times, none
/// answered yet.
pub fn times_table(times: &Vec<u64>) -> (table: HashMap<u64, Vec<PollEntry>>)
    ensures
        table@.map_values(|v: Vec<PollEntry>| v@) == empty_times(times@.to_set()),
{
    let mut table: HashMap<u64, Vec<PollEntry>> = HashMap::new();
    let mut i: usize = 0;
    while i < times.len()
        invariant
            0 <= i <= times.len(),
            forall|t: u64| #[trigger]
                table@.contains_key(t) <==> exists|j: int| 0 <= j < i && times@[j] == t,
            forall|t: u64| #[trigger] table@.contains_key(t) ==> table@[t]@.len() == 0,
        decreases times.len() - i,
    {
        let t = times[i];
        table.insert(t, Vec::new());
        proof {
            assert forall|u: u64| #[trigger]
                table@.contains_key(u) <==> exists|j: int| 0 <= j < i + 1 && times@[j] == u by {
                if u == t {
                    assert(times@[i as int] == u);
                }
            }
        }
        i = i + 1;
    }
    proof {
        assert forall|t: u64| times@.to_set().contains(t) <==> table@.contains_key(t) by {
            if times@.to_set().contains(t) {
                let j = choose|j: int| 0 <= j < times.len() && times@[j] == t;
            }
        }
        assert forall|t: u64| #[trigger] table@.contains_key(t) implies table@[t]@ =~= Seq::<
            PollEntry,
        >::empty() by {}
        assert(table@.map_values(|v: Vec<PollEntry>| v@) =~= empty_times(times@.to_set()));
    }
    table
}

/// A row of the lookup of a poll's configurations: a configuration, its
/// day, and one of its times.
#[derive(Clone, Copy, Debug, PartialEq, Eq, Structural)]
pub struct ConfigRow {
    pub cfg: i64,
    pub date: i32,
    pub time: u64,
}

/// The rows that share a configuration and day, gathered: their times, in
/// the order of the rows.
#[derive(Debug, PartialEq, Eq)]
pub struct ConfigGroup {
    pub cfg: i64,
    pub date: i32,
    pub times: Vec<u64>,
}

/// The times of the rows of configuration `cfg` on day `date`, in order.
pub open spec fn group_times(rows: Seq<ConfigRow>, cfg: i64, date: i32) -> Seq<u64>
    decreases rows.len(),
{
    if rows.len() == 0 {
        Seq::empty()
    } else {
        let rest = group_times(rows.drop_last(), cfg, date);
        if rows.last().cfg == cfg && rows.last().date == date {
            rest.push(rows.last().time)
        } else {
            rest
        }
    }
}

/// Gathers the rows by configuration and day with
/// `itertools::Itertools::into_group_map`, and lists the groups. Claimed,
/// as the crate's source shows: each key of the rows gives one group, no
/// other group is made, and a group's times are those of its rows in their
/// order. The order of the groups follows the hash map and is not claimed.
#[verifier::external_body]
fn group_rows(rows: Vec<ConfigRow>) -> (groups: Vec<ConfigGroup>)
    ensures
        forall|i: int| #![trigger groups@[i]]
            0 <= i < groups.len() ==> groups@[i].times@ == group_times(
                rows@,
                groups@[i].cfg,
                groups@[i].date,
            ),
        forall|i: int, j: int| #![trigger groups@[i], groups@[j]]
            0 <= i < groups.len() && 0 <= j < groups.len() && i != j ==> !(groups@[i].cfg
                == groups@[j].cfg && groups@[i].date == groups@[j].date),
        forall|k: int| #![trigger rows@[k]]
            0 <= k < rows.len() ==> exists|i: int| #![trigger groups@[i]]
                0 <= i < groups.len() && groups@[i].cfg == rows@[k].cfg && groups@[i].date
                    == rows@[k].date,
        forall|i: int| #![trigger groups@[i]]
            0 <= i < groups.len() ==> exists|k: int| #![trigger rows@[k]]
                0 <= k < rows.len() && groups@[i].cfg == rows@[k].cfg && groups@[i].date
                    == rows@[k].date,
{
    rows.into_iter().map(|r| ((r.cfg, r.date), r.time)).into_group_map().into_iter().map(
        |((cfg, date), times)| ConfigGroup { cfg, date, times },
    ).collect()
}

/// The configuration that a group describes: its day, and its times with
/// no answers yet.
pub open spec fn group_config(g: ConfigGroup) -> ConfigView {
    ConfigView { date: g.date, times: empty_times(g.times@.to_set()) }
}

/// The configurations that a list of groups describes, by id; where two
/// groups share an id, the later one stands.
pub open spec fn configs_of(groups: Seq<ConfigGroup>) -> Map<i64, ConfigView>
    decreases groups.len(),
{
    if groups.len() == 0 {
        Map::empty()
    } else {
        configs_of(groups.drop_last()).insert(groups.last().cfg, group_config(groups.last()))
    }
}

/// Builds the configurations that a list of groups describes.
pub fn configs_from_groups(groups: &Vec<ConfigGroup>) -> (cfg: HashMap<i64, PollConfig>)
    ensures
        configs_view(cfg@) == configs_of(groups@),
{
    let mut cfg: HashMap<i64, PollConfig> = HashMap::new();
    let mut i: usize = 0;
    assert(configs_view(cfg@) =~= configs_of(groups@.take(0)));
    while i < groups.len()
        invariant
            0 <= i <= groups.len(),
            configs_view(cfg@) == configs_of(groups@.take(i as int)),
        decreases groups.len() - i,
    {
        let g = &groups[i];
        let times = times_table(&g.times);
        let ghost before = cfg@;
        cfg.insert(g.cfg, PollConfig { date: g.date, times });
        proof {
            assert(groups@.take(i + 1).drop_last() =~= groups@.take(i as int));
            assert(configs_view(cfg@) =~= configs_view(before).insert(g.cfg, group_config(*g)));
        }
        i = i + 1;
    }
    assert(groups@.take(groups.len() as int) =~= groups@);
    cfg
}

/// Each configuration that a list of groups describes is that of one of
/// the groups, and every group's id has one.
pub proof fn lemma_configs_of(groups: Seq<ConfigGroup>)
    ensures
        forall|id: i64| #[trigger]
            configs_of(groups).contains_key(id) <==> exists|i: int|
                0 <= i < groups.len() && groups[i].cfg == id,
        forall|id: i64| #[trigger]
            configs_of(groups).contains_key(id) ==> exists|i: int|
                0 <= i < groups.len() && groups[i].cfg == id && configs_of(groups)[id]
                    == group_config(groups[i]),
    decreases groups.len(),
{
    if groups.len() > 0 {
        let rest = groups.drop_last();
        lemma_configs_of(rest);
        assert forall|id: i64| #[trigger]
            configs_of(groups).contains_key(id) <==> exists|i: int|
                0 <= i < groups.len() && groups[i].cfg == id by {
            if exists|i: int| 0 <= i < groups.len() && groups[i].cfg == id {
                let i = choose|i: int| 0 <= i < groups.len() && groups[i].cfg == id;
                if i < groups.len() - 1 {
                    assert(rest[i] == groups[i]);
                }
            }
            if configs_of(rest).contains_key(id) {
                let i = choose|i: int| 0 <= i < rest.len() && rest[i].cfg == id;
                assert(groups[i] == rest[i]);
            }
        }
        assert forall|id: i64| #[trigger]
            configs_of(groups).contains_key(id) implies exists|i: int|
                0 <= i < groups.len() && groups[i].cfg == id && configs_of(groups)[id]
                    == group_config(groups[i]) by {
            if id == groups.last().cfg {
                assert(groups[groups.len() - 1] == groups.last());
            } else {
                let i = choose|i: int|
                    0 <= i < rest.len() && rest[i].cfg == id && configs_of(rest)[id]
                        == group_config(rest[i]);
                assert(groups[i] == rest[i]);
            }
        }
    }
}

/// The times that the rows give for configuration `cfg` on day `date`.
pub open spec fn row_times(rows: Seq<ConfigRow>, cfg: i64, date: i32) -> Set<u64> {
    Set::new(
        |t: u64| exists|k: int| 0 <= k < rows.len() && rows[k] == (ConfigRow { cfg, date, time: t }),
    )
}

/// The times gathered for a key are the times its rows give.
pub proof fn lemma_group_times_set(rows: Seq<ConfigRow>, cfg: i64, date: i32)
    ensures
        group_times(rows, cfg, date).to_set() == row_times(rows, cfg, date),
    decreases rows.len(),
{
    if rows.len() > 0 {
        let rest = rows.drop_last();
        lemma_group_times_set(rest, cfg, date);
        let last = rows.last();
        assert forall|t: u64|
            group_times(rows, cfg, date).to_set().contains(t) <==> row_times(
                rows,
                cfg,
                date,
            ).contains(t) by {
            if row_times(rows, cfg, date).contains(t) {
                let k = choose|k: int|
                    0 <= k < rows.len() && rows[k] == (ConfigRow { cfg, date, time: t });
                if k < rows.len() - 1 {
                    assert(rest[k] == rows[k]);
                    assert(row_times(rest, cfg, date).contains(t));
                    assert(group_times(rest, cfg, date).to_set().contains(t));
                    let j = choose|j: int|
                        0 <= j < group_times(rest, cfg, date).len() && group_times(
                            rest,
                            cfg,
                            date,
                        )[j] == t;
                    if last.cfg == cfg && last.date == date {
                        assert(group_times(rows, cfg, date)[j] == t);
                    }
                } else {
                    let g = group_times(rest, cfg, date);
                    assert(group_times(rows, cfg, date)[g.len() as int] == t);
                }
            }
            if group_times(rows, cfg, date).to_set().contains(t) {
                let g = group_times(rest, cfg, date);
                let j = choose|j: int|
                    0 <= j < group_times(rows, cfg, date).len() && group_times(rows, cfg, date)[j]
                        == t;
                if j < g.len() {
                    assert(g.to_set().contains(t));
                    let k = choose|k: int|
                        0 <= k < rest.len() && rest[k] == (ConfigRow { cfg, date, time: t });
                    assert(rows[k] == rest[k]);
                } else {
                    assert(rows[rows.len() - 1] == (ConfigRow { cfg, date, time: t }));
                }
            }
        }
        assert(group_times(rows, cfg, date).to_set() =~= row_times(rows, cfg, date));
    } else {
        assert(group_times(rows, cfg, date).to_set() =~= row_times(rows, cfg, date));
    }
}

/// Builds a poll's configurations from the rows of its lookup: one per
/// configuration id, on the day of one of its rows (the rows of one id
/// share a day where the database holds one day per configuration), with
/// the times that its rows give for that day and no answers yet.
pub fn configs_from_rows(rows: Vec<ConfigRow>) -> (cfg: HashMap<i64, PollConfig>)
    ensures
        forall|id: i64| #[trigger]
            cfg@.contains_key(id) <==> exists|k: int| 0 <= k < rows.len() && rows@[k].cfg == id,
        forall|id: i64| #[trigger]
            cfg@.contains_key(id) ==> {
                let c = configs_view(cfg@)[id];
                &&& exists|k: int|
                    0 <= k < rows.len() && rows@[k].cfg == id && rows@[k].date == c.date
                &&& c.times == empty_times(row_times(rows@, id, c.date))
            },
{
    let ghost r = rows@;
    let groups = group_rows(rows);
    let cfg = configs_from_groups(&groups);
    proof {
        lemma_configs_of(groups@);
        assert forall|id: i64| #[trigger]
            cfg@.contains_key(id) <==> exists|k: int| 0 <= k < r.len() && r[k].cfg == id by {
            if exists|k: int| 0 <= k < r.len() && r[k].cfg == id {
                let k = choose|k: int| 0 <= k < r.len() && r[k].cfg == id;
                let _ = r[k];
                let i = choose|i: int|
                    0 <= i < groups.len() && groups@[i].cfg == r[k].cfg && groups@[i].date
                        == r[k].date;
                assert(configs_view(cfg@).contains_key(id));
            }
            if cfg@.contains_key(id) {
                assert(configs_view(cfg@).contains_key(id));
                let i = choose|i: int| 0 <= i < groups.len() && groups@[i].cfg == id;
                let _ = groups@[i];
                let k = choose|k: int|
                    0 <= k < r.len() && groups@[i].cfg == r[k].cfg && groups@[i].date == r[k].date;
            }
        }
        assert forall|id: i64| #[trigger]
            cfg@.contains_key(id) implies {
                let c = configs_view(cfg@)[id];
                &&& exists|k: int| 0 <= k < r.len() && r[k].cfg == id && r[k].date == c.date
                &&& c.times == empty_times(row_times(r, id, c.date))
            } by {
            assert(configs_view(cfg@).contains_key(id));
            let i = choose|i: int|
                0 <= i < groups.len() && groups@[i].cfg == id && configs_of(groups@)[id]
                    == group_config(groups@[i]);
            let g = groups@[i];
            let k = choose|k: int|
                0 <= k < r.len() && groups@[i].cfg == r[k].cfg && groups@[i].date == r[k].date;
            lemma_group_times_set(r, g.cfg, g.date);
        }
    }
    cfg
}

/// Some configuration of the poll is for day `d`.
pub open spec fn has_date(m: Map<i64, ConfigView>, d: i32) -> bool {
    exists|k: i64| #[trigger] m.contains_key(k) && m[k].date == d
}

/// The days for which the poll has configurations, possibly repeated.
fn config_dates(cfg: &HashMap<i64, PollConfig>) -> (dates: HashSet<i32>)
    ensures
        forall|d: i32| #[trigger] dates@.contains(d) <==> has_date(configs_view(cfg@), d),
{
    let mut dates: HashSet<i32> = HashSet::new();
    let ghost keys = vstd::std_specs::hash::spec_keys_iter(cfg).remaining();
    proof {
        vstd::std_specs::hash::axiom_spec_keys_iter(cfg);
        assert forall|j: int| 0 <= j < keys.len() implies cfg@.contains_key(*keys[j]) by {
            assert(keys.unref()[j] == *keys[j]);
            assert(keys.unref().to_set().contains(*keys[j]));
        }
    }
    for k in it: cfg.keys()
        invariant
            it.seq() == keys,
            forall|j: int| 0 <= j < keys.len() ==> cfg@.contains_key(*keys[j]),
            forall|d: i32| #[trigger]
                dates@.contains(d) <==> exists|j: int|
                    0 <= j < it.index() && cfg@[*keys[j]].date == d,
    {
        let c = cfg.get(k).unwrap();
        let ghost before = dates@;
        dates.insert(c.date);
        proof {
            assert forall|d: i32| #[trigger]
                dates@.contains(d) <==> exists|j: int|
                    0 <= j < it.index() + 1 && cfg@[*keys[j]].date == d by {
                if d == c.date {
                    assert(cfg@[*keys[it.index()]].date == d);
                }
            }
        }
    }
    proof {
        assert forall|d: i32| #[trigger] dates@.contains(d) <==> has_date(configs_view(cfg@), d) by {
            if dates@.contains(d) {
                let j = choose|j: int| 0 <= j < keys.len() && cfg@[*keys[j]].date == d;
                let k = *keys[j];
                assert(configs_view(cfg@).contains_key(k));
            }
            if has_date(configs_view(cfg@), d) {
                let k = choose|k: i64| #[trigger]
                    configs_view(cfg@).contains_key(k) && configs_view(cfg@)[k].date == d;
                assert(keys.unref().to_set().contains(k));
                let j = choose|j: int| 0 <= j < keys.unref().len() && keys.unref()[j] == k;
                assert(cfg@[*keys[j]].date == d);
            }
        }
    }
    dates
}

/// How many days, counting the current one, a poll offers ahead.
pub const WEEK_LEN: i32 = 7;

/// Nanoseconds in an hour.
pub const NANOS_PER_HOUR: u64 = 3_600_000_000_000;

/// The days among the `n` days from `today` on, in order, for which the
/// poll has no configuration.
pub open spec fn missing_days_spec(m: Map<i64, ConfigView>, today: int, n: nat) -> Seq<i32>
    decreases n,
{
    if n == 0 {
        Seq::empty()
    } else {
        let rest = missing_days_spec(m, today, (n - 1) as nat);
        let d = (today + n - 1) as i32;
        if has_date(m, d) {
            rest
        } else {
            rest.push(d)
        }
    }
}

/// The days missing among the `n` days from `today` on are exactly those of
/// them that no configuration is for, each once, in increasing order.
pub proof fn lemma_missing_days_exact(m: Map<i64, ConfigView>, today: int, n: nat)
    requires
        i32::MIN <= today,
        today + n <= i32::MAX + 1,
    ensures
        forall|a: int, b: int|
            0 <= a < b < missing_days_spec(m, today, n).len() ==> missing_days_spec(m, today, n)[a]
                < missing_days_spec(m, today, n)[b],
        missing_days_spec(m, today, n).no_duplicates(),
        forall|d: i32|
            missing_days_spec(m, today, n).contains(d) <==> (today <= d < today + n && !(exists|
                k: i64,
            | m.contains_key(k) && #[trigger] m[k].date == d)),
    decreases n,
{
    let s = missing_days_spec(m, today, n);
    if n > 0 {
        let r = missing_days_spec(m, today, (n - 1) as nat);
        lemma_missing_days_exact(m, today, (n - 1) as nat);
        let d = (today + n - 1) as i32;
        assert forall|x: i32|
            s.contains(x) <==> (today <= x < today + n && !(exists|k: i64|
                m.contains_key(k) && #[trigger] m[k].date == x)) by {
            if s.contains(x) {
                let j = choose|j: int| 0 <= j < s.len() && s[j] == x;
                if j < r.len() {
                    assert(r[j] == x);
                    assert(r.contains(x));
                }
            }
            if today <= x < today + n && !(exists|k: i64| m.contains_key(k) && #[trigger] m[k].date
                == x) {
                if x < today + n - 1 {
                    assert(r.contains(x));
                    let j = choose|j: int| 0 <= j < r.len() && r[j] == x;
                    assert(s[j] == x);
                } else {
                    assert(x == d);
                    assert(!has_date(m, d));
                    assert(s[s.len() - 1] == x);
                }
            }
        }
        assert forall|a: int, b: int| 0 <= a < b < s.len() implies s[a] < s[b] by {
            if b == s.len() - 1 && s.len() > r.len() {
                assert(r.contains(s[a]));
            }
        }
    }
}

/// The days of the coming week (from `today` on) for which the poll has no
/// configuration yet, in order.
pub fn missing_days(cfg: &HashMap<i64, PollConfig>, today: i32) -> (days: Vec<i32>)
    requires
        today <= i32::MAX - (WEEK_LEN - 1),
    ensures
        days@ == missing_days_spec(configs_view(cfg@), today as int, WEEK_LEN as nat),
        days@.no_duplicates(),
        forall|d: i32|
            days@.contains(d) <==> (today <= d < today + WEEK_LEN && !(exists|k: i64|
                cfg@.contains_key(k) && #[trigger] cfg@[k].date == d)),
{
    proof {
        lemma_missing_days_exact(configs_view(cfg@), today as int, WEEK_LEN as nat);
        assert forall|k: i64| #[trigger] cfg@.contains_key(k) implies configs_view(cfg@).contains_key(k)
            && configs_view(cfg@)[k].date == cfg@[k].date by {}
    }
    let dates = config_dates(cfg);
    let mut days: Vec<i32> = Vec::new();
    let mut i: i32 = 0;
    while i < WEEK_LEN
        invariant
            0 <= i <= WEEK_LEN,
            today <= i32::MAX - (WEEK_LEN - 1),
            forall|d: i32| #[trigger] dates@.contains(d) <==> has_date(configs_view(cfg@), d),
            days@ == missing_days_spec(configs_view(cfg@), today as int, i as nat),
        decreases WEEK_LEN - i,
    {
        let d = today + i;
        if !dates.contains(&d) {
            days.push(d);
        }
        i = i + 1;
    }
    days
}

/// The times that a new configuration offers: the full hours from 20:00 to
/// 23:00, in nanoseconds from midnight.
pub open spec fn default_times_spec() -> Seq<u64> {
    seq![
        (20 * NANOS_PER_HOUR) as u64,
        (21 * NANOS_PER_HOUR) as u64,
        (22 * NANOS_PER_HOUR) as u64,
        (23 * NANOS_PER_HOUR) as u64,
    ]
}

/// The times that a new configuration offers, in order.
pub fn default_times() -> (times: Vec<u64>)
    ensures
        times@ == default_times_spec(),
{
    let times = vec![
        20 * NANOS_PER_HOUR,
        21 * NANOS_PER_HOUR,
        22 * NANOS_PER_HOUR,
        23 * NANOS_PER_HOUR,
    ];
    assert(times@ =~= default_times_spec());
    times
}

/// A new configuration for day `day`: the default times, no answers.
pub open spec fn default_config_spec(day: i32) -> ConfigView {
    ConfigView { date: day, times: empty_times(default_times_spec().to_set()) }
}

/// Builds a new configuration for day `day`.
pub fn default_config(day: i32) -> (c: PollConfig)
    ensures
        c@ == default_config_spec(day),
{
    let times = default_times();
    PollConfig { date: day, times: times_table(&times) }
}

/// Adds the new configuration `id` for day `day` to the poll.
pub fn add_default_config(cfg: &mut HashMap<i64, PollConfig>, id: i64, day: i32)
    ensures
        configs_view(final(cfg)@) == configs_view(old(cfg)@).insert(id, default_config_spec(day)),
{
    let c = default_config(day);
    cfg.insert(id, c);
    assert(configs_view(cfg@) =~= configs_view(old(cfg)@).insert(id, default_config_spec(day)));
}

/// The ids of the poll's configurations, each once, in no particular order.
pub fn config_ids(cfg: &HashMap<i64, PollConfig>) -> (ids: Vec<i64>)
    ensures
        ids@.no_duplicates(),
        ids@.to_set() == cfg@.dom(),
{
    let mut ids: Vec<i64> = Vec::new();
    let ghost keys = vstd::std_specs::hash::spec_keys_iter(cfg).remaining();
    proof {
        vstd::std_specs::hash::axiom_spec_keys_iter(cfg);
    }
    for k in it: cfg.keys()
        invariant
            it.seq() == keys,
            ids@.len() == it.index(),
            forall|j: int| #![trigger ids@[j]] 0 <= j < it.index() ==> ids@[j] == *keys[j],
    {
        ids.push(*k);
    }
    proof {
        assert(ids@ =~= keys.unref());
        assert forall|a: int, b: int| 0 <= a < ids.len() && 0 <= b < ids.len() && a != b implies ids@[a]
            != ids@[b] by {
            assert(keys[a] != keys[b]);
        }
    }
    ids
}

/// The configurations of a poll after the new configurations `ids[j]` for
/// the days `days[j]` have been added, in order.
pub open spec fn with_defaults(m: Map<i64, ConfigView>, ids: Seq<i64>, days: Seq<i32>) -> Map<
    i64,
    ConfigView,
>
    decreases days.len(),
{
    if days.len() == 0 || ids.len() == 0 {
        m
    } else {
        with_defaults(m, ids.drop_last(), days.drop_last()).insert(
            ids.last(),
            default_config_spec(days.last()),
        )
    }
}

proof fn lemma_with_defaults_keeps(m: Map<i64, ConfigView>, ids: Seq<i64>, days: Seq<i32>, k: i64)
    requires
        m.contains_key(k),
        !ids.contains(k),
    ensures
        with_defaults(m, ids, days).contains_key(k),
        with_defaults(m, ids, days)[k] == m[k],
    decreases days.len(),
{
    if days.len() > 0 && ids.len() > 0 {
        assert(ids[ids.len() - 1] == ids.last());
        assert forall|i: int| 0 <= i < ids.drop_last().len() implies ids.drop_last()[i] != k by {
            assert(ids.drop_last()[i] == ids[i]);
        }
        lemma_with_defaults_keeps(m, ids.drop_last(), days.drop_last(), k);
    }
}

proof fn lemma_with_defaults_adds(m: Map<i64, ConfigView>, ids: Seq<i64>, days: Seq<i32>, j: int)
    requires
        ids.len() == days.len(),
        ids.no_duplicates(),
        0 <= j < days.len(),
    ensures
        with_defaults(m, ids, days).contains_key(ids[j]),
        with_defaults(m, ids, days)[ids[j]] == default_config_spec(days[j]),
    decreases days.len(),
{
    if j < days.len() - 1 {
        let ids2 = ids.drop_last();
        assert(ids2[j] == ids[j]);
        assert(days.drop_last()[j] == days[j]);
        assert(ids[j] != ids.last());
        lemma_with_defaults_adds(m, ids2, days.drop_last(), j);
    }
}

proof fn lemma_missing_days(m: Map<i64, ConfigView>, today: int, n: nat, i: int)
    requires
        i32::MIN <= today,
        today + n - 1 <= i32::MAX,
        0 <= i < n,
    ensures
        !has_date(m, (today + i) as i32) ==> missing_days_spec(m, today, n).contains(
            (today + i) as i32,
        ),
    decreases n,
{
    let s = missing_days_spec(m, today, n);
    if i < n - 1 {
        lemma_missing_days(m, today, (n - 1) as nat, i);
        let r = missing_days_spec(m, today, (n - 1) as nat);
        if r.contains((today + i) as i32) {
            let j = choose|j: int| 0 <= j < r.len() && r[j] == (today + i) as i32;
            assert(s[j] == r[j]);
        }
    } else {
        if !has_date(m, (today + i) as i32) {
            assert(s[s.len() - 1] == (today + i) as i32);
        }
    }
}

/// After a read has added a new configuration, with a fresh id, for each
/// day of the coming week that lacked one, every day of the coming week has
/// a configuration, and the configurations the poll had are unchanged.
pub proof fn lemma_week_covered(m: Map<i64, ConfigView>, today: i32, ids: Seq<i64>)
    requires
        today <= i32::MAX - (WEEK_LEN - 1),
        ids.len() == missing_days_spec(m, today as int, WEEK_LEN as nat).len(),
        ids.no_duplicates(),
        forall|j: int| 0 <= j < ids.len() ==> !m.contains_key(#[trigger] ids[j]),
    ensures
        forall|i: int|
            0 <= i < WEEK_LEN ==> has_date(
                with_defaults(m, ids, missing_days_spec(m, today as int, WEEK_LEN as nat)),
                #[trigger] ((today + i) as i32),
            ),
        forall|k: i64| #[trigger]
            m.contains_key(k) ==> with_defaults(
                m,
                ids,
                missing_days_spec(m, today as int, WEEK_LEN as nat),
            ).contains_key(k) && with_defaults(
                m,
                ids,
                missing_days_spec(m, today as int, WEEK_LEN as nat),
            )[k] == m[k],
{
    let days = missing_days_spec(m, today as int, WEEK_LEN as nat);
    let r = with_defaults(m, ids, days);
    assert forall|k: i64| #[trigger] m.contains_key(k) implies r.contains_key(k) && r[k] == m[k] by {
        if ids.contains(k) {
            let j = choose|j: int| 0 <= j < ids.len() && ids[j] == k;
        }
        lemma_with_defaults_keeps(m, ids, days, k);
    }
    assert forall|i: int| 0 <= i < WEEK_LEN implies has_date(r, #[trigger] ((today + i) as i32)) by {
        let d = (today + i) as i32;
        if has_date(m, d) {
            let k = choose|k: i64| #[trigger] m.contains_key(k) && m[k].date == d;
            assert(r.contains_key(k) && r[k] == m[k]);
        } else {
            lemma_missing_days(m, today as int, WEEK_LEN as nat, i);
            let j = choose|j: int| 0 <= j < days.len() && days[j] == d;
            lemma_with_defaults_adds(m, ids, days, j);
            assert(r.contains_key(ids[j]) && r[ids[j]].date == d);
        }
    }
}

/// Adds, for each missing day `days[j]`, a new configuration with the id
/// `ids[j]` that the database gave it, in order.
pub fn fill_missing_days(cfg: &mut HashMap<i64, PollConfig>, days: &Vec<i32>, ids: &Vec<i64>)
    requires
        days.len() == ids.len(),
    ensures
        configs_view(final(cfg)@) == with_defaults(configs_view(old(cfg)@), ids@, days@),
{
    let ghost m0 = configs_view(cfg@);
    let mut i: usize = 0;
    assert(with_defaults(m0, ids@.take(0), days@.take(0)) == m0);
    while i < days.len()
        invariant
            0 <= i <= days.len(),
            days.len() == ids.len(),
            configs_view(cfg@) == with_defaults(m0, ids@.take(i as int), days@.take(i as int)),
        decreases days.len() - i,
    {
        add_default_config(cfg, ids[i], days[i]);
        proof {
            assert(ids@.take(i + 1).drop_last() =~= ids@.take(i as int));
            assert(days@.take(i + 1).drop_last() =~= days@.take(i as int));
            assert(ids@.take(i + 1).last() == ids@[i as int]);
            assert(days@.take(i + 1).last() == days@[i as int]);
        }
        i = i + 1;
    }
    assert(ids@.take(ids.len() as int) =~= ids@);
    assert(days@.take(days.len() as int) =~= days@);
}

proof fn lemma_covered_days_not_missing(m: Map<i64, ConfigView>, today: int, n: nat)
    requires
        forall|i: int| 0 <= i < n ==> has_date(m, #[trigger] ((today + i) as i32)),
    ensures
        missing_days_spec(m, today, n) == Seq::<i32>::empty(),
    decreases n,
{
    if n > 0 {
        lemma_covered_days_not_missing(m, today, (n - 1) as nat);
        let i = n - 1;
        assert(has_date(m, ((today + i) as i32)));
    }
}

/// Once a read has filled the coming week, with fresh ids, no day of it is
/// missing any more: a second read on the same day adds nothing.
pub proof fn lemma_filled_week_has_no_missing_days(m: Map<i64, ConfigView>, today: i32, ids: Seq<i64>)
    requires
        today <= i32::MAX - (WEEK_LEN - 1),
        ids.len() == missing_days_spec(m, today as int, WEEK_LEN as nat).len(),
        ids.no_duplicates(),
        forall|j: int| 0 <= j < ids.len() ==> !m.contains_key(#[trigger] ids[j]),
    ensures
        missing_days_spec(
            with_defaults(m, ids, missing_days_spec(m, today as int, WEEK_LEN as nat)),
            today as int,
            WEEK_LEN as nat,
        ) == Seq::<i32>::empty(),
{
    lemma_week_covered(m, today, ids);
    lemma_covered_days_not_missing(
        with_defaults(m, ids, missing_days_spec(m, today as int, WEEK_LEN as nat)),
        today as int,
        WEEK_LEN as nat,
    );
}

/// A row of the lookup of the answers given to a poll's configurations: a
/// user's answer `value` for time `time` of configuration `cfg`.
#[derive(Clone, Copy, Debug, PartialEq, Eq, Structural)]
pub struct SubmissionRow {
    pub user: i64,
    pub cfg: i64,
    pub value: i16,
    pub time: u64,
}

/// The answer of a row, as the poll lists it.
pub open spec fn entry_of(r: SubmissionRow) -> PollEntry {
    PollEntry { user: r.user, value: r.value }
}

/// The row names a configuration of the poll and one of its times.
pub open spec fn fits(m: Map<i64, ConfigView>, r: SubmissionRow) -> bool {
    m.contains_key(r.cfg) && m[r.cfg].times.contains_key(r.time)
}

/// Every row names a configuration of the poll and one of its times.
pub open spec fn all_fit(m: Map<i64, ConfigView>, rows: Seq<SubmissionRow>) -> bool {
    forall|k: int| 0 <= k < rows.len() ==> fits(m, #[trigger] rows[k])
}

/// The poll with the answer of row `r` appended to the list of its time.
pub open spec fn add_entry(m: Map<i64, ConfigView>, r: SubmissionRow) -> Map<i64, ConfigView> {
    let c = m[r.cfg];
    m.insert(
        r.cfg,
        ConfigView { date: c.date, times: c.times.insert(r.time, c.times[r.time].push(entry_of(r))) },
    )
}

/// The poll with the answers of the rows appended, in order.
pub open spec fn add_entries(m: Map<i64, ConfigView>, rows: Seq<SubmissionRow>) -> Map<
    i64,
    ConfigView,
>
    decreases rows.len(),
{
    if rows.len() == 0 {
        m
    } else {
        add_entry(add_entries(m, rows.drop_last()), rows.last())
    }
}

/// The answers that the rows give for time `t` of configuration `c`, in
/// order.
pub open spec fn entries_at(rows: Seq<SubmissionRow>, c: i64, t: u64) -> Seq<PollEntry>
    decreases rows.len(),
{
    if rows.len() == 0 {
        Seq::empty()
    } else {
        let rest = entries_at(rows.drop_last(), c, t);
        if rows.last().cfg == c && rows.last().time == t {
            rest.push(entry_of(rows.last()))
        } else {
            rest
        }
    }
}

/// The users who gave the answers of the rows.
pub open spec fn row_users(rows: Seq<SubmissionRow>) -> Set<i64> {
    Set::new(|u: i64| exists|k: int| 0 <= k < rows.len() && rows[k].user == u)
}

/// Whether every row names a configuration of the poll and one of its
/// times.
pub fn entries_fit(cfg: &HashMap<i64, PollConfig>, rows: &Vec<SubmissionRow>) -> (ok: bool)
    ensures
        ok == all_fit(configs_view(cfg@), rows@),
{
    let mut i: usize = 0;
    while i < rows.len()
        invariant
            0 <= i <= rows.len(),
            forall|k: int| 0 <= k < i ==> fits(configs_view(cfg@), #[trigger] rows@[k]),
        decreases rows.len() - i,
    {
        let r = rows[i];
        match cfg.get(&r.cfg) {
            None => {
                assert(!fits(configs_view(cfg@), rows@[i as int]));
                return false;
            },
            Some(c) => {
                if !c.times.contains_key(&r.time) {
                    assert(!fits(configs_view(cfg@), rows@[i as int]));
                    return false;
                }
            },
        }
        i = i + 1;
    }
    true
}

/// The members of a set of user ids, each once, in no particular order.
fn set_to_list(set: &HashSet<i64>) -> (list: Vec<i64>)
    ensures
        list@.no_duplicates(),
        list@.to_set() == set@,
{
    let mut list: Vec<i64> = Vec::new();
    let ghost members = vstd::std_specs::hash::spec_hash_keys_iter(set).remaining();
    proof {
        vstd::std_specs::hash::axiom_spec_hash_keys_iter(set);
    }
    for u in it: set.iter()
        invariant
            it.seq() == members,
            list@.len() == it.index(),
            forall|j: int| #![trigger list@[j]] 0 <= j < it.index() ==> list@[j] == *members[j],
    {
        list.push(*u);
    }
    proof {
        assert(list@ =~= members.unref());
        assert forall|a: int, b: int|
            0 <= a < list.len() && 0 <= b < list.len() && a != b implies list@[a] != list@[b] by {
            assert(members[a] != members[b]);
        }
    }
    list
}

proof fn lemma_add_entry_shape(m: Map<i64, ConfigView>, r: SubmissionRow)
    requires
        fits(m, r),
    ensures
        add_entry(m, r).dom() == m.dom(),
        forall|c: i64| #[trigger]
            m.contains_key(c) ==> add_entry(m, r)[c].date == m[c].date && add_entry(
                m,
                r,
            )[c].times.dom() == m[c].times.dom(),
{
    assert(add_entry(m, r).dom() =~= m.dom());
    assert forall|c: i64| #[trigger] m.contains_key(c) implies add_entry(m, r)[c].date == m[c].date
        && add_entry(m, r)[c].times.dom() == m[c].times.dom() by {
        if c == r.cfg {
            assert(add_entry(m, r)[c].times.dom() =~= m[c].times.dom());
        }
    }
}

/// Appending answers changes neither the configurations, nor their days,
/// nor their times.
pub proof fn lemma_add_entries_shape(m: Map<i64, ConfigView>, rows: Seq<SubmissionRow>)
    requires
        all_fit(m, rows),
    ensures
        add_entries(m, rows).dom() == m.dom(),
        forall|c: i64| #[trigger]
            m.contains_key(c) ==> add_entries(m, rows)[c].date == m[c].date && add_entries(
                m,
                rows,
            )[c].times.dom() == m[c].times.dom(),
    decreases rows.len(),
{
    if rows.len() > 0 {
        let rest = rows.drop_last();
        assert forall|k: int| 0 <= k < rest.len() implies fits(m, #[trigger] rest[k]) by {
            assert(rest[k] == rows[k]);
        }
        lemma_add_entries_shape(m, rest);
        let p = add_entries(m, rest);
        assert(fits(m, rows[rows.len() - 1]));
        lemma_add_entry_shape(p, rows.last());
    }
}

/// Adds the answers of the rows to the poll, in order, and lists the users
/// who gave them, each once. Every row must name a configuration of the
/// poll and one of its times (the lookup only returns such rows).
pub fn add_submissions(cfg: &mut HashMap<i64, PollConfig>, rows: &Vec<SubmissionRow>) -> (users:
    Vec<i64>)
    requires
        all_fit(configs_view(old(cfg)@), rows@),
    ensures
        configs_view(final(cfg)@) == add_entries(configs_view(old(cfg)@), rows@),
        users@.no_duplicates(),
        users@.to_set() == row_users(rows@),
{
    let ghost m0 = configs_view(cfg@);
    let mut users: HashSet<i64> = HashSet::new();
    let mut i: usize = 0;
    while i < rows.len()
        invariant
            0 <= i <= rows.len(),
            all_fit(m0, rows@),
            configs_view(cfg@) == add_entries(m0, rows@.take(i as int)),
            users@ == row_users(rows@.take(i as int)),
        decreases rows.len() - i,
    {
        let r = rows[i];
        let ghost before = configs_view(cfg@);
        proof {
            let pre = rows@.take(i as int);
            assert forall|k: int| 0 <= k < pre.len() implies fits(m0, #[trigger] pre[k]) by {
                assert(pre[k] == rows@[k]);
            }
            lemma_add_entries_shape(m0, pre);
            assert(fits(m0, rows@[i as int]));
            assert(fits(before, r));
        }
        let mut c = cfg.remove(&r.cfg).unwrap();
        let mut list = c.times.remove(&r.time).unwrap();
        list.push(PollEntry { user: r.user, value: r.value });
        c.times.insert(r.time, list);
        cfg.insert(r.cfg, c);
        proof {
            assert(rows@.take(i + 1).drop_last() =~= rows@.take(i as int));
            assert(rows@.take(i + 1).last() == r);
            let bc = before[r.cfg];
            assert(c@.times =~= bc.times.insert(r.time, bc.times[r.time].push(entry_of(r))));
            assert(configs_view(cfg@) =~= add_entry(before, r));
        }
        users.insert(r.user);
        proof {
            let p0 = rows@.take(i as int);
            let p1 = rows@.take(i + 1);
            assert forall|u: i64| row_users(p1).contains(u) implies row_users(p0).insert(
                r.user,
            ).contains(u) by {
                let k = choose|k: int| 0 <= k < p1.len() && #[trigger] p1[k].user == u;
                if k < i {
                    assert(p0[k] == p1[k]);
                }
            }
            assert forall|u: i64| row_users(p0).insert(r.user).contains(u) implies row_users(
                p1,
            ).contains(u) by {
                if u == r.user {
                    assert(p1[i as int] == r);
                } else {
                    let k = choose|k: int| 0 <= k < p0.len() && #[trigger] p0[k].user == u;
                    assert(p1[k] == p0[k]);
                }
            }
            assert(row_users(p1) =~= row_users(p0).insert(r.user));
        }
        i = i + 1;
    }
    assert(rows@.take(rows.len() as int) =~= rows@);
    set_to_list(&users)
}

/// Each answer read for a poll ends up in the list of its configuration and
/// time, after the answers already there and in the order of the rows; no
/// list gets any other answer.
pub proof fn lemma_answers_land_in_place(
    m: Map<i64, ConfigView>,
    rows: Seq<SubmissionRow>,
    c: i64,
    t: u64,
)
    requires
        all_fit(m, rows),
        m.contains_key(c),
        m[c].times.contains_key(t),
    ensures
        add_entries(m, rows)[c].times[t] == m[c].times[t] + entries_at(rows, c, t),
    decreases rows.len(),
{
    if rows.len() == 0 {
        assert(m[c].times[t] + entries_at(rows, c, t) =~= m[c].times[t]);
    } else {
        let rest = rows.drop_last();
        assert forall|k: int| 0 <= k < rest.len() implies fits(m, #[trigger] rest[k]) by {
            assert(rest[k] == rows[k]);
        }
        lemma_answers_land_in_place(m, rest, c, t);
        lemma_add_entries_shape(m, rest);
        let p = add_entries(m, rest);
        let r = rows.last();
        assert(fits(m, rows[rows.len() - 1]));
        if r.cfg == c && r.time == t {
            assert(m[c].times[t] + entries_at(rows, c, t) =~= (m[c].times[t] + entries_at(
                rest,
                c,
                t,
            )).push(entry_of(r)));
        }
    }
}

/// A user of a poll, as the poll lists them.
#[derive(Debug, PartialEq, Eq)]
pub struct PollUser {
    pub firstname: String,
    pub lastname: Option<String>,
}

/// A user with their names taken as characters.
pub struct UserView {
    pub firstname: Seq<char>,
    pub lastname: Option<Seq<char>>,
}

/// An optional name taken as characters.
pub open spec fn opt_view(s: Option<String>) -> Option<Seq<char>> {
    match s {
        Some(s) => Some(s@),
        None => None,
    }
}

impl View for PollUser {
    type V = UserView;

    open spec fn view(&self) -> UserView {
        UserView { firstname: self.firstname@, lastname: opt_view(self.lastname) }
    }
}

/// A row of the lookup of a poll's users.
#[derive(Debug, PartialEq, Eq)]
pub struct UserRow {
    pub id: i64,
    pub firstname: String,
    pub lastname: Option<String>,
}

/// The users that the rows describe, by id; where two rows share an id,
/// the later one stands.
pub open spec fn users_of(rows: Seq<UserRow>) -> Map<i64, UserView>
    decreases rows.len(),
{
    if rows.len() == 0 {
        Map::empty()
    } else {
        users_of(rows.drop_last()).insert(
            rows.last().id,
            UserView { firstname: rows.last().firstname@, lastname: opt_view(rows.last().lastname) },
        )
    }
}

/// The users of a poll are exactly those the rows name, each with the first
/// and last name of the last row that names them.
pub proof fn lemma_users_of_last_row(rows: Seq<UserRow>)
    ensures
        forall|id: i64| #[trigger]
            users_of(rows).contains_key(id) <==> exists|k: int| 0 <= k < rows.len() && rows[k].id == id,
        forall|id: i64| #[trigger]
            users_of(rows).contains_key(id) ==> exists|k: int|
                #![trigger rows[k]]
                0 <= k < rows.len() && rows[k].id == id && (forall|j: int|
                    k < j < rows.len() ==> #[trigger] rows[j].id != id) && users_of(rows)[id].firstname
                    == rows[k].firstname@ && (rows[k].lastname is None ==> users_of(rows)[id].lastname
                    is None) && (rows[k].lastname is Some ==> users_of(rows)[id].lastname == Some(
                    rows[k].lastname->0@,
                )),
    decreases rows.len(),
{
    if rows.len() > 0 {
        let rest = rows.drop_last();
        lemma_users_of_last_row(rest);
        let n = rows.len() - 1;
        assert(rows[n] == rows.last());
        assert forall|id: i64| #[trigger]
            users_of(rows).contains_key(id) <==> exists|k: int| 0 <= k < rows.len() && rows[k].id == id by {
            if exists|k: int| 0 <= k < rows.len() && rows[k].id == id {
                let k = choose|k: int| 0 <= k < rows.len() && rows[k].id == id;
                if k < n {
                    assert(rest[k] == rows[k]);
                }
            }
            if users_of(rest).contains_key(id) {
                let k = choose|k: int| 0 <= k < rest.len() && rest[k].id == id;
                assert(rows[k] == rest[k]);
            }
        }
        assert forall|id: i64| #[trigger] users_of(rows).contains_key(id) implies exists|k: int|
            #![trigger rows[k]]
            0 <= k < rows.len() && rows[k].id == id && (forall|j: int|
                k < j < rows.len() ==> #[trigger] rows[j].id != id) && users_of(rows)[id].firstname
                == rows[k].firstname@ && (rows[k].lastname is None ==> users_of(rows)[id].lastname
                is None) && (rows[k].lastname is Some ==> users_of(rows)[id].lastname == Some(
                rows[k].lastname->0@,
            )) by {
            if id == rows.last().id {
                assert(rows[n].id == id);
            } else {
                let k = choose|k: int|
                    #![trigger rest[k]]
                    0 <= k < rest.len() && rest[k].id == id && (forall|j: int|
                        k < j < rest.len() ==> #[trigger] rest[j].id != id) && users_of(rest)[id].firstname
                        == rest[k].firstname@ && (rest[k].lastname is None ==> users_of(rest)[id].lastname
                        is None) && (rest[k].lastname is Some ==> users_of(rest)[id].lastname == Some(
                        rest[k].lastname->0@,
                    ));
                assert(rows[k] == rest[k]);
                assert forall|j: int| k < j < rows.len() implies #[trigger] rows[j].id != id by {
                    if j < n {
                        assert(rest[j] == rows[j]);
                    }
                }
            }
        }
    }
}

/// Builds the table of a poll's users from the rows of their lookup.
pub fn users_from_rows(rows: &Vec<UserRow>) -> (users: HashMap<i64, PollUser>)
    ensures
        users@.map_values(|u: PollUser| u@) == users_of(rows@),
        forall|id: i64| #[trigger]
            users@.contains_key(id) <==> exists|k: int| 0 <= k < rows.len() && rows@[k].id == id,
        forall|id: i64| #[trigger]
            users@.contains_key(id) ==> exists|k: int|
                #![trigger rows@[k]]
                0 <= k < rows.len() && rows@[k].id == id && (forall|j: int|
                    k < j < rows.len() ==> #[trigger] rows@[j].id != id) && users@[id].firstname@
                    == rows@[k].firstname@ && (rows@[k].lastname is None ==> users@[id].lastname
                    is None) && (rows@[k].lastname is Some ==> users@[id].lastname is Some
                    && users@[id].lastname->0@ == rows@[k].lastname->0@),
{
    proof {
        lemma_users_of_last_row(rows@);
    }
    let mut users: HashMap<i64, PollUser> = HashMap::new();
    let mut i: usize = 0;
    assert(users@.map_values(|u: PollUser| u@) =~= users_of(rows@.take(0)));
    while i < rows.len()
        invariant
            0 <= i <= rows.len(),
            users@.map_values(|u: PollUser| u@) == users_of(rows@.take(i as int)),
        decreases rows.len() - i,
    {
        let row = &rows[i];
        let lastname = match &row.lastname {
            Some(name) => Some(name.clone()),
            None => None,
        };
        let ghost before = users@;
        users.insert(row.id, PollUser { firstname: row.firstname.clone(), lastname });
        proof {
            assert(rows@.take(i + 1).drop_last() =~= rows@.take(i as int));
            assert(users@.map_values(|u: PollUser| u@) =~= before.map_values(|u: PollUser| u@).insert(
                row.id,
                UserView { firstname: row.firstname@, lastname: opt_view(row.lastname) },
            ));
        }
        i = i + 1;
    }
    assert(rows@.take(rows.len() as int) =~= rows@);
    proof {
        lemma_users_of_last_row(rows@);
        let mv = users@.map_values(|u: PollUser| u@);
        assert forall|id: i64| #[trigger]
            users@.contains_key(id) <==> exists|k: int| 0 <= k < rows.len() && rows@[k].id == id by {
            assert(users@.contains_key(id) == mv.contains_key(id));
        }
        assert forall|id: i64| #[trigger] users@.contains_key(id) implies exists|k: int|
            #![trigger rows@[k]]
            0 <= k < rows.len() && rows@[k].id == id && (forall|j: int|
                k < j < rows.len() ==> #[trigger] rows@[j].id != id) && users@[id].firstname@
                == rows@[k].firstname@ && (rows@[k].lastname is None ==> users@[id].lastname
                is None) && (rows@[k].lastname is Some ==> users@[id].lastname is Some
                && users@[id].lastname->0@ == rows@[k].lastname->0@) by {
            assert(mv.contains_key(id));
            assert(mv[id] == users@[id]@);
            let k = choose|k: int|
                #![trigger rows@[k]]
                0 <= k < rows.len() && rows@[k].id == id && (forall|j: int|
                    k < j < rows.len() ==> #[trigger] rows@[j].id != id) && users_of(rows@)[id].firstname
                    == rows@[k].firstname@ && (rows@[k].lastname is None ==> users_of(rows@)[id].lastname
                    is None) && (rows@[k].lastname is Some ==> users_of(rows@)[id].lastname == Some(
                    rows@[k].lastname->0@,
                ));
            assert(rows@[k].id == id);
        }
    }
    users
}

/// A poll as it is read: its id, its configurations by id, and the users
/// who answered, by id.
#[derive(Debug, PartialEq, Eq)]
pub struct Poll {
    pub id: String,
    pub cfg: HashMap<i64, PollConfig>,
    pub user: HashMap<i64, PollUser>,
}

} // verus!
