//! Recent-form summaries over a player's match history: per-champion records, the
//! most played champions of the recent window, form tags and matchup notes.

use vstd::prelude::*;
use crate::domain::{
    AdvisorPlayerTag, AdvisorPowerSpike, AdvisorTagTone, ChampSelectTeam, MatchResult, RankedChampionLane,
    RecentChampionSummary,
};
use crate::text::{ascii_lower, concat2, decimal_digits, eq_ignore_ascii_case, nat_to_string, str_eq};

verus! {

/// How many of the most recent matches the form summaries look at.
pub const PERFORMANCE_MATCH_COUNT: usize = 6;

/// The champion played and the result of one match, newest first in a history.
#[derive(Debug, Clone, Copy, PartialEq, Eq)]
pub struct MatchOutcome {
    pub champion_id: Option<i64>,
    pub result: MatchResult,
}

/// Wins, losses and games of one champion over a match window.
#[derive(Debug, Clone, Copy, PartialEq, Eq)]
pub struct ChampionRecordSummary {
    pub champion_id: i64,
    pub wins: usize,
    pub losses: usize,
    pub games: usize,
}

/// The champions of `m` that have an id, each once, in the order of their first match.
pub open spec fn record_ids(m: Seq<MatchOutcome>) -> Seq<i64>
    decreases m.len(),
{
    if m.len() == 0 {
        Seq::empty()
    } else {
        let ids = record_ids(m.drop_last());
        match m.last().champion_id {
            Some(id) => if ids.contains(id) {
                ids
            } else {
                ids.push(id)
            },
            None => ids,
        }
    }
}

/// How many matches of `m` were played on champion `id`.
pub open spec fn games_of(m: Seq<MatchOutcome>, id: i64) -> nat
    decreases m.len(),
{
    if m.len() == 0 {
        0
    } else {
        games_of(m.drop_last(), id) + if m.last().champion_id == Some(id) {
            1nat
        } else {
            0nat
        }
    }
}

/// How many matches of `m` were played on champion `id` and ended with `r`.
pub open spec fn results_of(m: Seq<MatchOutcome>, id: i64, r: MatchResult) -> nat
    decreases m.len(),
{
    if m.len() == 0 {
        0
    } else {
        results_of(m.drop_last(), id, r) + if m.last().champion_id == Some(id)
            && m.last().result == r {
            1nat
        } else {
            0nat
        }
    }
}

/// The record of champion `id` over `m`.
pub open spec fn record_of(m: Seq<MatchOutcome>, id: i64) -> ChampionRecordSummary {
    ChampionRecordSummary {
        champion_id: id,
        wins: results_of(m, id, MatchResult::Win) as usize,
        losses: results_of(m, id, MatchResult::Loss) as usize,
        games: games_of(m, id) as usize,
    }
}

/// No champion is listed twice, and a champion is listed exactly when it was played.
pub proof fn lemma_record_ids_distinct(m: Seq<MatchOutcome>)
    ensures
        record_ids(m).no_duplicates(),
        forall|id: i64| #[trigger] record_ids(m).contains(id) <==> games_of(m, id) > 0,
    decreases m.len(),
{
    if m.len() > 0 {
        let p = m.drop_last();
        lemma_record_ids_distinct(p);
        assert forall|id: i64| #[trigger] record_ids(m).contains(id) <==> games_of(m, id) > 0 by {
            match m.last().champion_id {
                Some(x) => {
                    if record_ids(p).contains(x) {
                        assert(record_ids(m) == record_ids(p));
                    } else {
                        assert(record_ids(m) == record_ids(p).push(x));
                        if id == x {
                            assert(record_ids(m)[record_ids(p).len() as int] == id);
                        } else {
                            if record_ids(m).contains(id) {
                                let k = choose|k: int|
                                    0 <= k < record_ids(m).len() && record_ids(m)[k] == id;
                                assert(record_ids(p)[k] == id);
                            }
                            if record_ids(p).contains(id) {
                                let k = choose|k: int|
                                    0 <= k < record_ids(p).len() && record_ids(p)[k] == id;
                                assert(record_ids(m)[k] == id);
                            }
                        }
                    }
                },
                None => {
                    assert(record_ids(m) == record_ids(p));
                },
            }
        }
    }
}

/// Counts never exceed the number of matches, and a result count never exceeds the games.
pub proof fn lemma_counts_bounded(m: Seq<MatchOutcome>, id: i64)
    ensures
        games_of(m, id) <= m.len(),
        results_of(m, id, MatchResult::Win) + results_of(m, id, MatchResult::Loss) <= games_of(
            m,
            id,
        ),
    decreases m.len(),
{
    if m.len() > 0 {
        lemma_counts_bounded(m.drop_last(), id);
    }
}

/// How many matches of `m` were played on a known champion.
pub open spec fn counted_matches(m: Seq<MatchOutcome>) -> nat
    decreases m.len(),
{
    if m.len() == 0 {
        0
    } else {
        counted_matches(m.drop_last()) + if m.last().champion_id is Some {
            1nat
        } else {
            0nat
        }
    }
}

/// The games of the champions `ids` over `m`, added up.
pub open spec fn sum_games(m: Seq<MatchOutcome>, ids: Seq<i64>) -> nat
    decreases ids.len(),
{
    if ids.len() == 0 {
        0
    } else {
        sum_games(m, ids.drop_last()) + games_of(m, ids.last())
    }
}

proof fn lemma_sum_games_step(m: Seq<MatchOutcome>, ids: Seq<i64>)
    requires
        m.len() > 0,
    ensures
        m.last().champion_id is None ==> sum_games(m, ids) == sum_games(m.drop_last(), ids),
        m.last().champion_id matches Some(c) ==> sum_games(m, ids) == sum_games(m.drop_last(), ids)
            + occurrences(ids, c),
    decreases ids.len(),
{
    if ids.len() > 0 {
        lemma_sum_games_step(m, ids.drop_last());
    }
}

proof fn lemma_occurrences_of_distinct(ids: Seq<i64>, c: i64)
    requires
        ids.no_duplicates(),
    ensures
        ids.contains(c) ==> occurrences(ids, c) == 1,
        !ids.contains(c) ==> occurrences(ids, c) == 0,
    decreases ids.len(),
{
    if ids.len() > 0 {
        let p = ids.drop_last();
        assert(p.no_duplicates());
        lemma_occurrences_of_distinct(p, c);
        if ids.last() == c {
            assert(!p.contains(c)) by {
                if p.contains(c) {
                    let k = choose|k: int| 0 <= k < p.len() && p[k] == c;
                    assert(ids[k] == ids[ids.len() - 1]);
                }
            }
        } else {
            if ids.contains(c) {
                let k = choose|k: int| 0 <= k < ids.len() && ids[k] == c;
                assert(p[k] == c);
            }
            if p.contains(c) {
                let k = choose|k: int| 0 <= k < p.len() && p[k] == c;
                assert(ids[k] == c);
            }
        }
    }
}

/// Every match played on a known champion counts toward exactly one champion record: the
/// games of all records add up to the number of such matches.
pub proof fn lemma_records_count_every_match(m: Seq<MatchOutcome>)
    ensures
        sum_games(m, record_ids(m)) == counted_matches(m),
    decreases m.len(),
{
    if m.len() > 0 {
        let p = m.drop_last();
        lemma_records_count_every_match(p);
        lemma_record_ids_distinct(p);
        let ids = record_ids(p);
        lemma_sum_games_step(m, ids);
        match m.last().champion_id {
            Some(c) => {
                lemma_occurrences_of_distinct(ids, c);
                if ids.contains(c) {
                    assert(record_ids(m) == ids);
                } else {
                    assert(record_ids(m) == ids.push(c));
                    assert(ids.push(c).drop_last() =~= ids);
                    assert(games_of(p, c) == 0);
                }
            },
            None => {
                assert(record_ids(m) == ids);
            },
        }
    }
}

/// Win/loss record per champion over the whole window given, in the order in which
/// each champion first appears; a match with an unknown result counts as a game only,
/// and a match without a champion id is not counted.
pub fn summarize_champion_records(matches: &Vec<MatchOutcome>) -> (r: Vec<ChampionRecordSummary>)
    ensures
        r.len() == record_ids(matches@).len(),
        forall|k: int|
            0 <= k < r.len() ==> r[k] == record_of(matches@, #[trigger] record_ids(matches@)[k]),
{
    let mut records: Vec<ChampionRecordSummary> = Vec::new();
    let mut i: usize = 0;
    while i < matches.len()
        invariant
            i <= matches.len(),
            records.len() == record_ids(matches@.take(i as int)).len(),
            forall|k: int|
                0 <= k < records.len() ==> records[k] == record_of(
                    matches@.take(i as int),
                    #[trigger] record_ids(matches@.take(i as int))[k],
                ),
        decreases matches.len() - i,
    {
        let ghost prev = matches@.take(i as int);
        let ghost next = matches@.take(i + 1);
        let outcome = matches[i];
        assert(next.drop_last() =~= prev);
        assert(next.last() == outcome);
        proof {
            lemma_record_ids_distinct(prev);
        }
        match outcome.champion_id {
            Some(id) => {
                let mut j: usize = 0;
                while j < records.len() && records[j].champion_id != id
                    invariant
                        j <= records.len(),
                        forall|k: int| 0 <= k < j ==> records[k].champion_id != id,
                    decreases records.len() - j,
                {
                    j = j + 1;
                }
                proof {
                    lemma_counts_bounded(prev, id);
                }
                if j < records.len() {
                    assert(record_ids(prev)[j as int] == id);
                    assert(record_ids(prev).contains(id));
                    assert(record_ids(next) == record_ids(prev));
                    let old_record = records[j];
                    let updated = ChampionRecordSummary {
                        champion_id: id,
                        wins: if outcome.result == MatchResult::Win {
                            old_record.wins + 1
                        } else {
                            old_record.wins
                        },
                        losses: if outcome.result == MatchResult::Loss {
                            old_record.losses + 1
                        } else {
                            old_record.losses
                        },
                        games: old_record.games + 1,
                    };
                    records.set(j, updated);
                    assert forall|k: int| 0 <= k < records.len() implies records[k] == record_of(
                        next,
                        #[trigger] record_ids(next)[k],
                    ) by {
                        if k != j {
                            assert(record_ids(prev)[k] != record_ids(prev)[j as int]);
                        }
                    }
                } else {
                    assert(!record_ids(prev).contains(id)) by {
                        if record_ids(prev).contains(id) {
                            let k = choose|k: int|
                                0 <= k < record_ids(prev).len() && record_ids(prev)[k] == id;
                            assert(records[k].champion_id == id);
                        }
                    }
                    assert(record_ids(next) == record_ids(prev).push(id));
                    assert(games_of(prev, id) == 0);
                    records.push(ChampionRecordSummary {
                        champion_id: id,
                        wins: if outcome.result == MatchResult::Win {
                            1
                        } else {
                            0
                        },
                        losses: if outcome.result == MatchResult::Loss {
                            1
                        } else {
                            0
                        },
                        games: 1,
                    });
                    assert forall|k: int| 0 <= k < records.len() implies records[k] == record_of(
                        next,
                        #[trigger] record_ids(next)[k],
                    ) by {
                        if k < records.len() - 1 {
                            assert(record_ids(next)[k] == record_ids(prev)[k]);
                            assert(record_ids(prev)[k] != id);
                        }
                    }
                }
            },
            None => {
                assert(record_ids(next) == record_ids(prev));
                assert forall|k: int| 0 <= k < records.len() implies records[k] == record_of(
                    next,
                    #[trigger] record_ids(next)[k],
                ) by {}
            },
        }
        i = i + 1;
    }
    assert(matches@.take(matches.len() as int) =~= matches@);
    records
}

/// The champion of one match as the history shows it: its id where known, and its name.
#[derive(Debug, Clone, PartialEq, Eq)]
pub struct PlayedChampion {
    pub champion_id: Option<i64>,
    pub champion_name: String,
}

/// The values of `s`, each once, in the order of their first occurrence.
pub open spec fn distinct_in_order<K>(s: Seq<K>) -> Seq<K>
    decreases s.len(),
{
    if s.len() == 0 {
        Seq::empty()
    } else {
        let d = distinct_in_order(s.drop_last());
        if d.contains(s.last()) {
            d
        } else {
            d.push(s.last())
        }
    }
}

/// How often `k` occurs in `s`.
pub open spec fn occurrences<K>(s: Seq<K>, k: K) -> nat
    decreases s.len(),
{
    if s.len() == 0 {
        0
    } else {
        occurrences(s.drop_last(), k) + if s.last() == k {
            1nat
        } else {
            0nat
        }
    }
}

/// `distinct_in_order` lists each value once, and exactly the values that occur.
pub proof fn lemma_distinct_in_order<K>(s: Seq<K>)
    ensures
        distinct_in_order(s).no_duplicates(),
        forall|k: K| #[trigger] distinct_in_order(s).contains(k) <==> occurrences(s, k) > 0,
    decreases s.len(),
{
    if s.len() > 0 {
        let p = s.drop_last();
        lemma_distinct_in_order(p);
        let x = s.last();
        assert forall|k: K| #[trigger] distinct_in_order(s).contains(k) <==> occurrences(s, k) > 0 by {
            if distinct_in_order(p).contains(x) {
                assert(distinct_in_order(s) == distinct_in_order(p));
            } else {
                assert(distinct_in_order(s) == distinct_in_order(p).push(x));
                if k == x {
                    assert(distinct_in_order(s)[distinct_in_order(p).len() as int] == k);
                } else {
                    if distinct_in_order(s).contains(k) {
                        let i = choose|i: int|
                            0 <= i < distinct_in_order(s).len() && distinct_in_order(s)[i] == k;
                        assert(distinct_in_order(p)[i] == k);
                    }
                    if distinct_in_order(p).contains(k) {
                        let i = choose|i: int|
                            0 <= i < distinct_in_order(p).len() && distinct_in_order(p)[i] == k;
                        assert(distinct_in_order(s)[i] == k);
                    }
                }
            }
        }
    }
}

/// A value occurs at most as often as `s` is long.
pub proof fn lemma_occurrences_bounded<K>(s: Seq<K>, k: K)
    ensures
        occurrences(s, k) <= s.len(),
    decreases s.len(),
{
    if s.len() > 0 {
        lemma_occurrences_bounded(s.drop_last(), k);
    }
}

/// The key by which matches on the same champion are grouped.
pub open spec fn played_key(p: PlayedChampion) -> (Option<i64>, Seq<char>) {
    (p.champion_id, p.champion_name@)
}

/// The keys of the recent window: the first `PERFORMANCE_MATCH_COUNT` matches of `m`.
pub open spec fn window_keys(m: Seq<PlayedChampion>) -> Seq<(Option<i64>, Seq<char>)> {
    let w = if m.len() <= PERFORMANCE_MATCH_COUNT {
        m
    } else {
        m.take(PERFORMANCE_MATCH_COUNT as int)
    };
    w.map_values(|p: PlayedChampion| played_key(p))
}

/// The summary of a group, as a key and a count.
pub open spec fn summary_view(s: RecentChampionSummary) -> (Option<i64>, Seq<char>, nat) {
    (s.champion_id, s.champion_name@, s.games as nat)
}

/// Group `a` comes before group `b` of `g`: it was played more often, or as often and
/// first seen earlier.
pub open spec fn ranks_before(g: Seq<RecentChampionSummary>, a: int, b: int) -> bool {
    g[a].games > g[b].games || (g[a].games == g[b].games && a < b)
}

/// `pick` lists the indices of the (at most) three first groups of `g` in rank order.
pub open spec fn is_top_three(g: Seq<RecentChampionSummary>, pick: Seq<int>) -> bool {
    &&& pick.len() == if g.len() < 3 {
        g.len() as int
    } else {
        3
    }
    &&& forall|k: int| 0 <= k < pick.len() ==> 0 <= #[trigger] pick[k] < g.len()
    &&& forall|a: int, b: int|
        0 <= a < b < pick.len() ==> ranks_before(g, #[trigger] pick[a], #[trigger] pick[b])
    &&& forall|j: int, k: int|
        #![trigger pick.contains(j), pick[k]]
        0 <= j < g.len() && !pick.contains(j) && 0 <= k < pick.len() ==> ranks_before(g, pick[k], j)
}

/// Counts the matches of the recent window per champion, in first-seen order.
fn group_recent_champions(matches: &Vec<PlayedChampion>) -> (g: Vec<RecentChampionSummary>)
    ensures
        g.len() == distinct_in_order(window_keys(matches@)).len(),
        forall|k: int|
            0 <= k < g.len() ==> summary_view(#[trigger] g[k]) == ({
                let key = distinct_in_order(window_keys(matches@))[k];
                (key.0, key.1, occurrences(window_keys(matches@), key))
            }),
{
    let n: usize = if matches.len() <= PERFORMANCE_MATCH_COUNT {
        matches.len()
    } else {
        PERFORMANCE_MATCH_COUNT
    };
    let ghost ks = window_keys(matches@);
    assert(ks.len() == n);
    let mut groups: Vec<RecentChampionSummary> = Vec::new();
    let mut i: usize = 0;
    while i < n
        invariant
            i <= n,
            n <= matches.len(),
            ks == window_keys(matches@),
            ks.len() == n,
            forall|t: int| 0 <= t < n ==> #[trigger] ks[t] == played_key(matches@[t]),
            groups.len() == distinct_in_order(ks.take(i as int)).len(),
            forall|k: int|
                0 <= k < groups.len() ==> summary_view(#[trigger] groups[k]) == ({
                    let key = distinct_in_order(ks.take(i as int))[k];
                    (key.0, key.1, occurrences(ks.take(i as int), key))
                }),
        decreases n - i,
    {
        let ghost prev = ks.take(i as int);
        let ghost next = ks.take(i + 1);
        assert(next.drop_last() =~= prev);
        let id = matches[i].champion_id;
        let name = &matches[i].champion_name;
        let ghost key = played_key(matches@[i as int]);
        assert(next.last() == key);
        proof {
            lemma_distinct_in_order(prev);
            lemma_occurrences_bounded(prev, key);
        }
        let mut j: usize = 0;
        while j < groups.len() && !(same_id(groups[j].champion_id, id) && str_eq(
            groups[j].champion_name.as_str(),
            name.as_str(),
        ))
            invariant
                j <= groups.len(),
                key == (id, name@),
                forall|k: int|
                    0 <= k < j ==> (#[trigger] groups[k].champion_id, groups[k].champion_name@)
                        != key,
            decreases groups.len() - j,
        {
            j = j + 1;
        }
        if j < groups.len() {
            assert(distinct_in_order(prev)[j as int] == key);
            assert(distinct_in_order(prev).contains(key));
            assert(distinct_in_order(next) == distinct_in_order(prev));
            let updated = RecentChampionSummary {
                champion_id: id,
                champion_name: groups[j].champion_name.clone(),
                games: groups[j].games + 1,
            };
            groups.set(j, updated);
            assert forall|k: int| 0 <= k < groups.len() implies summary_view(
                #[trigger] groups[k],
            ) == ({
                let kk = distinct_in_order(next)[k];
                (kk.0, kk.1, occurrences(next, kk))
            }) by {
                if k != j {
                    assert(distinct_in_order(prev)[k] != distinct_in_order(prev)[j as int]);
                }
            }
        } else {
            assert(!distinct_in_order(prev).contains(key)) by {
                if distinct_in_order(prev).contains(key) {
                    let k = choose|k: int|
                        0 <= k < distinct_in_order(prev).len() && distinct_in_order(prev)[k]
                            == key;
                    assert(summary_view(groups[k]).0 == key.0);
                }
            }
            assert(distinct_in_order(next) == distinct_in_order(prev).push(key));
            assert(occurrences(prev, key) == 0);
            groups.push(RecentChampionSummary { champion_id: id, champion_name: name.clone(), games: 1 });
            assert forall|k: int| 0 <= k < groups.len() implies summary_view(
                #[trigger] groups[k],
            ) == ({
                let kk = distinct_in_order(next)[k];
                (kk.0, kk.1, occurrences(next, kk))
            }) by {
                if k < groups.len() - 1 {
                    assert(distinct_in_order(next)[k] == distinct_in_order(prev)[k]);
                    assert(distinct_in_order(prev)[k] != key);
                }
            }
        }
        i = i + 1;
    }
    assert(ks.take(n as int) =~= ks);
    groups
}

/// Whether two optional ids are equal.
fn same_id(a: Option<i64>, b: Option<i64>) -> (r: bool)
    ensures
        r == (a == b),
{
    match (a, b) {
        (Some(x), Some(y)) => x == y,
        (None, None) => true,
        _ => false,
    }
}

/// `a` ranks before `b` in `g`; exec form of `ranks_before`.
fn ranks_ahead(g: &Vec<RecentChampionSummary>, a: usize, b: usize) -> (r: bool)
    requires
        a < g.len(),
        b < g.len(),
    ensures
        r == ranks_before(g@, a as int, b as int),
{
    g[a].games > g[b].games || (g[a].games == g[b].games && a < b)
}

/// Picks the three first groups of `g` in rank order (all of them when fewer).
fn pick_top_three(g: &Vec<RecentChampionSummary>) -> (r: Vec<usize>)
    ensures
        is_top_three(g@, r@.map_values(|i: usize| i as int)),
{
    let n = g.len();
    let mut picked: Vec<bool> = Vec::new();
    while picked.len() < n
        invariant
            picked.len() <= n,
            forall|j: int| 0 <= j < picked.len() ==> !#[trigger] picked[j],
        decreases n - picked.len(),
    {
        picked.push(false);
    }
    let mut out: Vec<usize> = Vec::new();
    let ghost mut pick: Seq<int> = Seq::empty();
    while out.len() < 3 && out.len() < n
        invariant
            n == g.len(),
            picked.len() == n,
            out.len() <= 3,
            out.len() <= n,
            pick == out@.map_values(|i: usize| i as int),
            forall|k: int| 0 <= k < pick.len() ==> 0 <= #[trigger] pick[k] < n,
            forall|j: int| 0 <= j < n ==> (#[trigger] picked[j] <==> pick.contains(j)),
            forall|a: int, b: int|
                0 <= a < b < pick.len() ==> ranks_before(g@, #[trigger] pick[a], #[trigger] pick[b]),
            forall|j: int, k: int|
                #![trigger pick.contains(j), pick[k]]
                0 <= j < n && !pick.contains(j) && 0 <= k < pick.len() ==> ranks_before(g@, pick[k], j),
            pick.no_duplicates(),
        decreases 3 - out.len(),
    {
        let mut best: usize = n;
        let mut j: usize = 0;
        while j < n
            invariant
                j <= n,
                n == g.len(),
                picked.len() == n,
                best == n || (best < j && !picked[best as int]),
                best == n ==> forall|t: int| 0 <= t < j ==> #[trigger] picked[t],
                best < n ==> forall|t: int|
                    0 <= t < j && !#[trigger] picked[t] && t != best ==> ranks_before(
                        g@,
                        best as int,
                        t,
                    ),
            decreases n - j,
        {
            if !picked[j] {
                if best == n || ranks_ahead(g, j, best) {
                    best = j;
                }
            }
            j = j + 1;
        }
        if best == n {
            proof {
                assert forall|t: int| #[trigger]
                    vstd::set_lib::set_int_range(0, n as int).contains(t) implies pick.to_set().contains(
                    t,
                ) by {
                    assert(picked[t]);
                }
                assert(vstd::set_lib::set_int_range(0, n as int).subset_of(pick.to_set()));
                vstd::set_lib::lemma_int_range(0, n as int);
                pick.lemma_cardinality_of_set();
                vstd::set_lib::lemma_len_subset(vstd::set_lib::set_int_range(0, n as int), pick.to_set());
            }
        }
        let ghost old_pick = pick;
        assert(!old_pick.contains(best as int));
        picked.set(best, true);
        out.push(best);
        proof {
            pick = pick.push(best as int);
            assert(pick == out@.map_values(|i: usize| i as int));
            assert forall|t: int| 0 <= t < n implies (#[trigger] picked[t] <==> pick.contains(t)) by {
                if t == best as int {
                    assert(pick[old_pick.len() as int] == t);
                } else if pick.contains(t) {
                    let k = choose|k: int| 0 <= k < pick.len() && pick[k] == t;
                    assert(old_pick[k] == t);
                } else if old_pick.contains(t) {
                    let k = choose|k: int| 0 <= k < old_pick.len() && old_pick[k] == t;
                    assert(pick[k] == t);
                }
            }
            assert forall|a: int, b: int|
                0 <= a < b < pick.len() implies ranks_before(g@, #[trigger] pick[a], #[trigger] pick[b]) by {
                if b == old_pick.len() {
                    assert(old_pick[a] == pick[a]);
                    assert(!old_pick.contains(best as int));
                }
            }
            assert forall|t: int, k: int|
                0 <= t < n && !pick.contains(t) && 0 <= k < pick.len() implies ranks_before(g@, pick[k], t) by {
                assert(t != best as int) by {
                    if t == best as int {
                        assert(pick[old_pick.len() as int] == t);
                    }
                }
                if old_pick.contains(t) {
                    let i = choose|i: int| 0 <= i < old_pick.len() && old_pick[i] == t;
                    assert(pick[i] == t);
                }
                if k < old_pick.len() {
                    assert(old_pick[k] == pick[k]);
                } else {
                    assert(!picked[t] || t == best as int);
                }
            }
            assert(pick.no_duplicates()) by {
                assert forall|a: int, b: int| 0 <= a < b < pick.len() implies pick[a] != pick[b] by {
                    if b == old_pick.len() {
                        assert(old_pick[a] == pick[a]);
                    } else {
                        assert(old_pick[a] == pick[a] && old_pick[b] == pick[b]);
                    }
                }
            }
        }
    }
    assert(pick.len() == if n < 3 {
        n as int
    } else {
        3
    });
    out
}

/// The at most three champions played most often in the recent window (the first
/// `PERFORMANCE_MATCH_COUNT` matches), most played first and, among equally played ones,
/// the one seen first; matches count as the same champion when id and name agree.
pub fn summarize_top_champions(matches: &Vec<PlayedChampion>) -> (r: Vec<RecentChampionSummary>)
    ensures
        exists|g: Seq<RecentChampionSummary>, pick: Seq<int>|
            {
                &&& g.len() == distinct_in_order(window_keys(matches@)).len()
                &&& forall|k: int|
                    0 <= k < g.len() ==> summary_view(#[trigger] g[k]) == ({
                        let key = distinct_in_order(window_keys(matches@))[k];
                        (key.0, key.1, occurrences(window_keys(matches@), key))
                    })
                &&& is_top_three(g, pick)
                &&& r.len() == pick.len()
                &&& forall|k: int| 0 <= k < r.len() ==> summary_view(#[trigger] r[k]) == summary_view(g[pick[k]])
            },
{
    let groups = group_recent_champions(matches);
    let picks = pick_top_three(&groups);
    let ghost pick = picks@.map_values(|i: usize| i as int);
    let mut out: Vec<RecentChampionSummary> = Vec::new();
    let mut k: usize = 0;
    while k < picks.len()
        invariant
            k <= picks.len(),
            pick == picks@.map_values(|i: usize| i as int),
            is_top_three(groups@, pick),
            out.len() == k,
            forall|t: int| 0 <= t < k ==> summary_view(#[trigger] out[t]) == summary_view(groups@[pick[t]]),
        decreases picks.len() - k,
    {
        let p = picks[k];
        assert(pick[k as int] == p as int);
        let chosen = RecentChampionSummary {
            champion_id: groups[p].champion_id,
            champion_name: groups[p].champion_name.clone(),
            games: groups[p].games,
        };
        out.push(chosen);
        k = k + 1;
    }
    assert(exists|g: Seq<RecentChampionSummary>, pk: Seq<int>|
        {
            &&& g.len() == distinct_in_order(window_keys(matches@)).len()
            &&& forall|k: int|
                0 <= k < g.len() ==> summary_view(#[trigger] g[k]) == ({
                    let key = distinct_in_order(window_keys(matches@))[k];
                    (key.0, key.1, occurrences(window_keys(matches@), key))
                })
            &&& is_top_three(g, pk)
            &&& out.len() == pk.len()
            &&& forall|k: int| 0 <= k < out.len() ==> summary_view(#[trigger] out[k]) == summary_view(g[pk[k]])
        }) by {
        assert(groups@.len() == distinct_in_order(window_keys(matches@)).len());
    }
    out
}

/// The champion name and result of one recent match, newest first.
#[derive(Debug, Clone, PartialEq, Eq)]
pub struct RecentOutcome {
    pub champion_name: String,
    pub result: MatchResult,
}

/// The first `PERFORMANCE_MATCH_COUNT` entries of `m`.
pub open spec fn recent_window<T>(m: Seq<T>) -> Seq<T> {
    if m.len() <= PERFORMANCE_MATCH_COUNT {
        m
    } else {
        m.take(PERFORMANCE_MATCH_COUNT as int)
    }
}

/// Champion names of the recent window, compared without ASCII case.
pub open spec fn window_names(m: Seq<RecentOutcome>) -> Seq<Seq<char>> {
    recent_window(m).map_values(|o: RecentOutcome| ascii_lower(o.champion_name@))
}

/// One champion was played at least three times in the recent window.
pub open spec fn is_one_trick(m: Seq<RecentOutcome>) -> bool {
    exists|i: int|
        0 <= i < window_names(m).len() && occurrences(window_names(m), #[trigger] window_names(m)[i])
            >= 3
}

/// The number of losses in a row at the start of `s`.
pub open spec fn leading_losses(s: Seq<RecentOutcome>) -> nat
    decreases s.len(),
{
    if s.len() == 0 || s[0].result != MatchResult::Loss {
        0
    } else {
        1 + leading_losses(s.drop_first())
    }
}

/// The form tags of a player's recent matches: "One-trick" when one champion was played
/// at least three times in the window, then "<n> loss streak" when the window opens
/// with at least three losses.
pub open spec fn form_tags(m: Seq<RecentOutcome>) -> Seq<(Seq<char>, AdvisorTagTone)> {
    let trick: Seq<(Seq<char>, AdvisorTagTone)> = if is_one_trick(m) {
        seq![("One-trick"@, AdvisorTagTone::Good)]
    } else {
        Seq::empty()
    };
    let n = leading_losses(recent_window(m));
    let streak: Seq<(Seq<char>, AdvisorTagTone)> = if n >= 3 {
        seq![(decimal_digits(n) + " loss streak"@, AdvisorTagTone::Warn)]
    } else {
        Seq::empty()
    };
    trick + streak
}

/// A tag as a label and a tone.
pub open spec fn tag_view(t: AdvisorPlayerTag) -> (Seq<char>, AdvisorTagTone) {
    (t.label@, t.tone)
}

/// The leading losses of a prefix of the window, counted from the front.
proof fn lemma_leading_losses_prefix(s: Seq<RecentOutcome>, i: int)
    requires
        0 <= i < s.len(),
        forall|t: int| 0 <= t < i ==> s[t].result == MatchResult::Loss,
    ensures
        s[i].result != MatchResult::Loss ==> leading_losses(s) == i,
        i + 1 == s.len() && s[i].result == MatchResult::Loss ==> leading_losses(s) == s.len(),
    decreases i,
{
    if i > 0 {
        assert(s[0].result == MatchResult::Loss);
        assert(s.drop_first()[i - 1] == s[i]);
        lemma_leading_losses_prefix(s.drop_first(), i - 1);
    } else if s.len() == 1 && s[0].result == MatchResult::Loss {
        assert(s.drop_first().len() == 0);
        assert(leading_losses(s.drop_first()) == 0);
        assert(leading_losses(s) == 1);
    }
}

/// Counts the leading losses of the recent window.
fn count_leading_losses(m: &Vec<RecentOutcome>, n: usize) -> (r: u64)
    requires
        n <= m.len(),
        n <= PERFORMANCE_MATCH_COUNT,
    ensures
        r == leading_losses(m@.take(n as int)),
{
    let ghost w = m@.take(n as int);
    let mut i: usize = 0;
    while i < n && m[i].result == MatchResult::Loss
        invariant
            i <= n,
            n <= m.len(),
            n <= PERFORMANCE_MATCH_COUNT,
            w == m@.take(n as int),
            forall|t: int| 0 <= t < i ==> w[t].result == MatchResult::Loss,
        decreases n - i,
    {
        i = i + 1;
    }
    proof {
        if i < n {
            lemma_leading_losses_prefix(w, i as int);
        } else if n > 0 {
            lemma_leading_losses_prefix(w, n - 1);
        }
    }
    i as u64
}

/// Whether some champion name occurs at least three times among the first `n` matches.
fn has_one_trick(m: &Vec<RecentOutcome>, n: usize) -> (r: bool)
    requires
        n <= m.len(),
        n == recent_window(m@).len(),
    ensures
        r == is_one_trick(m@),
{
    let ghost names = window_names(m@);
    assert(names.len() == n);
    let mut i: usize = 0;
    while i < n
        invariant
            i <= n,
            n <= m.len(),
            n == recent_window(m@).len(),
            names == window_names(m@),
            names.len() == n,
            forall|t: int| 0 <= t < i ==> occurrences(names, #[trigger] names[t]) < 3,
        decreases n - i,
    {
        let mut count: u64 = 0;
        let mut j: usize = 0;
        assert(names[i as int] == ascii_lower(m@[i as int].champion_name@));
        while j < n
            invariant
                j <= n,
                i < n,
                n <= m.len(),
                names == window_names(m@),
                names.len() == n,
                n == recent_window(m@).len(),
                count == occurrences(names.take(j as int), names[i as int]),
                count <= j,
            decreases n - j,
        {
            assert(names.take(j + 1).drop_last() =~= names.take(j as int));
            assert(names[j as int] == ascii_lower(m@[j as int].champion_name@));
            if eq_ignore_ascii_case(m[j].champion_name.as_str(), m[i].champion_name.as_str()) {
                count = count + 1;
            }
            j = j + 1;
        }
        assert(names.take(n as int) =~= names);
        if count >= 3 {
            return true;
        }
        i = i + 1;
    }
    false
}

/// The form tags of a player from the recent matches, newest first (see `form_tags`).
pub fn recent_form_tags(matches: &Vec<RecentOutcome>) -> (r: Vec<AdvisorPlayerTag>)
    ensures
        r@.map_values(|t: AdvisorPlayerTag| tag_view(t)) == form_tags(matches@),
{
    let n: usize = if matches.len() <= PERFORMANCE_MATCH_COUNT {
        matches.len()
    } else {
        PERFORMANCE_MATCH_COUNT
    };
    let mut tags: Vec<AdvisorPlayerTag> = Vec::new();
    if has_one_trick(matches, n) {
        tags.push(AdvisorPlayerTag { label: "One-trick".to_string(), tone: AdvisorTagTone::Good });
    }
    let streak = count_leading_losses(matches, n);
    assert(matches@.take(n as int) == recent_window(matches@));
    if streak >= 3 {
        let count = nat_to_string(streak);
        let label = concat2(count.as_str(), " loss streak");
        tags.push(AdvisorPlayerTag { label, tone: AdvisorTagTone::Warn });
    }
    proof {
        reveal_strlit("One-trick");
        reveal_strlit(" loss streak");
    }
    assert(tags@.map_values(|t: AdvisorPlayerTag| tag_view(t)) =~= form_tags(matches@));
    tags
}

/// The tag naming the first power spike of a champion, when it has one.
pub fn power_spike_tag(power_spikes: &Vec<AdvisorPowerSpike>) -> (r: Option<AdvisorPlayerTag>)
    ensures
        power_spikes.len() == 0 ==> r is None,
        power_spikes.len() > 0 ==> (r matches Some(t) && t.label@ == "Spike "@
            + power_spikes[0].timing@ && t.tone == AdvisorTagTone::Info),
{
    if power_spikes.len() == 0 {
        None
    } else {
        Some(
            AdvisorPlayerTag {
                label: concat2("Spike ", power_spikes[0].timing.as_str()),
                tone: AdvisorTagTone::Info,
            },
        )
    }
}

/// One matchup of an advisor record: the opposing champion and a note on it.
#[derive(Debug, Clone, PartialEq, Eq)]
pub struct MatchupNote {
    pub champion_id: i64,
    pub champion_name: String,
    pub note: String,
}

/// The index of the first matchup against champion `id`.
pub open spec fn first_matchup(s: Seq<MatchupNote>, id: i64) -> Option<int>
    decreases s.len(),
{
    if s.len() == 0 {
        None
    } else if s[0].champion_id == id {
        Some(0)
    } else {
        match first_matchup(s.drop_first(), id) {
            Some(i) => Some(i + 1),
            None => None,
        }
    }
}

/// The advice text against an opponent: the first favourable matchup against it, else
/// the first difficult one, else none; no advice when the opponent has no champion.
pub open spec fn matchup_advice_spec(
    strong: Seq<MatchupNote>,
    weak: Seq<MatchupNote>,
    opponent: Option<i64>,
) -> Option<Seq<char>> {
    match opponent {
        None => None,
        Some(id) => match first_matchup(strong, id) {
            Some(i) => Some("Favorable into "@ + strong[i].champion_name@ + ": "@ + strong[i].note@),
            None => match first_matchup(weak, id) {
                Some(i) => Some("Difficult into "@ + weak[i].champion_name@ + ": "@ + weak[i].note@),
                None => None,
            },
        },
    }
}

proof fn lemma_first_matchup(s: Seq<MatchupNote>, id: i64, i: int)
    requires
        0 <= i <= s.len(),
        forall|t: int| 0 <= t < i ==> s[t].champion_id != id,
    ensures
        i < s.len() && s[i].champion_id == id ==> first_matchup(s, id) == Some(i),
        i == s.len() ==> first_matchup(s, id) is None,
    decreases i,
{
    if i > 0 {
        lemma_first_matchup(s.drop_first(), id, i - 1);
    }
}

/// Index of the first matchup against `id` in `s`.
fn find_matchup(s: &Vec<MatchupNote>, id: i64) -> (r: Option<usize>)
    ensures
        match r {
            Some(i) => i < s.len() && first_matchup(s@, id) == Some(i as int),
            None => first_matchup(s@, id) is None,
        },
{
    let mut i: usize = 0;
    while i < s.len() && s[i].champion_id != id
        invariant
            i <= s.len(),
            forall|t: int| 0 <= t < i ==> s@[t].champion_id != id,
        decreases s.len() - i,
    {
        i = i + 1;
    }
    proof {
        lemma_first_matchup(s@, id, i as int);
    }
    if i < s.len() {
        Some(i)
    } else {
        None
    }
}

/// Advice for facing an opponent, from an advisor record's matchups (see
/// `matchup_advice_spec`).
pub fn matchup_advice(strong: &Vec<MatchupNote>, weak: &Vec<MatchupNote>, opponent: Option<i64>) -> (r: Option<String>)
    ensures
        opt_seq(r) == matchup_advice_spec(strong@, weak@, opponent),
{
    let id = match opponent {
        Some(id) => id,
        None => return None,
    };
    match find_matchup(strong, id) {
        Some(i) => Some(advice_text("Favorable into ", &strong[i])),
        None => match find_matchup(weak, id) {
            Some(i) => Some(advice_text("Difficult into ", &weak[i])),
            None => None,
        },
    }
}

/// The view of an optional string.
pub open spec fn opt_seq(s: Option<String>) -> Option<Seq<char>> {
    match s {
        Some(t) => Some(t@),
        None => None,
    }
}

fn advice_text(lead: &str, m: &MatchupNote) -> (r: String)
    ensures
        r@ == lead@ + m.champion_name@ + ": "@ + m.note@,
{
    let head = concat2(lead, m.champion_name.as_str());
    let mid = concat2(head.as_str(), ": ");
    concat2(mid.as_str(), m.note.as_str())
}

/// Index of the advisor record of a champion when records are looked up by champion id:
/// the last record with that id counts.
pub fn advisor_record_index(record_ids: &Vec<i64>, champion_id: Option<i64>) -> (r: Option<usize>)
    ensures
        match champion_id {
            Some(c) => match r {
                Some(i) => i < record_ids.len() && record_ids@[i as int] == c && forall|j: int|
                    i < j < record_ids.len() ==> record_ids@[j] != c,
                None => forall|j: int| 0 <= j < record_ids.len() ==> record_ids@[j] != c,
            },
            None => r is None,
        },
{
    let c = match champion_id {
        Some(c) => c,
        None => return None,
    };
    let mut i: usize = record_ids.len();
    while i > 0
        invariant
            i <= record_ids.len(),
            champion_id == Some(c),
            forall|j: int| i <= j < record_ids.len() ==> record_ids@[j] != c,
        decreases i,
    {
        if record_ids[i - 1] == c {
            return Some(i - 1);
        }
        i = i - 1;
    }
    None
}

/// The lane opponent of player `index`: the first player of the other side whose
/// advisor record is for the same lane; none when the player has no record.
pub fn lane_opponent(sides: &Vec<(ChampSelectTeam, Option<RankedChampionLane>)>, index: usize) -> (r: Option<usize>)
    requires
        index < sides.len(),
    ensures
        match sides@[index as int].1 {
            Some(lane) => match r {
                Some(j) => j < sides.len() && sides@[j as int].0 != sides@[index as int].0
                    && sides@[j as int].1 == Some(lane) && forall|k: int|
                    0 <= k < j ==> !(sides@[k].0 != sides@[index as int].0 && sides@[k].1 == Some(lane)),
                None => forall|k: int|
                    0 <= k < sides.len() ==> !(sides@[k].0 != sides@[index as int].0 && sides@[k].1
                        == Some(lane)),
            },
            None => r is None,
        },
{
    let lane = match sides[index].1 {
        Some(l) => l,
        None => return None,
    };
    let team = sides[index].0;
    let mut j: usize = 0;
    while j < sides.len()
        invariant
            j <= sides.len(),
            index < sides.len(),
            team == sides@[index as int].0,
            sides@[index as int].1 == Some(lane),
            forall|k: int| 0 <= k < j ==> !(sides@[k].0 != team && sides@[k].1 == Some(lane)),
        decreases sides.len() - j,
    {
        let other_side = !same_team(sides[j].0, team);
        let same_lane = match sides[j].1 {
            Some(l) => same_lane_value(l, lane),
            None => false,
        };
        if other_side && same_lane {
            return Some(j);
        }
        j = j + 1;
    }
    None
}

fn same_team(a: ChampSelectTeam, b: ChampSelectTeam) -> (r: bool)
    ensures
        r == (a == b),
{
    match (a, b) {
        (ChampSelectTeam::Ally, ChampSelectTeam::Ally) => true,
        (ChampSelectTeam::Enemy, ChampSelectTeam::Enemy) => true,
        _ => false,
    }
}

fn same_lane_value(a: RankedChampionLane, b: RankedChampionLane) -> (r: bool)
    ensures
        r == (a == b),
{
    match (a, b) {
        (RankedChampionLane::Top, RankedChampionLane::Top) => true,
        (RankedChampionLane::Jungle, RankedChampionLane::Jungle) => true,
        (RankedChampionLane::Middle, RankedChampionLane::Middle) => true,
        (RankedChampionLane::Bottom, RankedChampionLane::Bottom) => true,
        (RankedChampionLane::Support, RankedChampionLane::Support) => true,
        _ => false,
    }
}

} // verus!
