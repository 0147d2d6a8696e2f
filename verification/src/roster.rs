//! The champion-select roster: the players of a session, merged with the summoners found
//! by id and by name, each player once, with the identity (PUUID) used for later lookups.

use vstd::prelude::*;
use crate::application::{
    ChampSelectSessionData, ChampSelectSessionPlayer, SummonerBatchEntry, lookup_keys,
    negative_stable_id, normalize_player_name, normalized_name, stable_id,
    summoner_name_lookup_keys,
};
use crate::domain::{ChampSelectTeam, PostMatchTeamTotals};
use crate::text::{concat2, decimal, decimal_digits, int_to_string, is_blank, nat_to_string, str_eq, trim};

verus! {

/// A player of the roster.
#[derive(Debug, Clone, PartialEq, Eq)]
pub struct RosterSeed {
    pub summoner_id: i64,
    /// Empty when no PUUID is known.
    pub puuid: String,
    pub display_name: String,
    pub champion_id: Option<i64>,
    pub team: ChampSelectTeam,
    pub summoner_level: Option<i64>,
}

/// The fields of a roster player: id, PUUID, name, champion, side, level.
pub type SeedView = (i64, Seq<char>, Seq<char>, Option<i64>, ChampSelectTeam, Option<i64>);

/// The fields of a roster player.
pub open spec fn seed_view(s: RosterSeed) -> SeedView {
    (s.summoner_id, s.puuid@, s.display_name@, s.champion_id, s.team, s.summoner_level)
}

/// The roster while it is built: the players so far, and the ids, names and PUUIDs seen.
pub struct RosterView {
    pub seeds: Seq<SeedView>,
    pub ids: Seq<i64>,
    pub names: Seq<Seq<char>>,
    pub puuids: Seq<Seq<char>>,
}

/// The last summoner found by id with this id.
pub open spec fn summoner_by_id(list: Seq<SummonerBatchEntry>, id: i64) -> Option<SummonerBatchEntry>
    decreases list.len(),
{
    if list.len() == 0 {
        None
    } else if list.last().summoner_id == id {
        Some(list.last())
    } else {
        summoner_by_id(list.drop_last(), id)
    }
}

/// The last summoner found by name whose lookup keys hold `key`.
pub open spec fn summoner_by_key(list: Seq<SummonerBatchEntry>, key: Seq<char>) -> Option<
    SummonerBatchEntry,
>
    decreases list.len(),
{
    if list.len() == 0 {
        None
    } else if lookup_keys(list.last().display_name@).contains(key) {
        Some(list.last())
    } else {
        summoner_by_key(list.drop_last(), key)
    }
}

/// The champion chosen under `id`: the last pair with that key.
pub open spec fn selection_by_id(pairs: Seq<(i64, i64)>, id: i64) -> Option<i64>
    decreases pairs.len(),
{
    if pairs.len() == 0 {
        None
    } else if pairs.last().0 == id {
        Some(pairs.last().1)
    } else {
        selection_by_id(pairs.drop_last(), id)
    }
}

/// The champion chosen under a normalised name: the last pair with that key.
pub open spec fn selection_by_name(pairs: Seq<(String, i64)>, key: Seq<char>) -> Option<i64>
    decreases pairs.len(),
{
    if pairs.len() == 0 {
        None
    } else if pairs.last().0@ == key {
        Some(pairs.last().1)
    } else {
        selection_by_name(pairs.drop_last(), key)
    }
}

/// The last summoner found by id with this id.
pub fn find_summoner_by_id(list: &Vec<SummonerBatchEntry>, id: i64) -> (r: Option<&SummonerBatchEntry>)
    ensures
        match r {
            Some(s) => summoner_by_id(list@, id) == Some(*s),
            None => summoner_by_id(list@, id) is None,
        },
{
    let mut i: usize = list.len();
    assert(list@.subrange(0, i as int) =~= list@);
    while i > 0
        invariant
            i <= list@.len(),
            summoner_by_id(list@, id) == summoner_by_id(list@.subrange(0, i as int), id),
        decreases i,
    {
        assert(list@.subrange(0, i as int).drop_last() =~= list@.subrange(0, i - 1));
        if list[i - 1].summoner_id == id {
            assert(list@.subrange(0, i as int).last() == list@[i - 1]);
            return Some(&list[i - 1]);
        }
        i = i - 1;
    }
    None
}

/// Whether `key` is one of the lookup keys of `name`.
fn has_lookup_key(name: &str, key: &str) -> (r: bool)
    ensures
        r == lookup_keys(name@).contains(key@),
{
    let keys = summoner_name_lookup_keys(name);
    let mut i: usize = 0;
    while i < keys.len()
        invariant
            i <= keys.len(),
            keys.deep_view() == lookup_keys(name@),
            forall|j: int| 0 <= j < i ==> keys.deep_view()[j] != key@,
        decreases keys.len() - i,
    {
        assert(keys.deep_view()[i as int] == keys@[i as int]@);
        if str_eq(keys[i].as_str(), key) {
            assert(keys.deep_view()[i as int] == key@);
            return true;
        }
        i = i + 1;
    }
    false
}

/// The last summoner found by name whose lookup keys hold `key`.
pub fn find_summoner_by_key<'a>(list: &'a Vec<SummonerBatchEntry>, key: &str) -> (r: Option<
    &'a SummonerBatchEntry,
>)
    ensures
        match r {
            Some(s) => summoner_by_key(list@, key@) == Some(*s),
            None => summoner_by_key(list@, key@) is None,
        },
{
    let mut i: usize = list.len();
    assert(list@.subrange(0, i as int) =~= list@);
    while i > 0
        invariant
            i <= list@.len(),
            summoner_by_key(list@, key@) == summoner_by_key(list@.subrange(0, i as int), key@),
        decreases i,
    {
        assert(list@.subrange(0, i as int).drop_last() =~= list@.subrange(0, i - 1));
        if has_lookup_key(list[i - 1].display_name.as_str(), key) {
            assert(list@.subrange(0, i as int).last() == list@[i - 1]);
            return Some(&list[i - 1]);
        }
        i = i - 1;
    }
    None
}

/// The champion chosen under `id`.
pub fn find_selection_by_id(pairs: &Vec<(i64, i64)>, id: i64) -> (r: Option<i64>)
    ensures
        r == selection_by_id(pairs@, id),
{
    let mut i: usize = pairs.len();
    assert(pairs@.subrange(0, i as int) =~= pairs@);
    while i > 0
        invariant
            i <= pairs@.len(),
            selection_by_id(pairs@, id) == selection_by_id(pairs@.subrange(0, i as int), id),
        decreases i,
    {
        assert(pairs@.subrange(0, i as int).drop_last() =~= pairs@.subrange(0, i - 1));
        if pairs[i - 1].0 == id {
            assert(pairs@.subrange(0, i as int).last() == pairs@[i - 1]);
            return Some(pairs[i - 1].1);
        }
        i = i - 1;
    }
    None
}

/// The champion chosen under a normalised name.
pub fn find_selection_by_name(pairs: &Vec<(String, i64)>, key: &str) -> (r: Option<i64>)
    ensures
        r == selection_by_name(pairs@, key@),
{
    let mut i: usize = pairs.len();
    assert(pairs@.subrange(0, i as int) =~= pairs@);
    while i > 0
        invariant
            i <= pairs@.len(),
            selection_by_name(pairs@, key@) == selection_by_name(pairs@.subrange(0, i as int), key@),
        decreases i,
    {
        assert(pairs@.subrange(0, i as int).drop_last() =~= pairs@.subrange(0, i - 1));
        if str_eq(pairs[i - 1].0.as_str(), key) {
            assert(pairs@.subrange(0, i as int).last() == pairs@[i - 1]);
            return Some(pairs[i - 1].1);
        }
        i = i - 1;
    }
    None
}

/// Whether `x` is in `v`.
fn contains_i64(v: &Vec<i64>, x: i64) -> (r: bool)
    ensures
        r == v@.contains(x),
{
    let mut i: usize = 0;
    while i < v.len()
        invariant
            i <= v.len(),
            forall|j: int| 0 <= j < i ==> v@[j] != x,
        decreases v.len() - i,
    {
        if v[i] == x {
            assert(v@[i as int] == x);
            return true;
        }
        i = i + 1;
    }
    false
}

/// Whether `s` is in `v`.
fn contains_text(v: &Vec<String>, s: &str) -> (r: bool)
    ensures
        r == v.deep_view().contains(s@),
{
    let mut i: usize = 0;
    while i < v.len()
        invariant
            i <= v.len(),
            forall|j: int| 0 <= j < i ==> v.deep_view()[j] != s@,
        decreases v.len() - i,
    {
        assert(v.deep_view()[i as int] == v@[i as int]@);
        if str_eq(v[i].as_str(), s) {
            assert(v.deep_view()[i as int] == s@);
            return true;
        }
        i = i + 1;
    }
    false
}

/// Strictly increasing.
pub open spec fn strictly_increasing(s: Seq<i64>) -> bool {
    forall|i: int, j: int| 0 <= i < j < s.len() ==> s[i] < s[j]
}

/// Adds `x` to a strictly increasing list, keeping it strictly increasing.
fn insert_sorted_unique(out: &mut Vec<i64>, x: i64)
    requires
        strictly_increasing(old(out)@),
    ensures
        strictly_increasing(final(out)@),
        forall|y: i64| #[trigger] final(out)@.contains(y) <==> (old(out)@.contains(y) || y == x),
{
    let mut j: usize = 0;
    while j < out.len() && out[j] < x
        invariant
            j <= out.len(),
            out@ == old(out)@,
            forall|k: int| 0 <= k < j ==> out@[k] < x,
        decreases out.len() - j,
    {
        j = j + 1;
    }
    if j < out.len() && out[j] == x {
        assert(out@[j as int] == x);
        return;
    }
    let ghost prev = out@;
    out.insert(j, x);
    assert forall|a: int, b: int| 0 <= a < b < out@.len() implies out@[a] < out@[b] by {
        if b < j {
        } else if b == j {
        } else if a < j {
            assert(out@[b] == prev[b - 1]);
        } else if a == j {
            assert(out@[b] == prev[b - 1]);
            assert(prev[j as int] > x);
            if b - 1 > j {
                assert(prev[j as int] < prev[b - 1]);
            }
        } else {
            assert(out@[a] == prev[a - 1]);
            assert(out@[b] == prev[b - 1]);
        }
    }
    assert(prev == old(out)@);
    assert forall|y: i64| #[trigger] out@.contains(y) <==> (prev.contains(y) || y == x) by {
        if out@.contains(y) {
            let k = choose|k: int| 0 <= k < out@.len() && out@[k] == y;
            if k < j {
                assert(prev[k] == y);
            } else if k > j {
                assert(prev[k - 1] == y);
            }
        }
        if prev.contains(y) {
            let k = choose|k: int| 0 <= k < prev.len() && prev[k] == y;
            if k < j {
                assert(out@[k] == y);
            } else {
                assert(out@[k + 1] == y);
            }
        }
        if y == x {
            assert(out@[j as int] == x);
        }
    }
}

/// Adds every id of `ids` to a strictly increasing list.
fn insert_all_sorted_unique(out: &mut Vec<i64>, ids: &Vec<i64>)
    requires
        strictly_increasing(old(out)@),
    ensures
        strictly_increasing(final(out)@),
        forall|y: i64| #[trigger] final(out)@.contains(y) <==> (old(out)@.contains(y) || ids@.contains(y)),
{
    let mut i: usize = 0;
    while i < ids.len()
        invariant
            i <= ids.len(),
            strictly_increasing(out@),
            forall|y: i64| out@.contains(y) <==> (old(out)@.contains(y) || ids@.subrange(
                0,
                i as int,
            ).contains(y)),
        decreases ids.len() - i,
    {
        let x = ids[i];
        insert_sorted_unique(out, x);
        assert forall|y: i64| ids@.subrange(0, i + 1).contains(y) <==> (ids@.subrange(
            0,
            i as int,
        ).contains(y) || y == x) by {
            if ids@.subrange(0, i + 1).contains(y) {
                let k = choose|k: int| 0 <= k < i + 1 && #[trigger] ids@.subrange(0, i + 1)[k] == y;
                if k < i {
                    assert(ids@.subrange(0, i as int)[k] == y);
                }
            }
            if ids@.subrange(0, i as int).contains(y) {
                let k = choose|k: int| 0 <= k < i && #[trigger] ids@.subrange(0, i as int)[k] == y;
                assert(ids@.subrange(0, i + 1)[k] == y);
            }
            if y == x {
                assert(ids@.subrange(0, i + 1)[i as int] == x);
            }
        }
        i = i + 1;
    }
    assert(ids@.subrange(0, ids.len() as int) =~= ids@);
}

/// The team ids of a finished match's participants, sorted ascending, each once: the
/// order in which the post-match view lists the teams.
pub fn post_match_team_ids(team_ids: &Vec<i64>) -> (r: Vec<i64>)
    ensures
        strictly_increasing(r@),
        forall|x: i64| r@.contains(x) <==> team_ids@.contains(x),
{
    let mut out: Vec<i64> = Vec::new();
    assert(forall|y: i64| !out@.contains(y));
    insert_all_sorted_unique(&mut out, team_ids);
    out
}

/// The positions of the participants on team `team`, in order: exactly the positions
/// whose team id is `team`, ascending.
pub fn post_match_team_members(team_ids: &Vec<i64>, team: i64) -> (r: Vec<usize>)
    ensures
        forall|k: int| 0 <= k < r@.len() ==> (#[trigger] r@[k]) < team_ids@.len() && team_ids@[r@[k] as int] == team,
        forall|k: int, l: int| 0 <= k < l < r@.len() ==> r@[k] < r@[l],
        forall|i: int| 0 <= i < team_ids@.len() && #[trigger] team_ids@[i] == team ==> r@.contains(i as usize),
{
    let mut out: Vec<usize> = Vec::new();
    let mut i: usize = 0;
    while i < team_ids.len()
        invariant
            i <= team_ids@.len(),
            forall|k: int| 0 <= k < out@.len() ==> (#[trigger] out@[k]) < i && team_ids@[out@[k] as int] == team,
            forall|k: int, l: int| 0 <= k < l < out@.len() ==> out@[k] < out@[l],
            forall|j: int| 0 <= j < i && #[trigger] team_ids@[j] == team ==> out@.contains(j as usize),
        decreases team_ids.len() - i,
    {
        if team_ids[i] == team {
            let ghost before = out@;
            out.push(i);
            assert forall|j: int| 0 <= j < i + 1 && #[trigger] team_ids@[j] == team implies out@.contains(j as usize) by {
                if j < i {
                    let k = choose|k: int| 0 <= k < before.len() && before[k] == j as usize;
                    assert(out@[k] == j as usize);
                } else {
                    assert(out@[before.len() as int] == i);
                }
            }
        }
        i = i + 1;
    }
    out
}

/// The sums of the kills, deaths, assists, gold, champion damage and vision score of
/// `lines`.
pub open spec fn totals_sum(lines: Seq<PostMatchTeamTotals>) -> (int, int, int, int, int, int)
    decreases lines.len(),
{
    if lines.len() == 0 {
        (0, 0, 0, 0, 0, 0)
    } else {
        let t = totals_sum(lines.drop_last());
        let l = lines.last();
        (
            t.0 + l.kills,
            t.1 + l.deaths,
            t.2 + l.assists,
            t.3 + l.gold_earned,
            t.4 + l.damage_to_champions,
            t.5 + l.vision_score,
        )
    }
}

/// Every value fits an `i64`.
pub open spec fn sums_fit(t: (int, int, int, int, int, int)) -> bool {
    &&& i64::MIN <= t.0 <= i64::MAX
    &&& i64::MIN <= t.1 <= i64::MAX
    &&& i64::MIN <= t.2 <= i64::MAX
    &&& i64::MIN <= t.3 <= i64::MAX
    &&& i64::MIN <= t.4 <= i64::MAX
    &&& i64::MIN <= t.5 <= i64::MAX
}

/// The totals of a team from the counts of its participants, in order: each field is the
/// sum of that field over the participants. Every running sum must fit an `i64`.
pub fn post_match_team_totals(lines: &Vec<PostMatchTeamTotals>) -> (r: PostMatchTeamTotals)
    requires
        forall|n: int| 0 <= n <= lines@.len() ==> sums_fit(#[trigger] totals_sum(lines@.subrange(0, n))),
    ensures
        (r.kills as int, r.deaths as int, r.assists as int, r.gold_earned as int, r.damage_to_champions
            as int, r.vision_score as int) == totals_sum(lines@),
{
    let mut r = PostMatchTeamTotals {
        kills: 0,
        deaths: 0,
        assists: 0,
        gold_earned: 0,
        damage_to_champions: 0,
        vision_score: 0,
    };
    let mut i: usize = 0;
    assert(lines@.subrange(0, 0) =~= Seq::<PostMatchTeamTotals>::empty());
    while i < lines.len()
        invariant
            i <= lines@.len(),
            forall|n: int| 0 <= n <= lines@.len() ==> sums_fit(#[trigger] totals_sum(lines@.subrange(0, n))),
            (r.kills as int, r.deaths as int, r.assists as int, r.gold_earned as int, r.damage_to_champions
                as int, r.vision_score as int) == totals_sum(lines@.subrange(0, i as int)),
        decreases lines.len() - i,
    {
        let ghost next = lines@.subrange(0, i + 1);
        assert(next.drop_last() =~= lines@.subrange(0, i as int));
        assert(next.last() == lines@[i as int]);
        assert(sums_fit(totals_sum(next)));
        let l = &lines[i];
        r = PostMatchTeamTotals {
            kills: r.kills + l.kills,
            deaths: r.deaths + l.deaths,
            assists: r.assists + l.assists,
            gold_earned: r.gold_earned + l.gold_earned,
            damage_to_champions: r.damage_to_champions + l.damage_to_champions,
            vision_score: r.vision_score + l.vision_score,
        };
        i = i + 1;
    }
    assert(lines@.subrange(0, lines@.len() as int) =~= lines@);
    r
}

/// The ids of both sides, sorted ascending, each once.
pub fn roster_summoner_ids(session: &ChampSelectSessionData) -> (r: Vec<i64>)
    ensures
        strictly_increasing(r@),
        forall|x: i64| r@.contains(x) <==> (session.ally_ids@.contains(x)
            || session.enemy_ids@.contains(x)),
{
    let mut out: Vec<i64> = Vec::new();
    assert(forall|y: i64| !out@.contains(y));
    insert_all_sorted_unique(&mut out, &session.ally_ids);
    let ghost mid = out@;
    assert(forall|y: i64| mid.contains(y) <==> session.ally_ids@.contains(y));
    insert_all_sorted_unique(&mut out, &session.enemy_ids);
    assert forall|x: i64| out@.contains(x) <==> (session.ally_ids@.contains(x)
        || session.enemy_ids@.contains(x)) by {
        assert(out@.contains(x) <==> (mid.contains(x) || session.enemy_ids@.contains(x)));
        assert(mid.contains(x) <==> session.ally_ids@.contains(x));
    }
    out
}

/// The names that are not blank, in order.
pub open spec fn non_blank_names(names: Seq<Seq<char>>) -> Seq<Seq<char>> {
    names.filter(|n: Seq<char>| trim(n).len() > 0)
}

/// Appends the names of `names` that are not blank.
fn push_non_blank(out: &mut Vec<String>, names: &Vec<String>)
    ensures
        final(out).deep_view() == old(out).deep_view() + non_blank_names(names.deep_view()),
{
    let ghost all = names.deep_view();
    let mut k: usize = 0;
    while k < names.len()
        invariant
            k <= names.len(),
            all == names.deep_view(),
            out.deep_view() == old(out).deep_view() + non_blank_names(all.subrange(0, k as int)),
        decreases names.len() - k,
    {
        assert(all[k as int] == names@[k as int]@);
        assert(all.subrange(0, k + 1).drop_last() =~= all.subrange(0, k as int));
        let ghost before = out.deep_view();
        if !is_blank(names[k].as_str()) {
            out.push(names[k].clone());
            assert(out.deep_view() =~= before.push(names@[k as int]@));
        }
        assert(non_blank_names(all.subrange(0, k + 1)) == (if trim(all[k as int]).len() > 0 {
            non_blank_names(all.subrange(0, k as int)).push(all[k as int])
        } else {
            non_blank_names(all.subrange(0, k as int))
        })) by {
            reveal(Seq::filter);
            assert(all.subrange(0, k + 1).last() == all[k as int]);
        }
        assert(out.deep_view() =~= old(out).deep_view() + non_blank_names(all.subrange(0, k + 1)));
        k = k + 1;
    }
    assert(all.subrange(0, names.len() as int) =~= all);
}

/// The names of both sides that are not blank, allies first (the names looked up).
pub open spec fn lookup_names_spec(session: ChampSelectSessionData) -> Seq<Seq<char>> {
    non_blank_names(session.ally_names.deep_view()) + non_blank_names(session.enemy_names.deep_view())
}

/// The names of both sides that are not blank, allies first.
pub fn roster_lookup_names(session: &ChampSelectSessionData) -> (r: Vec<String>)
    ensures
        r.deep_view() == lookup_names_spec(*session),
{
    let mut out: Vec<String> = Vec::new();
    push_non_blank(&mut out, &session.ally_names);
    push_non_blank(&mut out, &session.enemy_names);
    assert(out.deep_view() =~= lookup_names_spec(*session));
    out
}

/// The roster before any player is added.
pub open spec fn empty_roster() -> RosterView {
    RosterView { seeds: Seq::empty(), ids: Seq::empty(), names: Seq::empty(), puuids: Seq::empty() }
}

/// The name shown for a session player: its display name, or when that is blank
/// "Summoner <id>" for a known id, else "Player <position from 1>".
pub open spec fn player_display(p: ChampSelectSessionPlayer, index: int) -> Seq<char> {
    if trim(p.display_name@).len() == 0 {
        match p.summoner_id {
            Some(id) => "Summoner "@ + decimal(id as int),
            None => "Player "@ + decimal_digits((index + 1) as nat),
        }
    } else {
        p.display_name@
    }
}

/// The id of a session player: its summoner id when positive, else the negative id of its
/// shown name.
pub open spec fn player_id(p: ChampSelectSessionPlayer, display: Seq<char>) -> i64 {
    match p.summoner_id {
        Some(id) => if id > 0 {
            id
        } else {
            stable_id(display) as i64
        },
        None => stable_id(display) as i64,
    }
}

/// The PUUID of a session player, empty when absent or blank.
pub open spec fn player_puuid(p: ChampSelectSessionPlayer) -> Seq<char> {
    match p.puuid {
        Some(s) => if trim(s@).len() > 0 {
            s@
        } else {
            Seq::empty()
        },
        None => Seq::empty(),
    }
}

/// Adds a session player. A player whose non-empty PUUID was seen is skipped; otherwise
/// its PUUID counts as seen, and it is skipped when its positive id or its non-empty
/// normalised name was seen. An added player records its id (when positive) and its name
/// (when not empty), and takes its level from the summoner found under its id.
pub open spec fn player_step(
    st: RosterView,
    p: ChampSelectSessionPlayer,
    index: int,
    by_id: Seq<SummonerBatchEntry>,
) -> RosterView {
    let display = player_display(p, index);
    let normalized = normalized_name(display);
    let id = player_id(p, display);
    let puuid = player_puuid(p);
    if puuid.len() > 0 && st.puuids.contains(puuid) {
        st
    } else {
        let puuids = if puuid.len() > 0 {
            st.puuids.push(puuid)
        } else {
            st.puuids
        };
        if (id > 0 && st.ids.contains(id)) || (normalized.len() > 0 && st.names.contains(
            normalized,
        )) {
            RosterView { seeds: st.seeds, ids: st.ids, names: st.names, puuids }
        } else {
            let level = match summoner_by_id(by_id, id) {
                Some(s) => s.summoner_level,
                None => None,
            };
            RosterView {
                seeds: st.seeds.push((id, puuid, display, p.champion_id, p.team, level)),
                ids: if id > 0 {
                    st.ids.push(id)
                } else {
                    st.ids
                },
                names: if normalized.len() > 0 {
                    st.names.push(normalized)
                } else {
                    st.names
                },
                puuids,
            }
        }
    }
}

/// The roster after the first `n` session players.
pub open spec fn players_phase(
    st: RosterView,
    players: Seq<ChampSelectSessionPlayer>,
    n: int,
    by_id: Seq<SummonerBatchEntry>,
) -> RosterView
    decreases n,
{
    if n <= 0 {
        st
    } else {
        player_step(players_phase(st, players, n - 1, by_id), players[n - 1], n - 1, by_id)
    }
}

/// Adds a side's summoner id that no player holds yet: its side, its champion choice,
/// and the PUUID, name and level of the summoner found under it ("Summoner <id>" when none
/// is found). The id and the normalised name count as seen.
pub open spec fn id_step(
    st: RosterView,
    id: i64,
    session: ChampSelectSessionData,
    by_id: Seq<SummonerBatchEntry>,
) -> RosterView {
    if st.ids.contains(id) {
        st
    } else {
        let s = summoner_by_id(by_id, id);
        let team = if session.ally_ids@.contains(id) {
            ChampSelectTeam::Ally
        } else {
            ChampSelectTeam::Enemy
        };
        let champ = selection_by_id(session.champion_selections@, id);
        let puuid = match s {
            Some(e) => e.puuid@,
            None => Seq::empty(),
        };
        let display = match s {
            Some(e) => e.display_name@,
            None => "Summoner "@ + decimal(id as int),
        };
        let level = match s {
            Some(e) => e.summoner_level,
            None => None,
        };
        RosterView {
            seeds: st.seeds.push((id, puuid, display, champ, team, level)),
            ids: st.ids.push(id),
            names: st.names.push(normalized_name(display)),
            puuids: if puuid.len() > 0 {
                st.puuids.push(puuid)
            } else {
                st.puuids
            },
        }
    }
}

/// The roster after the first `n` of the sorted ids.
pub open spec fn ids_phase(
    st: RosterView,
    ids: Seq<i64>,
    n: int,
    session: ChampSelectSessionData,
    by_id: Seq<SummonerBatchEntry>,
) -> RosterView
    decreases n,
{
    if n <= 0 {
        st
    } else {
        id_step(ids_phase(st, ids, n - 1, session, by_id), ids[n - 1], session, by_id)
    }
}

/// Adds a side's name whose normalised form is not empty and not seen: the summoner
/// found under that key gives id, PUUID, name and level (skipped when its id was seen);
/// without one, the player gets the name's negative id and the name itself. The champion
/// is the one chosen under the normalised name.
pub open spec fn name_step(
    st: RosterView,
    name: Seq<char>,
    team: ChampSelectTeam,
    session: ChampSelectSessionData,
    by_name: Seq<SummonerBatchEntry>,
) -> RosterView {
    let normalized = normalized_name(name);
    if normalized.len() == 0 || st.names.contains(normalized) {
        st
    } else {
        let s = summoner_by_key(by_name, normalized);
        if s matches Some(e) && st.ids.contains(e.summoner_id) {
            st
        } else {
            let ids = match s {
                Some(e) => st.ids.push(e.summoner_id),
                None => st.ids,
            };
            let id = match s {
                Some(e) => e.summoner_id,
                None => stable_id(name) as i64,
            };
            let puuid = match s {
                Some(e) => e.puuid@,
                None => Seq::empty(),
            };
            let display = match s {
                Some(e) => e.display_name@,
                None => name,
            };
            let champ = selection_by_name(session.champion_selections_by_name@, normalized);
            let level = match s {
                Some(e) => e.summoner_level,
                None => None,
            };
            RosterView {
                seeds: st.seeds.push((id, puuid, display, champ, team, level)),
                ids,
                names: st.names.push(normalized),
                puuids: st.puuids,
            }
        }
    }
}

/// The roster after the first `n` names of one side.
pub open spec fn names_phase(
    st: RosterView,
    names: Seq<Seq<char>>,
    team: ChampSelectTeam,
    n: int,
    session: ChampSelectSessionData,
    by_name: Seq<SummonerBatchEntry>,
) -> RosterView
    decreases n,
{
    if n <= 0 {
        st
    } else {
        name_step(names_phase(st, names, team, n - 1, session, by_name), names[n - 1], team, session, by_name)
    }
}

/// The PUUID and level a player has after the first `n` of its lookup keys, and whether
/// both are known (which ends the scan).
pub open spec fn enrich_scan(
    puuid: Seq<char>,
    level: Option<i64>,
    keys: Seq<Seq<char>>,
    n: int,
    by_name: Seq<SummonerBatchEntry>,
    needs_puuid: bool,
    needs_level: bool,
) -> (Seq<char>, Option<i64>, bool)
    decreases n,
{
    if n <= 0 {
        (puuid, level, false)
    } else {
        let (p, l, done) = enrich_scan(puuid, level, keys, n - 1, by_name, needs_puuid, needs_level);
        if done {
            (p, l, done)
        } else {
            match summoner_by_key(by_name, keys[n - 1]) {
                None => (p, l, false),
                Some(e) => {
                    let p2 = if needs_puuid && e.puuid@.len() > 0 {
                        e.puuid@
                    } else {
                        p
                    };
                    let l2 = if needs_level && e.summoner_level is Some {
                        e.summoner_level
                    } else {
                        l
                    };
                    (p2, l2, p2.len() > 0 && l2 is Some)
                },
            }
        }
    }
}

/// A player after filling a missing PUUID or level from the summoners found under its
/// name's lookup keys.
pub open spec fn enrich(seed: SeedView, by_name: Seq<SummonerBatchEntry>) -> SeedView {
    let needs_puuid = seed.1.len() == 0;
    let needs_level = seed.5 is None;
    if !needs_puuid && !needs_level {
        seed
    } else {
        let keys = lookup_keys(seed.2);
        let (p, l, _) = enrich_scan(seed.1, seed.5, keys, keys.len() as int, by_name, needs_puuid, needs_level);
        (seed.0, p, seed.2, seed.3, seed.4, l)
    }
}

/// The roster of a session: the session's players, then the sides' ids in the order
/// given, then the allies' names, then the enemies' names; each player then enriched.
pub open spec fn roster_spec(
    session: ChampSelectSessionData,
    ids: Seq<i64>,
    by_id: Seq<SummonerBatchEntry>,
    by_name: Seq<SummonerBatchEntry>,
) -> Seq<SeedView> {
    let s1 = players_phase(empty_roster(), session.players@, session.players@.len() as int, by_id);
    let s2 = ids_phase(s1, ids, ids.len() as int, session, by_id);
    let s3 = names_phase(
        s2,
        session.ally_names.deep_view(),
        ChampSelectTeam::Ally,
        session.ally_names@.len() as int,
        session,
        by_name,
    );
    let s4 = names_phase(
        s3,
        session.enemy_names.deep_view(),
        ChampSelectTeam::Enemy,
        session.enemy_names@.len() as int,
        session,
        by_name,
    );
    s4.seeds.map_values(|s: SeedView| enrich(s, by_name))
}

/// The roster while it is built, as values.
pub struct RosterBuild {
    pub seeds: Vec<RosterSeed>,
    pub ids: Vec<i64>,
    pub names: Vec<String>,
    pub puuids: Vec<String>,
}

/// The view of a roster being built.
pub open spec fn build_view(b: RosterBuild) -> RosterView {
    RosterView {
        seeds: b.seeds@.map_values(|s: RosterSeed| seed_view(s)),
        ids: b.ids@,
        names: b.names.deep_view(),
        puuids: b.puuids.deep_view(),
    }
}

/// Appends a player; the view grows by its fields.
fn push_seed(b: &mut RosterBuild, seed: RosterSeed)
    ensures
        build_view(*final(b)) == (RosterView {
            seeds: build_view(*old(b)).seeds.push(seed_view(seed)),
            ..build_view(*old(b))
        }),
{
    let ghost before = b.seeds@;
    let ghost sv = seed_view(seed);
    b.seeds.push(seed);
    assert(b.seeds@.map_values(|s: RosterSeed| seed_view(s)) =~= before.map_values(
        |s: RosterSeed| seed_view(s),
    ).push(sv));
}

/// Records a name as seen.
fn push_name(v: &mut Vec<String>, name: String)
    ensures
        final(v).deep_view() == old(v).deep_view().push(name@),
{
    let ghost before = v.deep_view();
    v.push(name);
    assert(v.deep_view() =~= before.push(name@));
}

/// The name shown for a session player (see `player_display`).
fn session_player_display(p: &ChampSelectSessionPlayer, index: usize) -> (r: String)
    requires
        index < usize::MAX,
    ensures
        r@ == player_display(*p, index as int),
{
    if is_blank(p.display_name.as_str()) {
        match p.summoner_id {
            Some(id) => concat2("Summoner ", int_to_string(id).as_str()),
            None => concat2("Player ", nat_to_string((index + 1) as u64).as_str()),
        }
    } else {
        p.display_name.clone()
    }
}

/// Adds a session player (see `player_step`).
fn add_session_player(
    b: &mut RosterBuild,
    p: &ChampSelectSessionPlayer,
    index: usize,
    by_id: &Vec<SummonerBatchEntry>,
)
    requires
        index < usize::MAX,
    ensures
        build_view(*final(b)) == player_step(build_view(*old(b)), *p, index as int, by_id@),
{
    let display = session_player_display(p, index);
    let normalized = normalize_player_name(display.as_str());
    let summoner_id = match p.summoner_id {
        Some(id) => if id > 0 {
            id
        } else {
            negative_stable_id(display.as_str())
        },
        None => negative_stable_id(display.as_str()),
    };
    let puuid = match &p.puuid {
        Some(s) => if is_blank(s.as_str()) {
            String::new()
        } else {
            s.clone()
        },
        None => String::new(),
    };
    assert(puuid@ == player_puuid(*p));
    assert(summoner_id == player_id(*p, display@));
    let has_puuid = puuid.as_str().unicode_len() > 0;
    if has_puuid {
        if contains_text(&b.puuids, puuid.as_str()) {
            return;
        }
        push_name(&mut b.puuids, puuid.clone());
    }
    if summoner_id > 0 && contains_i64(&b.ids, summoner_id) {
        return;
    }
    let has_name = normalized.as_str().unicode_len() > 0;
    if has_name && contains_text(&b.names, normalized.as_str()) {
        return;
    }
    if summoner_id > 0 {
        b.ids.push(summoner_id);
    }
    if has_name {
        push_name(&mut b.names, normalized);
    }
    let summoner_level = match find_summoner_by_id(by_id, summoner_id) {
        Some(s) => s.summoner_level,
        None => None,
    };
    push_seed(
        b,
        RosterSeed {
            summoner_id,
            puuid,
            display_name: display,
            champion_id: p.champion_id,
            team: p.team,
            summoner_level,
        },
    );
}

/// Adds a side's summoner id (see `id_step`).
fn add_summoner_id(
    b: &mut RosterBuild,
    id: i64,
    session: &ChampSelectSessionData,
    by_id: &Vec<SummonerBatchEntry>,
)
    ensures
        build_view(*final(b)) == id_step(build_view(*old(b)), id, *session, by_id@),
{
    if contains_i64(&b.ids, id) {
        return;
    }
    let summoner = find_summoner_by_id(by_id, id);
    let team = if contains_i64(&session.ally_ids, id) {
        ChampSelectTeam::Ally
    } else {
        ChampSelectTeam::Enemy
    };
    let champion_id = find_selection_by_id(&session.champion_selections, id);
    let puuid = match summoner {
        Some(s) => s.puuid.clone(),
        None => String::new(),
    };
    let display_name = match summoner {
        Some(s) => s.display_name.clone(),
        None => concat2("Summoner ", int_to_string(id).as_str()),
    };
    let summoner_level = match summoner {
        Some(s) => s.summoner_level,
        None => None,
    };
    if puuid.as_str().unicode_len() > 0 {
        push_name(&mut b.puuids, puuid.clone());
    }
    b.ids.push(id);
    push_name(&mut b.names, normalize_player_name(display_name.as_str()));
    push_seed(b, RosterSeed { summoner_id: id, puuid, display_name, champion_id, team, summoner_level });
}

/// Adds a side's name (see `name_step`).
fn add_name(
    b: &mut RosterBuild,
    name: &String,
    team: ChampSelectTeam,
    session: &ChampSelectSessionData,
    by_name: &Vec<SummonerBatchEntry>,
)
    ensures
        build_view(*final(b)) == name_step(build_view(*old(b)), name@, team, *session, by_name@),
{
    let normalized = normalize_player_name(name.as_str());
    if normalized.as_str().unicode_len() == 0 || contains_text(&b.names, normalized.as_str()) {
        return;
    }
    let summoner = find_summoner_by_key(by_name, normalized.as_str());
    if let Some(s) = summoner {
        if contains_i64(&b.ids, s.summoner_id) {
            return;
        }
        b.ids.push(s.summoner_id);
    }
    let summoner_id = match summoner {
        Some(s) => s.summoner_id,
        None => negative_stable_id(name.as_str()),
    };
    let puuid = match summoner {
        Some(s) => s.puuid.clone(),
        None => String::new(),
    };
    let display_name = match summoner {
        Some(s) => s.display_name.clone(),
        None => name.clone(),
    };
    let champion_id = find_selection_by_name(&session.champion_selections_by_name, normalized.as_str());
    let summoner_level = match summoner {
        Some(s) => s.summoner_level,
        None => None,
    };
    push_name(&mut b.names, normalized);
    push_seed(b, RosterSeed { summoner_id, puuid, display_name, champion_id, team, summoner_level });
}

/// Fills a missing PUUID or level from the summoners found by name (see `enrich`).
fn enrich_seed(seed: &mut RosterSeed, by_name: &Vec<SummonerBatchEntry>)
    ensures
        seed_view(*final(seed)) == enrich(seed_view(*old(seed)), by_name@),
{
    let needs_puuid = seed.puuid.as_str().unicode_len() == 0;
    let needs_level = seed.summoner_level.is_none();
    if !needs_puuid && !needs_level {
        return;
    }
    let keys = summoner_name_lookup_keys(seed.display_name.as_str());
    let ghost kv = keys.deep_view();
    let ghost start_puuid = seed.puuid@;
    let ghost start_level = seed.summoner_level;
    let mut done = false;
    let mut k: usize = 0;
    while k < keys.len() && !done
        invariant
            k <= keys.len(),
            kv == keys.deep_view(),
            kv == lookup_keys(seed.display_name@),
            seed.display_name@ == old(seed).display_name@,
            seed.summoner_id == old(seed).summoner_id,
            seed.champion_id == old(seed).champion_id,
            seed.team == old(seed).team,
            start_puuid == old(seed).puuid@,
            start_level == old(seed).summoner_level,
            needs_puuid == (start_puuid.len() == 0),
            needs_level == (start_level is None),
            (seed.puuid@, seed.summoner_level, done) == enrich_scan(
                start_puuid,
                start_level,
                kv,
                k as int,
                by_name@,
                needs_puuid,
                needs_level,
            ),
            done ==> forall|m: int| k <= m <= kv.len() ==> #[trigger] enrich_scan(
                start_puuid,
                start_level,
                kv,
                m,
                by_name@,
                needs_puuid,
                needs_level,
            ) == (seed.puuid@, seed.summoner_level, done),
        decreases keys.len() - k,
    {
        assert(kv[k as int] == keys@[k as int]@);
        if let Some(s) = find_summoner_by_key(by_name, keys[k].as_str()) {
            if needs_puuid && s.puuid.as_str().unicode_len() > 0 {
                seed.puuid = s.puuid.clone();
            }
            if needs_level && s.summoner_level.is_some() {
                seed.summoner_level = s.summoner_level;
            }
            if seed.puuid.as_str().unicode_len() > 0 && seed.summoner_level.is_some() {
                done = true;
                proof {
                    lemma_enrich_scan_done(start_puuid, start_level, kv, k as int + 1, by_name@, needs_puuid, needs_level);
                }
            }
        }
        k = k + 1;
    }
}

/// Once both are known, further keys change nothing.
proof fn lemma_enrich_scan_done(
    puuid: Seq<char>,
    level: Option<i64>,
    keys: Seq<Seq<char>>,
    n: int,
    by_name: Seq<SummonerBatchEntry>,
    needs_puuid: bool,
    needs_level: bool,
)
    requires
        0 <= n <= keys.len(),
        enrich_scan(puuid, level, keys, n, by_name, needs_puuid, needs_level).2,
    ensures
        forall|m: int| n <= m <= keys.len() ==> #[trigger] enrich_scan(puuid, level, keys, m, by_name, needs_puuid, needs_level)
            == enrich_scan(puuid, level, keys, n, by_name, needs_puuid, needs_level),
    decreases keys.len() - n,
{
    if n < keys.len() {
        lemma_enrich_scan_done(puuid, level, keys, n + 1, by_name, needs_puuid, needs_level);
    }
}

/// The champion-select roster of a session, given the summoners found by id (for the
/// sides' ids) and by name (for the sides' names); see `roster_spec`. The ids phase runs
/// over the sides' ids sorted ascending, each once.
pub fn champ_select_roster(
    session: &ChampSelectSessionData,
    by_id: &Vec<SummonerBatchEntry>,
    by_name: &Vec<SummonerBatchEntry>,
) -> (r: Vec<RosterSeed>)
    ensures
        exists|ids: Seq<i64>|
            #![trigger roster_spec(*session, ids, by_id@, by_name@)]
            strictly_increasing(ids) && (forall|x: i64| ids.contains(x) <==> (
            session.ally_ids@.contains(x) || session.enemy_ids@.contains(x)))
                && r@.map_values(|s: RosterSeed| seed_view(s)) == roster_spec(
                *session,
                ids,
                by_id@,
                by_name@,
            ),
{
    let ids = roster_summoner_ids(session);
    let mut b = RosterBuild { seeds: Vec::new(), ids: Vec::new(), names: Vec::new(), puuids: Vec::new() };
    assert(build_view(b) =~= empty_roster()) by {
        assert(b.seeds@.map_values(|s: RosterSeed| seed_view(s)) =~= Seq::<SeedView>::empty());
        assert(b.names.deep_view() =~= Seq::<Seq<char>>::empty());
        assert(b.puuids.deep_view() =~= Seq::<Seq<char>>::empty());
    }
    let mut i: usize = 0;
    while i < session.players.len()
        invariant
            i <= session.players@.len(),
            build_view(b) == players_phase(empty_roster(), session.players@, i as int, by_id@),
        decreases session.players.len() - i,
    {
        add_session_player(&mut b, &session.players[i], i, by_id);
        i = i + 1;
    }
    let ghost s1 = build_view(b);
    let mut k: usize = 0;
    while k < ids.len()
        invariant
            k <= ids@.len(),
            build_view(b) == ids_phase(s1, ids@, k as int, *session, by_id@),
        decreases ids.len() - k,
    {
        add_summoner_id(&mut b, ids[k], session, by_id);
        k = k + 1;
    }
    let ghost s2 = build_view(b);
    let mut a: usize = 0;
    while a < session.ally_names.len()
        invariant
            a <= session.ally_names@.len(),
            build_view(b) == names_phase(
                s2,
                session.ally_names.deep_view(),
                ChampSelectTeam::Ally,
                a as int,
                *session,
                by_name@,
            ),
        decreases session.ally_names.len() - a,
    {
        assert(session.ally_names.deep_view()[a as int] == session.ally_names@[a as int]@);
        add_name(&mut b, &session.ally_names[a], ChampSelectTeam::Ally, session, by_name);
        a = a + 1;
    }
    let ghost s3 = build_view(b);
    let mut e: usize = 0;
    while e < session.enemy_names.len()
        invariant
            e <= session.enemy_names@.len(),
            build_view(b) == names_phase(
                s3,
                session.enemy_names.deep_view(),
                ChampSelectTeam::Enemy,
                e as int,
                *session,
                by_name@,
            ),
        decreases session.enemy_names.len() - e,
    {
        assert(session.enemy_names.deep_view()[e as int] == session.enemy_names@[e as int]@);
        add_name(&mut b, &session.enemy_names[e], ChampSelectTeam::Enemy, session, by_name);
        e = e + 1;
    }
    let ghost s4 = build_view(b);
    let mut seeds = b.seeds;
    let mut j: usize = 0;
    while j < seeds.len()
        invariant
            j <= seeds@.len(),
            seeds@.len() == s4.seeds.len(),
            forall|m: int| 0 <= m < j ==> seed_view(#[trigger] seeds@[m]) == enrich(s4.seeds[m], by_name@),
            forall|m: int| j <= m < seeds@.len() ==> seed_view(#[trigger] seeds@[m]) == s4.seeds[m],
        decreases seeds.len() - j,
    {
        let mut seed = seeds[j].clone_seed();
        enrich_seed(&mut seed, by_name);
        seeds.set(j, seed);
        j = j + 1;
    }
    assert(seeds@.map_values(|s: RosterSeed| seed_view(s)) =~= roster_spec(
        *session,
        ids@,
        by_id@,
        by_name@,
    ));
    seeds
}

impl RosterSeed {
    /// A field-by-field copy.
    pub fn clone_seed(&self) -> (r: RosterSeed)
        ensures
            seed_view(r) == seed_view(*self),
    {
        RosterSeed {
            summoner_id: self.summoner_id,
            puuid: self.puuid.clone(),
            display_name: self.display_name.clone(),
            champion_id: self.champion_id,
            team: self.team,
            summoner_level: self.summoner_level,
        }
    }
}

/// A positive id belongs to one player at most.
pub open spec fn positive_ids_distinct(seeds: Seq<SeedView>) -> bool {
    forall|i: int, j: int|
        0 <= i < j < seeds.len() && (#[trigger] seeds[i]).0 > 0 ==> seeds[i].0 != (#[trigger] seeds[j]).0
}

/// A roster being built keeps positive ids distinct and records each one as seen.
pub open spec fn roster_ok(st: RosterView) -> bool {
    &&& positive_ids_distinct(st.seeds)
    &&& forall|i: int| 0 <= i < st.seeds.len() && (#[trigger] st.seeds[i]).0 > 0 ==> st.ids.contains(st.seeds[i].0)
}

/// Adding a player whose id is not positive or not seen keeps the roster well formed.
proof fn lemma_push_ok(st: RosterView, seed: SeedView, ids: Seq<i64>)
    requires
        roster_ok(st),
        seed.0 > 0 ==> !st.ids.contains(seed.0),
        forall|x: i64| st.ids.contains(x) ==> ids.contains(x),
        seed.0 > 0 ==> ids.contains(seed.0),
    ensures
        positive_ids_distinct(st.seeds.push(seed)),
        forall|i: int| 0 <= i < st.seeds.push(seed).len() && (#[trigger] st.seeds.push(seed)[i]).0 > 0
            ==> ids.contains(st.seeds.push(seed)[i].0),
{
    let t = st.seeds.push(seed);
    assert forall|i: int, j: int| 0 <= i < j < t.len() && (#[trigger] t[i]).0 > 0 implies t[i].0 != (
    #[trigger] t[j]).0 by {
        if j < st.seeds.len() {
            assert(t[i] == st.seeds[i]);
            assert(t[j] == st.seeds[j]);
        } else {
            assert(t[i] == st.seeds[i]);
            assert(st.ids.contains(st.seeds[i].0));
        }
    }
    assert forall|i: int| 0 <= i < t.len() && (#[trigger] t[i]).0 > 0 implies ids.contains(t[i].0) by {
        if i < st.seeds.len() {
            assert(t[i] == st.seeds[i]);
            assert(st.ids.contains(st.seeds[i].0));
        }
    }
}

/// Each step keeps the roster well formed.
proof fn lemma_player_step_ok(st: RosterView, p: ChampSelectSessionPlayer, index: int, by_id: Seq<SummonerBatchEntry>)
    requires
        roster_ok(st),
    ensures
        roster_ok(player_step(st, p, index, by_id)),
{
    let display = player_display(p, index);
    let id = player_id(p, display);
    crate::application::lemma_stable_id_negative(display);
    let next = player_step(st, p, index, by_id);
    if next.seeds.len() > st.seeds.len() {
        let new_ids = if id > 0 {
            st.ids.push(id)
        } else {
            st.ids
        };
        assert forall|x: i64| st.ids.contains(x) implies new_ids.contains(x) by {
            if id > 0 {
                let k = choose|k: int| 0 <= k < st.ids.len() && st.ids[k] == x;
                assert(new_ids[k] == x);
            }
        }
        if id > 0 {
            assert(new_ids[st.ids.len() as int] == id);
        }
        lemma_push_ok(st, next.seeds.last(), new_ids);
        assert(next.seeds == st.seeds.push(next.seeds.last()));
    }
}

/// Each step keeps the roster well formed.
proof fn lemma_id_step_ok(st: RosterView, id: i64, session: ChampSelectSessionData, by_id: Seq<SummonerBatchEntry>)
    requires
        roster_ok(st),
    ensures
        roster_ok(id_step(st, id, session, by_id)),
{
    let next = id_step(st, id, session, by_id);
    if !st.ids.contains(id) {
        let new_ids = st.ids.push(id);
        assert forall|x: i64| st.ids.contains(x) implies new_ids.contains(x) by {
            let k = choose|k: int| 0 <= k < st.ids.len() && st.ids[k] == x;
            assert(new_ids[k] == x);
        }
        assert(new_ids[st.ids.len() as int] == id);
        lemma_push_ok(st, next.seeds.last(), new_ids);
        assert(next.seeds == st.seeds.push(next.seeds.last()));
    }
}

/// Each step keeps the roster well formed.
proof fn lemma_name_step_ok(
    st: RosterView,
    name: Seq<char>,
    team: ChampSelectTeam,
    session: ChampSelectSessionData,
    by_name: Seq<SummonerBatchEntry>,
)
    requires
        roster_ok(st),
    ensures
        roster_ok(name_step(st, name, team, session, by_name)),
{
    crate::application::lemma_stable_id_negative(name);
    let next = name_step(st, name, team, session, by_name);
    if next.seeds.len() > st.seeds.len() {
        let normalized = normalized_name(name);
        let s = summoner_by_key(by_name, normalized);
        match s {
            Some(e) => {
                let new_ids = st.ids.push(e.summoner_id);
                assert forall|x: i64| st.ids.contains(x) implies new_ids.contains(x) by {
                    let k = choose|k: int| 0 <= k < st.ids.len() && st.ids[k] == x;
                    assert(new_ids[k] == x);
                }
                assert(new_ids[st.ids.len() as int] == e.summoner_id);
                lemma_push_ok(st, next.seeds.last(), new_ids);
            },
            None => {
                lemma_push_ok(st, next.seeds.last(), st.ids);
            },
        }
        assert(next.seeds == st.seeds.push(next.seeds.last()));
    }
}

proof fn lemma_players_phase_ok(st: RosterView, players: Seq<ChampSelectSessionPlayer>, n: int, by_id: Seq<SummonerBatchEntry>)
    requires
        roster_ok(st),
    ensures
        roster_ok(players_phase(st, players, n, by_id)),
    decreases n,
{
    if n > 0 {
        lemma_players_phase_ok(st, players, n - 1, by_id);
        lemma_player_step_ok(players_phase(st, players, n - 1, by_id), players[n - 1], n - 1, by_id);
    }
}

proof fn lemma_ids_phase_ok(st: RosterView, ids: Seq<i64>, n: int, session: ChampSelectSessionData, by_id: Seq<SummonerBatchEntry>)
    requires
        roster_ok(st),
    ensures
        roster_ok(ids_phase(st, ids, n, session, by_id)),
    decreases n,
{
    if n > 0 {
        lemma_ids_phase_ok(st, ids, n - 1, session, by_id);
        lemma_id_step_ok(ids_phase(st, ids, n - 1, session, by_id), ids[n - 1], session, by_id);
    }
}

proof fn lemma_names_phase_ok(
    st: RosterView,
    names: Seq<Seq<char>>,
    team: ChampSelectTeam,
    n: int,
    session: ChampSelectSessionData,
    by_name: Seq<SummonerBatchEntry>,
)
    requires
        roster_ok(st),
    ensures
        roster_ok(names_phase(st, names, team, n, session, by_name)),
    decreases n,
{
    if n > 0 {
        lemma_names_phase_ok(st, names, team, n - 1, session, by_name);
        lemma_name_step_ok(names_phase(st, names, team, n - 1, session, by_name), names[n - 1], team, session, by_name);
    }
}

/// In a champion-select roster, a positive summoner id belongs to one player only:
/// players met again under the same id are merged, whatever the session and the
/// summoners found.
pub proof fn roster_positive_ids_are_unique(
    session: ChampSelectSessionData,
    ids: Seq<i64>,
    by_id: Seq<SummonerBatchEntry>,
    by_name: Seq<SummonerBatchEntry>,
)
    ensures
        positive_ids_distinct(roster_spec(session, ids, by_id, by_name)),
{
    let s0 = empty_roster();
    let s1 = players_phase(s0, session.players@, session.players@.len() as int, by_id);
    lemma_players_phase_ok(s0, session.players@, session.players@.len() as int, by_id);
    let s2 = ids_phase(s1, ids, ids.len() as int, session, by_id);
    lemma_ids_phase_ok(s1, ids, ids.len() as int, session, by_id);
    let s3 = names_phase(s2, session.ally_names.deep_view(), ChampSelectTeam::Ally, session.ally_names@.len() as int, session, by_name);
    lemma_names_phase_ok(s2, session.ally_names.deep_view(), ChampSelectTeam::Ally, session.ally_names@.len() as int, session, by_name);
    let s4 = names_phase(s3, session.enemy_names.deep_view(), ChampSelectTeam::Enemy, session.enemy_names@.len() as int, session, by_name);
    lemma_names_phase_ok(s3, session.enemy_names.deep_view(), ChampSelectTeam::Enemy, session.enemy_names@.len() as int, session, by_name);
    let r = roster_spec(session, ids, by_id, by_name);
    assert forall|i: int, j: int| 0 <= i < j < r.len() && (#[trigger] r[i]).0 > 0 implies r[i].0 != (
    #[trigger] r[j]).0 by {
        assert(r[i].0 == s4.seeds[i].0);
        assert(r[j].0 == s4.seeds[j].0);
        assert(s4.seeds[i].0 > 0);
    }
}

/// Some player of `seeds` has the id `x`.
pub open spec fn id_owned(seeds: Seq<SeedView>, x: i64) -> bool {
    exists|i: int| 0 <= i < seeds.len() && #[trigger] seeds[i].0 == x
}

/// Every id recorded as seen belongs to a player of the roster.
pub open spec fn ids_backed(st: RosterView) -> bool {
    forall|k: int| 0 <= k < st.ids.len() ==> id_owned(st.seeds, #[trigger] st.ids[k])
}

/// A roster that grows by keeping its players and its seen ids, every newly seen id
/// belonging to a player, stays backed and keeps every id it saw.
proof fn lemma_backed_grow(st: RosterView, next: RosterView)
    requires
        ids_backed(st),
        st.seeds.len() <= next.seeds.len(),
        forall|i: int| 0 <= i < st.seeds.len() ==> #[trigger] next.seeds[i] == st.seeds[i],
        st.ids.len() <= next.ids.len(),
        forall|k: int| 0 <= k < st.ids.len() ==> #[trigger] next.ids[k] == st.ids[k],
        forall|k: int| st.ids.len() <= k < next.ids.len() ==> id_owned(next.seeds, #[trigger] next.ids[k]),
    ensures
        ids_backed(next),
        forall|x: i64| st.ids.contains(x) ==> next.ids.contains(x),
{
    assert forall|k: int| 0 <= k < next.ids.len() implies id_owned(next.seeds, #[trigger] next.ids[k]) by {
        if k < st.ids.len() {
            assert(id_owned(st.seeds, st.ids[k]));
            let i = choose|i: int| 0 <= i < st.seeds.len() && #[trigger] st.seeds[i].0 == st.ids[k];
            assert(next.seeds[i] == st.seeds[i]);
            assert(next.ids[k] == st.ids[k]);
            assert(next.seeds[i].0 == next.ids[k]);
        }
    }
    assert forall|x: i64| st.ids.contains(x) implies next.ids.contains(x) by {
        let k = choose|k: int| 0 <= k < st.ids.len() && st.ids[k] == x;
        assert(next.ids[k] == x);
    }
}

proof fn lemma_player_step_backed(st: RosterView, p: ChampSelectSessionPlayer, index: int, by_id: Seq<SummonerBatchEntry>)
    requires
        ids_backed(st),
    ensures
        ids_backed(player_step(st, p, index, by_id)),
        forall|x: i64| st.ids.contains(x) ==> player_step(st, p, index, by_id).ids.contains(x),
{
    let next = player_step(st, p, index, by_id);
    if next.ids.len() > st.ids.len() {
        assert(next.seeds.last().0 == next.ids.last());
        assert(next.seeds[next.seeds.len() - 1].0 == next.ids[next.ids.len() - 1]);
    }
    lemma_backed_grow(st, next);
}

proof fn lemma_id_step_backed(st: RosterView, id: i64, session: ChampSelectSessionData, by_id: Seq<SummonerBatchEntry>)
    requires
        ids_backed(st),
    ensures
        ids_backed(id_step(st, id, session, by_id)),
        forall|x: i64| st.ids.contains(x) ==> id_step(st, id, session, by_id).ids.contains(x),
        id_step(st, id, session, by_id).ids.contains(id),
{
    let next = id_step(st, id, session, by_id);
    if !st.ids.contains(id) {
        assert(next.seeds[next.seeds.len() - 1].0 == next.ids[next.ids.len() - 1]);
        assert(next.ids[st.ids.len() as int] == id);
    }
    lemma_backed_grow(st, next);
}

proof fn lemma_name_step_backed(
    st: RosterView,
    name: Seq<char>,
    team: ChampSelectTeam,
    session: ChampSelectSessionData,
    by_name: Seq<SummonerBatchEntry>,
)
    requires
        ids_backed(st),
    ensures
        ids_backed(name_step(st, name, team, session, by_name)),
        forall|x: i64| st.ids.contains(x) ==> name_step(st, name, team, session, by_name).ids.contains(x),
{
    let next = name_step(st, name, team, session, by_name);
    if next.ids.len() > st.ids.len() {
        assert(next.seeds[next.seeds.len() - 1].0 == next.ids[next.ids.len() - 1]);
    }
    lemma_backed_grow(st, next);
}

proof fn lemma_players_phase_backed(st: RosterView, players: Seq<ChampSelectSessionPlayer>, n: int, by_id: Seq<SummonerBatchEntry>)
    requires
        ids_backed(st),
    ensures
        ids_backed(players_phase(st, players, n, by_id)),
    decreases n,
{
    if n > 0 {
        lemma_players_phase_backed(st, players, n - 1, by_id);
        lemma_player_step_backed(players_phase(st, players, n - 1, by_id), players[n - 1], n - 1, by_id);
    }
}

proof fn lemma_ids_phase_backed(st: RosterView, ids: Seq<i64>, n: int, session: ChampSelectSessionData, by_id: Seq<SummonerBatchEntry>)
    requires
        ids_backed(st),
        n <= ids.len(),
    ensures
        ids_backed(ids_phase(st, ids, n, session, by_id)),
        forall|k: int| 0 <= k < n ==> ids_phase(st, ids, n, session, by_id).ids.contains(#[trigger] ids[k]),
    decreases n,
{
    if n > 0 {
        let prev = ids_phase(st, ids, n - 1, session, by_id);
        lemma_ids_phase_backed(st, ids, n - 1, session, by_id);
        lemma_id_step_backed(prev, ids[n - 1], session, by_id);
        assert forall|k: int| 0 <= k < n implies ids_phase(st, ids, n, session, by_id).ids.contains(#[trigger] ids[k]) by {
            if k < n - 1 {
                assert(prev.ids.contains(ids[k]));
            }
        }
    }
}

proof fn lemma_names_phase_backed(
    st: RosterView,
    names: Seq<Seq<char>>,
    team: ChampSelectTeam,
    n: int,
    session: ChampSelectSessionData,
    by_name: Seq<SummonerBatchEntry>,
)
    requires
        ids_backed(st),
    ensures
        ids_backed(names_phase(st, names, team, n, session, by_name)),
        forall|x: i64| st.ids.contains(x) ==> names_phase(st, names, team, n, session, by_name).ids.contains(x),
    decreases n,
{
    if n > 0 {
        let prev = names_phase(st, names, team, n - 1, session, by_name);
        lemma_names_phase_backed(st, names, team, n - 1, session, by_name);
        lemma_name_step_backed(prev, names[n - 1], team, session, by_name);
    }
}

/// In a champion-select roster, each positive summoner id of either side belongs to
/// exactly one player.
pub proof fn roster_side_ids_appear_once(
    session: ChampSelectSessionData,
    ids: Seq<i64>,
    by_id: Seq<SummonerBatchEntry>,
    by_name: Seq<SummonerBatchEntry>,
)
    requires
        forall|x: i64| ids.contains(x) <==> (session.ally_ids@.contains(x) || session.enemy_ids@.contains(x)),
    ensures
        forall|x: i64|
            x > 0 && (session.ally_ids@.contains(x) || session.enemy_ids@.contains(x)) ==> exists|i: int|
                0 <= i < roster_spec(session, ids, by_id, by_name).len()
                    && #[trigger] roster_spec(session, ids, by_id, by_name)[i].0 == x && forall|j: int|
                    0 <= j < roster_spec(session, ids, by_id, by_name).len()
                        && roster_spec(session, ids, by_id, by_name)[j].0 == x ==> j == i,
{
    let s0 = empty_roster();
    let s1 = players_phase(s0, session.players@, session.players@.len() as int, by_id);
    lemma_players_phase_backed(s0, session.players@, session.players@.len() as int, by_id);
    let s2 = ids_phase(s1, ids, ids.len() as int, session, by_id);
    lemma_ids_phase_backed(s1, ids, ids.len() as int, session, by_id);
    let s3 = names_phase(s2, session.ally_names.deep_view(), ChampSelectTeam::Ally, session.ally_names@.len() as int, session, by_name);
    lemma_names_phase_backed(s2, session.ally_names.deep_view(), ChampSelectTeam::Ally, session.ally_names@.len() as int, session, by_name);
    let s4 = names_phase(s3, session.enemy_names.deep_view(), ChampSelectTeam::Enemy, session.enemy_names@.len() as int, session, by_name);
    lemma_names_phase_backed(s3, session.enemy_names.deep_view(), ChampSelectTeam::Enemy, session.enemy_names@.len() as int, session, by_name);
    roster_positive_ids_are_unique(session, ids, by_id, by_name);
    let r = roster_spec(session, ids, by_id, by_name);
    assert forall|x: i64| x > 0 && (session.ally_ids@.contains(x) || session.enemy_ids@.contains(x)) implies exists|i: int|
        0 <= i < r.len() && #[trigger] r[i].0 == x && forall|j: int| 0 <= j < r.len() && r[j].0 == x ==> j == i by {
        assert(ids.contains(x));
        let k = choose|k: int| 0 <= k < ids.len() && ids[k] == x;
        assert(s2.ids.contains(ids[k]));
        assert(s4.ids.contains(x));
        let m = choose|m: int| 0 <= m < s4.ids.len() && s4.ids[m] == x;
        assert(id_owned(s4.seeds, s4.ids[m]));
        let i = choose|i: int| 0 <= i < s4.seeds.len() && #[trigger] s4.seeds[i].0 == x;
        assert(r[i].0 == s4.seeds[i].0);
        assert forall|j: int| 0 <= j < r.len() && r[j].0 == x implies j == i by {
            if j < i {
                assert(r[j].0 != r[i].0);
            } else if i < j {
                assert(r[i].0 != r[j].0);
            }
        }
    }
}

/// The player `seed` carries the side, champion and shown name of the session player at
/// position `k`.
pub open spec fn from_session_player(seed: SeedView, players: Seq<ChampSelectSessionPlayer>, k: int) -> bool {
    &&& 0 <= k < players.len()
    &&& seed.4 == players[k].team
    &&& seed.3 == players[k].champion_id
    &&& seed.2 == player_display(players[k], k)
}

/// Some session player is the source of `seed` (see `from_session_player`).
pub open spec fn has_session_source(seed: SeedView, players: Seq<ChampSelectSessionPlayer>) -> bool {
    exists|k: int| from_session_player(seed, players, k)
}

proof fn lemma_players_phase_sources(
    players: Seq<ChampSelectSessionPlayer>,
    n: int,
    by_id: Seq<SummonerBatchEntry>,
)
    requires
        0 <= n <= players.len(),
    ensures
        players_phase(empty_roster(), players, n, by_id).seeds.len() <= n,
        forall|i: int| 0 <= i < players_phase(empty_roster(), players, n, by_id).seeds.len() ==> has_session_source(
            #[trigger] players_phase(empty_roster(), players, n, by_id).seeds[i],
            players,
        ),
        n > 0 ==> players_phase(empty_roster(), players, n, by_id).seeds.len() > 0
            && from_session_player(players_phase(empty_roster(), players, n, by_id).seeds[0], players, 0),
    decreases n,
{
    if n > 0 {
        lemma_players_phase_sources(players, n - 1, by_id);
        let prev = players_phase(empty_roster(), players, n - 1, by_id);
        let next = players_phase(empty_roster(), players, n, by_id);
        assert forall|i: int| 0 <= i < next.seeds.len() implies has_session_source(#[trigger] next.seeds[i], players) by {
            if i < prev.seeds.len() {
                assert(next.seeds[i] == prev.seeds[i]);
            } else {
                assert(from_session_player(next.seeds[i], players, n - 1));
            }
        }
        if n == 1 {
            assert(prev.puuids.len() == 0);
            assert(prev.ids.len() == 0);
            assert(prev.names.len() == 0);
            assert(from_session_player(next.seeds[0], players, 0));
        } else {
            assert(next.seeds[0] == prev.seeds[0]);
        }
    }
}

/// Players taken from the session's player list keep their side: the roster begins with
/// the players added from that list (at most one per session player), each carrying the
/// side, champion and shown name of a session player; the first session player is always
/// the first roster player.
pub proof fn roster_session_players_keep_their_side(
    session: ChampSelectSessionData,
    ids: Seq<i64>,
    by_id: Seq<SummonerBatchEntry>,
    by_name: Seq<SummonerBatchEntry>,
)
    ensures
        ({
            let players = session.players@;
            let r = roster_spec(session, ids, by_id, by_name);
            let added = players_phase(empty_roster(), players, players.len() as int, by_id).seeds.len();
            &&& added <= players.len()
            &&& added <= r.len()
            &&& forall|i: int| 0 <= i < added ==> has_session_source(#[trigger] r[i], players)
            &&& players.len() > 0 ==> r.len() > 0 && from_session_player(r[0], players, 0)
        }),
{
    let players = session.players@;
    let s1 = players_phase(empty_roster(), players, players.len() as int, by_id);
    lemma_players_phase_sources(players, players.len() as int, by_id);
    let s2 = ids_phase(s1, ids, ids.len() as int, session, by_id);
    lemma_seeds_grow_ids(s1, ids, ids.len() as int, session, by_id);
    let s3 = names_phase(s2, session.ally_names.deep_view(), ChampSelectTeam::Ally, session.ally_names@.len() as int, session, by_name);
    lemma_seeds_grow_names(s2, session.ally_names.deep_view(), ChampSelectTeam::Ally, session.ally_names@.len() as int, session, by_name);
    let s4 = names_phase(s3, session.enemy_names.deep_view(), ChampSelectTeam::Enemy, session.enemy_names@.len() as int, session, by_name);
    lemma_seeds_grow_names(s3, session.enemy_names.deep_view(), ChampSelectTeam::Enemy, session.enemy_names@.len() as int, session, by_name);
    let r = roster_spec(session, ids, by_id, by_name);
    assert forall|i: int| 0 <= i < s1.seeds.len() implies has_session_source(#[trigger] r[i], players) by {
        assert(s4.seeds[i] == s1.seeds[i]);
        assert(r[i] == enrich(s4.seeds[i], by_name));
        assert(has_session_source(s1.seeds[i], players));
        let k = choose|k: int| from_session_player(s1.seeds[i], players, k);
        assert(from_session_player(r[i], players, k));
    }
    if players.len() > 0 {
        assert(s4.seeds[0] == s1.seeds[0]);
        assert(r[0] == enrich(s4.seeds[0], by_name));
    }
}

proof fn lemma_seeds_grow_ids(st: RosterView, ids: Seq<i64>, n: int, session: ChampSelectSessionData, by_id: Seq<SummonerBatchEntry>)
    ensures
        st.seeds.len() <= ids_phase(st, ids, n, session, by_id).seeds.len(),
        forall|i: int| 0 <= i < st.seeds.len() ==> #[trigger] ids_phase(st, ids, n, session, by_id).seeds[i] == st.seeds[i],
    decreases n,
{
    if n > 0 {
        lemma_seeds_grow_ids(st, ids, n - 1, session, by_id);
        let prev = ids_phase(st, ids, n - 1, session, by_id);
        assert forall|i: int| 0 <= i < st.seeds.len() implies #[trigger] ids_phase(st, ids, n, session, by_id).seeds[i] == st.seeds[i] by {
            assert(prev.seeds[i] == st.seeds[i]);
        }
    }
}

proof fn lemma_seeds_grow_names(
    st: RosterView,
    names: Seq<Seq<char>>,
    team: ChampSelectTeam,
    n: int,
    session: ChampSelectSessionData,
    by_name: Seq<SummonerBatchEntry>,
)
    ensures
        st.seeds.len() <= names_phase(st, names, team, n, session, by_name).seeds.len(),
        forall|i: int| 0 <= i < st.seeds.len() ==> #[trigger] names_phase(st, names, team, n, session, by_name).seeds[i] == st.seeds[i],
    decreases n,
{
    if n > 0 {
        lemma_seeds_grow_names(st, names, team, n - 1, session, by_name);
        let prev = names_phase(st, names, team, n - 1, session, by_name);
        assert forall|i: int| 0 <= i < st.seeds.len() implies #[trigger] names_phase(st, names, team, n, session, by_name).seeds[i] == st.seeds[i] by {
            assert(prev.seeds[i] == st.seeds[i]);
        }
    }
}

/// The side of a side's summoner id: allies for an id of the own side, else enemies.
pub open spec fn side_of_id(session: ChampSelectSessionData, id: i64) -> ChampSelectTeam {
    if session.ally_ids@.contains(id) {
        ChampSelectTeam::Ally
    } else {
        ChampSelectTeam::Enemy
    }
}

proof fn lemma_ids_phase_sides(st: RosterView, ids: Seq<i64>, n: int, session: ChampSelectSessionData, by_id: Seq<SummonerBatchEntry>)
    requires
        0 <= n <= ids.len(),
    ensures
        forall|i: int| st.seeds.len() <= i < ids_phase(st, ids, n, session, by_id).seeds.len() ==> ids.contains(
            (#[trigger] ids_phase(st, ids, n, session, by_id).seeds[i]).0,
        ) && ids_phase(st, ids, n, session, by_id).seeds[i].4 == side_of_id(
            session,
            ids_phase(st, ids, n, session, by_id).seeds[i].0,
        ),
    decreases n,
{
    if n > 0 {
        lemma_ids_phase_sides(st, ids, n - 1, session, by_id);
        lemma_seeds_grow_ids(st, ids, n - 1, session, by_id);
        let prev = ids_phase(st, ids, n - 1, session, by_id);
        let next = ids_phase(st, ids, n, session, by_id);
        assert forall|i: int| st.seeds.len() <= i < next.seeds.len() implies ids.contains(
            (#[trigger] next.seeds[i]).0,
        ) && next.seeds[i].4 == side_of_id(session, next.seeds[i].0) by {
            if i < prev.seeds.len() {
                assert(next.seeds[i] == prev.seeds[i]);
            } else {
                assert(next.seeds[i].0 == ids[n - 1]);
            }
        }
    }
}

proof fn lemma_names_phase_sides(
    st: RosterView,
    names: Seq<Seq<char>>,
    team: ChampSelectTeam,
    n: int,
    session: ChampSelectSessionData,
    by_name: Seq<SummonerBatchEntry>,
)
    ensures
        forall|i: int| st.seeds.len() <= i < names_phase(st, names, team, n, session, by_name).seeds.len() ==> (
        #[trigger] names_phase(st, names, team, n, session, by_name).seeds[i]).4 == team,
    decreases n,
{
    if n > 0 {
        lemma_names_phase_sides(st, names, team, n - 1, session, by_name);
        lemma_seeds_grow_names(st, names, team, n - 1, session, by_name);
        let prev = names_phase(st, names, team, n - 1, session, by_name);
        let next = names_phase(st, names, team, n, session, by_name);
        assert forall|i: int| st.seeds.len() <= i < next.seeds.len() implies (#[trigger] next.seeds[i]).4 == team by {
            if i < prev.seeds.len() {
                assert(next.seeds[i] == prev.seeds[i]);
            }
        }
    }
}

/// Roster players keep the side the session gives them: after the players of the
/// session's player list (see `roster_session_players_keep_their_side`) come the players
/// of the sides' id lists, each on the side whose list holds its id (allies when both do),
/// then the players found by the allies' names, all allies, then those found by the
/// enemies' names, all enemies.
pub proof fn roster_sides_follow_the_session(
    session: ChampSelectSessionData,
    ids: Seq<i64>,
    by_id: Seq<SummonerBatchEntry>,
    by_name: Seq<SummonerBatchEntry>,
)
    requires
        forall|x: i64| ids.contains(x) <==> (session.ally_ids@.contains(x) || session.enemy_ids@.contains(x)),
    ensures
        ({
            let r = roster_spec(session, ids, by_id, by_name);
            let s1 = players_phase(empty_roster(), session.players@, session.players@.len() as int, by_id);
            let s2 = ids_phase(s1, ids, ids.len() as int, session, by_id);
            let s3 = names_phase(s2, session.ally_names.deep_view(), ChampSelectTeam::Ally, session.ally_names@.len() as int, session, by_name);
            &&& s1.seeds.len() <= s2.seeds.len() <= s3.seeds.len() <= r.len()
            &&& forall|i: int| s1.seeds.len() <= i < s2.seeds.len() ==> (session.ally_ids@.contains((#[trigger] r[i]).0)
                || session.enemy_ids@.contains(r[i].0)) && r[i].4 == side_of_id(session, r[i].0)
            &&& forall|i: int| s2.seeds.len() <= i < s3.seeds.len() ==> (#[trigger] r[i]).4 == ChampSelectTeam::Ally
            &&& forall|i: int| s3.seeds.len() <= i < r.len() ==> (#[trigger] r[i]).4 == ChampSelectTeam::Enemy
        }),
{
    let s1 = players_phase(empty_roster(), session.players@, session.players@.len() as int, by_id);
    let s2 = ids_phase(s1, ids, ids.len() as int, session, by_id);
    lemma_ids_phase_sides(s1, ids, ids.len() as int, session, by_id);
    lemma_seeds_grow_ids(s1, ids, ids.len() as int, session, by_id);
    let an = session.ally_names.deep_view();
    let en = session.enemy_names.deep_view();
    let s3 = names_phase(s2, an, ChampSelectTeam::Ally, session.ally_names@.len() as int, session, by_name);
    lemma_names_phase_sides(s2, an, ChampSelectTeam::Ally, session.ally_names@.len() as int, session, by_name);
    lemma_seeds_grow_names(s2, an, ChampSelectTeam::Ally, session.ally_names@.len() as int, session, by_name);
    let s4 = names_phase(s3, en, ChampSelectTeam::Enemy, session.enemy_names@.len() as int, session, by_name);
    lemma_names_phase_sides(s3, en, ChampSelectTeam::Enemy, session.enemy_names@.len() as int, session, by_name);
    lemma_seeds_grow_names(s3, en, ChampSelectTeam::Enemy, session.enemy_names@.len() as int, session, by_name);
    let r = roster_spec(session, ids, by_id, by_name);
    assert(r.len() == s4.seeds.len());
    assert forall|i: int| s1.seeds.len() <= i < s2.seeds.len() implies (session.ally_ids@.contains((#[trigger] r[i]).0)
        || session.enemy_ids@.contains(r[i].0)) && r[i].4 == side_of_id(session, r[i].0) by {
        assert(s4.seeds[i] == s3.seeds[i]);
        assert(s3.seeds[i] == s2.seeds[i]);
        assert(r[i] == enrich(s4.seeds[i], by_name));
        assert(ids.contains(s2.seeds[i].0));
    }
    assert forall|i: int| s2.seeds.len() <= i < s3.seeds.len() implies (#[trigger] r[i]).4 == ChampSelectTeam::Ally by {
        assert(s4.seeds[i] == s3.seeds[i]);
        assert(r[i] == enrich(s4.seeds[i], by_name));
    }
    assert forall|i: int| s3.seeds.len() <= i < r.len() implies (#[trigger] r[i]).4 == ChampSelectTeam::Enemy by {
        assert(r[i] == enrich(s4.seeds[i], by_name));
    }
}

/// `a` comes before `b` in code-point order (the order of `str`'s `Ord`).
pub open spec fn text_lt(a: Seq<char>, b: Seq<char>) -> bool
    decreases a.len(),
{
    if a.len() == 0 {
        b.len() > 0
    } else if b.len() == 0 {
        false
    } else if a[0] != b[0] {
        (a[0] as int) < (b[0] as int)
    } else {
        text_lt(a.drop_first(), b.drop_first())
    }
}

/// Whether `a` comes before `b` in code-point order.
fn text_less(a: &str, b: &str) -> (r: bool)
    ensures
        r == text_lt(a@, b@),
{
    let n = a.unicode_len();
    let m = b.unicode_len();
    let mut i: usize = 0;
    assert(a@.subrange(0, n as int) =~= a@);
    assert(b@.subrange(0, m as int) =~= b@);
    while i < n && i < m && a.get_char(i) == b.get_char(i)
        invariant
            i <= n,
            i <= m,
            n == a@.len(),
            m == b@.len(),
            text_lt(a@, b@) == text_lt(a@.subrange(i as int, n as int), b@.subrange(i as int, m as int)),
        decreases n - i,
    {
        assert(a@.subrange(i as int, n as int).drop_first() =~= a@.subrange(i + 1, n as int));
        assert(b@.subrange(i as int, m as int).drop_first() =~= b@.subrange(i + 1, m as int));
        i = i + 1;
    }
    if i == n {
        return i < m;
    }
    if i == m {
        return false;
    }
    assert(a@.subrange(i as int, n as int)[0] == a@[i as int]);
    assert(b@.subrange(i as int, m as int)[0] == b@[i as int]);
    let ca = a.get_char(i);
    let cb = b.get_char(i);
    assert((ca as u32) as int == ca as int);
    assert((cb as u32) as int == cb as int);
    (ca as u32) < (cb as u32)
}

proof fn lemma_text_lt_irreflexive(a: Seq<char>)
    ensures
        !text_lt(a, a),
    decreases a.len(),
{
    if a.len() > 0 {
        lemma_text_lt_irreflexive(a.drop_first());
    }
}

proof fn lemma_text_lt_total(a: Seq<char>, b: Seq<char>)
    requires
        a != b,
    ensures
        text_lt(a, b) || text_lt(b, a),
    decreases a.len(),
{
    if a.len() == 0 {
        if b.len() == 0 {
            assert(a =~= b);
        }
    } else if b.len() > 0 {
        if a[0] != b[0] {
            assert((a[0] as int) != (b[0] as int));
        } else {
            let a1 = a.drop_first();
            let b1 = b.drop_first();
            if a1 =~= b1 {
                assert(a =~= b) by {
                    assert(a.len() == a1.len() + 1);
                    assert(b.len() == b1.len() + 1);
                    assert forall|i: int| 0 <= i < a.len() implies a[i] == b[i] by {
                        if i > 0 {
                            assert(a[i] == a1[i - 1]);
                            assert(b[i] == b1[i - 1]);
                        }
                    }
                }
            }
            lemma_text_lt_total(a1, b1);
        }
    }
}

proof fn lemma_text_lt_transitive(a: Seq<char>, b: Seq<char>, c: Seq<char>)
    requires
        text_lt(a, b),
        text_lt(b, c),
    ensures
        text_lt(a, c),
    decreases a.len(),
{
    if a.len() > 0 && b.len() > 0 && c.len() > 0 && a[0] == b[0] && b[0] == c[0] {
        lemma_text_lt_transitive(a.drop_first(), b.drop_first(), c.drop_first());
    }
}

/// Texts in strictly ascending code-point order.
pub open spec fn texts_ascending(s: Seq<Seq<char>>) -> bool {
    forall|i: int, j: int| 0 <= i < j < s.len() ==> text_lt(#[trigger] s[i], #[trigger] s[j])
}

/// The distinct non-empty PUUIDs of a roster.
pub open spec fn roster_puuid_set(seeds: Seq<SeedView>, x: Seq<char>) -> bool {
    x.len() > 0 && exists|i: int| 0 <= i < seeds.len() && (#[trigger] seeds[i]).1 == x
}

/// Adds `x` to a list unless it is there, before the first entry that does not come
/// before it in code-point order.
fn insert_text_sorted(out: &mut Vec<String>, x: String)
    requires
        texts_ascending(old(out).deep_view()),
    ensures
        texts_ascending(final(out).deep_view()),
        forall|y: Seq<char>| #[trigger] final(out).deep_view().contains(y) <==> (old(out).deep_view().contains(y) || y == x@),
{
    let mut j: usize = 0;
    while j < out.len() && text_less(out[j].as_str(), x.as_str())
        invariant
            j <= out.len(),
            out.deep_view() == old(out).deep_view(),
            forall|k: int| 0 <= k < j ==> text_lt(#[trigger] out.deep_view()[k], x@),
        decreases out.len() - j,
    {
        assert(out.deep_view()[j as int] == out@[j as int]@);
        j = j + 1;
    }
    if j < out.len() && str_eq(out[j].as_str(), x.as_str()) {
        assert(out.deep_view()[j as int] == out@[j as int]@);
        return;
    }
    let ghost prev = out.deep_view();
    let ghost xv = x@;
    proof {
        if j < out.len() {
            assert(prev[j as int] == out@[j as int]@);
            assert(!text_lt(prev[j as int], xv));
            assert(prev[j as int] != xv);
            lemma_text_lt_total(prev[j as int], xv);
        }
    }
    out.insert(j, x);
    assert(out.deep_view() =~= prev.insert(j as int, xv));
    assert forall|a: int, b: int| 0 <= a < b < out.deep_view().len() implies text_lt(
        #[trigger] out.deep_view()[a],
        #[trigger] out.deep_view()[b],
    ) by {
        let t = out.deep_view();
        if b < j {
            assert(t[a] == prev[a] && t[b] == prev[b]);
        } else if b == j {
            assert(t[a] == prev[a]);
        } else if a < j {
            assert(t[a] == prev[a] && t[b] == prev[b - 1]);
            if b - 1 > j {
                lemma_text_lt_transitive(xv, prev[j as int], prev[b - 1]);
            }
            lemma_text_lt_transitive(prev[a], xv, prev[b - 1]);
        } else if a == j {
            assert(t[b] == prev[b - 1]);
            if b - 1 > j {
                lemma_text_lt_transitive(xv, prev[j as int], prev[b - 1]);
            }
        } else {
            assert(t[a] == prev[a - 1] && t[b] == prev[b - 1]);
        }
    }
    assert forall|y: Seq<char>| #[trigger] out.deep_view().contains(y) <==> (prev.contains(y) || y == xv) by {
        let t = out.deep_view();
        if t.contains(y) {
            let k = choose|k: int| 0 <= k < t.len() && t[k] == y;
            if k < j {
                assert(prev[k] == y);
            } else if k > j {
                assert(prev[k - 1] == y);
            }
        }
        if prev.contains(y) {
            let k = choose|k: int| 0 <= k < prev.len() && prev[k] == y;
            if k < j {
                assert(t[k] == y);
            } else {
                assert(t[k + 1] == y);
            }
        }
        if y == xv {
            assert(t[j as int] == xv);
        }
    }
}

/// The PUUIDs to fetch recent stats and ranks for: each non-empty PUUID of the roster
/// once, in ascending code-point order (sorted, then deduplicated).
pub fn roster_puuids(seeds: &Vec<RosterSeed>) -> (r: Vec<String>)
    ensures
        forall|x: Seq<char>| #[trigger] r.deep_view().contains(x) <==> roster_puuid_set(
            seeds@.map_values(|s: RosterSeed| seed_view(s)),
            x,
        ),
        texts_ascending(r.deep_view()),
        forall|i: int, j: int| 0 <= i < j < r@.len() ==> #[trigger] r.deep_view()[i] != #[trigger] r.deep_view()[j],
{
    let ghost sv = seeds@.map_values(|s: RosterSeed| seed_view(s));
    let mut out: Vec<String> = Vec::new();
    assert(forall|y: Seq<char>| !out.deep_view().contains(y));
    let mut i: usize = 0;
    while i < seeds.len()
        invariant
            i <= seeds@.len(),
            sv == seeds@.map_values(|s: RosterSeed| seed_view(s)),
            texts_ascending(out.deep_view()),
            forall|x: Seq<char>| #[trigger] out.deep_view().contains(x) <==> (x.len() > 0 && exists|k: int|
                0 <= k < i && (#[trigger] sv[k]).1 == x),
        decreases seeds.len() - i,
    {
        let p = &seeds[i].puuid;
        assert(sv[i as int].1 == p@);
        if p.as_str().unicode_len() > 0 {
            insert_text_sorted(&mut out, p.clone());
        }
        assert forall|x: Seq<char>| #[trigger] out.deep_view().contains(x) <==> (x.len() > 0 && exists|k: int|
            0 <= k < i + 1 && (#[trigger] sv[k]).1 == x) by {
            if x.len() > 0 && (exists|k: int| 0 <= k < i + 1 && (#[trigger] sv[k]).1 == x) {
                let k = choose|k: int| 0 <= k < i + 1 && (#[trigger] sv[k]).1 == x;
                if k < i {
                    assert(exists|k2: int| 0 <= k2 < i && (#[trigger] sv[k2]).1 == x);
                }
            }
        }
        i = i + 1;
    }
    proof {
        assert forall|a: int, b: int| 0 <= a < b < out@.len() implies #[trigger] out.deep_view()[a]
            != #[trigger] out.deep_view()[b] by {
            lemma_text_lt_irreflexive(out.deep_view()[a]);
        }
    }
    out
}

/// The mastery requests of a roster: `(PUUID, champion)` for each player with a known
/// PUUID and champion, in roster order.
pub open spec fn mastery_requests_spec(seeds: Seq<SeedView>) -> Seq<(Seq<char>, i64)>
    decreases seeds.len(),
{
    if seeds.len() == 0 {
        Seq::empty()
    } else {
        let prev = mastery_requests_spec(seeds.drop_last());
        let s = seeds.last();
        match s.3 {
            Some(c) => if s.1.len() > 0 {
                prev.push((s.1, c))
            } else {
                prev
            },
            None => prev,
        }
    }
}

/// The mastery requests of a roster (see `mastery_requests_spec`).
pub fn roster_mastery_requests(seeds: &Vec<RosterSeed>) -> (r: Vec<(String, i64)>)
    ensures
        r@.map_values(|e: (String, i64)| (e.0@, e.1)) == mastery_requests_spec(
            seeds@.map_values(|s: RosterSeed| seed_view(s)),
        ),
{
    let ghost sv = seeds@.map_values(|s: RosterSeed| seed_view(s));
    let mut out: Vec<(String, i64)> = Vec::new();
    let mut i: usize = 0;
    while i < seeds.len()
        invariant
            i <= seeds@.len(),
            sv == seeds@.map_values(|s: RosterSeed| seed_view(s)),
            out@.map_values(|e: (String, i64)| (e.0@, e.1)) == mastery_requests_spec(sv.subrange(0, i as int)),
        decreases seeds.len() - i,
    {
        assert(sv.subrange(0, i + 1).drop_last() =~= sv.subrange(0, i as int));
        assert(sv[i as int] == seed_view(seeds@[i as int]));
        let ghost before = out@;
        if let Some(c) = seeds[i].champion_id {
            if seeds[i].puuid.as_str().unicode_len() > 0 {
                out.push((seeds[i].puuid.clone(), c));
                assert(out@.map_values(|e: (String, i64)| (e.0@, e.1)) =~= before.map_values(
                    |e: (String, i64)| (e.0@, e.1),
                ).push((seeds@[i as int].puuid@, c)));
            }
        }
        i = i + 1;
    }
    assert(sv.subrange(0, seeds@.len() as int) =~= sv);
    out
}

} // verus!
