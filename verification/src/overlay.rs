//! Live-game overlay: who the active player's team is, and the item gold each team holds.

use vstd::prelude::*;
use crate::application::{
    normalize_player_name, normalized_name, ChampSelectSessionData, ChampSelectSessionSource,
};
use crate::domain::LiveOverlayGoldSummary;
use crate::status::GameClientItem;
use crate::text::{non_empty, opt_non_empty, opt_string_view, opt_view, str_eq};

verus! {

/// A player of the live game as the overlay reads it: names, team and items.
#[derive(Debug, Clone, PartialEq, Eq)]
pub struct GameClientPlayer {
    pub summoner_name: Option<String>,
    pub team: String,
    pub riot_id: Option<String>,
    pub items: Vec<GameClientItem>,
}

/// The name a player is shown under: the trimmed Riot id when it is not blank, else
/// the trimmed summoner name when that is not blank.
pub open spec fn player_display_spec(p: GameClientPlayer) -> Option<Seq<char>> {
    match opt_non_empty(opt_string_view(p.riot_id)) {
        Some(n) => Some(n),
        None => opt_non_empty(opt_string_view(p.summoner_name)),
    }
}

fn as_str_opt(value: &Option<String>) -> (r: Option<&str>)
    ensures
        opt_view(r) == opt_string_view(*value),
{
    match value {
        Some(s) => Some(s.as_str()),
        None => None,
    }
}

impl GameClientPlayer {
    /// The shown name of the player (see `player_display_spec`).
    pub fn display_name(&self) -> (r: Option<String>)
        ensures
            opt_string_view(r) == player_display_spec(*self),
    {
        match non_empty(as_str_opt(&self.riot_id)) {
            Some(n) => Some(n.to_string()),
            None => match non_empty(as_str_opt(&self.summoner_name)) {
                Some(n) => Some(n.to_string()),
                None => None,
            },
        }
    }
}

/// `p` is the active player named `active`: its shown name or its summoner name matches
/// once both are trimmed and ASCII lower-cased.
pub open spec fn is_active_player(p: GameClientPlayer, active: Seq<char>) -> bool {
    ||| (player_display_spec(p) matches Some(d) && normalized_name(d) == normalized_name(active))
    ||| (p.summoner_name matches Some(s) && normalized_name(s@) == normalized_name(active))
}

/// Index of the first active player of `ps`.
pub open spec fn first_active(ps: Seq<GameClientPlayer>, active: Seq<char>) -> Option<int>
    decreases ps.len(),
{
    if ps.len() == 0 {
        None
    } else if is_active_player(ps[0], active) {
        Some(0)
    } else {
        match first_active(ps.drop_first(), active) {
            Some(i) => Some(i + 1),
            None => None,
        }
    }
}

/// The team of the active player: the team of the first player matching the active
/// player's name, else the team of the first player; none without players.
pub open spec fn active_team_spec(ps: Seq<GameClientPlayer>, active: Option<Seq<char>>) -> Option<
    Seq<char>,
> {
    let found = match active {
        Some(a) => first_active(ps, a),
        None => None,
    };
    match found {
        Some(i) => Some(ps[i].team@),
        None => if ps.len() > 0 {
            Some(ps[0].team@)
        } else {
            None
        },
    }
}

proof fn lemma_first_active(ps: Seq<GameClientPlayer>, active: Seq<char>, i: int)
    requires
        0 <= i <= ps.len(),
        forall|t: int| 0 <= t < i ==> !is_active_player(#[trigger] ps[t], active),
    ensures
        i < ps.len() && is_active_player(ps[i], active) ==> first_active(ps, active) == Some(i),
        i == ps.len() ==> first_active(ps, active) is None,
    decreases i,
{
    if i > 0 {
        assert(!is_active_player(ps[0], active));
        assert forall|t: int| 0 <= t < i - 1 implies !is_active_player(
            #[trigger] ps.drop_first()[t],
            active,
        ) by {
            assert(ps.drop_first()[t] == ps[t + 1]);
        }
        lemma_first_active(ps.drop_first(), active, i - 1);
    }
}

/// Whether `p` is the active player named by the normalised name `active`.
fn player_is_active(p: &GameClientPlayer, active: &str, Ghost(raw): Ghost<Seq<char>>) -> (r: bool)
    requires
        active@ == normalized_name(raw),
    ensures
        r == is_active_player(*p, raw),
{
    let by_display = match p.display_name() {
        Some(d) => str_eq(normalize_player_name(d.as_str()).as_str(), active),
        None => false,
    };
    if by_display {
        return true;
    }
    match &p.summoner_name {
        Some(s) => str_eq(normalize_player_name(s.as_str()).as_str(), active),
        None => false,
    }
}

/// The team of the active player (see `active_team_spec`).
pub fn live_overlay_active_team(players: &Vec<GameClientPlayer>, active_player_name: Option<&str>) -> (r:
    Option<String>)
    ensures
        opt_string_view(r) == active_team_spec(players@, opt_view(active_player_name)),
{
    if let Some(name) = active_player_name {
        let active = normalize_player_name(name);
        let mut i: usize = 0;
        while i < players.len()
            invariant
                i <= players.len(),
                active_player_name == Some(name),
                active@ == normalized_name(name@),
                forall|t: int| 0 <= t < i ==> !is_active_player(#[trigger] players@[t], name@),
            decreases players.len() - i,
        {
            if player_is_active(&players[i], active.as_str(), Ghost(name@)) {
                proof {
                    lemma_first_active(players@, name@, i as int);
                }
                return Some(players[i].team.clone());
            }
            i = i + 1;
        }
        proof {
            lemma_first_active(players@, name@, i as int);
        }
    }
    if players.len() > 0 {
        Some(players[0].team.clone())
    } else {
        None
    }
}

/// `v` clamped to the range of `i64`.
pub open spec fn clamp_i64(v: int) -> int {
    if v > i64::MAX {
        i64::MAX as int
    } else if v < i64::MIN {
        i64::MIN as int
    } else {
        v
    }
}

/// `i64::saturating_mul`.
pub fn saturating_mul(a: i64, b: i64) -> (r: i64)
    ensures
        r == clamp_i64(a * b),
{
    match a.checked_mul(b) {
        Some(v) => v,
        None => {
            if (a > 0) == (b > 0) {
                assert(a * b > 0) by (nonlinear_arith)
                    requires
                        (a > 0) == (b > 0),
                        a * b > i64::MAX || a * b < i64::MIN,
                ;
                i64::MAX
            } else {
                assert(a * b <= 0) by (nonlinear_arith)
                    requires
                        (a > 0) != (b > 0),
                ;
                i64::MIN
            }
        },
    }
}

/// The gold an item of the live game is worth on the overlay: its price (0 when absent
/// or negative) times its count (1 when absent or below 1), saturating; items without a
/// positive id are not shown and are worth nothing.
pub open spec fn item_gold(item: GameClientItem) -> int {
    match item.item_id {
        Some(id) => if id > 0 {
            let price = match item.price {
                Some(p) => if p > 0 {
                    p as int
                } else {
                    0
                },
                None => 0,
            };
            let count = match item.count {
                Some(c) => if c > 1 {
                    c as int
                } else {
                    1
                },
                None => 1,
            };
            clamp_i64(price * count)
        } else {
            0
        },
        None => 0,
    }
}

/// The gold of all items of `s`.
pub open spec fn items_gold(s: Seq<GameClientItem>) -> int
    decreases s.len(),
{
    if s.len() == 0 {
        0
    } else {
        items_gold(s.drop_last()) + item_gold(s.last())
    }
}

/// The item gold of the ally and of the enemy team: a player counts only when shown
/// (it has a display name), and for the allies when its team equals `team`.
pub open spec fn gold_totals(ps: Seq<GameClientPlayer>, team: Option<Seq<char>>) -> (int, int)
    decreases ps.len(),
{
    if ps.len() == 0 {
        (0, 0)
    } else {
        let (ally, enemy) = gold_totals(ps.drop_last(), team);
        let p = ps.last();
        if player_display_spec(p) is None {
            (ally, enemy)
        } else if team matches Some(t) && t == p.team@ {
            (ally + items_gold(p.items@), enemy)
        } else {
            (ally, enemy + items_gold(p.items@))
        }
    }
}

proof fn lemma_item_gold_bounds(item: GameClientItem)
    ensures
        0 <= item_gold(item) <= i64::MAX,
{
    match (item.price, item.count) {
        (Some(p), Some(c)) => {
            if p > 0 && c > 1 {
                assert(p * c >= 0) by (nonlinear_arith)
                    requires
                        p > 0,
                        c > 1,
                ;
            }
        },
        _ => {},
    }
}

proof fn lemma_items_gold_monotone(s: Seq<GameClientItem>, k: int)
    requires
        0 <= k <= s.len(),
    ensures
        0 <= items_gold(s.take(k)) <= items_gold(s),
    decreases s.len() - k,
{
    if k < s.len() {
        lemma_items_gold_monotone(s, k + 1);
        assert(s.take(k + 1).drop_last() =~= s.take(k));
        lemma_item_gold_bounds(s.take(k + 1).last());
        lemma_items_gold_nonneg(s.take(k));
    } else {
        assert(s.take(k) =~= s);
        lemma_items_gold_nonneg(s);
    }
}

proof fn lemma_items_gold_nonneg(s: Seq<GameClientItem>)
    ensures
        items_gold(s) >= 0,
    decreases s.len(),
{
    if s.len() > 0 {
        lemma_items_gold_nonneg(s.drop_last());
        lemma_item_gold_bounds(s.last());
    }
}

proof fn lemma_gold_totals_monotone(ps: Seq<GameClientPlayer>, team: Option<Seq<char>>, k: int)
    requires
        0 <= k <= ps.len(),
    ensures
        0 <= gold_totals(ps.take(k), team).0 <= gold_totals(ps, team).0,
        0 <= gold_totals(ps.take(k), team).1 <= gold_totals(ps, team).1,
    decreases ps.len() - k,
{
    if k < ps.len() {
        lemma_gold_totals_monotone(ps, team, k + 1);
        assert(ps.take(k + 1).drop_last() =~= ps.take(k));
        lemma_items_gold_nonneg(ps.take(k + 1).last().items@);
        lemma_gold_totals_nonneg(ps.take(k), team);
    } else {
        assert(ps.take(k) =~= ps);
        lemma_gold_totals_nonneg(ps, team);
    }
}

proof fn lemma_gold_totals_nonneg(ps: Seq<GameClientPlayer>, team: Option<Seq<char>>)
    ensures
        gold_totals(ps, team).0 >= 0,
        gold_totals(ps, team).1 >= 0,
    decreases ps.len(),
{
    if ps.len() > 0 {
        lemma_gold_totals_nonneg(ps.drop_last(), team);
        lemma_items_gold_nonneg(ps.last().items@);
    }
}

/// The overlay gold of one item (see `item_gold`).
fn overlay_item_gold(item: &GameClientItem) -> (r: i64)
    ensures
        r == item_gold(*item),
{
    match item.item_id {
        Some(id) => if id > 0 {
            let price: i64 = match item.price {
                Some(p) => if p > 0 {
                    p
                } else {
                    0
                },
                None => 0,
            };
            let count: i64 = match item.count {
                Some(c) => if c > 1 {
                    c
                } else {
                    1
                },
                None => 1,
            };
            saturating_mul(price, count)
        } else {
            0
        },
        None => 0,
    }
}

/// The overlay gold of a player's items, or none when the sum leaves `i64`.
fn player_gold(items: &Vec<GameClientItem>) -> (r: Option<i64>)
    ensures
        match r {
            Some(v) => v == items_gold(items@),
            None => items_gold(items@) > i64::MAX,
        },
{
    let mut total: i64 = 0;
    let mut i: usize = 0;
    while i < items.len()
        invariant
            i <= items.len(),
            total == items_gold(items@.take(i as int)),
        decreases items.len() - i,
    {
        assert(items@.take(i + 1).drop_last() =~= items@.take(i as int));
        proof {
            lemma_items_gold_monotone(items@, i + 1);
        }
        let v = overlay_item_gold(&items[i]);
        match total.checked_add(v) {
            Some(t) => {
                total = t;
            },
            None => {
                proof {
                    lemma_item_gold_bounds(items@[i as int]);
                }
                return None;
            },
        }
        i = i + 1;
    }
    assert(items@.take(items.len() as int) =~= items@);
    Some(total)
}

/// Item gold per team for the overlay (see `gold_totals`), with the difference ally minus
/// enemy; none when a team's total leaves the range of `i64`.
pub fn live_overlay_gold(players: &Vec<GameClientPlayer>, active_team: Option<&str>) -> (r: Option<
    LiveOverlayGoldSummary,
>)
    ensures
        match r {
            Some(g) => {
                &&& g.ally_item_value == gold_totals(players@, opt_view(active_team)).0
                &&& g.enemy_item_value == gold_totals(players@, opt_view(active_team)).1
                &&& g.item_value_diff == g.ally_item_value - g.enemy_item_value
            },
            None => gold_totals(players@, opt_view(active_team)).0 > i64::MAX || gold_totals(
                players@,
                opt_view(active_team),
            ).1 > i64::MAX,
        },
{
    let ghost team = opt_view(active_team);
    let mut ally: i64 = 0;
    let mut enemy: i64 = 0;
    let mut i: usize = 0;
    while i < players.len()
        invariant
            i <= players.len(),
            team == opt_view(active_team),
            (ally as int, enemy as int) == gold_totals(players@.take(i as int), team),
        decreases players.len() - i,
    {
        let ghost prev = players@.take(i as int);
        assert(players@.take(i + 1).drop_last() =~= prev);
        assert(players@.take(i + 1).last() == players@[i as int]);
        proof {
            lemma_gold_totals_monotone(players@, team, i + 1);
            lemma_gold_totals_nonneg(prev, team);
        }
        let p = &players[i];
        if p.display_name().is_some() {
            let value = match player_gold(&p.items) {
                Some(v) => v,
                None => {
                    return None;
                },
            };
            proof {
                lemma_items_gold_nonneg(p.items@);
            }
            let is_ally = match active_team {
                Some(t) => str_eq(t, p.team.as_str()),
                None => false,
            };
            if is_ally {
                match ally.checked_add(value) {
                    Some(v) => {
                        ally = v;
                    },
                    None => {
                        return None;
                    },
                }
            } else {
                match enemy.checked_add(value) {
                    Some(v) => {
                        enemy = v;
                    },
                    None => {
                        return None;
                    },
                }
            }
        }
        i = i + 1;
    }
    assert(players@.take(players.len() as int) =~= players@);
    proof {
        lemma_gold_totals_nonneg(players@, team);
    }
    Some(
        LiveOverlayGoldSummary {
            ally_item_value: ally,
            enemy_item_value: enemy,
            item_value_diff: ally - enemy,
        },
    )
}

/// `p` is the active player by its summoner name alone.
pub open spec fn is_active_by_summoner(p: GameClientPlayer, active: Seq<char>) -> bool {
    p.summoner_name matches Some(s) && normalized_name(s@) == normalized_name(active)
}

/// Index of the first player of `ps` whose summoner name is the active player's.
pub open spec fn first_active_by_summoner(ps: Seq<GameClientPlayer>, active: Seq<char>) -> Option<int>
    decreases ps.len(),
{
    if ps.len() == 0 {
        None
    } else if is_active_by_summoner(ps[0], active) {
        Some(0)
    } else {
        match first_active_by_summoner(ps.drop_first(), active) {
            Some(i) => Some(i + 1),
            None => None,
        }
    }
}

/// The own team in a live game: the team of the first player whose summoner name is
/// the active player's, else the first player's team, else "ORDER".
pub open spec fn live_session_team(ps: Seq<GameClientPlayer>, active: Option<Seq<char>>) -> Seq<char> {
    let found = match active {
        Some(a) => first_active_by_summoner(ps, a),
        None => None,
    };
    match found {
        Some(i) => ps[i].team@,
        None => if ps.len() > 0 {
            ps[0].team@
        } else {
            "ORDER"@
        },
    }
}

/// The shown names of the players of `ps` on (`own`) or off the team `team`, in order.
pub open spec fn side_names(ps: Seq<GameClientPlayer>, team: Seq<char>, own: bool) -> Seq<Seq<char>>
    decreases ps.len(),
{
    if ps.len() == 0 {
        Seq::empty()
    } else {
        let rest = side_names(ps.drop_last(), team, own);
        let p = ps.last();
        match player_display_spec(p) {
            Some(n) => if (p.team@ == team) == own {
                rest.push(n)
            } else {
                rest
            },
            None => rest,
        }
    }
}

proof fn lemma_first_active_by_summoner(ps: Seq<GameClientPlayer>, active: Seq<char>, i: int)
    requires
        0 <= i <= ps.len(),
        forall|t: int| 0 <= t < i ==> !is_active_by_summoner(#[trigger] ps[t], active),
    ensures
        i < ps.len() && is_active_by_summoner(ps[i], active) ==> first_active_by_summoner(ps, active)
            == Some(i),
        i == ps.len() ==> first_active_by_summoner(ps, active) is None,
    decreases i,
{
    if i > 0 {
        assert(!is_active_by_summoner(ps[0], active));
        assert forall|t: int| 0 <= t < i - 1 implies !is_active_by_summoner(
            #[trigger] ps.drop_first()[t],
            active,
        ) by {
            assert(ps.drop_first()[t] == ps[t + 1]);
        }
        lemma_first_active_by_summoner(ps.drop_first(), active, i - 1);
    }
}

fn live_team(players: &Vec<GameClientPlayer>, active_player_name: Option<&str>) -> (r: String)
    ensures
        r@ == live_session_team(players@, opt_view(active_player_name)),
{
    if let Some(name) = active_player_name {
        let active = normalize_player_name(name);
        let mut i: usize = 0;
        while i < players.len()
            invariant
                i <= players.len(),
                active_player_name == Some(name),
                active@ == normalized_name(name@),
                forall|t: int| 0 <= t < i ==> !is_active_by_summoner(#[trigger] players@[t], name@),
            decreases players.len() - i,
        {
            let hit = match &players[i].summoner_name {
                Some(s) => str_eq(normalize_player_name(s.as_str()).as_str(), active.as_str()),
                None => false,
            };
            if hit {
                proof {
                    lemma_first_active_by_summoner(players@, name@, i as int);
                }
                return players[i].team.clone();
            }
            i = i + 1;
        }
        proof {
            lemma_first_active_by_summoner(players@, name@, i as int);
        }
    }
    if players.len() > 0 {
        players[0].team.clone()
    } else {
        "ORDER".to_string()
    }
}

/// The roster of a live game when champion select is over: the shown names of the own
/// team (see `live_session_team`) and of the other team; no ids or champion choices.
pub fn map_live_client_session(players: &Vec<GameClientPlayer>, active_player_name: Option<&str>) -> (r:
    ChampSelectSessionData)
    ensures
        r.ally_ids@.len() == 0 && r.enemy_ids@.len() == 0,
        r.champion_selections@.len() == 0 && r.champion_selections_by_name@.len() == 0,
        r.players@.len() == 0,
        r.source == ChampSelectSessionSource::LiveClient,
        r.ally_names.deep_view() == side_names(players@, live_session_team(players@, opt_view(active_player_name)), true),
        r.enemy_names.deep_view() == side_names(players@, live_session_team(players@, opt_view(active_player_name)), false),
{
    let team = live_team(players, active_player_name);
    let mut ally_names: Vec<String> = Vec::new();
    let mut enemy_names: Vec<String> = Vec::new();
    let mut i: usize = 0;
    while i < players.len()
        invariant
            i <= players.len(),
            ally_names.deep_view() == side_names(players@.take(i as int), team@, true),
            enemy_names.deep_view() == side_names(players@.take(i as int), team@, false),
        decreases players.len() - i,
    {
        assert(players@.take(i + 1).drop_last() =~= players@.take(i as int));
        assert(players@.take(i + 1).last() == players@[i as int]);
        if let Some(name) = players[i].display_name() {
            if str_eq(team.as_str(), players[i].team.as_str()) {
                ally_names.push(name);
            } else {
                enemy_names.push(name);
            }
        }
        assert(ally_names.deep_view() =~= side_names(players@.take(i + 1), team@, true));
        assert(enemy_names.deep_view() =~= side_names(players@.take(i + 1), team@, false));
        i = i + 1;
    }
    assert(players@.take(players.len() as int) =~= players@);
    ChampSelectSessionData {
        ally_ids: Vec::new(),
        enemy_ids: Vec::new(),
        champion_selections: Vec::new(),
        ally_names,
        enemy_names,
        champion_selections_by_name: Vec::new(),
        source: ChampSelectSessionSource::LiveClient,
        players: Vec::new(),
    }
}

} // verus!
