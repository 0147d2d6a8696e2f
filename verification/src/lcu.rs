//! League Client (LCU) payloads as plain values, and how they become domain values:
//! display names, identity matching, item and rune slots, queues and asset paths.

use vstd::prelude::*;
use std::collections::HashMap;
use crate::domain::{ChampionMasteryEntry, CurrentSummonerProfile, MatchResult};
use crate::text::{
    concat2, concat3, decimal, int_to_string, non_empty, opt_as_str, opt_non_empty, opt_string_view,
    opt_text, opt_view, str_eq,
};

verus! {

/// Both ids are present and equal.
pub open spec fn ids_match_spec(left: Option<i64>, right: Option<i64>) -> bool {
    left matches Some(a) && right matches Some(b) && a == b
}

/// Whether both ids are present and equal.
pub fn ids_match(left: Option<i64>, right: Option<i64>) -> (r: bool)
    ensures
        r == ids_match_spec(left, right),
{
    match (left, right) {
        (Some(a), Some(b)) => a == b,
        _ => false,
    }
}

/// Whether both strings are present and equal.
pub fn strings_match(left: Option<&str>, right: Option<&str>) -> (r: bool)
    ensures
        r == (opt_view(left) matches Some(a) && opt_view(right) matches Some(b) && a == b),
{
    match (left, right) {
        (Some(a), Some(b)) => str_eq(a, b),
        _ => false,
    }
}

/// The id when it is present and positive.
pub fn positive_id(value: Option<i64>) -> (r: Option<i64>)
    ensures
        r == (match value {
            Some(v) => if v > 0 {
                Some(v)
            } else {
                None
            },
            None => None,
        }),
{
    match value {
        Some(v) => if v > 0 {
            Some(v)
        } else {
            None
        },
        None => None,
    }
}

/// A Riot id from its parts: `game#tag` when both are non-blank, the game name alone when
/// only it is; the parts are trimmed.
pub open spec fn riot_id_spec(game_name: Option<Seq<char>>, tag_line: Option<Seq<char>>) -> Option<
    Seq<char>,
> {
    match (game_name, tag_line) {
        (Some(g), Some(t)) => Some(g + "#"@ + t),
        (Some(g), None) => Some(g),
        _ => None,
    }
}

/// The Riot id of optional name parts (see `riot_id_spec`).
pub fn riot_id(game_name: &Option<String>, tag_line: &Option<String>) -> (r: Option<String>)
    ensures
        opt_string_view(r) == riot_id_spec(opt_text(*game_name), opt_text(*tag_line)),
{
    match (non_empty(opt_as_str(game_name)), non_empty(opt_as_str(tag_line))) {
        (Some(g), Some(t)) => Some(concat3(g, "#", t)),
        (Some(g), None) => Some(g.to_owned()),
        _ => None,
    }
}

/// The first present value.
pub open spec fn or_else<T>(a: Option<T>, b: Option<T>) -> Option<T> {
    match a {
        Some(v) => Some(v),
        None => b,
    }
}

/// The non-blank trimmed text of an optional string, as an owned string.
pub fn text_of(value: &Option<String>) -> (r: Option<String>)
    ensures
        opt_string_view(r) == opt_text(*value),
{
    match non_empty(opt_as_str(value)) {
        Some(t) => Some(t.to_owned()),
        None => None,
    }
}

/// A member of a champion-select team.
#[derive(Debug, Clone, PartialEq, Eq)]
pub struct LcuChampSelectMember {
    pub summoner_id: Option<i64>,
    pub champion_id: Option<i64>,
    pub puuid: Option<String>,
    pub summoner_name: Option<String>,
    pub display_name: Option<String>,
    pub game_name: Option<String>,
    pub tag_line: Option<String>,
}

impl LcuChampSelectMember {
    /// The name shown for the member: the Riot id, else the display name, else the
    /// summoner name.
    pub open spec fn display_name_spec(self) -> Option<Seq<char>> {
        or_else(
            riot_id_spec(opt_text(self.game_name), opt_text(self.tag_line)),
            or_else(opt_text(self.display_name), opt_text(self.summoner_name)),
        )
    }

    pub fn display_name(&self) -> (r: Option<String>)
        ensures
            opt_string_view(r) == self.display_name_spec(),
    {
        match riot_id(&self.game_name, &self.tag_line) {
            Some(name) => Some(name),
            None => match text_of(&self.display_name) {
                Some(name) => Some(name),
                None => text_of(&self.summoner_name),
            },
        }
    }
}

/// The logged-in summoner.
#[derive(Debug, Clone, PartialEq, Eq)]
pub struct LcuSummoner {
    pub display_name: Option<String>,
    pub game_name: Option<String>,
    pub tag_line: Option<String>,
    pub summoner_level: Option<i64>,
    pub profile_icon_id: Option<i64>,
    pub account_id: Option<i64>,
    pub summoner_id: Option<i64>,
    pub puuid: Option<String>,
}

/// A player of a finished game.
#[derive(Debug, Clone, PartialEq, Eq)]
pub struct LcuPlayer {
    pub summoner_name: Option<String>,
    pub game_name: Option<String>,
    pub tag_line: Option<String>,
    pub summoner_id: Option<i64>,
    pub account_id: Option<i64>,
    pub current_account_id: Option<i64>,
    pub profile_icon: Option<i64>,
    pub profile_icon_id: Option<i64>,
    pub puuid: Option<String>,
}

impl LcuSummoner {
    /// The name shown for the summoner: the display name, else the Riot id, else
    /// "Current summoner".
    pub open spec fn display_name_spec(self) -> Seq<char> {
        match or_else(
            opt_text(self.display_name),
            riot_id_spec(opt_text(self.game_name), opt_text(self.tag_line)),
        ) {
            Some(name) => name,
            None => "Current summoner"@,
        }
    }

    /// Whether the player is this summoner: same summoner id, same account id (current or
    /// not), or same PUUID.
    pub open spec fn matches_player_spec(self, player: LcuPlayer) -> bool {
        ||| ids_match_spec(self.summoner_id, player.summoner_id)
        ||| ids_match_spec(self.account_id, player.account_id)
        ||| ids_match_spec(self.account_id, player.current_account_id)
        ||| (opt_string_view(self.puuid) matches Some(a) && opt_string_view(player.puuid) matches Some(b)
            && a == b)
    }

    /// The profile of the summoner; a missing level counts as 0.
    pub fn profile(&self, honor_level: Option<i64>, top_mastery: Vec<ChampionMasteryEntry>) -> (r:
        CurrentSummonerProfile)
        ensures
            r.display_name@ == self.display_name_spec(),
            r.summoner_level == (match self.summoner_level {
                Some(l) => l,
                None => 0,
            }),
            r.profile_icon_id == self.profile_icon_id,
            r.honor_level == honor_level,
            r.top_mastery == top_mastery,
    {
        CurrentSummonerProfile {
            display_name: self.display_name(),
            summoner_level: match self.summoner_level {
                Some(l) => l,
                None => 0,
            },
            profile_icon_id: self.profile_icon_id,
            honor_level,
            top_mastery,
        }
    }

    pub fn display_name(&self) -> (r: String)
        ensures
            r@ == self.display_name_spec(),
    {
        if let Some(value) = non_empty(opt_as_str(&self.display_name)) {
            return value.to_owned();
        }
        match riot_id(&self.game_name, &self.tag_line) {
            Some(name) => name,
            None => "Current summoner".to_owned(),
        }
    }

    pub fn matches_player(&self, player: &LcuPlayer) -> (r: bool)
        ensures
            r == self.matches_player_spec(*player),
    {
        ids_match(self.summoner_id, player.summoner_id) || ids_match(
            self.account_id,
            player.account_id,
        ) || ids_match(self.account_id, player.current_account_id) || strings_match(
            opt_as_str(&self.puuid),
            opt_as_str(&player.puuid),
        )
    }
}

/// The name shown for a player of a finished game: the Riot id, else the summoner name.
pub fn player_display_name(player: &LcuPlayer) -> (r: Option<String>)
    ensures
        opt_string_view(r) == or_else(
            riot_id_spec(opt_text(player.game_name), opt_text(player.tag_line)),
            opt_text(player.summoner_name),
        ),
{
    match riot_id(&player.game_name, &player.tag_line) {
        Some(name) => Some(name),
        None => text_of(&player.summoner_name),
    }
}

/// The profile icon of a player: `profile_icon_id`, else `profile_icon`.
pub fn player_profile_icon_id(player: &LcuPlayer) -> (r: Option<i64>)
    ensures
        r == or_else(player.profile_icon_id, player.profile_icon),
{
    match player.profile_icon_id {
        Some(id) => Some(id),
        None => player.profile_icon,
    }
}

/// Statistics of one participant of a finished game.
#[derive(Debug, Clone, PartialEq, Eq)]
pub struct LcuParticipantStats {
    pub kills: Option<i64>,
    pub deaths: Option<i64>,
    pub assists: Option<i64>,
    pub win: Option<bool>,
    pub total_minions_killed: Option<i64>,
    pub neutral_minions_killed: Option<i64>,
    pub gold_earned: Option<i64>,
    pub total_damage_dealt_to_champions: Option<i64>,
    pub physical_damage_dealt_to_champions: Option<i64>,
    pub magic_damage_dealt_to_champions: Option<i64>,
    pub true_damage_dealt_to_champions: Option<i64>,
    pub damage_dealt_to_objectives: Option<i64>,
    pub damage_dealt_to_turrets: Option<i64>,
    pub total_damage_taken: Option<i64>,
    pub vision_score: Option<i64>,
    pub wards_placed: Option<i64>,
    pub wards_killed: Option<i64>,
    pub vision_wards_bought_in_game: Option<i64>,
    pub total_time_spent_dead: Option<i64>,
    pub largest_killing_spree: Option<i64>,
    pub largest_multi_kill: Option<i64>,
    pub double_kills: Option<i64>,
    pub triple_kills: Option<i64>,
    pub quadra_kills: Option<i64>,
    pub penta_kills: Option<i64>,
    pub first_blood_kill: Option<bool>,
    pub first_blood_assist: Option<bool>,
    pub first_tower_kill: Option<bool>,
    pub first_tower_assist: Option<bool>,
    pub item0: Option<i64>,
    pub item1: Option<i64>,
    pub item2: Option<i64>,
    pub item3: Option<i64>,
    pub item4: Option<i64>,
    pub item5: Option<i64>,
    pub item6: Option<i64>,
    pub perk0: Option<i64>,
    pub perk1: Option<i64>,
    pub perk2: Option<i64>,
    pub perk3: Option<i64>,
    pub perk4: Option<i64>,
    pub perk5: Option<i64>,
}

impl Default for LcuParticipantStats {
    fn default() -> (r: LcuParticipantStats)
        ensures
            r.kills is None && r.deaths is None && r.assists is None && r.win is None,
            r.item0 is None && r.item1 is None && r.item2 is None && r.item3 is None,
            r.item4 is None && r.item5 is None && r.item6 is None,
            r.perk0 is None && r.perk1 is None && r.perk2 is None && r.perk3 is None,
            r.perk4 is None && r.perk5 is None,
    {
        LcuParticipantStats {
            kills: None,
            deaths: None,
            assists: None,
            win: None,
            total_minions_killed: None,
            neutral_minions_killed: None,
            gold_earned: None,
            total_damage_dealt_to_champions: None,
            physical_damage_dealt_to_champions: None,
            magic_damage_dealt_to_champions: None,
            true_damage_dealt_to_champions: None,
            damage_dealt_to_objectives: None,
            damage_dealt_to_turrets: None,
            total_damage_taken: None,
            vision_score: None,
            wards_placed: None,
            wards_killed: None,
            vision_wards_bought_in_game: None,
            total_time_spent_dead: None,
            largest_killing_spree: None,
            largest_multi_kill: None,
            double_kills: None,
            triple_kills: None,
            quadra_kills: None,
            penta_kills: None,
            first_blood_kill: None,
            first_blood_assist: None,
            first_tower_kill: None,
            first_tower_assist: None,
            item0: None,
            item1: None,
            item2: None,
            item3: None,
            item4: None,
            item5: None,
            item6: None,
            perk0: None,
            perk1: None,
            perk2: None,
            perk3: None,
            perk4: None,
            perk5: None,
        }
    }
}

/// The present positive values of a sequence of slots, in slot order.
pub open spec fn filled_slots(slots: Seq<Option<i64>>) -> Seq<i64>
    decreases slots.len(),
{
    if slots.len() == 0 {
        Seq::empty()
    } else {
        let prev = filled_slots(slots.drop_last());
        match slots.last() {
            Some(v) => if v > 0 {
                prev.push(v)
            } else {
                prev
            },
            None => prev,
        }
    }
}

/// The present positive values of `slots`, in order.
fn collect_filled(slots: &[Option<i64>]) -> (r: Vec<i64>)
    ensures
        r@ == filled_slots(slots@),
{
    let mut out: Vec<i64> = Vec::new();
    let mut i: usize = 0;
    while i < slots.len()
        invariant
            i <= slots.len(),
            out@ == filled_slots(slots@.subrange(0, i as int)),
        decreases slots.len() - i,
    {
        assert(slots@.subrange(0, i + 1).drop_last() =~= slots@.subrange(0, i as int));
        if let Some(v) = slots[i] {
            if v > 0 {
                out.push(v);
            }
        }
        i = i + 1;
    }
    assert(slots@.subrange(0, slots@.len() as int) =~= slots@);
    out
}

impl LcuParticipantStats {
    /// The item slots in order.
    pub open spec fn item_slots(self) -> Seq<Option<i64>> {
        seq![self.item0, self.item1, self.item2, self.item3, self.item4, self.item5, self.item6]
    }

    /// The rune slots in order.
    pub open spec fn rune_slots(self) -> Seq<Option<i64>> {
        seq![self.perk0, self.perk1, self.perk2, self.perk3, self.perk4, self.perk5]
    }

    /// The ids of the items held, in slot order; empty and zero slots are left out.
    pub fn items(&self) -> (r: Vec<i64>)
        ensures
            r@ == filled_slots(self.item_slots()),
    {
        let slots: [Option<i64>; 7] = [
            self.item0,
            self.item1,
            self.item2,
            self.item3,
            self.item4,
            self.item5,
            self.item6,
        ];
        assert(slots@ =~= self.item_slots());
        collect_filled(slots.as_slice())
    }

    /// The ids of the runes taken, in slot order; empty and zero slots are left out.
    pub fn runes(&self) -> (r: Vec<i64>)
        ensures
            r@ == filled_slots(self.rune_slots()),
    {
        let slots: [Option<i64>; 6] = [
            self.perk0,
            self.perk1,
            self.perk2,
            self.perk3,
            self.perk4,
            self.perk5,
        ];
        assert(slots@ =~= self.rune_slots());
        collect_filled(slots.as_slice())
    }
}

/// The result of a participant's game: win, loss, or unknown when not reported.
pub fn match_result_from_stats(stats: &LcuParticipantStats) -> (r: MatchResult)
    ensures
        r == (match stats.win {
            Some(true) => MatchResult::Win,
            Some(false) => MatchResult::Loss,
            None => MatchResult::Unknown,
        }),
{
    match stats.win {
        Some(true) => MatchResult::Win,
        Some(false) => MatchResult::Loss,
        None => MatchResult::Unknown,
    }
}

/// The name of each known queue.
pub open spec fn queue_name_spec(queue_id: i64) -> Option<Seq<char>> {
    if queue_id == 400 {
        Some("Normal Draft"@)
    } else if queue_id == 420 {
        Some("Ranked Solo/Duo"@)
    } else if queue_id == 430 {
        Some("Normal Blind"@)
    } else if queue_id == 440 {
        Some("Ranked Flex"@)
    } else if queue_id == 450 {
        Some("ARAM"@)
    } else if queue_id == 700 {
        Some("Clash"@)
    } else if queue_id == 1700 {
        Some("Arena"@)
    } else {
        None
    }
}

/// The name of a queue, when it is known.
pub fn queue_name(queue_id: i64) -> (r: Option<&'static str>)
    ensures
        opt_view(r) == queue_name_spec(queue_id),
{
    if queue_id == 400 {
        Some("Normal Draft")
    } else if queue_id == 420 {
        Some("Ranked Solo/Duo")
    } else if queue_id == 430 {
        Some("Normal Blind")
    } else if queue_id == 440 {
        Some("Ranked Flex")
    } else if queue_id == 450 {
        Some("ARAM")
    } else if queue_id == 700 {
        Some("Clash")
    } else if queue_id == 1700 {
        Some("Arena")
    } else {
        None
    }
}

/// The champion name of a match participant: its own non-blank name (trimmed), else the
/// catalogue name of its champion, else "Champion <id>", else "Unknown champion".
pub open spec fn participant_champion_name_spec(
    champion_name: Option<Seq<char>>,
    champion_id: Option<i64>,
    names: Map<i64, String>,
) -> Seq<char> {
    match opt_non_empty(champion_name) {
        Some(n) => n,
        None => match champion_id {
            Some(id) => if names.contains_key(id) {
                names[id]@
            } else {
                "Champion "@ + decimal(id as int)
            },
            None => "Unknown champion"@,
        },
    }
}

/// The champion name of a match participant (see `participant_champion_name_spec`).
pub fn participant_champion_name(
    champion_name: &Option<String>,
    champion_id: Option<i64>,
    names: &HashMap<i64, String>,
) -> (r: String)
    ensures
        r@ == participant_champion_name_spec(opt_string_view(*champion_name), champion_id, names@),
{
    if let Some(name) = non_empty(opt_as_str(champion_name)) {
        return name.to_string();
    }
    match champion_id {
        Some(id) => match names.get(&id) {
            Some(n) => n.clone(),
            None => concat2("Champion ", int_to_string(id).as_str()),
        },
        None => "Unknown champion".to_string(),
    }
}

/// The identity of a participant of a finished game.
#[derive(Debug, Clone, PartialEq, Eq)]
pub struct LcuParticipantIdentity {
    pub participant_id: Option<i64>,
    pub player: Option<LcuPlayer>,
}

/// The participant id of the first identity whose player satisfies `select` and that has
/// a participant id.
pub open spec fn selected_participant_id(
    ids: Seq<LcuParticipantIdentity>,
    select: spec_fn(LcuPlayer) -> bool,
) -> Option<i64>
    decreases ids.len(),
{
    if ids.len() == 0 {
        None
    } else {
        let hit = match ids[0].player {
            Some(p) => select(p),
            None => false,
        };
        if hit && ids[0].participant_id is Some {
            ids[0].participant_id
        } else {
            selected_participant_id(ids.drop_first(), select)
        }
    }
}

proof fn lemma_selected_participant_id(
    ids: Seq<LcuParticipantIdentity>,
    select: spec_fn(LcuPlayer) -> bool,
    i: int,
)
    requires
        0 <= i <= ids.len(),
        forall|t: int|
            0 <= t < i ==> !((#[trigger] ids[t]).player matches Some(p) && select(p)
                && ids[t].participant_id is Some),
    ensures
        i < ids.len() && (ids[i].player matches Some(p) && select(p) && ids[i].participant_id is Some)
            ==> selected_participant_id(ids, select) == ids[i].participant_id,
        i == ids.len() ==> selected_participant_id(ids, select) is None,
    decreases i,
{
    if i > 0 {
        assert forall|t: int| 0 <= t < i - 1 implies !((#[trigger] ids.drop_first()[t]).player matches Some(
            p,
        ) && select(p) && ids.drop_first()[t].participant_id is Some) by {
            assert(ids.drop_first()[t] == ids[t + 1]);
        }
        assert(!(ids[0].player matches Some(p) && select(p) && ids[0].participant_id is Some));
        lemma_selected_participant_id(ids.drop_first(), select, i - 1);
    }
}

/// The participant id of the logged-in summoner in a finished game: the first identity
/// whose player is the summoner (see `matches_player_spec`) and that has an id.
pub fn summoner_participant_id(identities: &Vec<LcuParticipantIdentity>, summoner: &LcuSummoner) -> (r: Option<i64>)
    ensures
        r == selected_participant_id(identities@, |p: LcuPlayer| summoner.matches_player_spec(p)),
{
    let ghost select = |p: LcuPlayer| summoner.matches_player_spec(p);
    let mut i: usize = 0;
    while i < identities.len()
        invariant
            i <= identities.len(),
            select == (|p: LcuPlayer| summoner.matches_player_spec(p)),
            forall|t: int|
                0 <= t < i ==> !((#[trigger] identities@[t]).player matches Some(p) && select(p)
                    && identities@[t].participant_id is Some),
        decreases identities.len() - i,
    {
        let identity = &identities[i];
        let hit = match &identity.player {
            Some(player) => summoner.matches_player(player),
            None => false,
        };
        if hit && identity.participant_id.is_some() {
            proof {
                lemma_selected_participant_id(identities@, select, i as int);
            }
            return identity.participant_id;
        }
        i = i + 1;
    }
    proof {
        lemma_selected_participant_id(identities@, select, i as int);
    }
    None
}

/// The participant id of the player with PUUID `puuid` in a finished game: the first
/// identity whose player has that PUUID and that has an id.
pub fn puuid_participant_id(identities: &Vec<LcuParticipantIdentity>, puuid: &str) -> (r: Option<i64>)
    ensures
        r == selected_participant_id(identities@, |p: LcuPlayer| opt_string_view(p.puuid) == Some(puuid@)),
{
    let ghost select = |p: LcuPlayer| opt_string_view(p.puuid) == Some(puuid@);
    let mut i: usize = 0;
    while i < identities.len()
        invariant
            i <= identities.len(),
            select == (|p: LcuPlayer| opt_string_view(p.puuid) == Some(puuid@)),
            forall|t: int|
                0 <= t < i ==> !((#[trigger] identities@[t]).player matches Some(p) && select(p)
                    && identities@[t].participant_id is Some),
        decreases identities.len() - i,
    {
        let identity = &identities[i];
        let hit = match &identity.player {
            Some(player) => strings_match(Some(puuid), opt_as_str(&player.puuid)),
            None => false,
        };
        if hit && identity.participant_id.is_some() {
            proof {
                lemma_selected_participant_id(identities@, select, i as int);
            }
            return identity.participant_id;
        }
        i = i + 1;
    }
    proof {
        lemma_selected_participant_id(identities@, select, i as int);
    }
    None
}

} // verus!
