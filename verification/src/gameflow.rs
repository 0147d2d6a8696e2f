//! The roster of a game in progress, read from the client's gameflow session: both teams'
//! players with their names and champions, or the champion selections alone when the
//! teams are not reported.

use vstd::prelude::*;
use crate::application::{
    ChampSelectSessionData, ChampSelectSessionPlayer, ChampSelectSessionSource, normalize_player_name,
    normalized_name,
};
use crate::domain::ChampSelectTeam;
use crate::lcu::{LcuChampSelectMember, ids_match, ids_match_spec, or_else, positive_id, riot_id, riot_id_spec, strings_match, text_of};
use crate::text::{concat2, eq_ignore_ascii_case, eq_ignore_case, decimal, decimal_digits, int_to_string, nat_to_string, non_empty, opt_as_str, opt_string_view, opt_text, opt_view};

verus! {

/// A player of the gameflow session.
#[derive(Debug, Clone, PartialEq, Eq)]
pub struct LcuGameflowParticipant {
    pub summoner_id: Option<i64>,
    pub puuid: Option<String>,
    pub summoner_name: Option<String>,
    pub display_name: Option<String>,
    pub game_name: Option<String>,
    pub tag_line: Option<String>,
    pub champion_id: Option<i64>,
    pub selected_champion_id: Option<i64>,
}

/// A champion selection of the gameflow session.
#[derive(Debug, Clone, PartialEq, Eq)]
pub struct LcuGameflowChampionSelection {
    pub summoner_id: Option<i64>,
    pub puuid: Option<String>,
    pub champion_id: Option<i64>,
    pub selected_champion_id: Option<i64>,
    pub team_id: Option<i64>,
}

/// The game data of the gameflow session.
#[derive(Debug, Clone, PartialEq, Eq)]
pub struct LcuGameflowGameData {
    pub team_one: Vec<LcuGameflowParticipant>,
    pub team_two: Vec<LcuGameflowParticipant>,
    pub player_champion_selections: Vec<LcuGameflowChampionSelection>,
}

/// The gameflow session.
#[derive(Debug, Clone, PartialEq, Eq)]
pub struct LcuGameflowSession {
    pub game_data: Option<LcuGameflowGameData>,
}

/// The id when present and positive.
pub open spec fn positive(value: Option<i64>) -> Option<i64> {
    match value {
        Some(v) => if v > 0 {
            Some(v)
        } else {
            None
        },
        None => None,
    }
}

/// The champion of a selection: its champion, else its selected champion, when positive.
pub open spec fn selection_champion(s: LcuGameflowChampionSelection) -> Option<i64> {
    positive(or_else(s.champion_id, s.selected_champion_id))
}

/// A selection belongs to a participant: same non-blank PUUID (the participant's trimmed),
/// or same summoner id.
pub open spec fn selection_matches(p: LcuGameflowParticipant, s: LcuGameflowChampionSelection) -> bool {
    ||| (opt_text(p.puuid) matches Some(pp) && opt_string_view(s.puuid) == Some(pp))
    ||| ids_match_spec(p.summoner_id, s.summoner_id)
}

/// The champion of the first selection that belongs to the participant and has one.
pub open spec fn selection_for(p: LcuGameflowParticipant, selections: Seq<LcuGameflowChampionSelection>) -> Option<
    i64,
>
    decreases selections.len(),
{
    if selections.len() == 0 {
        None
    } else if selection_matches(p, selections[0]) && selection_champion(selections[0]) is Some {
        selection_champion(selections[0])
    } else {
        selection_for(p, selections.drop_first())
    }
}

/// The champion of a participant: its own champion, else its selected champion, when
/// positive; else the one of its selections.
pub open spec fn participant_champion(p: LcuGameflowParticipant, selections: Seq<LcuGameflowChampionSelection>) -> Option<
    i64,
> {
    match positive(or_else(p.champion_id, p.selected_champion_id)) {
        Some(c) => Some(c),
        None => selection_for(p, selections),
    }
}

/// The name of a participant: its Riot id, display name or summoner name; else
/// "Summoner <id>" or "Player <position from 1>".
pub open spec fn participant_name(p: LcuGameflowParticipant, index: int) -> Seq<char> {
    match or_else(
        riot_id_spec(opt_text(p.game_name), opt_text(p.tag_line)),
        or_else(opt_text(p.display_name), opt_text(p.summoner_name)),
    ) {
        Some(n) => n,
        None => fallback_name(p.summoner_id, index),
    }
}

/// "Summoner <id>" for a known id, else "Player <position from 1>".
pub open spec fn fallback_name(summoner_id: Option<i64>, index: int) -> Seq<char> {
    match summoner_id {
        Some(id) => "Summoner "@ + decimal(id as int),
        None => "Player "@ + decimal_digits((index + 1) as nat),
    }
}

/// The fields of a session player: id, PUUID, name, champion, side.
pub type PlayerView = (Option<i64>, Option<Seq<char>>, Seq<char>, Option<i64>, ChampSelectTeam);

/// The fields of a session player.
pub open spec fn player_view(p: ChampSelectSessionPlayer) -> PlayerView {
    (p.summoner_id, opt_string_view(p.puuid), p.display_name@, p.champion_id, p.team)
}

/// A session as it is assembled: both sides' ids and names, the champion choices by id
/// and by name, and the players.
pub struct SessionView {
    pub ally_ids: Seq<i64>,
    pub enemy_ids: Seq<i64>,
    pub selections: Seq<(i64, i64)>,
    pub ally_names: Seq<Seq<char>>,
    pub enemy_names: Seq<Seq<char>>,
    pub selections_by_name: Seq<(Seq<char>, i64)>,
    pub players: Seq<PlayerView>,
}

/// The view of a session.
pub open spec fn session_view(s: ChampSelectSessionData) -> SessionView {
    SessionView {
        ally_ids: s.ally_ids@,
        enemy_ids: s.enemy_ids@,
        selections: s.champion_selections@,
        ally_names: s.ally_names.deep_view(),
        enemy_names: s.enemy_names.deep_view(),
        selections_by_name: s.champion_selections_by_name@.map_values(|e: (String, i64)| (e.0@, e.1)),
        players: s.players@.map_values(|p: ChampSelectSessionPlayer| player_view(p)),
    }
}

/// An empty session.
pub open spec fn empty_session() -> SessionView {
    SessionView {
        ally_ids: Seq::empty(),
        enemy_ids: Seq::empty(),
        selections: Seq::empty(),
        ally_names: Seq::empty(),
        enemy_names: Seq::empty(),
        selections_by_name: Seq::empty(),
        players: Seq::empty(),
    }
}

/// Adds a side's id and name.
pub open spec fn add_to_side(st: SessionView, team: ChampSelectTeam, id: Option<i64>, name: Seq<char>) -> SessionView {
    match team {
        ChampSelectTeam::Ally => SessionView {
            ally_ids: match id {
                Some(i) => st.ally_ids.push(i),
                None => st.ally_ids,
            },
            ally_names: st.ally_names.push(name),
            ..st
        },
        ChampSelectTeam::Enemy => SessionView {
            enemy_ids: match id {
                Some(i) => st.enemy_ids.push(i),
                None => st.enemy_ids,
            },
            enemy_names: st.enemy_names.push(name),
            ..st
        },
    }
}

/// Adds one participant of a team: its positive id to the side's ids (with its champion
/// choice, when it has one), its champion under its normalised name, its name to the
/// side's names, and the player.
pub open spec fn participant_step(
    st: SessionView,
    p: LcuGameflowParticipant,
    index: int,
    team: ChampSelectTeam,
    selections: Seq<LcuGameflowChampionSelection>,
) -> SessionView {
    let name = participant_name(p, index);
    let champion = participant_champion(p, selections);
    let id = positive(p.summoner_id);
    let st1 = add_to_side(st, team, id, name);
    SessionView {
        selections: match (id, champion) {
            (Some(i), Some(c)) => st1.selections.push((i, c)),
            _ => st1.selections,
        },
        selections_by_name: match champion {
            Some(c) => st1.selections_by_name.push((normalized_name(name), c)),
            None => st1.selections_by_name,
        },
        players: st1.players.push((id, opt_text(p.puuid), name, champion, team)),
        ..st1
    }
}

/// The session after the first `n` participants of a team.
pub open spec fn team_phase(
    st: SessionView,
    team_players: Seq<LcuGameflowParticipant>,
    team: ChampSelectTeam,
    selections: Seq<LcuGameflowChampionSelection>,
    n: int,
) -> SessionView
    decreases n,
{
    if n <= 0 {
        st
    } else {
        participant_step(team_phase(st, team_players, team, selections, n - 1), team_players[n - 1], n - 1, team, selections)
    }
}

/// The side of a selection: by its team id (100 allies, 200 enemies), else by position
/// (the first five are allies).
pub open spec fn selection_team(s: LcuGameflowChampionSelection, index: int) -> ChampSelectTeam {
    match s.team_id {
        Some(t) => if t == 100 {
            ChampSelectTeam::Ally
        } else if t == 200 {
            ChampSelectTeam::Enemy
        } else if index < 5 {
            ChampSelectTeam::Ally
        } else {
            ChampSelectTeam::Enemy
        },
        None => if index < 5 {
            ChampSelectTeam::Ally
        } else {
            ChampSelectTeam::Enemy
        },
    }
}

/// Adds a player made from a selection alone.
pub open spec fn selection_step(st: SessionView, s: LcuGameflowChampionSelection, index: int) -> SessionView {
    let team = selection_team(s, index);
    let name = fallback_name(s.summoner_id, index);
    let champion = selection_champion(s);
    let id = positive(s.summoner_id);
    let st1 = add_to_side(st, team, id, name);
    SessionView {
        selections: match (id, champion) {
            (Some(i), Some(c)) => st1.selections.push((i, c)),
            _ => st1.selections,
        },
        players: st1.players.push((id, opt_text(s.puuid), name, champion, team)),
        ..st1
    }
}

/// The session after the first `n` selections.
pub open spec fn selections_phase(st: SessionView, selections: Seq<LcuGameflowChampionSelection>, n: int) -> SessionView
    decreases n,
{
    if n <= 0 {
        st
    } else {
        selection_step(selections_phase(st, selections, n - 1), selections[n - 1], n - 1)
    }
}

/// The roster of a gameflow session: both teams (team one as allies), or when they hold
/// no player, the selections alone; `None` without game data or without any player.
pub open spec fn gameflow_spec(session: LcuGameflowSession) -> Option<SessionView> {
    match session.game_data {
        None => None,
        Some(data) => {
            let sel = data.player_champion_selections@;
            let s1 = team_phase(empty_session(), data.team_one@, ChampSelectTeam::Ally, sel, data.team_one@.len() as int);
            let s2 = team_phase(s1, data.team_two@, ChampSelectTeam::Enemy, sel, data.team_two@.len() as int);
            let s3 = if s2.players.len() == 0 {
                selections_phase(s2, sel, sel.len() as int)
            } else {
                s2
            };
            if s3.players.len() == 0 {
                None
            } else {
                Some(s3)
            }
        },
    }
}

/// The name a participant reports: its Riot id, display name or summoner name.
pub fn gameflow_participant_display_name(participant: &LcuGameflowParticipant) -> (r: Option<String>)
    ensures
        opt_string_view(r) == or_else(
            riot_id_spec(opt_text(participant.game_name), opt_text(participant.tag_line)),
            or_else(opt_text(participant.display_name), opt_text(participant.summoner_name)),
        ),
{
    match riot_id(&participant.game_name, &participant.tag_line) {
        Some(name) => Some(name),
        None => match text_of(&participant.display_name) {
            Some(name) => Some(name),
            None => text_of(&participant.summoner_name),
        },
    }
}

/// The champion of a selection (see `selection_champion`).
fn selection_champion_id(s: &LcuGameflowChampionSelection) -> (r: Option<i64>)
    ensures
        r == selection_champion(*s),
{
    positive_id(
        match s.champion_id {
            Some(c) => Some(c),
            None => s.selected_champion_id,
        },
    )
}

/// The champion of a participant (see `participant_champion`).
pub fn gameflow_participant_champion_id(
    participant: &LcuGameflowParticipant,
    selections: &Vec<LcuGameflowChampionSelection>,
) -> (r: Option<i64>)
    ensures
        r == participant_champion(*participant, selections@),
{
    let own = positive_id(
        match participant.champion_id {
            Some(c) => Some(c),
            None => participant.selected_champion_id,
        },
    );
    if own.is_some() {
        return own;
    }
    let puuid = non_empty(opt_as_str(&participant.puuid));
    let mut i: usize = 0;
    assert(selections@.subrange(0, selections@.len() as int) =~= selections@);
    while i < selections.len()
        invariant
            i <= selections@.len(),
            opt_view(puuid) == opt_text(participant.puuid),
            positive(or_else(participant.champion_id, participant.selected_champion_id)) is None,
            selection_for(*participant, selections@) == selection_for(
                *participant,
                selections@.subrange(i as int, selections@.len() as int),
            ),
        decreases selections.len() - i,
    {
        let sel = &selections[i];
        let same_puuid = match puuid {
            Some(pp) => strings_match(Some(pp), opt_as_str(&sel.puuid)),
            None => false,
        };
        let same_summoner = ids_match(participant.summoner_id, sel.summoner_id);
        let champion = selection_champion_id(sel);
        let ghost rest = selections@.subrange(i as int, selections@.len() as int);
        assert(rest[0] == selections@[i as int]);
        assert(rest.drop_first() =~= selections@.subrange(i + 1, selections@.len() as int));
        if (same_puuid || same_summoner) && champion.is_some() {
            return champion;
        }
        i = i + 1;
    }
    None
}

/// Adds a side's id and name to a session being assembled.
fn add_to_side_exec(s: &mut ChampSelectSessionData, team: ChampSelectTeam, id: Option<i64>, name: String)
    ensures
        session_view(*final(s)) == add_to_side(session_view(*old(s)), team, id, name@),
        final(s).players@ == old(s).players@,
        final(s).champion_selections@ == old(s).champion_selections@,
        final(s).champion_selections_by_name@ == old(s).champion_selections_by_name@,
        final(s).source == old(s).source,
{
    match team {
        ChampSelectTeam::Ally => {
            if let Some(i) = id {
                s.ally_ids.push(i);
            }
            let ghost before = s.ally_names.deep_view();
            s.ally_names.push(name);
            assert(s.ally_names.deep_view() =~= before.push(name@));
        },
        ChampSelectTeam::Enemy => {
            if let Some(i) = id {
                s.enemy_ids.push(i);
            }
            let ghost before = s.enemy_names.deep_view();
            s.enemy_names.push(name);
            assert(s.enemy_names.deep_view() =~= before.push(name@));
        },
    }
    assert(session_view(*s) =~= add_to_side(session_view(*old(s)), team, id, name@));
}

/// Adds a player to a session being assembled.
fn push_player(s: &mut ChampSelectSessionData, p: ChampSelectSessionPlayer)
    ensures
        session_view(*final(s)) == (SessionView {
            players: session_view(*old(s)).players.push(player_view(p)),
            ..session_view(*old(s))
        }),
        final(s).source == old(s).source,
{
    let ghost before = s.players@;
    let ghost pv = player_view(p);
    s.players.push(p);
    assert(s.players@.map_values(|q: ChampSelectSessionPlayer| player_view(q)) =~= before.map_values(
        |q: ChampSelectSessionPlayer| player_view(q),
    ).push(pv));
}

/// Records a champion choice under a normalised name.
fn push_name_selection(s: &mut ChampSelectSessionData, key: String, champion: i64)
    ensures
        session_view(*final(s)) == (SessionView {
            selections_by_name: session_view(*old(s)).selections_by_name.push((key@, champion)),
            ..session_view(*old(s))
        }),
        final(s).source == old(s).source,
{
    let ghost before = s.champion_selections_by_name@;
    s.champion_selections_by_name.push((key, champion));
    assert(s.champion_selections_by_name@.map_values(|e: (String, i64)| (e.0@, e.1)) =~= before.map_values(
        |e: (String, i64)| (e.0@, e.1),
    ).push((key@, champion)));
}

/// "Summoner <id>" or "Player <position from 1>".
fn fallback_name_exec(summoner_id: Option<i64>, index: usize) -> (r: String)
    requires
        index < usize::MAX,
    ensures
        r@ == fallback_name(summoner_id, index as int),
{
    match summoner_id {
        Some(id) => concat2("Summoner ", int_to_string(id).as_str()),
        None => concat2("Player ", nat_to_string((index + 1) as u64).as_str()),
    }
}

/// Adds the players of one team (see `team_phase`).
pub fn collect_gameflow_team(
    team_players: &Vec<LcuGameflowParticipant>,
    team: ChampSelectTeam,
    selections: &Vec<LcuGameflowChampionSelection>,
    session: &mut ChampSelectSessionData,
)
    ensures
        session_view(*final(session)) == team_phase(
            session_view(*old(session)),
            team_players@,
            team,
            selections@,
            team_players@.len() as int,
        ),
        final(session).source == old(session).source,
{
    let mut i: usize = 0;
    while i < team_players.len()
        invariant
            i <= team_players@.len(),
            session.source == old(session).source,
            session_view(*session) == team_phase(
                session_view(*old(session)),
                team_players@,
                team,
                selections@,
                i as int,
            ),
        decreases team_players.len() - i,
    {
        let participant = &team_players[i];
        let name = match gameflow_participant_display_name(participant) {
            Some(n) => n,
            None => fallback_name_exec(participant.summoner_id, i),
        };
        let champion = gameflow_participant_champion_id(participant, selections);
        let summoner_id = positive_id(participant.summoner_id);
        let ghost st = session_view(*session);
        add_to_side_exec(session, team, summoner_id, name.clone());
        if let Some(id) = summoner_id {
            if let Some(c) = champion {
                session.champion_selections.push((id, c));
            }
        }
        if let Some(c) = champion {
            push_name_selection(session, normalize_player_name(name.as_str()), c);
        }
        let puuid = match non_empty(opt_as_str(&participant.puuid)) {
            Some(p) => Some(p.to_owned()),
            None => None,
        };
        push_player(
            session,
            ChampSelectSessionPlayer { summoner_id, puuid, display_name: name, champion_id: champion, team },
        );
        assert(session_view(*session) =~= participant_step(st, *participant, i as int, team, selections@));
        i = i + 1;
    }
}

/// Adds the players made from the selections alone (see `selections_phase`).
fn collect_selections(selections: &Vec<LcuGameflowChampionSelection>, session: &mut ChampSelectSessionData)
    ensures
        session_view(*final(session)) == selections_phase(
            session_view(*old(session)),
            selections@,
            selections@.len() as int,
        ),
        final(session).source == old(session).source,
{
    let mut i: usize = 0;
    while i < selections.len()
        invariant
            i <= selections@.len(),
            session.source == old(session).source,
            session_view(*session) == selections_phase(session_view(*old(session)), selections@, i as int),
        decreases selections.len() - i,
    {
        let sel = &selections[i];
        let team = match sel.team_id {
            Some(t) => if t == 100 {
                ChampSelectTeam::Ally
            } else if t == 200 {
                ChampSelectTeam::Enemy
            } else if i < 5 {
                ChampSelectTeam::Ally
            } else {
                ChampSelectTeam::Enemy
            },
            None => if i < 5 {
                ChampSelectTeam::Ally
            } else {
                ChampSelectTeam::Enemy
            },
        };
        let name = fallback_name_exec(sel.summoner_id, i);
        let champion = selection_champion_id(sel);
        let summoner_id = positive_id(sel.summoner_id);
        let ghost st = session_view(*session);
        add_to_side_exec(session, team, summoner_id, name.clone());
        if let Some(id) = summoner_id {
            if let Some(c) = champion {
                session.champion_selections.push((id, c));
            }
        }
        let puuid = match non_empty(opt_as_str(&sel.puuid)) {
            Some(p) => Some(p.to_owned()),
            None => None,
        };
        push_player(
            session,
            ChampSelectSessionPlayer { summoner_id, puuid, display_name: name, champion_id: champion, team },
        );
        assert(session_view(*session) =~= selection_step(st, *sel, i as int));
        i = i + 1;
    }
}

/// The champion-select roster of a game in progress (see `gameflow_spec`), read from the
/// gameflow session.
pub fn map_gameflow_session(session: LcuGameflowSession) -> (r: Option<ChampSelectSessionData>)
    ensures
        match r {
            Some(s) => gameflow_spec(session) == Some(session_view(s)) && s.source
                == ChampSelectSessionSource::GameflowSession,
            None => gameflow_spec(session) is None,
        },
{
    let data = match session.game_data {
        Some(d) => d,
        None => {
            return None;
        },
    };
    let mut out = ChampSelectSessionData {
        ally_ids: Vec::new(),
        enemy_ids: Vec::new(),
        champion_selections: Vec::new(),
        ally_names: Vec::new(),
        enemy_names: Vec::new(),
        champion_selections_by_name: Vec::new(),
        source: ChampSelectSessionSource::GameflowSession,
        players: Vec::new(),
    };
    assert(session_view(out) =~= empty_session()) by {
        assert(out.ally_names.deep_view() =~= Seq::<Seq<char>>::empty());
        assert(out.enemy_names.deep_view() =~= Seq::<Seq<char>>::empty());
        assert(out.champion_selections_by_name@.map_values(|e: (String, i64)| (e.0@, e.1)) =~= Seq::<
            (Seq<char>, i64),
        >::empty());
        assert(out.players@.map_values(|p: ChampSelectSessionPlayer| player_view(p)) =~= Seq::<
            PlayerView,
        >::empty());
    }
    collect_gameflow_team(&data.team_one, ChampSelectTeam::Ally, &data.player_champion_selections, &mut out);
    collect_gameflow_team(&data.team_two, ChampSelectTeam::Enemy, &data.player_champion_selections, &mut out);
    if out.players.len() == 0 {
        collect_selections(&data.player_champion_selections, &mut out);
    }
    if out.players.len() == 0 {
        return None;
    }
    Some(out)
}

/// The positive summoner ids of a champion-select team, in order.
pub open spec fn member_ids(ms: Seq<LcuChampSelectMember>) -> Seq<i64>
    decreases ms.len(),
{
    if ms.len() == 0 {
        Seq::empty()
    } else {
        let rest = member_ids(ms.drop_last());
        match ms.last().summoner_id {
            Some(id) => if id > 0 {
                rest.push(id)
            } else {
                rest
            },
            None => rest,
        }
    }
}

/// The shown names of a champion-select team, in order, members without one left out.
pub open spec fn member_names(ms: Seq<LcuChampSelectMember>) -> Seq<Seq<char>>
    decreases ms.len(),
{
    if ms.len() == 0 {
        Seq::empty()
    } else {
        let rest = member_names(ms.drop_last());
        match ms.last().display_name_spec() {
            Some(n) => rest.push(n),
            None => rest,
        }
    }
}

/// The `(summoner id, champion id)` choices of members with a summoner id and a positive
/// champion, in order.
pub open spec fn member_selections(ms: Seq<LcuChampSelectMember>) -> Seq<(i64, i64)>
    decreases ms.len(),
{
    if ms.len() == 0 {
        Seq::empty()
    } else {
        let rest = member_selections(ms.drop_last());
        let m = ms.last();
        match (m.summoner_id, m.champion_id) {
            (Some(id), Some(c)) => if c > 0 {
                rest.push((id, c))
            } else {
                rest
            },
            _ => rest,
        }
    }
}

/// The `(normalised name, champion id)` choices of members with a shown name and a
/// positive champion, in order.
pub open spec fn member_name_selections(ms: Seq<LcuChampSelectMember>) -> Seq<(Seq<char>, i64)>
    decreases ms.len(),
{
    if ms.len() == 0 {
        Seq::empty()
    } else {
        let rest = member_name_selections(ms.drop_last());
        let m = ms.last();
        match (m.display_name_spec(), m.champion_id) {
            (Some(n), Some(c)) => if c > 0 {
                rest.push((normalized_name(n), c))
            } else {
                rest
            },
            _ => rest,
        }
    }
}

/// The session read from champion select proper: both sides' positive ids and shown
/// names, and the champion choices of both teams (own team first) by id and by name.
pub open spec fn champ_select_view(my_team: Seq<LcuChampSelectMember>, their_team: Seq<LcuChampSelectMember>) -> SessionView {
    SessionView {
        ally_ids: member_ids(my_team),
        enemy_ids: member_ids(their_team),
        selections: member_selections(my_team + their_team),
        ally_names: member_names(my_team),
        enemy_names: member_names(their_team),
        selections_by_name: member_name_selections(my_team + their_team),
        players: Seq::empty(),
    }
}

fn collect_member_ids(ms: &Vec<LcuChampSelectMember>) -> (r: Vec<i64>)
    ensures
        r@ == member_ids(ms@),
{
    let mut out: Vec<i64> = Vec::new();
    let mut i: usize = 0;
    while i < ms.len()
        invariant
            i <= ms.len(),
            out@ == member_ids(ms@.take(i as int)),
        decreases ms.len() - i,
    {
        assert(ms@.take(i + 1).drop_last() =~= ms@.take(i as int));
        if let Some(id) = ms[i].summoner_id {
            if id > 0 {
                out.push(id);
            }
        }
        i = i + 1;
    }
    assert(ms@.take(ms.len() as int) =~= ms@);
    out
}

fn collect_member_names(ms: &Vec<LcuChampSelectMember>) -> (r: Vec<String>)
    ensures
        r.deep_view() == member_names(ms@),
{
    let mut out: Vec<String> = Vec::new();
    let mut i: usize = 0;
    while i < ms.len()
        invariant
            i <= ms.len(),
            out.deep_view() == member_names(ms@.take(i as int)),
        decreases ms.len() - i,
    {
        assert(ms@.take(i + 1).drop_last() =~= ms@.take(i as int));
        if let Some(name) = ms[i].display_name() {
            out.push(name);
            assert(out.deep_view() =~= member_names(ms@.take(i + 1)));
        }
        i = i + 1;
    }
    assert(ms@.take(ms.len() as int) =~= ms@);
    out
}

/// Adds the choices of the members of `ms` to `ids` and `names`.
fn collect_member_selections(
    ms: &Vec<LcuChampSelectMember>,
    ids: &mut Vec<(i64, i64)>,
    names: &mut Vec<(String, i64)>,
)
    ensures
        final(ids)@ == old(ids)@ + member_selections(ms@),
        final(names)@.map_values(|e: (String, i64)| (e.0@, e.1)) == old(names)@.map_values(
            |e: (String, i64)| (e.0@, e.1),
        ) + member_name_selections(ms@),
{
    let ghost ids0 = ids@;
    let ghost names0 = names@.map_values(|e: (String, i64)| (e.0@, e.1));
    let mut i: usize = 0;
    while i < ms.len()
        invariant
            i <= ms.len(),
            ids@ == ids0 + member_selections(ms@.take(i as int)),
            names@.map_values(|e: (String, i64)| (e.0@, e.1)) == names0 + member_name_selections(
                ms@.take(i as int),
            ),
        decreases ms.len() - i,
    {
        let ghost prev = ms@.take(i as int);
        assert(ms@.take(i + 1).drop_last() =~= prev);
        assert(ms@.take(i + 1).last() == ms@[i as int]);
        let m = &ms[i];
        if let (Some(sid), Some(cid)) = (m.summoner_id, m.champion_id) {
            if cid > 0 {
                ids.push((sid, cid));
            }
        }
        assert(ids@ =~= ids0 + member_selections(ms@.take(i + 1)));
        let ghost before = names@;
        if let (Some(name), Some(cid)) = (m.display_name(), m.champion_id) {
            if cid > 0 {
                let key = normalize_player_name(name.as_str());
                names.push((key, cid));
                assert(names@.map_values(|e: (String, i64)| (e.0@, e.1)) =~= before.map_values(
                    |e: (String, i64)| (e.0@, e.1),
                ).push((normalized_name(name@), cid)));
            }
        }
        assert(names@.map_values(|e: (String, i64)| (e.0@, e.1)) =~= names0 + member_name_selections(
            ms@.take(i + 1),
        ));
        i = i + 1;
    }
    assert(ms@.take(ms.len() as int) =~= ms@);
}

proof fn lemma_member_selections_concat(a: Seq<LcuChampSelectMember>, b: Seq<LcuChampSelectMember>)
    ensures
        member_selections(a + b) == member_selections(a) + member_selections(b),
        member_name_selections(a + b) == member_name_selections(a) + member_name_selections(b),
    decreases b.len(),
{
    if b.len() == 0 {
        assert(a + b =~= a);
        assert(member_selections(b) =~= Seq::<(i64, i64)>::empty());
        assert(member_selections(a) + member_selections(b) =~= member_selections(a));
        assert(member_name_selections(a) + member_name_selections(b) =~= member_name_selections(a));
    } else {
        lemma_member_selections_concat(a, b.drop_last());
        assert((a + b).drop_last() =~= a + b.drop_last());
        assert((a + b).last() == b.last());
        assert(member_selections(a + b) =~= member_selections(a) + member_selections(b));
        assert(member_name_selections(a + b) =~= member_name_selections(a) + member_name_selections(b));
    }
}

/// The session of champion select proper, from its two teams (see `champ_select_view`).
pub fn map_champ_select_session(
    my_team: &Vec<LcuChampSelectMember>,
    their_team: &Vec<LcuChampSelectMember>,
) -> (r: ChampSelectSessionData)
    ensures
        session_view(r) == champ_select_view(my_team@, their_team@),
        r.source == ChampSelectSessionSource::ChampSelect,
{
    let mut selections: Vec<(i64, i64)> = Vec::new();
    let mut by_name: Vec<(String, i64)> = Vec::new();
    collect_member_selections(my_team, &mut selections, &mut by_name);
    collect_member_selections(their_team, &mut selections, &mut by_name);
    proof {
        lemma_member_selections_concat(my_team@, their_team@);
        assert(Seq::<(i64, i64)>::empty() + member_selections(my_team@) =~= member_selections(my_team@));
        assert(Seq::<(Seq<char>, i64)>::empty() + member_name_selections(my_team@) =~= member_name_selections(my_team@));
    }
    let r = ChampSelectSessionData {
        ally_ids: collect_member_ids(my_team),
        enemy_ids: collect_member_ids(their_team),
        champion_selections: selections,
        ally_names: collect_member_names(my_team),
        enemy_names: collect_member_names(their_team),
        champion_selections_by_name: by_name,
        source: ChampSelectSessionSource::ChampSelect,
        players: Vec::new(),
    };
    assert(session_view(r) =~= champ_select_view(my_team@, their_team@)) by {
        assert(r.players@.map_values(|p: ChampSelectSessionPlayer| player_view(p)) =~= Seq::<PlayerView>::empty());
    }
    r
}

/// One action of champion select (a pick or a ban of some cell).
#[derive(Debug, Clone, PartialEq, Eq)]
pub struct LcuChampSelectAction {
    pub id: Option<i64>,
    pub actor_cell_id: Option<i64>,
    pub champion_id: Option<i64>,
    pub completed: Option<bool>,
    pub is_ally_action: Option<bool>,
    pub action_type: Option<String>,
}

/// An action still open for the local player's cell, of the given type (compared
/// without ASCII case), and not marked as an enemy action.
pub open spec fn is_open_action(a: LcuChampSelectAction, local_cell_id: i64, action_type: Seq<char>) -> bool {
    &&& a.actor_cell_id == Some(local_cell_id)
    &&& a.completed != Some(true)
    &&& a.action_type matches Some(t) && eq_ignore_case(t@, action_type)
    &&& a.is_ally_action != Some(false)
}

/// Index of the first open action of `s`.
pub open spec fn first_open_action(s: Seq<LcuChampSelectAction>, local_cell_id: i64, action_type: Seq<char>) -> Option<int>
    decreases s.len(),
{
    if s.len() == 0 {
        None
    } else if is_open_action(s[0], local_cell_id, action_type) {
        Some(0)
    } else {
        match first_open_action(s.drop_first(), local_cell_id, action_type) {
            Some(i) => Some(i + 1),
            None => None,
        }
    }
}

/// The id of the first open action over all groups in order; none when there is no
/// open action or the first one has no id.
pub open spec fn open_action_id(groups: Seq<Seq<LcuChampSelectAction>>, local_cell_id: i64, action_type: Seq<char>) -> Option<i64>
    decreases groups.len(),
{
    if groups.len() == 0 {
        None
    } else {
        match first_open_action(groups[0], local_cell_id, action_type) {
            Some(i) => groups[0][i].id,
            None => open_action_id(groups.drop_first(), local_cell_id, action_type),
        }
    }
}

proof fn lemma_first_open_action(s: Seq<LcuChampSelectAction>, cell: i64, ty: Seq<char>, i: int)
    requires
        0 <= i <= s.len(),
        forall|t: int| 0 <= t < i ==> !is_open_action(#[trigger] s[t], cell, ty),
    ensures
        i < s.len() && is_open_action(s[i], cell, ty) ==> first_open_action(s, cell, ty) == Some(i),
        i == s.len() ==> first_open_action(s, cell, ty) is None,
    decreases i,
{
    if i > 0 {
        assert(!is_open_action(s[0], cell, ty));
        assert forall|t: int| 0 <= t < i - 1 implies !is_open_action(#[trigger] s.drop_first()[t], cell, ty) by {
            assert(s.drop_first()[t] == s[t + 1]);
        }
        lemma_first_open_action(s.drop_first(), cell, ty, i - 1);
    }
}

proof fn lemma_open_action_id_skip(groups: Seq<Seq<LcuChampSelectAction>>, cell: i64, ty: Seq<char>, g: int)
    requires
        0 <= g <= groups.len(),
        forall|t: int| 0 <= t < g ==> first_open_action(#[trigger] groups[t], cell, ty) is None,
    ensures
        open_action_id(groups, cell, ty) == open_action_id(groups.subrange(g, groups.len() as int), cell, ty),
    decreases g,
{
    if g > 0 {
        assert(groups.drop_first().subrange(g - 1, groups.len() - 1) =~= groups.subrange(g, groups.len() as int));
        assert forall|t: int| 0 <= t < g - 1 implies first_open_action(#[trigger] groups.drop_first()[t], cell, ty) is None by {
            assert(groups.drop_first()[t] == groups[t + 1]);
        }
        lemma_open_action_id_skip(groups.drop_first(), cell, ty, g - 1);
    } else {
        assert(groups.subrange(0, groups.len() as int) =~= groups);
    }
}

fn is_open_action_exec(a: &LcuChampSelectAction, local_cell_id: i64, action_type: &str) -> (r: bool)
    ensures
        r == is_open_action(*a, local_cell_id, action_type@),
{
    let cell_ok = match a.actor_cell_id {
        Some(c) => c == local_cell_id,
        None => false,
    };
    let open = match a.completed {
        Some(done) => !done,
        None => true,
    };
    let type_ok = match &a.action_type {
        Some(t) => eq_ignore_ascii_case(t.as_str(), action_type),
        None => false,
    };
    let ally = match a.is_ally_action {
        Some(v) => v,
        None => true,
    };
    cell_ok && open && type_ok && ally
}

/// The action to complete for the local player (see `open_action_id`).
pub fn find_champ_select_action(
    actions: &Vec<Vec<LcuChampSelectAction>>,
    local_cell_id: i64,
    action_type: &str,
) -> (r: Option<i64>)
    ensures
        r == open_action_id(actions@.map_values(|g: Vec<LcuChampSelectAction>| g@), local_cell_id, action_type@),
{
    let ghost groups = actions@.map_values(|g: Vec<LcuChampSelectAction>| g@);
    let mut g: usize = 0;
    while g < actions.len()
        invariant
            g <= actions.len(),
            groups == actions@.map_values(|g: Vec<LcuChampSelectAction>| g@),
            groups.len() == actions.len(),
            forall|t: int| 0 <= t < g ==> first_open_action(#[trigger] groups[t], local_cell_id, action_type@) is None,
        decreases actions.len() - g,
    {
        let group = &actions[g];
        assert(groups[g as int] == group@);
        let mut i: usize = 0;
        while i < group.len()
            invariant
                i <= group.len(),
                g < actions.len(),
                groups == actions@.map_values(|g: Vec<LcuChampSelectAction>| g@),
                groups.len() == actions.len(),
                groups[g as int] == group@,
                forall|t: int| 0 <= t < g ==> first_open_action(#[trigger] groups[t], local_cell_id, action_type@) is None,
                forall|t: int| 0 <= t < i ==> !is_open_action(#[trigger] group@[t], local_cell_id, action_type@),
            decreases group.len() - i,
        {
            if is_open_action_exec(&group[i], local_cell_id, action_type) {
                proof {
                    lemma_first_open_action(group@, local_cell_id, action_type@, i as int);
                    lemma_open_action_id_skip(groups, local_cell_id, action_type@, g as int);
                    assert(groups.subrange(g as int, groups.len() as int)[0] == group@);
                }
                return group[i].id;
            }
            i = i + 1;
        }
        proof {
            lemma_first_open_action(group@, local_cell_id, action_type@, i as int);
        }
        g = g + 1;
    }
    proof {
        lemma_open_action_id_skip(groups, local_cell_id, action_type@, g as int);
    }
    None
}

/// The positive summoner ids of a team's participants, in order.
pub open spec fn side_ids(ps: Seq<LcuGameflowParticipant>) -> Seq<i64>
    decreases ps.len(),
{
    if ps.len() == 0 {
        Seq::empty()
    } else {
        let rest = side_ids(ps.drop_last());
        match ps.last().summoner_id {
            Some(id) => if id > 0 {
                rest.push(id)
            } else {
                rest
            },
            None => rest,
        }
    }
}

proof fn lemma_team_phase_sides(
    st: SessionView,
    ps: Seq<LcuGameflowParticipant>,
    team: ChampSelectTeam,
    sel: Seq<LcuGameflowChampionSelection>,
    n: int,
)
    requires
        0 <= n <= ps.len(),
    ensures
        team_phase(st, ps, team, sel, n).players.len() == st.players.len() + n,
        forall|k: int| 0 <= k < st.players.len() ==> #[trigger] team_phase(st, ps, team, sel, n).players[k] == st.players[k],
        forall|k: int| 0 <= k < n ==> (#[trigger] team_phase(st, ps, team, sel, n).players[st.players.len() + k]).4 == team,
        forall|k: int| 0 <= k < n ==> (#[trigger] team_phase(st, ps, team, sel, n).players[st.players.len() + k]).0 == positive(ps[k].summoner_id),
        team == ChampSelectTeam::Ally ==> {
            let r = team_phase(st, ps, team, sel, n);
            &&& r.ally_ids == st.ally_ids + side_ids(ps.subrange(0, n))
            &&& r.ally_names.len() == st.ally_names.len() + n
            &&& r.enemy_ids == st.enemy_ids
            &&& r.enemy_names == st.enemy_names
        },
        team == ChampSelectTeam::Enemy ==> {
            let r = team_phase(st, ps, team, sel, n);
            &&& r.enemy_ids == st.enemy_ids + side_ids(ps.subrange(0, n))
            &&& r.enemy_names.len() == st.enemy_names.len() + n
            &&& r.ally_ids == st.ally_ids
            &&& r.ally_names == st.ally_names
        },
    decreases n,
{
    if n > 0 {
        lemma_team_phase_sides(st, ps, team, sel, n - 1);
        let prev = team_phase(st, ps, team, sel, n - 1);
        let r = team_phase(st, ps, team, sel, n);
        assert(ps.subrange(0, n).drop_last() =~= ps.subrange(0, n - 1));
        assert(ps.subrange(0, n).last() == ps[n - 1]);
        assert forall|k: int| 0 <= k < st.players.len() implies #[trigger] r.players[k] == st.players[k] by {
            assert(r.players[k] == prev.players[k]);
        }
        assert forall|k: int| 0 <= k < n implies (#[trigger] r.players[st.players.len() + k]).4 == team
            && r.players[st.players.len() + k].0 == positive(ps[k].summoner_id) by {
            if k < n - 1 {
                assert(r.players[st.players.len() + k] == prev.players[st.players.len() + k]);
            }
        }
        if team == ChampSelectTeam::Ally {
            assert(r.ally_ids =~= st.ally_ids + side_ids(ps.subrange(0, n)));
        } else {
            assert(r.enemy_ids =~= st.enemy_ids + side_ids(ps.subrange(0, n)));
        }
    }
}

/// A game in progress lists team one as allies and team two as enemies: with any
/// participant at all, the roster holds team one's participants and then team two's, each
/// with its positive summoner id and its own side; the allies' ids are exactly team one's
/// positive ids and the enemies' ids exactly team two's, in order, with one name per
/// participant on each side.
pub proof fn gameflow_teams_keep_their_sides(session: LcuGameflowSession)
    requires
        session.game_data matches Some(d) && d.team_one@.len() + d.team_two@.len() > 0,
    ensures
        ({
            let d = session.game_data->0;
            let t1 = d.team_one@;
            let t2 = d.team_two@;
            gameflow_spec(session) matches Some(v) && {
                &&& v.players.len() == t1.len() + t2.len()
                &&& forall|k: int| 0 <= k < t1.len() ==> (#[trigger] v.players[k]).4 == ChampSelectTeam::Ally
                    && v.players[k].0 == positive(t1[k].summoner_id)
                &&& forall|k: int| 0 <= k < t2.len() ==> (#[trigger] v.players[t1.len() + k]).4
                    == ChampSelectTeam::Enemy && v.players[t1.len() + k].0 == positive(t2[k].summoner_id)
                &&& v.ally_ids == side_ids(t1)
                &&& v.enemy_ids == side_ids(t2)
                &&& v.ally_names.len() == t1.len()
                &&& v.enemy_names.len() == t2.len()
            }
        }),
{
    let d = session.game_data->0;
    let t1 = d.team_one@;
    let t2 = d.team_two@;
    let sel = d.player_champion_selections@;
    let s0 = empty_session();
    lemma_team_phase_sides(s0, t1, ChampSelectTeam::Ally, sel, t1.len() as int);
    let s1 = team_phase(s0, t1, ChampSelectTeam::Ally, sel, t1.len() as int);
    lemma_team_phase_sides(s1, t2, ChampSelectTeam::Enemy, sel, t2.len() as int);
    let s2 = team_phase(s1, t2, ChampSelectTeam::Enemy, sel, t2.len() as int);
    assert(t1.subrange(0, t1.len() as int) =~= t1);
    assert(t2.subrange(0, t2.len() as int) =~= t2);
    assert(s1.ally_ids =~= side_ids(t1));
    assert(s2.enemy_ids =~= side_ids(t2));
    assert forall|k: int| 0 <= k < t1.len() implies (#[trigger] s2.players[k]).4 == ChampSelectTeam::Ally
        && s2.players[k].0 == positive(t1[k].summoner_id) by {
        assert(s2.players[k] == s1.players[k]);
        assert(s1.players[0 + k] == s1.players[k]);
    }
}

proof fn lemma_member_ids_contents(ms: Seq<LcuChampSelectMember>)
    ensures
        forall|x: i64| member_ids(ms).contains(x) <==> x > 0 && exists|k: int|
            0 <= k < ms.len() && (#[trigger] ms[k]).summoner_id == Some(x),
    decreases ms.len(),
{
    if ms.len() > 0 {
        let rest = ms.drop_last();
        lemma_member_ids_contents(rest);
        assert forall|x: i64| member_ids(ms).contains(x) <==> x > 0 && exists|k: int|
            0 <= k < ms.len() && (#[trigger] ms[k]).summoner_id == Some(x) by {
            if member_ids(ms).contains(x) {
                if member_ids(rest).contains(x) {
                    let k = choose|k: int| 0 <= k < rest.len() && (#[trigger] rest[k]).summoner_id == Some(x);
                    assert(ms[k] == rest[k]);
                } else {
                    let r = member_ids(ms);
                    let i = choose|i: int| 0 <= i < r.len() && r[i] == x;
                    assert(ms[ms.len() - 1].summoner_id == Some(x));
                }
            }
            if x > 0 && exists|k: int| 0 <= k < ms.len() && (#[trigger] ms[k]).summoner_id == Some(x) {
                let k = choose|k: int| 0 <= k < ms.len() && (#[trigger] ms[k]).summoner_id == Some(x);
                if k < ms.len() - 1 {
                    assert(rest[k] == ms[k]);
                    assert(member_ids(rest).contains(x));
                    let r0 = member_ids(rest);
                    let i = choose|i: int| 0 <= i < r0.len() && r0[i] == x;
                    assert(member_ids(ms)[i] == x);
                } else {
                    assert(member_ids(ms).last() == x);
                }
            }
        }
    }
}

/// Champion select proper lists the own team as allies and the other team as enemies: a
/// positive summoner id is among the allies' ids exactly when a member of the own team has
/// it, and among the enemies' ids exactly when a member of the other team has it.
pub proof fn champ_select_teams_keep_their_sides(my_team: Seq<LcuChampSelectMember>, their_team: Seq<LcuChampSelectMember>)
    ensures
        forall|x: i64| champ_select_view(my_team, their_team).ally_ids.contains(x) <==> x > 0 && exists|k: int|
            0 <= k < my_team.len() && (#[trigger] my_team[k]).summoner_id == Some(x),
        forall|x: i64| champ_select_view(my_team, their_team).enemy_ids.contains(x) <==> x > 0 && exists|k: int|
            0 <= k < their_team.len() && (#[trigger] their_team[k]).summoner_id == Some(x),
{
    lemma_member_ids_contents(my_team);
    lemma_member_ids_contents(their_team);
}

/// A champion selection without its teams is placed by the client's team id: team 100 is
/// the own side and team 200 the other, wherever the selection stands; a selection with
/// another or no team id is placed by position, the first five on the own side.
pub proof fn selections_are_placed_by_team_id(sel: LcuGameflowChampionSelection, index: int)
    ensures
        sel.team_id == Some(100i64) ==> selection_team(sel, index) == ChampSelectTeam::Ally,
        sel.team_id == Some(200i64) ==> selection_team(sel, index) == ChampSelectTeam::Enemy,
        sel.team_id != Some(100i64) && sel.team_id != Some(200i64) ==> (selection_team(sel, index)
            == ChampSelectTeam::Ally <==> index < 5),
{
}

} // verus!
