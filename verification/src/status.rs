//! How League Client answers become statuses, errors and warnings, and the fixed local
//! paths of the client's data.

use vstd::prelude::*;
use crate::application::{LeagueClientReadError, SummonerBatchEntry};
use crate::domain::{
    AdvisorNamedRef, LeagueClientConnection, LeagueClientPhase, LeagueClientStatus,
    LeagueDataSection, LeagueDataWarning, LeagueGameAssetKind, LeagueImageAsset, LiveOverlayItem,
    RankedQueue, RankedQueueSummary,
};
use crate::lcu::{riot_id, riot_id_spec, text_of};
use crate::text::{
    concat2, concat3, decimal, int_to_string, opt_as_str, opt_string_view, opt_text, starts_with,
    starts_with_seq, str_eq,
};

verus! {

/// Why a request to the client's local API failed.
#[derive(Debug, Clone, Copy, PartialEq, Eq, Structural)]
pub enum LcuRequestError {
    Unauthorized,
    NotLoggedIn,
    Patching,
    Unavailable,
    Unexpected,
}

/// The error of an HTTP status code: 401 and 403 are unauthorised, 404 means not logged
/// in, 503 means the client is still preparing, any other code outside 200–299 means
/// unavailable.
pub open spec fn status_error(code: u16) -> Option<LcuRequestError> {
    if code == 401 || code == 403 {
        Some(LcuRequestError::Unauthorized)
    } else if code == 404 {
        Some(LcuRequestError::NotLoggedIn)
    } else if code == 503 {
        Some(LcuRequestError::Patching)
    } else if !(200 <= code <= 299) {
        Some(LcuRequestError::Unavailable)
    } else {
        None
    }
}

/// Checks the HTTP status code of a client answer (see `status_error`).
pub fn validate_lcu_status(code: u16) -> (r: Result<(), LcuRequestError>)
    ensures
        match status_error(code) {
            Some(e) => r == Err::<(), LcuRequestError>(e),
            None => r is Ok,
        },
{
    if code == 401 || code == 403 {
        return Err(LcuRequestError::Unauthorized);
    }
    if code == 404 {
        return Err(LcuRequestError::NotLoggedIn);
    }
    if code == 503 {
        return Err(LcuRequestError::Patching);
    }
    if !(200 <= code && code <= 299) {
        return Err(LcuRequestError::Unavailable);
    }
    Ok(())
}

/// The status of a client that is connected and answers.
pub fn connected_status() -> (r: LeagueClientStatus)
    ensures
        r.is_running && r.lockfile_found,
        r.connection == LeagueClientConnection::Connected,
        r.phase == LeagueClientPhase::Connected,
        r.message is None,
{
    LeagueClientStatus {
        is_running: true,
        lockfile_found: true,
        connection: LeagueClientConnection::Connected,
        phase: LeagueClientPhase::Connected,
        message: None,
    }
}

/// The status of a client that is connected but answered only part of a request.
pub fn partial_data_status() -> (r: LeagueClientStatus)
    ensures
        r.is_running && r.lockfile_found,
        r.connection == LeagueClientConnection::Connected,
        r.phase == LeagueClientPhase::PartialData,
        r.message matches Some(m) && m@ == "League Client connected with partial data"@,
{
    LeagueClientStatus {
        is_running: true,
        lockfile_found: true,
        connection: LeagueClientConnection::Connected,
        phase: LeagueClientPhase::PartialData,
        message: Some("League Client connected with partial data".to_owned()),
    }
}

/// The status of a client that cannot be used.
pub fn unavailable_status(
    is_running: bool,
    lockfile_found: bool,
    phase: LeagueClientPhase,
    message: String,
) -> (r: LeagueClientStatus)
    ensures
        r.is_running == is_running,
        r.lockfile_found == lockfile_found,
        r.connection == LeagueClientConnection::Unavailable,
        r.phase == phase,
        r.message == Some(message),
{
    LeagueClientStatus {
        is_running,
        lockfile_found,
        connection: LeagueClientConnection::Unavailable,
        phase,
        message: Some(message),
    }
}

/// The phase and message of each request error.
pub open spec fn request_error_status(error: LcuRequestError) -> (LeagueClientPhase, Seq<char>) {
    match error {
        LcuRequestError::Unauthorized => (
            LeagueClientPhase::Unauthorized,
            "League Client rejected local authentication"@,
        ),
        LcuRequestError::NotLoggedIn => (
            LeagueClientPhase::NotLoggedIn,
            "League Client is not logged in yet"@,
        ),
        LcuRequestError::Patching => (
            LeagueClientPhase::Patching,
            "League Client local API is not ready"@,
        ),
        LcuRequestError::Unavailable => (
            LeagueClientPhase::Unavailable,
            "League Client local API is unavailable"@,
        ),
        LcuRequestError::Unexpected => (
            LeagueClientPhase::Unavailable,
            "League Client returned an unexpected response"@,
        ),
    }
}

/// The status that a failed request leaves: the client runs and its lockfile was found,
/// but it cannot be used, with the phase and message of the error.
pub fn status_from_request_error(error: LcuRequestError) -> (r: LeagueClientStatus)
    ensures
        r.is_running && r.lockfile_found,
        r.connection == LeagueClientConnection::Unavailable,
        r.phase == request_error_status(error).0,
        r.message matches Some(m) && m@ == request_error_status(error).1,
{
    match error {
        LcuRequestError::Unauthorized => unavailable_status(
            true,
            true,
            LeagueClientPhase::Unauthorized,
            "League Client rejected local authentication".to_owned(),
        ),
        LcuRequestError::NotLoggedIn => unavailable_status(
            true,
            true,
            LeagueClientPhase::NotLoggedIn,
            "League Client is not logged in yet".to_owned(),
        ),
        LcuRequestError::Patching => unavailable_status(
            true,
            true,
            LeagueClientPhase::Patching,
            "League Client local API is not ready".to_owned(),
        ),
        LcuRequestError::Unavailable => unavailable_status(
            true,
            true,
            LeagueClientPhase::Unavailable,
            "League Client local API is unavailable".to_owned(),
        ),
        LcuRequestError::Unexpected => unavailable_status(
            true,
            true,
            LeagueClientPhase::Unavailable,
            "League Client returned an unexpected response".to_owned(),
        ),
    }
}

/// The read error of a status: an authorisation problem is an access error, a connected
/// client an integration error, anything else an unavailable client; the message is the
/// status's, or a generic one.
pub fn read_error_from_status(status: LeagueClientStatus) -> (r: LeagueClientReadError)
    ensures
        r.message_spec() == (match status.message {
            Some(m) => m@,
            None => "League Client data is unavailable"@,
        }),
        match status.phase {
            LeagueClientPhase::Unauthorized => r is ClientAccess,
            LeagueClientPhase::Connected => r is Integration,
            LeagueClientPhase::PartialData => r is Integration,
            _ => r is ClientUnavailable,
        },
{
    let message = match status.message {
        Some(m) => m,
        None => "League Client data is unavailable".to_owned(),
    };
    match status.phase {
        LeagueClientPhase::Unauthorized => LeagueClientReadError::ClientAccess(message),
        LeagueClientPhase::Connected => LeagueClientReadError::Integration(message),
        LeagueClientPhase::PartialData => LeagueClientReadError::Integration(message),
        _ => LeagueClientReadError::ClientUnavailable(message),
    }
}

/// The read error of a failed request: an access error for an unauthorised request, an
/// unavailable client otherwise, with the message of its status.
pub fn read_error_from_request(error: LcuRequestError) -> (r: LeagueClientReadError)
    ensures
        r.message_spec() == request_error_status(error).1,
        error == LcuRequestError::Unauthorized ==> r is ClientAccess,
        error != LcuRequestError::Unauthorized ==> r is ClientUnavailable,
{
    read_error_from_status(status_from_request_error(error))
}

/// A warning about one section of a snapshot.
pub fn data_warning(section: LeagueDataSection, message: String) -> (r: LeagueDataWarning)
    ensures
        r.section == section,
        r.message == message,
{
    LeagueDataWarning { section, message }
}

/// The warning text of a section whose request failed.
pub open spec fn section_error_spec(section_name: Seq<char>, error: LcuRequestError) -> Seq<char> {
    match error {
        LcuRequestError::Unauthorized => section_name + " could not be read"@,
        LcuRequestError::NotLoggedIn => section_name + " is unavailable before login"@,
        LcuRequestError::Patching => section_name + " is unavailable while the client is preparing"@,
        LcuRequestError::Unavailable => section_name + " is temporarily unavailable"@,
        LcuRequestError::Unexpected => section_name + " returned an unexpected response"@,
    }
}

/// The warning text of a section whose request failed (see `section_error_spec`).
pub fn section_error_message(section_name: &str, error: LcuRequestError) -> (r: String)
    ensures
        r@ == section_error_spec(section_name@, error),
{
    match error {
        LcuRequestError::Unauthorized => concat2(section_name, " could not be read"),
        LcuRequestError::NotLoggedIn => concat2(section_name, " is unavailable before login"),
        LcuRequestError::Patching => concat2(
            section_name,
            " is unavailable while the client is preparing",
        ),
        LcuRequestError::Unavailable => concat2(section_name, " is temporarily unavailable"),
        LcuRequestError::Unexpected => concat2(section_name, " returned an unexpected response"),
    }
}

/// One ranked queue of the client's ranked statistics.
#[derive(Debug, Clone, PartialEq, Eq)]
pub struct LcuRankedQueue {
    pub queue_type: Option<String>,
    pub tier: Option<String>,
    pub division: Option<String>,
    pub league_points: Option<i64>,
    pub wins: Option<i64>,
    pub losses: Option<i64>,
}

/// The queue of a queue type name.
pub open spec fn queue_kind(queue_type: Seq<char>) -> RankedQueue {
    if queue_type == "RANKED_SOLO_5x5"@ {
        RankedQueue::SoloDuo
    } else if queue_type == "RANKED_FLEX_SR"@ {
        RankedQueue::Flex
    } else {
        RankedQueue::Other
    }
}

/// A tier counts as ranked unless it is absent, blank, `NONE` or `UNRANKED`.
pub open spec fn ranked_tier(tier: Option<Seq<char>>) -> bool {
    tier matches Some(t) && t != "NONE"@ && t != "UNRANKED"@
}

/// The summary of a ranked queue: its kind, its non-blank trimmed tier and division, its
/// points, its wins and losses (0 when absent), and whether it is ranked.
pub open spec fn queue_summary_matches(q: LcuRankedQueue, s: RankedQueueSummary) -> bool {
    &&& q.queue_type matches Some(t) && s.queue == queue_kind(t@)
    &&& opt_string_view(s.tier) == opt_text(q.tier)
    &&& opt_string_view(s.division) == opt_text(q.division)
    &&& s.league_points == q.league_points
    &&& s.wins == (match q.wins {
        Some(w) => w,
        None => 0,
    })
    &&& s.losses == (match q.losses {
        Some(l) => l,
        None => 0,
    })
    &&& s.is_ranked == ranked_tier(opt_text(q.tier))
}

/// The queues that carry a type, in order.
pub open spec fn typed_queues(queues: Seq<LcuRankedQueue>) -> Seq<LcuRankedQueue> {
    queues.filter(|q: LcuRankedQueue| q.queue_type is Some)
}

/// The client's ranked statistics.
#[derive(Debug, Clone, PartialEq, Eq)]
pub struct LcuRankedStats {
    pub queues: Vec<LcuRankedQueue>,
}

/// The ranked queues of the client's statistics: each queue with a type, summarised.
pub fn map_ranked_queues(stats: LcuRankedStats) -> (r: Vec<RankedQueueSummary>)
    ensures
        r@.len() == typed_queues(stats.queues@).len(),
        forall|i: int| 0 <= i < r@.len() ==> queue_summary_matches(
            #[trigger] typed_queues(stats.queues@)[i],
            r@[i],
        ),
{
    let queues = stats.queues;
    let mut out: Vec<RankedQueueSummary> = Vec::new();
    let mut i: usize = 0;
    while i < queues.len()
        invariant
            i <= queues@.len(),
            out@.len() == typed_queues(queues@.subrange(0, i as int)).len(),
            forall|k: int| 0 <= k < out@.len() ==> queue_summary_matches(
                #[trigger] typed_queues(queues@.subrange(0, i as int))[k],
                out@[k],
            ),
        decreases queues.len() - i,
    {
        let q = &queues[i];
        proof {
            reveal(Seq::filter);
            assert(queues@.subrange(0, i + 1).drop_last() =~= queues@.subrange(0, i as int));
        }
        if let Some(queue_type) = &q.queue_type {
            let queue = if str_eq(queue_type.as_str(), "RANKED_SOLO_5x5") {
                RankedQueue::SoloDuo
            } else if str_eq(queue_type.as_str(), "RANKED_FLEX_SR") {
                RankedQueue::Flex
            } else {
                RankedQueue::Other
            };
            let tier = text_of(&q.tier);
            let division = text_of(&q.division);
            let is_ranked = match &tier {
                Some(t) => !str_eq(t.as_str(), "NONE") && !str_eq(t.as_str(), "UNRANKED"),
                None => false,
            };
            out.push(
                RankedQueueSummary {
                    queue,
                    tier,
                    division,
                    league_points: q.league_points,
                    wins: match q.wins {
                        Some(w) => w,
                        None => 0,
                    },
                    losses: match q.losses {
                        Some(l) => l,
                        None => 0,
                    },
                    is_ranked,
                },
            );
        }
        i = i + 1;
    }
    assert(queues@.subrange(0, queues@.len() as int) =~= queues@);
    out
}

/// A summoner of a batch lookup by id or name.
#[derive(Debug, Clone, PartialEq, Eq)]
pub struct LcuSummonerBatch {
    pub puuid: Option<String>,
    pub summoner_id: Option<i64>,
    pub display_name: Option<String>,
    pub game_name: Option<String>,
    pub tag_line: Option<String>,
    pub summoner_level: Option<i64>,
}

/// The name of a batch summoner: its Riot id, else its display name.
pub open spec fn batch_name(s: LcuSummonerBatch) -> Option<Seq<char>> {
    match riot_id_spec(opt_text(s.game_name), opt_text(s.tag_line)) {
        Some(n) => Some(n),
        None => opt_text(s.display_name),
    }
}

/// The batch entry of a summoner: id, PUUID, name and level, when it has an id, a
/// non-empty PUUID and a name.
pub open spec fn batch_entry_spec(s: LcuSummonerBatch) -> Option<(i64, Seq<char>, Seq<char>, Option<i64>)> {
    match (s.summoner_id, s.puuid, batch_name(s)) {
        (Some(id), Some(p), Some(n)) => if p@.len() > 0 {
            Some((id, p@, n, s.summoner_level))
        } else {
            None
        },
        _ => None,
    }
}

/// The fields of a batch entry.
pub open spec fn entry_view(e: SummonerBatchEntry) -> (i64, Seq<char>, Seq<char>, Option<i64>) {
    (e.summoner_id, e.puuid@, e.display_name@, e.summoner_level)
}

/// The batch entry of a summoner (see `batch_entry_spec`).
pub fn batch_entry(summoner: &LcuSummonerBatch) -> (r: Option<SummonerBatchEntry>)
    ensures
        match r {
            Some(e) => batch_entry_spec(*summoner) == Some(entry_view(e)),
            None => batch_entry_spec(*summoner) is None,
        },
{
    let summoner_id = match summoner.summoner_id {
        Some(id) => id,
        None => {
            return None;
        },
    };
    let puuid = match &summoner.puuid {
        Some(p) => if p.as_str().unicode_len() > 0 {
            p.clone()
        } else {
            return None;
        },
        None => {
            return None;
        },
    };
    let display_name = match riot_id(&summoner.game_name, &summoner.tag_line) {
        Some(n) => n,
        None => match text_of(&summoner.display_name) {
            Some(n) => n,
            None => {
                return None;
            },
        },
    };
    Some(
        SummonerBatchEntry {
            summoner_id,
            puuid,
            display_name,
            summoner_level: summoner.summoner_level,
        },
    )
}

/// The batch entry of a summoner (see `batch_entry_spec`).
pub fn map_summoner_batch_entry(summoner: LcuSummonerBatch) -> (r: Option<SummonerBatchEntry>)
    ensures
        match r {
            Some(e) => batch_entry_spec(summoner) == Some(entry_view(e)),
            None => batch_entry_spec(summoner) is None,
        },
{
    batch_entry(&summoner)
}

/// The batch entries of the summoners that have one, in order.
pub open spec fn batch_entries_spec(summoners: Seq<LcuSummonerBatch>) -> Seq<
    (i64, Seq<char>, Seq<char>, Option<i64>),
>
    decreases summoners.len(),
{
    if summoners.len() == 0 {
        Seq::empty()
    } else {
        let prev = batch_entries_spec(summoners.drop_last());
        match batch_entry_spec(summoners.last()) {
            Some(e) => prev.push(e),
            None => prev,
        }
    }
}

/// The batch entries of the summoners that have one, in order.
pub fn map_summoner_batch_entries(summoners: Vec<LcuSummonerBatch>) -> (r: Vec<SummonerBatchEntry>)
    ensures
        r@.map_values(|e: SummonerBatchEntry| entry_view(e)) == batch_entries_spec(summoners@),
{
    let mut out: Vec<SummonerBatchEntry> = Vec::new();
    let mut i: usize = 0;
    while i < summoners.len()
        invariant
            i <= summoners@.len(),
            out@.map_values(|e: SummonerBatchEntry| entry_view(e)) == batch_entries_spec(
                summoners@.subrange(0, i as int),
            ),
        decreases summoners.len() - i,
    {
        assert(summoners@.subrange(0, i + 1).drop_last() =~= summoners@.subrange(0, i as int));
        let ghost before = out@;
        if let Some(e) = batch_entry(&summoners[i]) {
            let ghost ev = entry_view(e);
            out.push(e);
            assert(out@.map_values(|e: SummonerBatchEntry| entry_view(e)) =~= before.map_values(
                |e: SummonerBatchEntry| entry_view(e),
            ).push(ev));
        }
        i = i + 1;
    }
    assert(summoners@.subrange(0, summoners@.len() as int) =~= summoners@);
    out
}

/// An item held in the live game.
#[derive(Debug, Clone, PartialEq, Eq)]
pub struct GameClientItem {
    pub item_id: Option<i64>,
    pub display_name: Option<String>,
    pub price: Option<i64>,
    pub count: Option<i64>,
    pub slot: Option<i64>,
}

/// An item of the live overlay: a positive id, its non-blank name or "Item <id>", a price
/// of at least 0 (0 when absent), a count of at least 1 (1 when absent), and its slot.
pub fn map_live_overlay_item(item: GameClientItem) -> (r: Option<LiveOverlayItem>)
    ensures
        match item.item_id {
            Some(id) => if id > 0 {
                r matches Some(o) && o.item_id == id && o.display_name@ == (match opt_text(item.display_name) {
                    Some(n) => n,
                    None => "Item "@ + decimal(id as int),
                }) && o.price == (match item.price {
                    Some(p) => if p > 0 {
                        p
                    } else {
                        0
                    },
                    None => 0,
                }) && o.count == (match item.count {
                    Some(c) => if c > 1 {
                        c
                    } else {
                        1
                    },
                    None => 1,
                }) && o.slot == item.slot
            } else {
                r is None
            },
            None => r is None,
        },
{
    let item_id = match item.item_id {
        Some(id) => id,
        None => {
            return None;
        },
    };
    if item_id <= 0 {
        return None;
    }
    let display_name = match text_of(&item.display_name) {
        Some(n) => n,
        None => concat2("Item ", int_to_string(item_id).as_str()),
    };
    let price = match item.price {
        Some(p) => if p > 0 {
            p
        } else {
            0
        },
        None => 0,
    };
    let count = match item.count {
        Some(c) => if c > 1 {
            c
        } else {
            1
        },
        None => 1,
    };
    Some(LiveOverlayItem { item_id, display_name, price, count, slot: item.slot })
}

/// A summoner spell in the live game.
#[derive(Debug, Clone, PartialEq, Eq)]
pub struct GameClientSpell {
    pub id: Option<i64>,
    pub display_name: Option<String>,
}

/// The summoner spells of a player in the live game.
#[derive(Debug, Clone, PartialEq, Eq)]
pub struct GameClientSummonerSpells {
    pub summoner_spell_one: Option<GameClientSpell>,
    pub summoner_spell_two: Option<GameClientSpell>,
}

/// The named spell of a slot, when it has a non-blank name.
pub open spec fn spell_ref(spell: Option<GameClientSpell>) -> Option<(Option<i64>, Seq<char>)> {
    match spell {
        Some(s) => match opt_text(s.display_name) {
            Some(n) => Some((s.id, n)),
            None => None,
        },
        None => None,
    }
}

/// The named spells of both slots, in slot order.
pub fn map_live_overlay_summoner_spells(spells: GameClientSummonerSpells) -> (r: Vec<AdvisorNamedRef>)
    ensures
        r@.map_values(|x: AdvisorNamedRef| (x.id, x.name@)) == (match (
            spell_ref(spells.summoner_spell_one),
            spell_ref(spells.summoner_spell_two),
        ) {
            (Some(a), Some(b)) => seq![a, b],
            (Some(a), None) => seq![a],
            (None, Some(b)) => seq![b],
            (None, None) => Seq::empty(),
        }),
{
    let mut out: Vec<AdvisorNamedRef> = Vec::new();
    if let Some(s) = &spells.summoner_spell_one {
        if let Some(n) = text_of(&s.display_name) {
            out.push(AdvisorNamedRef { id: s.id, name: n });
        }
    }
    let ghost first = out@;
    if let Some(s) = &spells.summoner_spell_two {
        if let Some(n) = text_of(&s.display_name) {
            out.push(AdvisorNamedRef { id: s.id, name: n });
        }
    }
    assert(out@.map_values(|x: AdvisorNamedRef| (x.id, x.name@)) =~= (match (
        spell_ref(spells.summoner_spell_one),
        spell_ref(spells.summoner_spell_two),
    ) {
        (Some(a), Some(b)) => seq![a, b],
        (Some(a), None) => seq![a],
        (None, Some(b)) => seq![b],
        (None, None) => Seq::empty(),
    }));
    out
}

/// The sections of the own-profile read that failed: champion names, ranked data, recent
/// matches, each with the error it failed with.
pub open spec fn self_data_warnings_spec(
    champions: Option<LcuRequestError>,
    ranked: Option<LcuRequestError>,
    matches: Option<LcuRequestError>,
) -> Seq<(LeagueDataSection, Seq<char>)> {
    let a: Seq<(LeagueDataSection, Seq<char>)> = match champions {
        Some(e) => seq![(LeagueDataSection::Champions, section_error_spec("Champion names"@, e))],
        None => Seq::empty(),
    };
    let b: Seq<(LeagueDataSection, Seq<char>)> = match ranked {
        Some(e) => seq![(LeagueDataSection::Ranked, section_error_spec("Ranked data"@, e))],
        None => Seq::empty(),
    };
    let c: Seq<(LeagueDataSection, Seq<char>)> = match matches {
        Some(e) => seq![(LeagueDataSection::Matches, section_error_spec("Recent matches"@, e))],
        None => Seq::empty(),
    };
    a + b + c
}

/// The warnings of the own-profile read, and its status: connected when every section
/// was read, connected with partial data otherwise.
pub fn self_data_warnings(
    champions: Option<LcuRequestError>,
    ranked: Option<LcuRequestError>,
    matches: Option<LcuRequestError>,
) -> (r: (Vec<LeagueDataWarning>, LeagueClientStatus))
    ensures
        r.0@.map_values(|w: LeagueDataWarning| (w.section, w.message@)) == self_data_warnings_spec(
            champions,
            ranked,
            matches,
        ),
        r.1.is_running && r.1.lockfile_found,
        r.1.connection == LeagueClientConnection::Connected,
        r.1.phase == (if champions is None && ranked is None && matches is None {
            LeagueClientPhase::Connected
        } else {
            LeagueClientPhase::PartialData
        }),
        champions is None && ranked is None && matches is None ==> r.1.message is None,
        !(champions is None && ranked is None && matches is None) ==> (r.1.message matches Some(m)
            && m@ == "League Client connected with partial data"@),
{
    let mut warnings: Vec<LeagueDataWarning> = Vec::new();
    if let Some(e) = champions {
        warnings.push(data_warning(LeagueDataSection::Champions, section_error_message("Champion names", e)));
    }
    if let Some(e) = ranked {
        warnings.push(data_warning(LeagueDataSection::Ranked, section_error_message("Ranked data", e)));
    }
    if let Some(e) = matches {
        warnings.push(data_warning(LeagueDataSection::Matches, section_error_message("Recent matches", e)));
    }
    assert(warnings@.map_values(|w: LeagueDataWarning| (w.section, w.message@)) =~= self_data_warnings_spec(
        champions,
        ranked,
        matches,
    ));
    let status = if warnings.len() == 0 {
        connected_status()
    } else {
        partial_data_status()
    };
    (warnings, status)
}

/// The MIME type of an image answer: its content type when that is an `image/` type,
/// else the fallback.
pub open spec fn image_mime_spec(content_type: Option<Seq<char>>, fallback: Seq<char>) -> Seq<char> {
    match content_type {
        Some(t) => if starts_with_seq(t, "image/"@) {
            t
        } else {
            fallback
        },
        None => fallback,
    }
}

/// The image of a successful client answer: the body with its MIME type (see
/// `image_mime_spec`); an empty body is unexpected.
pub fn image_asset_from_response(
    content_type: Option<&str>,
    fallback_mime_type: &str,
    bytes: Vec<u8>,
) -> (r: Result<LeagueImageAsset, LcuRequestError>)
    ensures
        bytes@.len() == 0 ==> r == Err::<LeagueImageAsset, LcuRequestError>(LcuRequestError::Unexpected),
        bytes@.len() > 0 ==> r is Ok && r->Ok_0.bytes@ == bytes@ && r->Ok_0.mime_type@ == image_mime_spec(
            match content_type {
                Some(t) => Some(t@),
                None => None,
            },
            fallback_mime_type@,
        ),
{
    if bytes.len() == 0 {
        return Err(LcuRequestError::Unexpected);
    }
    let mime_type = match content_type {
        Some(t) => if starts_with(t, "image/") {
            t.to_string()
        } else {
            fallback_mime_type.to_string()
        },
        None => fallback_mime_type.to_string(),
    };
    Ok(LeagueImageAsset { mime_type, bytes })
}

} // verus!
