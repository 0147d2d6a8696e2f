//! Application rules: error kinds, health, input validation and normalisation of
//! user-provided values, and the player-name keys used to match roster entries.

use vstd::prelude::*;
use std::collections::hash_map::DefaultHasher;
use std::hash::Hasher;
use vstd::std_specs::hash::DefaultHasherAdditionalSpecFns;
use vstd::string::StringSliceAdditionalSpecFns;
use crate::domain::{
    AppLanguagePreference, AppThemePreference, PlayerNoteSummary, StartupPage,
    ActivityEntry, ChampionRuneConfig, LeagueGameAssetKind, RankedChampionLane, RankedChampionSort,
    RunePage, RuneRecommendation,
    ActivityKind, ClearActivityResult, LocalActivityEntry, NewActivityEntry,
    ChampSelectRecentStatsStatus, ChampSelectTeam, DatabaseStatus, HealthReport, PlayerNoteView,
    ServiceStatus,
};
use crate::text::{
    find_char, first_index,
    ascii_lower, concat2, concat3, is_blank, nat_to_string, non_empty_spec, opt_string_view, push_str,
    str_eq, to_ascii_lowercase, trim, trim_str, decimal_digits, is_ws, lemma_trim_ends,
    lemma_trim_of_trimmed, lower_char,
};

verus! {

/// Smallest accepted activity list size.
pub const MIN_ACTIVITY_LIMIT: i64 = 1;

/// Largest accepted activity list size.
pub const MAX_ACTIVITY_LIMIT: i64 = 500;

/// Activity list size used when none is given.
pub const DEFAULT_ACTIVITY_LIMIT: i64 = 100;

/// Largest accepted number of recent matches.
pub const MAX_MATCH_LIMIT: i64 = 20;

/// Number of recent matches used when none is given.
pub const DEFAULT_MATCH_LIMIT: i64 = 6;

/// Largest accepted id of a champion, item, rune, spell or icon.
pub const MAX_LEAGUE_ASSET_ID: i64 = 1_000_000;

/// Longest accepted player note, in characters.
pub const MAX_PLAYER_NOTE_LEN: usize = 500;

/// Most tags a player note may carry.
pub const MAX_PLAYER_TAGS: usize = 8;

/// Longest accepted player tag, in characters.
pub const MAX_PLAYER_TAG_LEN: usize = 24;

/// Longest accepted activity title, in characters.
pub const MAX_ACTIVITY_TITLE_LEN: usize = 120;

/// Longest accepted activity body, in characters.
pub const MAX_ACTIVITY_BODY_LEN: usize = 2000;

/// Why a read from the League Client failed.
#[derive(Debug, Clone, PartialEq, Eq)]
pub enum LeagueClientReadError {
    ClientUnavailable(String),
    ClientAccess(String),
    Integration(String),
}

impl LeagueClientReadError {
    /// The message carried by the error.
    pub open spec fn message_spec(self) -> Seq<char> {
        match self {
            LeagueClientReadError::ClientUnavailable(m) => m@,
            LeagueClientReadError::ClientAccess(m) => m@,
            LeagueClientReadError::Integration(m) => m@,
        }
    }

    /// The text shown for the error: its message.
    pub fn message(&self) -> (r: String)
        ensures
            r@ == self.message_spec(),
    {
        match self {
            LeagueClientReadError::ClientUnavailable(m) => m.clone(),
            LeagueClientReadError::ClientAccess(m) => m.clone(),
            LeagueClientReadError::Integration(m) => m.clone(),
        }
    }
}

/// An error returned by an application command.
#[derive(Debug, Clone, PartialEq, Eq)]
pub enum ApplicationError {
    Validation(String),
    Storage(String),
    ClientUnavailable(String),
    ClientAccess(String),
    Integration(String),
}

impl ApplicationError {
    /// The stable code of each error kind.
    pub open spec fn code_spec(self) -> Seq<char> {
        match self {
            ApplicationError::Validation(_) => "validation"@,
            ApplicationError::Storage(_) => "storage"@,
            ApplicationError::ClientUnavailable(_) => "clientUnavailable"@,
            ApplicationError::ClientAccess(_) => "clientAccess"@,
            ApplicationError::Integration(_) => "integration"@,
        }
    }

    /// The message carried by the error.
    pub open spec fn message_spec(self) -> Seq<char> {
        match self {
            ApplicationError::Validation(m) => m@,
            ApplicationError::Storage(m) => m@,
            ApplicationError::ClientUnavailable(m) => m@,
            ApplicationError::ClientAccess(m) => m@,
            ApplicationError::Integration(m) => m@,
        }
    }

    /// A validation error whose message is `m`.
    pub open spec fn is_validation(self, m: Seq<char>) -> bool {
        self matches ApplicationError::Validation(s) && s@ == m
    }

    pub fn code(&self) -> (r: &'static str)
        ensures
            r@ == self.code_spec(),
    {
        match self {
            ApplicationError::Validation(_) => "validation",
            ApplicationError::Storage(_) => "storage",
            ApplicationError::ClientUnavailable(_) => "clientUnavailable",
            ApplicationError::ClientAccess(_) => "clientAccess",
            ApplicationError::Integration(_) => "integration",
        }
    }

    /// The text shown for the error: its message.
    pub fn message(&self) -> (r: String)
        ensures
            r@ == self.message_spec(),
    {
        match self {
            ApplicationError::Validation(m) => m.clone(),
            ApplicationError::Storage(m) => m.clone(),
            ApplicationError::ClientUnavailable(m) => m.clone(),
            ApplicationError::ClientAccess(m) => m.clone(),
            ApplicationError::Integration(m) => m.clone(),
        }
    }
}

/// The application error that a League Client read error becomes: same kind, same message.
pub open spec fn from_read_error_spec(error: LeagueClientReadError) -> ApplicationError {
    match error {
        LeagueClientReadError::ClientUnavailable(m) => ApplicationError::ClientUnavailable(m),
        LeagueClientReadError::ClientAccess(m) => ApplicationError::ClientAccess(m),
        LeagueClientReadError::Integration(m) => ApplicationError::Integration(m),
    }
}

/// The application error of a League Client read error: same kind, same message.
pub fn application_error_from(error: LeagueClientReadError) -> (r: ApplicationError)
    ensures
        r == from_read_error_spec(error),
{
    match error {
        LeagueClientReadError::ClientUnavailable(m) => ApplicationError::ClientUnavailable(m),
        LeagueClientReadError::ClientAccess(m) => ApplicationError::ClientAccess(m),
        LeagueClientReadError::Integration(m) => ApplicationError::Integration(m),
    }
}

impl From<LeagueClientReadError> for ApplicationError {
    fn from(error: LeagueClientReadError) -> (r: ApplicationError) {
        application_error_from(error)
    }
}

impl vstd::std_specs::convert::FromSpecImpl<LeagueClientReadError> for ApplicationError {
    open spec fn obeys_from_spec() -> bool {
        true
    }

    open spec fn from_spec(error: LeagueClientReadError) -> ApplicationError {
        from_read_error_spec(error)
    }
}

/// A storage error naming the operation that failed: `"{operation} failed: {error}"`.
pub fn storage_failure(operation: &str, error: String) -> (r: ApplicationError)
    ensures
        r matches ApplicationError::Storage(m) && m@ == operation@ + " failed: "@ + error@,
{
    ApplicationError::Storage(concat3(operation, " failed: ", error.as_str()))
}

/// The health report for a database status: the service is degraded exactly when the
/// database is unavailable.
pub fn health_report(database_status: DatabaseStatus, schema_version: Option<i64>) -> (r: HealthReport)
    ensures
        r.status == (match database_status {
            DatabaseStatus::Healthy => ServiceStatus::Healthy,
            DatabaseStatus::Unavailable => ServiceStatus::Degraded,
        }),
        r.database_status == database_status,
        r.schema_version == schema_version,
{
    let status = match database_status {
        DatabaseStatus::Healthy => ServiceStatus::Healthy,
        DatabaseStatus::Unavailable => ServiceStatus::Degraded,
    };
    HealthReport { status, database_status, schema_version }
}

/// `r` is a validation error whose message is `m`.
pub open spec fn fails_with<T>(r: Result<T, ApplicationError>, m: Seq<char>) -> bool {
    r matches Err(e) && e.is_validation(m)
}

/// A trimmed optional string, or `None` when it is absent or blank.
pub fn normalize_optional_string(value: Option<String>) -> (r: Option<String>)
    ensures
        opt_string_view(r) == (match value {
            Some(s) => non_empty_spec(s@),
            None => None,
        }),
{
    match value {
        Some(s) => {
            let trimmed = trim_str(s.as_str());
            if trimmed.unicode_len() == 0 {
                None
            } else {
                Some(trimmed.to_owned())
            }
        },
        None => None,
    }
}

/// Accepts an activity list size between `MIN_ACTIVITY_LIMIT` and `MAX_ACTIVITY_LIMIT`.
pub fn normalize_activity_limit(limit: i64) -> (r: Result<i64, ApplicationError>)
    ensures
        MIN_ACTIVITY_LIMIT <= limit <= MAX_ACTIVITY_LIMIT ==> r == Ok::<i64, ApplicationError>(limit),
        !(MIN_ACTIVITY_LIMIT <= limit <= MAX_ACTIVITY_LIMIT) ==> fails_with(r, "Activity limit must be between 1 and 500"@),
{
    if MIN_ACTIVITY_LIMIT <= limit && limit <= MAX_ACTIVITY_LIMIT {
        Ok(limit)
    } else {
        Err(ApplicationError::Validation("Activity limit must be between 1 and 500".to_owned()))
    }
}

/// Accepts a match count between 1 and `MAX_MATCH_LIMIT`.
pub fn normalize_match_limit(limit: i64) -> (r: Result<i64, ApplicationError>)
    ensures
        1 <= limit <= MAX_MATCH_LIMIT ==> r == Ok::<i64, ApplicationError>(limit),
        !(1 <= limit <= MAX_MATCH_LIMIT) ==> fails_with(r, "Match limit must be between 1 and 20"@),
{
    if 1 <= limit && limit <= MAX_MATCH_LIMIT {
        Ok(limit)
    } else {
        Err(ApplicationError::Validation("Match limit must be between 1 and 20".to_owned()))
    }
}

/// Accepts an asset id between 1 and `MAX_LEAGUE_ASSET_ID`; the error names the value by
/// `label`.
pub fn normalize_league_asset_id(id: i64, label: &str) -> (r: Result<i64, ApplicationError>)
    ensures
        1 <= id <= MAX_LEAGUE_ASSET_ID ==> r == Ok::<i64, ApplicationError>(id),
        !(1 <= id <= MAX_LEAGUE_ASSET_ID) ==> fails_with(r, label@ + " must be between 1 and 1000000"@),
{
    if 1 <= id && id <= MAX_LEAGUE_ASSET_ID {
        Ok(id)
    } else {
        Err(ApplicationError::Validation(concat2(label, " must be between 1 and 1000000")))
    }
}

/// Accepts an absent champion id, or one that `normalize_league_asset_id` accepts.
pub fn validate_optional_champion_id(champion_id: Option<i64>, label: &str) -> (r: Result<
    (),
    ApplicationError,
>)
    ensures
        r is Ok <==> (champion_id matches Some(id) ==> 1 <= id <= MAX_LEAGUE_ASSET_ID),
        r matches Err(e) ==> e.is_validation(label@ + " must be between 1 and 1000000"@),
{
    if let Some(id) = champion_id {
        match normalize_league_asset_id(id, label) {
            Ok(_) => {},
            Err(e) => {
                return Err(e);
            },
        }
    }
    Ok(())
}

/// Accepts a positive game id.
pub fn validate_game_id(game_id: i64) -> (r: Result<(), ApplicationError>)
    ensures
        r is Ok <==> game_id > 0,
        r matches Err(e) ==> e.is_validation("Game id must be greater than 0"@),
{
    if game_id <= 0 {
        return Err(ApplicationError::Validation("Game id must be greater than 0".to_owned()));
    }
    Ok(())
}

/// Accepts a positive game id and a positive participant id; the game id is checked first.
pub fn validate_game_and_participant_ids(game_id: i64, participant_id: i64) -> (r: Result<
    (),
    ApplicationError,
>)
    ensures
        r is Ok <==> game_id > 0 && participant_id > 0,
        game_id <= 0 ==> fails_with(r, "Game id must be greater than 0"@),
        game_id > 0 && participant_id <= 0 ==> fails_with(r, 
            "Participant id must be greater than 0"@,
        ),
{
    match validate_game_id(game_id) {
        Ok(_) => {},
        Err(e) => {
            return Err(e);
        },
    }
    if participant_id <= 0 {
        return Err(ApplicationError::Validation("Participant id must be greater than 0".to_owned()));
    }
    Ok(())
}

/// A trimmed note, `None` when blank; refused when longer than `MAX_PLAYER_NOTE_LEN`.
pub fn normalize_player_note(note: Option<String>) -> (r: Result<Option<String>, ApplicationError>)
    ensures
        ({
            let normalized = match note {
                Some(s) => non_empty_spec(s@),
                None => None,
            };
            match r {
                Ok(v) => opt_string_view(v) == normalized && (normalized matches Some(t)
                    ==> t.len() <= MAX_PLAYER_NOTE_LEN),
                Err(e) => (normalized matches Some(t) && t.len() > MAX_PLAYER_NOTE_LEN)
                    && e.is_validation("Player note must be 500 characters or fewer"@),
            }
        }),
{
    let normalized = normalize_optional_string(note);
    if let Some(value) = &normalized {
        if value.as_str().unicode_len() > MAX_PLAYER_NOTE_LEN {
            return Err(
                ApplicationError::Validation(
                    "Player note must be 500 characters or fewer".to_owned(),
                ),
            );
        }
    }
    Ok(normalized)
}

/// The distinct non-blank trimmed tags, in first-seen order.
pub open spec fn distinct_tags(tags: Seq<Seq<char>>) -> Seq<Seq<char>>
    decreases tags.len(),
{
    if tags.len() == 0 {
        Seq::empty()
    } else {
        let prev = distinct_tags(tags.drop_last());
        let t = trim(tags.last());
        if t.len() == 0 || prev.contains(t) {
            prev
        } else {
            prev.push(t)
        }
    }
}

/// Whether some distinct tag is longer than `MAX_PLAYER_TAG_LEN`.
pub open spec fn has_long_tag(tags: Seq<Seq<char>>) -> bool {
    exists|i: int| 0 <= i < distinct_tags(tags).len() && #[trigger] distinct_tags(tags)[i].len() > MAX_PLAYER_TAG_LEN
}

/// Trims and de-duplicates tags, dropping blank ones; refuses a tag longer than
/// `MAX_PLAYER_TAG_LEN` and more than `MAX_PLAYER_TAGS` tags.
pub fn normalize_player_tags(tags: Vec<String>) -> (r: Result<Vec<String>, ApplicationError>)
    ensures
        has_long_tag(tags.deep_view()) ==> fails_with(r, 
            "Player tags must be 24 characters or fewer"@,
        ),
        !has_long_tag(tags.deep_view()) && distinct_tags(tags.deep_view()).len() > MAX_PLAYER_TAGS
            ==> fails_with(r, "Player tags must include 8 entries or fewer"@),
        !has_long_tag(tags.deep_view()) && distinct_tags(tags.deep_view()).len() <= MAX_PLAYER_TAGS
            ==> (r matches Ok(v) && v.deep_view() == distinct_tags(tags.deep_view())),
{
    let ghost all = tags.deep_view();
    let mut normalized: Vec<String> = Vec::new();
    let mut i: usize = 0;
    while i < tags.len()
        invariant
            i <= tags.len(),
            all == tags.deep_view(),
            normalized.deep_view() == distinct_tags(all.subrange(0, i as int)),
            forall|k: int| 0 <= k < normalized.len() ==> #[trigger] normalized.deep_view()[k].len() <= MAX_PLAYER_TAG_LEN,
        decreases tags.len() - i,
    {
        assert(all.subrange(0, i + 1).drop_last() =~= all.subrange(0, i as int));
        let tag = trim_str(tags[i].as_str());
        let mut dup = false;
        let mut j: usize = 0;
        while j < normalized.len()
            invariant
                j <= normalized.len(),
                dup <==> exists|k: int| 0 <= k < j && #[trigger] normalized.deep_view()[k] == tag@,
            decreases normalized.len() - j,
        {
            assert(normalized.deep_view()[j as int] == normalized@[j as int]@);
            if str_eq(normalized[j].as_str(), tag) {
                dup = true;
            }
            j = j + 1;
        }
        proof {
            if dup {
                let k = choose|k: int| 0 <= k < j && #[trigger] normalized.deep_view()[k] == tag@;
                assert(normalized.deep_view().contains(tag@));
            } else {
                assert(!normalized.deep_view().contains(tag@)) by {
                    if normalized.deep_view().contains(tag@) {
                        let k = choose|k: int| 0 <= k < normalized.deep_view().len() && normalized.deep_view()[k] == tag@;
                        assert(normalized.deep_view()[k] == tag@);
                    }
                }
            }
        }
        if tag.unicode_len() == 0 || dup {
            i = i + 1;
            continue;
        }
        if tag.unicode_len() > MAX_PLAYER_TAG_LEN {
            proof {
                lemma_distinct_tags_prefix(all, i as int + 1);
                let d = distinct_tags(all);
                assert(distinct_tags(all.subrange(0, i + 1)).last() == tag@);
                let n = distinct_tags(all.subrange(0, i + 1)).len() - 1;
                assert(d[n] == tag@);
                assert(d[n].len() > MAX_PLAYER_TAG_LEN);
            }
            return Err(
                ApplicationError::Validation("Player tags must be 24 characters or fewer".to_owned()),
            );
        }
        normalized.push(tag.to_owned());
        proof {
            assert(normalized.deep_view() =~= distinct_tags(all.subrange(0, i + 1)));
        }
        i = i + 1;
    }
    assert(all.subrange(0, tags.len() as int) =~= all);
    proof {
        assert(!has_long_tag(all)) by {
            if has_long_tag(all) {
                let k = choose|k: int| 0 <= k < distinct_tags(all).len() && #[trigger] distinct_tags(all)[k].len() > MAX_PLAYER_TAG_LEN;
                assert(normalized.deep_view()[k].len() <= MAX_PLAYER_TAG_LEN);
            }
        }
    }
    if normalized.len() > MAX_PLAYER_TAGS {
        return Err(
            ApplicationError::Validation("Player tags must include 8 entries or fewer".to_owned()),
        );
    }
    Ok(normalized)
}

/// A prefix of the tags gives a prefix of the distinct tags.
proof fn lemma_distinct_tags_prefix(tags: Seq<Seq<char>>, n: int)
    requires
        0 <= n <= tags.len(),
    ensures
        distinct_tags(tags.subrange(0, n)).len() <= distinct_tags(tags).len(),
        forall|k: int| 0 <= k < distinct_tags(tags.subrange(0, n)).len() ==> #[trigger] distinct_tags(tags)[k]
            == distinct_tags(tags.subrange(0, n))[k],
    decreases tags.len() - n,
{
    if n < tags.len() {
        lemma_distinct_tags_prefix(tags, n + 1);
        assert(tags.subrange(0, n + 1).drop_last() =~= tags.subrange(0, n));
    } else {
        assert(tags.subrange(0, n) =~= tags);
    }
}

/// A note the user writes into the activity log.
#[derive(Debug, Clone, PartialEq, Eq)]
pub struct ActivityNoteInput {
    pub title: String,
    pub body: Option<String>,
}

/// The trimmed title; refused when blank or longer than `MAX_ACTIVITY_TITLE_LEN`. The
/// error names the field by `label`.
pub fn validate_activity_title(title: &str, label: &str) -> (r: Result<String, ApplicationError>)
    ensures
        trim(title@).len() == 0 ==> fails_with(r, label@ + " is required"@),
        trim(title@).len() > MAX_ACTIVITY_TITLE_LEN ==> fails_with(
            r,
            label@ + " must be 120 characters or fewer"@,
        ),
        0 < trim(title@).len() <= MAX_ACTIVITY_TITLE_LEN ==> (r matches Ok(t) && t@ == trim(
            title@,
        )),
{
    let trimmed = trim_str(title);
    if trimmed.unicode_len() == 0 {
        return Err(ApplicationError::Validation(concat2(label, " is required")));
    }
    if trimmed.unicode_len() > MAX_ACTIVITY_TITLE_LEN {
        return Err(ApplicationError::Validation(concat2(label, " must be 120 characters or fewer")));
    }
    Ok(trimmed.to_owned())
}

/// The trimmed body, `None` when absent or blank; refused when longer than
/// `MAX_ACTIVITY_BODY_LEN`.
pub fn validate_activity_body(body: &Option<String>, label: &str) -> (r: Result<
    Option<String>,
    ApplicationError,
>)
    ensures
        ({
            let normalized = match body {
                Some(s) => non_empty_spec(s@),
                None => None,
            };
            &&& (normalized matches Some(t) && t.len() > MAX_ACTIVITY_BODY_LEN) ==> fails_with(
                r,
                label@ + " must be 2000 characters or fewer"@,
            )
            &&& !(normalized matches Some(t) && t.len() > MAX_ACTIVITY_BODY_LEN) ==> (r matches Ok(
                v,
            ) && opt_string_view(v) == normalized)
        }),
{
    let normalized = match body {
        Some(s) => {
            let trimmed = trim_str(s.as_str());
            if trimmed.unicode_len() == 0 {
                None
            } else {
                Some(trimmed.to_owned())
            }
        },
        None => None,
    };
    if let Some(value) = &normalized {
        if value.as_str().unicode_len() > MAX_ACTIVITY_BODY_LEN {
            return Err(
                ApplicationError::Validation(concat2(label, " must be 2000 characters or fewer")),
            );
        }
    }
    Ok(normalized)
}

/// Turns a note input into a log entry of kind `Note` with trimmed title and body.
pub fn validate_activity_note(input: ActivityNoteInput) -> (r: Result<NewActivityEntry, ApplicationError>)
    ensures
        ({
            let title = trim(input.title@);
            let body = match input.body {
                Some(s) => non_empty_spec(s@),
                None => None,
            };
            let body_too_long = body matches Some(b) && b.len() > MAX_ACTIVITY_BODY_LEN;
            &&& title.len() == 0 ==> fails_with(r, "Activity note title"@ + " is required"@)
            &&& title.len() > MAX_ACTIVITY_TITLE_LEN ==> fails_with(
                r,
                "Activity note title"@ + " must be 120 characters or fewer"@,
            )
            &&& (0 < title.len() <= MAX_ACTIVITY_TITLE_LEN && body_too_long) ==> fails_with(
                r,
                "Activity note body"@ + " must be 2000 characters or fewer"@,
            )
            &&& (0 < title.len() <= MAX_ACTIVITY_TITLE_LEN && !body_too_long) ==> (r matches Ok(entry) && entry.kind == ActivityKind::Note
                && entry.title@ == title && opt_string_view(entry.body) == body)
        }),
{
    let title = match validate_activity_title(input.title.as_str(), "Activity note title") {
        Ok(t) => t,
        Err(e) => {
            return Err(e);
        },
    };
    let body = match validate_activity_body(&input.body, "Activity note body") {
        Ok(b) => b,
        Err(e) => {
            return Err(e);
        },
    };
    Ok(NewActivityEntry { kind: ActivityKind::Note, title, body })
}

/// Checks an imported log entry: its title and body as for a note, and a non-blank
/// creation time.
pub fn validate_local_activity_entry(entry: &LocalActivityEntry) -> (r: Result<(), ApplicationError>)
    ensures
        ({
            let title = trim(entry.title@);
            let body = match entry.body {
                Some(s) => non_empty_spec(s@),
                None => None,
            };
            let body_too_long = body matches Some(b) && b.len() > MAX_ACTIVITY_BODY_LEN;
            &&& title.len() == 0 ==> fails_with(r, "Imported activity title"@ + " is required"@)
            &&& title.len() > MAX_ACTIVITY_TITLE_LEN ==> fails_with(
                r,
                "Imported activity title"@ + " must be 120 characters or fewer"@,
            )
            &&& (0 < title.len() <= MAX_ACTIVITY_TITLE_LEN && body_too_long) ==> fails_with(
                r,
                "Imported activity body"@ + " must be 2000 characters or fewer"@,
            )
            &&& (0 < title.len() <= MAX_ACTIVITY_TITLE_LEN && !body_too_long && trim(
                entry.created_at@,
            ).len() == 0) ==> fails_with(r, "Imported activity createdAt is required"@)
            &&& r is Ok <==> (0 < title.len() <= MAX_ACTIVITY_TITLE_LEN && !body_too_long && trim(
                entry.created_at@,
            ).len() > 0)
        }),
{
    match validate_activity_title(entry.title.as_str(), "Imported activity title") {
        Ok(_) => {},
        Err(e) => {
            return Err(e);
        },
    }
    match validate_activity_body(&entry.body, "Imported activity body") {
        Ok(_) => {},
        Err(e) => {
            return Err(e);
        },
    }
    if is_blank(entry.created_at.as_str()) {
        return Err(
            ApplicationError::Validation("Imported activity createdAt is required".to_owned()),
        );
    }
    Ok(())
}

/// A player name as used for matching: trimmed and ASCII lower-cased.
pub open spec fn normalized_name(value: Seq<char>) -> Seq<char> {
    ascii_lower(trim(value))
}

/// ASCII lower-casing neither makes nor removes whitespace, and lower-casing twice is
/// lower-casing once.
proof fn lemma_lower_char(c: char)
    ensures
        is_ws(lower_char(c)) == is_ws(c),
        lower_char(lower_char(c)) == lower_char(c),
{
    if 'A' <= c && c <= 'Z' {
        let u = c as u32;
        assert(0x41 <= u <= 0x5a);
        assert(lower_char(c) as u32 == u + 32);
    }
}

/// A normalised name is its own normalisation: the keys that lookups compare are stable.
pub proof fn lemma_normalized_name_idempotent(value: Seq<char>)
    ensures
        normalized_name(normalized_name(value)) == normalized_name(value),
{
    let t = trim(value);
    let n = ascii_lower(t);
    lemma_trim_ends(value);
    if n.len() > 0 {
        lemma_lower_char(t[0]);
        lemma_lower_char(t.last());
        assert(n[0] == lower_char(t[0]));
        assert(n.last() == lower_char(t.last()));
    }
    lemma_trim_of_trimmed(n);
    assert forall|i: int| 0 <= i < n.len() implies #[trigger] ascii_lower(n)[i] == n[i] by {
        lemma_lower_char(t[i]);
    }
    assert(ascii_lower(n) =~= n);
}

/// `value` trimmed and ASCII lower-cased.
pub fn normalize_player_name(value: &str) -> (r: String)
    ensures
        r@ == normalized_name(value@),
{
    to_ascii_lowercase(trim_str(value))
}

/// The keys under which a summoner name is looked up: the normalised name, and for a
/// Riot id `game#tag` also the normalised game name when it differs; blank keys are left out.
pub open spec fn lookup_keys(value: Seq<char>) -> Seq<Seq<char>> {
    let n = normalized_name(value);
    let first = if n.len() > 0 {
        seq![n]
    } else {
        Seq::empty()
    };
    match first_index(value, '#') {
        Some(i) => {
            let g = normalized_name(value.subrange(0, i));
            if g.len() > 0 && g != n {
                first.push(g)
            } else {
                first
            }
        },
        None => first,
    }
}

/// The keys under which a summoner name is looked up (see `lookup_keys`).
pub fn summoner_name_lookup_keys(value: &str) -> (r: Vec<String>)
    ensures
        r.deep_view() == lookup_keys(value@),
{
    let normalized = normalize_player_name(value);
    let mut keys: Vec<String> = Vec::new();
    if normalized.as_str().unicode_len() > 0 {
        keys.push(normalized.clone());
    }
    proof {
        assert(keys.deep_view() =~= (if normalized@.len() > 0 {
            seq![normalized@]
        } else {
            Seq::empty()
        }));
    }
    if let Some(i) = find_char(value, '#') {
        proof {
            crate::text::lemma_first_index_bound(value@, '#');
        }
        let game_name = value.substring_char(0, i);
        let normalized_game_name = normalize_player_name(game_name);
        if normalized_game_name.as_str().unicode_len() > 0 && !str_eq(
            normalized_game_name.as_str(),
            normalized.as_str(),
        ) {
            keys.push(normalized_game_name);
            proof {
                assert(keys.deep_view() =~= lookup_keys(value@));
            }
        }
    }
    keys
}

/// The negative id of a name (see `negative_stable_id`).
pub open spec fn stable_id(value: Seq<char>) -> int {
    -((DefaultHasher::spec_finish(seq![vstd::utf8::encode_utf8(value), seq![0xffu8]])
        & 0x3fff_ffff_ffffu64) as int) - 1
}

/// The id of a name is negative and fits 47 bits.
pub proof fn lemma_stable_id_negative(value: Seq<char>)
    ensures
        -0x4000_0000_0000 <= stable_id(value) <= -1,
{
    let h = DefaultHasher::spec_finish(seq![vstd::utf8::encode_utf8(value), seq![0xffu8]]);
    assert(h & 0x3fff_ffff_ffffu64 <= 0x3fff_ffff_ffffu64) by (bit_vector);
}

/// A negative id derived from a name, for players whose summoner id is unknown: the
/// name's `DefaultHasher` hash (as `str::hash` feeds it: the UTF-8 bytes, then `0xff`),
/// masked to 46 bits, negated and moved below zero.
pub fn negative_stable_id(value: &str) -> (r: i64)
    ensures
        r == stable_id(value@),
        -0x4000_0000_0000 <= r <= -1,
{
    let mut hasher = DefaultHasher::new();
    hasher.write(value.as_bytes());
    let tail: [u8; 1] = [0xffu8];
    let tail_bytes = tail.as_slice();
    assert(tail_bytes@ =~= seq![0xffu8]);
    hasher.write(tail_bytes);
    let h = hasher.finish();
    assert(hasher@ =~= seq![value.spec_bytes(), seq![0xffu8]]);
    let masked = h & 0x3fff_ffff_ffffu64;
    assert(masked <= 0x3fff_ffff_ffffu64) by (bit_vector)
        requires
            masked == h & 0x3fff_ffff_ffffu64,
    ;
    -(masked as i64) - 1
}

/// The note a player has stored, with its owner and last-seen name.
#[derive(Debug, Clone, PartialEq, Eq)]
pub struct StoredPlayerNote {
    pub player_puuid: String,
    pub last_display_name: String,
    pub note: Option<String>,
    pub tags: Vec<String>,
    pub updated_at: String,
}

/// A player note about to be stored.
#[derive(Debug, Clone, PartialEq, Eq)]
pub struct StoredPlayerNoteInput {
    pub player_puuid: String,
    pub last_display_name: String,
    pub note: Option<String>,
    pub tags: Vec<String>,
}

/// The note of a participant of a game: the stored note's text, tags and time, or an
/// empty view when there is none.
pub fn player_note_view(game_id: i64, participant_id: i64, note: Option<StoredPlayerNote>) -> (r:
    PlayerNoteView)
    ensures
        r.game_id == game_id,
        r.participant_id == participant_id,
        match note {
            Some(n) => r.note == n.note && r.tags == n.tags && r.updated_at == Some(n.updated_at),
            None => r.note is None && r.tags@.len() == 0 && r.updated_at is None,
        },
{
    match note {
        Some(note) => PlayerNoteView {
            game_id,
            participant_id,
            note: note.note,
            tags: note.tags,
            updated_at: Some(note.updated_at),
        },
        None => PlayerNoteView {
            game_id,
            participant_id,
            note: None,
            tags: Vec::new(),
            updated_at: None,
        },
    }
}

/// Where a champion-select roster was read from.
#[derive(Debug, Clone, Copy, PartialEq, Eq, Structural)]
pub enum ChampSelectSessionSource {
    ChampSelect,
    GameflowSession,
    LiveClient,
}

impl ChampSelectSessionSource {
    /// The label of each source in log lines.
    pub open spec fn log_label(self) -> Seq<char> {
        match self {
            ChampSelectSessionSource::ChampSelect => "champ-select"@,
            ChampSelectSessionSource::GameflowSession => "gameflow-session"@,
            ChampSelectSessionSource::LiveClient => "live-client"@,
        }
    }

    pub fn as_log_label(self) -> (r: &'static str)
        ensures
            r@ == self.log_label(),
    {
        match self {
            ChampSelectSessionSource::ChampSelect => "champ-select",
            ChampSelectSessionSource::GameflowSession => "gameflow-session",
            ChampSelectSessionSource::LiveClient => "live-client",
        }
    }
}

/// The label of a side in log lines.
pub fn champ_select_team_log_label(team: &ChampSelectTeam) -> (r: &'static str)
    ensures
        r@ == (match *team {
            ChampSelectTeam::Ally => "ally"@,
            ChampSelectTeam::Enemy => "enemy"@,
        }),
{
    match team {
        ChampSelectTeam::Ally => "ally",
        ChampSelectTeam::Enemy => "enemy",
    }
}

/// Why the recent stats of a champion-select player are or are not present.
#[derive(Debug, Clone, PartialEq, Eq)]
pub enum RecentStatsDiagnosis {
    /// Recent stats were not asked for (the limit was not positive).
    NotRequested,
    /// No PUUID is known for the player.
    MissingIdentity,
    /// The history was read and holds this many games.
    Loaded(usize),
    /// The history was read and holds no game.
    LoadedEmpty,
    /// The client refused the history request, with its message.
    LcuError(String),
    /// The batch answer had no entry for the player.
    NoResult,
}

impl RecentStatsDiagnosis {
    /// The public status that each diagnosis is reported as.
    pub open spec fn public_status_spec(self) -> ChampSelectRecentStatsStatus {
        match self {
            RecentStatsDiagnosis::NotRequested => ChampSelectRecentStatsStatus::NotRequested,
            RecentStatsDiagnosis::MissingIdentity => ChampSelectRecentStatsStatus::MissingIdentity,
            RecentStatsDiagnosis::Loaded(_) => ChampSelectRecentStatsStatus::Loaded,
            RecentStatsDiagnosis::LoadedEmpty => ChampSelectRecentStatsStatus::Loaded,
            RecentStatsDiagnosis::LcuError(_) => ChampSelectRecentStatsStatus::Unavailable,
            RecentStatsDiagnosis::NoResult => ChampSelectRecentStatsStatus::Unavailable,
        }
    }

    /// The log phrase of each diagnosis.
    pub open spec fn log_phrase_spec(self) -> Seq<char> {
        match self {
            RecentStatsDiagnosis::NotRequested => "skipped (recentLimit<=0)"@,
            RecentStatsDiagnosis::MissingIdentity => "MISSING_IDENTITY \u{2014} LCU never exposed a PUUID for this player (Riot anti-dodge anonymization of enemies during ChampSelect, or summoner-name lookup did not resolve)"@,
            RecentStatsDiagnosis::Loaded(count) => "OK matches="@ + decimal_digits(count as nat),
            RecentStatsDiagnosis::LoadedEmpty => "EMPTY_HISTORY \u{2014} LCU returned 0 games for this PUUID (new account or hidden history)"@,
            RecentStatsDiagnosis::LcuError(message) => "LCU_ERROR \u{2014} match-history request failed: "@ + message@,
            RecentStatsDiagnosis::NoResult => "NO_RESULT \u{2014} recent_stats batch returned no entry for this PUUID (upstream batching bug)"@,
        }
    }

    pub fn public_status(&self) -> (r: ChampSelectRecentStatsStatus)
        ensures
            r == self.public_status_spec(),
    {
        match self {
            RecentStatsDiagnosis::NotRequested => ChampSelectRecentStatsStatus::NotRequested,
            RecentStatsDiagnosis::MissingIdentity => ChampSelectRecentStatsStatus::MissingIdentity,
            RecentStatsDiagnosis::Loaded(_) => ChampSelectRecentStatsStatus::Loaded,
            RecentStatsDiagnosis::LoadedEmpty => ChampSelectRecentStatsStatus::Loaded,
            RecentStatsDiagnosis::LcuError(_) => ChampSelectRecentStatsStatus::Unavailable,
            RecentStatsDiagnosis::NoResult => ChampSelectRecentStatsStatus::Unavailable,
        }
    }

    /// Whether the diagnosis is worth a log line: every state but "not requested" and a
    /// loaded non-empty history.
    pub fn should_log_to_stderr(&self) -> (r: bool)
        ensures
            r == !(*self is NotRequested || *self is Loaded),
    {
        match self {
            RecentStatsDiagnosis::NotRequested => false,
            RecentStatsDiagnosis::Loaded(_) => false,
            _ => true,
        }
    }

    pub fn log_phrase(&self) -> (r: String)
        ensures
            r@ == self.log_phrase_spec(),
    {
        match self {
            RecentStatsDiagnosis::NotRequested => "skipped (recentLimit<=0)".to_owned(),
            RecentStatsDiagnosis::MissingIdentity => "MISSING_IDENTITY \u{2014} LCU never exposed a PUUID for this player (Riot anti-dodge anonymization of enemies during ChampSelect, or summoner-name lookup did not resolve)".to_owned(),
            RecentStatsDiagnosis::Loaded(count) => {
                let mut s = "OK matches=".to_owned();
                let digits = nat_to_string(*count as u64);
                push_str(&mut s, digits.as_str());
                s
            },
            RecentStatsDiagnosis::LoadedEmpty => "EMPTY_HISTORY \u{2014} LCU returned 0 games for this PUUID (new account or hidden history)".to_owned(),
            RecentStatsDiagnosis::LcuError(message) => concat2(
                "LCU_ERROR \u{2014} match-history request failed: ",
                message.as_str(),
            ),
            RecentStatsDiagnosis::NoResult => "NO_RESULT \u{2014} recent_stats batch returned no entry for this PUUID (upstream batching bug)".to_owned(),
        }
    }
}

/// The diagnosis for one player: not requested when the limit is not positive, missing
/// identity for a blank PUUID, else by the batch answer (`None`: no entry; `Ok(n)`: a
/// history of `n` games; `Err`: the client's error).
pub fn diagnose_recent_stats(
    recent_limit: i64,
    puuid: &str,
    result: Option<Result<usize, LeagueClientReadError>>,
) -> (r: RecentStatsDiagnosis)
    ensures
        recent_limit <= 0 ==> r is NotRequested,
        recent_limit > 0 && trim(puuid@).len() == 0 ==> r is MissingIdentity,
        recent_limit > 0 && trim(puuid@).len() > 0 ==> r == (match result {
            Some(Ok(n)) => if n == 0 {
                RecentStatsDiagnosis::LoadedEmpty
            } else {
                RecentStatsDiagnosis::Loaded(n)
            },
            Some(Err(e)) => RecentStatsDiagnosis::LcuError(
                match e {
                    LeagueClientReadError::ClientUnavailable(m) => m,
                    LeagueClientReadError::ClientAccess(m) => m,
                    LeagueClientReadError::Integration(m) => m,
                },
            ),
            None => RecentStatsDiagnosis::NoResult,
        }),
{
    if recent_limit <= 0 {
        return RecentStatsDiagnosis::NotRequested;
    }
    if is_blank(puuid) {
        return RecentStatsDiagnosis::MissingIdentity;
    }
    match result {
        Some(Ok(n)) => if n == 0 {
            RecentStatsDiagnosis::LoadedEmpty
        } else {
            RecentStatsDiagnosis::Loaded(n)
        },
        Some(Err(e)) => RecentStatsDiagnosis::LcuError(
            match e {
                LeagueClientReadError::ClientUnavailable(m) => m,
                LeagueClientReadError::ClientAccess(m) => m,
                LeagueClientReadError::Integration(m) => m,
            },
        ),
        None => RecentStatsDiagnosis::NoResult,
    }
}

/// One player of a champion-select roster as the client reported it.
#[derive(Debug, Clone, PartialEq, Eq)]
pub struct ChampSelectSessionPlayer {
    pub summoner_id: Option<i64>,
    pub puuid: Option<String>,
    pub display_name: String,
    pub champion_id: Option<i64>,
    pub team: ChampSelectTeam,
}

/// A champion-select roster as the client reported it. Champion choices are held as
/// `(key, champion id)` pairs; for a key that occurs twice the later pair counts.
#[derive(Debug, Clone, PartialEq, Eq)]
pub struct ChampSelectSessionData {
    pub ally_ids: Vec<i64>,
    pub enemy_ids: Vec<i64>,
    pub champion_selections: Vec<(i64, i64)>,
    pub ally_names: Vec<String>,
    pub enemy_names: Vec<String>,
    pub champion_selections_by_name: Vec<(String, i64)>,
    pub source: ChampSelectSessionSource,
    pub players: Vec<ChampSelectSessionPlayer>,
}

/// A summoner found by id or by name.
#[derive(Debug, Clone, PartialEq, Eq)]
pub struct SummonerBatchEntry {
    pub summoner_id: i64,
    pub puuid: String,
    pub display_name: String,
    pub summoner_level: Option<i64>,
}

/// Which activity entries to list.
#[derive(Debug, Clone, PartialEq, Eq)]
pub struct ActivityListInput {
    pub limit: Option<i64>,
    pub kind: Option<ActivityKind>,
}

/// A page of activity entries.
#[derive(Debug, Clone, PartialEq, Eq)]
pub struct ActivityEntries {
    pub records: Vec<ActivityEntry>,
}

/// How many recent matches the self snapshot reads.
#[derive(Debug, Clone, PartialEq, Eq)]
pub struct LeagueSelfSnapshotInput {
    pub match_limit: Option<i64>,
}

/// Lane filter and sort order of the ranked champion table.
#[derive(Debug, Clone, PartialEq, Eq)]
pub struct RankedChampionStatsInput {
    pub lane: Option<RankedChampionLane>,
    pub sort_by: Option<RankedChampionSort>,
}

/// Where ranked champion statistics are fetched from.
#[derive(Debug, Clone, Copy, PartialEq, Eq, Structural)]
pub enum RankedChampionDataSource {
    GitHubJson,
    Tencent,
    KoreaKr,
}

impl Default for RankedChampionDataSource {
    fn default() -> (r: RankedChampionDataSource)
        ensures
            r == RankedChampionDataSource::GitHubJson,
    {
        RankedChampionDataSource::GitHubJson
    }
}

/// A champion id with its name, used to label remote statistics.
#[derive(Debug, Clone, PartialEq, Eq)]
pub struct ChampionHint {
    pub id: i64,
    pub name: String,
}

/// Parameters of a ranked statistics refresh.
#[derive(Debug, Clone, PartialEq, Eq)]
pub struct RankedChampionRefreshInput {
    pub url: Option<String>,
    pub source: RankedChampionDataSource,
    pub champion_hints: Vec<ChampionHint>,
    pub tier: u32,
    pub lane: Option<RankedChampionLane>,
    pub patch_version: Option<String>,
}

impl Default for RankedChampionRefreshInput {
    fn default() -> (r: RankedChampionRefreshInput)
        ensures
            r.url is None,
            r.source == RankedChampionDataSource::GitHubJson,
            r.champion_hints@.len() == 0,
            r.tier == 200,
            r.lane is None,
            r.patch_version is None,
    {
        RankedChampionRefreshInput {
            url: None,
            source: RankedChampionDataSource::GitHubJson,
            champion_hints: Vec::new(),
            tier: 200,
            lane: None,
            patch_version: None,
        }
    }
}

/// Lane and champion filter of the advisor data.
#[derive(Debug, Clone, PartialEq, Eq)]
pub struct AdvisorDataInput {
    pub lane: Option<RankedChampionLane>,
    pub champion_id: Option<i64>,
}

/// Parameters of an advisor data refresh.
#[derive(Debug, Clone, PartialEq, Eq)]
pub struct AdvisorDataRefreshInput {
    pub url: Option<String>,
}

/// Why remote ranked or advisor data could not be used.
#[derive(Debug, Clone, PartialEq, Eq)]
pub enum RankedChampionDataError {
    Unavailable(String),
    InvalidData(String),
}

impl RankedChampionDataError {
    /// The text shown for the error: its message.
    pub fn message(&self) -> (r: String)
        ensures
            r@ == (match *self {
                RankedChampionDataError::Unavailable(m) => m@,
                RankedChampionDataError::InvalidData(m) => m@,
            }),
    {
        match self {
            RankedChampionDataError::Unavailable(m) => m.clone(),
            RankedChampionDataError::InvalidData(m) => m.clone(),
        }
    }
}

/// The message of a ranked or advisor data error.
pub open spec fn data_error_text(error: RankedChampionDataError) -> Seq<char> {
    match error {
        RankedChampionDataError::Unavailable(m) => m@,
        RankedChampionDataError::InvalidData(m) => m@,
    }
}

/// What a failed refresh of ranked champion data answers: the cached snapshot, marked
/// stale with a message that says cached data is shown and names the error, when there
/// is one; else an integration error with the error's message.
pub fn ranked_refresh_fallback<T>(error: RankedChampionDataError, cached: Option<T>) -> (r: Result<
    (T, String),
    ApplicationError,
>)
    ensures
        match cached {
            Some(c) => r matches Ok((s, m)) && s == c && m@
                == "Remote ranked champion data could not be refreshed; showing cached data: "@ + data_error_text(error),
            None => r matches Err(ApplicationError::Integration(m)) && m@ == data_error_text(error),
        },
{
    let text = error.message();
    match cached {
        Some(snapshot) => Ok((snapshot, concat2("Remote ranked champion data could not be refreshed; showing cached data: ", text.as_str()))),
        None => Err(ApplicationError::Integration(text)),
    }
}

/// What a failed refresh of advisor data answers: the cached snapshot, marked stale,
/// when there is one; else an integration error with the error's message.
pub fn advisor_refresh_fallback<T>(error: RankedChampionDataError, cached: Option<T>) -> (r: Result<
    (T, String),
    ApplicationError,
>)
    ensures
        match cached {
            Some(c) => r matches Ok((s, m)) && s == c && m@
                == "Remote advisor data could not be refreshed; showing cached data"@,
            None => r matches Err(ApplicationError::Integration(m)) && m@ == data_error_text(error),
        },
{
    match cached {
        Some(snapshot) => Ok((snapshot, "Remote advisor data could not be refreshed; showing cached data".to_string())),
        None => Err(ApplicationError::Integration(error.message())),
    }
}

/// Which profile icon to read.
#[derive(Debug, Clone, PartialEq, Eq)]
pub struct LeagueProfileIconInput {
    pub profile_icon_id: i64,
}

/// Which champion icon to read.
#[derive(Debug, Clone, PartialEq, Eq)]
pub struct LeagueChampionIconInput {
    pub champion_id: i64,
}

/// Which champion's details to read.
#[derive(Debug, Clone, PartialEq, Eq)]
pub struct LeagueChampionDetailsInput {
    pub champion_id: i64,
}

/// Which game asset to read.
#[derive(Debug, Clone, PartialEq, Eq)]
pub struct LeagueGameAssetInput {
    pub kind: LeagueGameAssetKind,
    pub asset_id: i64,
}

/// Which finished match to show.
#[derive(Debug, Clone, PartialEq, Eq)]
pub struct PostMatchDetailInput {
    pub game_id: i64,
}

/// Which participant's public profile to show.
#[derive(Debug, Clone, PartialEq, Eq)]
pub struct ParticipantPublicProfileInput {
    pub game_id: i64,
    pub participant_id: i64,
    pub recent_limit: Option<i64>,
}

/// A note to save for a participant of a finished match.
#[derive(Debug, Clone, PartialEq, Eq)]
pub struct SavePlayerNoteInput {
    pub game_id: i64,
    pub participant_id: i64,
    pub note: Option<String>,
    pub tags: Vec<String>,
}

/// Which participant's note to clear.
#[derive(Debug, Clone, PartialEq, Eq)]
pub struct ClearPlayerNoteInput {
    pub game_id: i64,
    pub participant_id: i64,
}

/// The rune page applied on lock-in: a saved page wins over recommendations; otherwise
/// the first recommendation's page; `None` when there is neither.
pub fn choose_lock_in_rune_page(
    saved: Option<ChampionRuneConfig>,
    recommendations: Vec<RuneRecommendation>,
) -> (r: Option<RunePage>)
    ensures
        saved matches Some(config) ==> r == Some(config.page),
        saved is None && recommendations@.len() > 0 ==> r == Some(recommendations@[0].page),
        saved is None && recommendations@.len() == 0 ==> r is None,
{
    match saved {
        Some(config) => Some(config.page),
        None => {
            if recommendations.len() > 0 {
                let mut recommendations = recommendations;
                Some(recommendations.swap_remove(0).page)
            } else {
                None
            }
        },
    }
}

/// A source of recommended rune pages for a champion, most picked first.
pub trait RuneRecommendationProvider {
    /// Whether `pages` is an answer that the provider may give when asked for
    /// `champion_id`. A provider that downloads its pages may answer differently from one
    /// call to the next, so this relates a request to each answer it may get rather than
    /// naming one answer. A provider that does not say may give any answer; code that is
    /// generic over providers knows nothing more of it than that it relates the request to
    /// the answer.
    closed spec fn gives_pages(&self, champion_id: i64, pages: Seq<RuneRecommendation>) -> bool {
        true
    }

    /// The provider's recommended pages for `champion_id`.
    fn fetch_rune_recommendations(&self, champion_id: i64) -> (r: Vec<RuneRecommendation>)
        ensures
            self.gives_pages(champion_id, r@),
    ;
}

/// The recommended rune pages that `provider` gives for `champion_id`: the provider is
/// asked for that champion, and its answer is handed back unchanged.
pub fn get_champion_rune_recommendations<P: RuneRecommendationProvider>(
    provider: &P,
    champion_id: i64,
) -> (r: Vec<RuneRecommendation>)
    ensures
        provider.gives_pages(champion_id, r@),
{
    provider.fetch_rune_recommendations(champion_id)
}

/// The pick and ban that champion-select automation sends, each only when its feature is
/// enabled; `None` when there is nothing to send.
pub fn champ_select_preferences(
    auto_pick_enabled: bool,
    auto_pick_champion_id: Option<i64>,
    auto_ban_enabled: bool,
    auto_ban_champion_id: Option<i64>,
) -> (r: Option<(Option<i64>, Option<i64>)>)
    ensures
        ({
            let pick = if auto_pick_enabled {
                auto_pick_champion_id
            } else {
                None
            };
            let ban = if auto_ban_enabled {
                auto_ban_champion_id
            } else {
                None
            };
            if pick is None && ban is None {
                r is None
            } else {
                r == Some((pick, ban))
            }
        }),
{
    let pick = if auto_pick_enabled {
        auto_pick_champion_id
    } else {
        None
    };
    let ban = if auto_ban_enabled {
        auto_ban_champion_id
    } else {
        None
    };
    if pick.is_none() && ban.is_none() {
        None
    } else {
        Some((pick, ban))
    }
}

/// What a stored note of a player becomes: the store's input with the player's id and
/// name, and the note and tags normalised. The ids are checked first, then the note, then
/// the tags.
pub fn player_note_input(
    input: SavePlayerNoteInput,
    player_puuid: String,
    display_name: String,
) -> (r: Result<StoredPlayerNoteInput, ApplicationError>)
    ensures
        !(input.game_id > 0 && input.participant_id > 0) ==> r is Err,
        input.game_id <= 0 ==> fails_with(r, "Game id must be greater than 0"@),
        (input.game_id > 0 && input.participant_id > 0) ==> ({
            let note = match input.note {
                Some(s) => non_empty_spec(s@),
                None => None,
            };
            let tags = input.tags.deep_view();
            if note matches Some(t) && t.len() > MAX_PLAYER_NOTE_LEN {
                fails_with(r, "Player note must be 500 characters or fewer"@)
            } else if has_long_tag(tags) {
                fails_with(r, "Player tags must be 24 characters or fewer"@)
            } else if distinct_tags(tags).len() > MAX_PLAYER_TAGS {
                fails_with(r, "Player tags must include 8 entries or fewer"@)
            } else {
                r matches Ok(v) && v.player_puuid == player_puuid && v.last_display_name
                    == display_name && opt_string_view(v.note) == note && v.tags.deep_view()
                    == distinct_tags(tags)
            }
        }),
{
    match validate_game_and_participant_ids(input.game_id, input.participant_id) {
        Ok(_) => {},
        Err(e) => {
            return Err(e);
        },
    }
    let note = match normalize_player_note(input.note) {
        Ok(n) => n,
        Err(e) => {
            return Err(e);
        },
    };
    let tags = match normalize_player_tags(input.tags) {
        Ok(t) => t,
        Err(e) => {
            return Err(e);
        },
    };
    Ok(StoredPlayerNoteInput { player_puuid, last_display_name: display_name, note, tags })
}

/// The note summary of a player: whether a note text is stored, the text, and the tags
/// (none without a stored note).
pub fn player_note_summary_from(note: Option<StoredPlayerNote>) -> (r: PlayerNoteSummary)
    ensures
        match note {
            Some(n) => r.has_note == (n.note is Some) && r.note == n.note && r.tags == n.tags,
            None => !r.has_note && r.note is None && r.tags@.len() == 0,
        },
{
    match note {
        Some(n) => PlayerNoteSummary { has_note: n.note.is_some(), note: n.note, tags: n.tags },
        None => PlayerNoteSummary { has_note: false, note: None, tags: Vec::new() },
    }
}

/// Clearing the activity log needs an explicit confirmation.
pub fn require_clear_confirmation(confirm: bool) -> (r: Result<(), ApplicationError>)
    ensures
        confirm ==> r is Ok,
        !confirm ==> fails_with(r, "Activity clear confirmation is required"@),
{
    if !confirm {
        return Err(
            ApplicationError::Validation("Activity clear confirmation is required".to_owned()),
        );
    }
    Ok(())
}

/// Where the application keeps its activity log. Each method has a relation that says
/// which answers the store may give to a request; a store that does not say may give any
/// answer, and code that is generic over stores knows nothing more of an answer than that
/// it is one given to that request.
pub trait AppStore {
    /// Whether `answer` may come back from listing at most `limit` entries of `kind`
    /// (every kind when `None`).
    closed spec fn lists_activity(
        &self,
        limit: i64,
        kind: Option<ActivityKind>,
        answer: Result<Vec<ActivityEntry>, String>,
    ) -> bool {
        true
    }

    /// Whether `answer` may come back from storing `entry`.
    closed spec fn creates_activity(
        &self,
        entry: NewActivityEntry,
        answer: Result<ActivityEntry, String>,
    ) -> bool {
        true
    }

    /// Whether `answer` (the number of entries removed) may come back from clearing the log.
    closed spec fn clears_activity(&self, answer: Result<i64, String>) -> bool {
        true
    }

    /// Whether `answer` may come back from reading the rune page saved for `champion_id`.
    closed spec fn reads_rune_config(
        &self,
        champion_id: i64,
        answer: Result<Option<ChampionRuneConfig>, String>,
    ) -> bool {
        true
    }

    /// Whether `answer` may come back from saving `page` for `champion_id`.
    closed spec fn saves_rune_config(
        &self,
        champion_id: i64,
        page: RunePage,
        answer: Result<ChampionRuneConfig, String>,
    ) -> bool {
        true
    }

    /// Whether `answer` (whether a page was removed) may come back from deleting the page
    /// saved for `champion_id`.
    closed spec fn deletes_rune_config(&self, champion_id: i64, answer: Result<bool, String>) -> bool {
        true
    }

    /// The newest entries, at most `limit`, of `kind` (every kind when `None`).
    fn list_activity_entries(&self, limit: i64, kind: Option<ActivityKind>) -> (r: Result<
        Vec<ActivityEntry>,
        String,
    >)
        ensures
            self.lists_activity(limit, kind, r),
    ;

    /// Stores `entry` and gives back the stored entry.
    fn create_activity_entry(&self, entry: NewActivityEntry) -> (r: Result<ActivityEntry, String>)
        ensures
            self.creates_activity(entry, r),
    ;

    /// Removes every entry and gives back how many there were.
    fn clear_activity_entries(&self) -> (r: Result<i64, String>)
        ensures
            self.clears_activity(r),
    ;

    /// The rune page saved for `champion_id`, if any.
    fn get_champion_rune_config(&self, champion_id: i64) -> (r: Result<Option<ChampionRuneConfig>, String>)
        ensures
            self.reads_rune_config(champion_id, r),
    ;

    /// Saves `page` for `champion_id` and gives back what was stored.
    fn save_champion_rune_config(&self, champion_id: i64, page: RunePage) -> (r: Result<
        ChampionRuneConfig,
        String,
    >)
        ensures
            self.saves_rune_config(champion_id, page, r),
    ;

    /// Removes the page saved for `champion_id`; whether there was one.
    fn delete_champion_rune_config(&self, champion_id: i64) -> (r: Result<bool, String>)
        ensures
            self.deletes_rune_config(champion_id, r),
    ;
}

/// `r` hands on the store's answer `answer`: its value on success, and its message as a
/// storage error on failure.
pub open spec fn passed_on<T>(answer: Result<T, String>, r: Result<T, ApplicationError>) -> bool {
    match answer {
        Ok(v) => r == Ok::<T, ApplicationError>(v),
        Err(e) => r == Err::<T, ApplicationError>(ApplicationError::Storage(e)),
    }
}

/// The rune page saved for `champion_id`: the store is asked, and its answer handed on.
pub fn get_stored_rune_config<S: AppStore>(store: &S, champion_id: i64) -> (r: Result<
    Option<ChampionRuneConfig>,
    ApplicationError,
>)
    ensures
        exists|answer: Result<Option<ChampionRuneConfig>, String>|
            #[trigger] store.reads_rune_config(champion_id, answer) && passed_on(answer, r),
{
    let answer = store.get_champion_rune_config(champion_id);
    let ghost given = answer;
    let r = match answer {
        Ok(config) => Ok(config),
        Err(e) => Err(ApplicationError::Storage(e)),
    };
    assert(passed_on(given, r));
    r
}

/// Saves `page` for `champion_id`: refused for a champion id that is not positive (see
/// `validate_rune_champion_id`); else the store saves it and its answer is handed on.
pub fn save_rune_config<S: AppStore>(store: &S, champion_id: i64, page: RunePage) -> (r: Result<
    ChampionRuneConfig,
    ApplicationError,
>)
    ensures
        champion_id <= 0 ==> fails_with(r, "Champion id must be greater than 0"@),
        champion_id > 0 ==> exists|answer: Result<ChampionRuneConfig, String>|
            #[trigger] store.saves_rune_config(champion_id, page, answer) && passed_on(answer, r),
{
    match validate_rune_champion_id(champion_id) {
        Ok(()) => {},
        Err(e) => {
            return Err(e);
        },
    }
    let ghost sent = page;
    let answer = store.save_champion_rune_config(champion_id, page);
    let ghost given = answer;
    let r = match answer {
        Ok(config) => Ok(config),
        Err(e) => Err(ApplicationError::Storage(e)),
    };
    assert(passed_on(given, r));
    assert(store.saves_rune_config(champion_id, sent, given));
    r
}

/// Deletes the page saved for `champion_id`: refused for a champion id that is not
/// positive; else the store deletes it and its answer (whether there was one) is handed on.
pub fn delete_rune_config<S: AppStore>(store: &S, champion_id: i64) -> (r: Result<bool, ApplicationError>)
    ensures
        champion_id <= 0 ==> fails_with(r, "Champion id must be greater than 0"@),
        champion_id > 0 ==> exists|answer: Result<bool, String>|
            #[trigger] store.deletes_rune_config(champion_id, answer) && passed_on(answer, r),
{
    match validate_rune_champion_id(champion_id) {
        Ok(()) => {},
        Err(e) => {
            return Err(e);
        },
    }
    let answer = store.delete_champion_rune_config(champion_id);
    let ghost given = answer;
    let r = match answer {
        Ok(deleted) => Ok(deleted),
        Err(e) => Err(ApplicationError::Storage(e)),
    };
    assert(passed_on(given, r));
    r
}

/// `r` is what an operation hands back of the store's answer `answer`: `value` of it on
/// success, and on failure a storage error that names `operation`.
pub open spec fn from_store<T, U>(
    answer: Result<T, String>,
    operation: Seq<char>,
    value: spec_fn(T) -> U,
    r: Result<U, ApplicationError>,
) -> bool {
    match answer {
        Ok(v) => r == Ok::<U, ApplicationError>(value(v)),
        Err(e) => r matches Err(ApplicationError::Storage(m)) && m@ == operation + " failed: "@ + e@,
    }
}

/// The activity list size asked for, or `DEFAULT_ACTIVITY_LIMIT` when none is given.
pub open spec fn requested_activity_limit(input: ActivityListInput) -> i64 {
    match input.limit {
        Some(l) => l,
        None => DEFAULT_ACTIVITY_LIMIT,
    }
}

/// Lists activity entries: the requested size (the default when none is given) must lie
/// between `MIN_ACTIVITY_LIMIT` and `MAX_ACTIVITY_LIMIT`; the store is then asked for that
/// many entries of the requested kind, and its answer is handed back.
pub fn list_activity_entries<S: AppStore>(store: &S, input: ActivityListInput) -> (r: Result<
    ActivityEntries,
    ApplicationError,
>)
    ensures
        ({
            let limit = requested_activity_limit(input);
            &&& !(MIN_ACTIVITY_LIMIT <= limit <= MAX_ACTIVITY_LIMIT) ==> fails_with(
                r,
                "Activity limit must be between 1 and 500"@,
            )
            &&& MIN_ACTIVITY_LIMIT <= limit <= MAX_ACTIVITY_LIMIT ==> exists|
                answer: Result<Vec<ActivityEntry>, String>,
            |
                #[trigger] store.lists_activity(limit, input.kind, answer) && from_store(
                    answer,
                    "list activity entries"@,
                    |records: Vec<ActivityEntry>| ActivityEntries { records },
                    r,
                )
        }),
{
    let requested = match input.limit {
        Some(l) => l,
        None => DEFAULT_ACTIVITY_LIMIT,
    };
    let limit = match normalize_activity_limit(requested) {
        Ok(l) => l,
        Err(e) => {
            return Err(e);
        },
    };
    let answer = store.list_activity_entries(limit, input.kind);
    let ghost given = answer;
    let r = match answer {
        Ok(records) => Ok(ActivityEntries { records }),
        Err(e) => Err(storage_failure("list activity entries", e)),
    };
    assert(from_store(
        given,
        "list activity entries"@,
        |records: Vec<ActivityEntry>| ActivityEntries { records },
        r,
    ));
    r
}

/// Writes a note into the activity log: the note is validated as `validate_activity_note`
/// says, and the store is given the entry that it makes; the store's answer is handed back.
pub fn create_activity_note<S: AppStore>(store: &S, input: ActivityNoteInput) -> (r: Result<
    ActivityEntry,
    ApplicationError,
>)
    ensures
        ({
            let title = trim(input.title@);
            let body = match input.body {
                Some(s) => non_empty_spec(s@),
                None => None,
            };
            let body_too_long = body matches Some(b) && b.len() > MAX_ACTIVITY_BODY_LEN;
            &&& title.len() == 0 ==> fails_with(r, "Activity note title"@ + " is required"@)
            &&& title.len() > MAX_ACTIVITY_TITLE_LEN ==> fails_with(
                r,
                "Activity note title"@ + " must be 120 characters or fewer"@,
            )
            &&& (0 < title.len() <= MAX_ACTIVITY_TITLE_LEN && body_too_long) ==> fails_with(
                r,
                "Activity note body"@ + " must be 2000 characters or fewer"@,
            )
            &&& (0 < title.len() <= MAX_ACTIVITY_TITLE_LEN && !body_too_long) ==> exists|
                entry: NewActivityEntry,
                answer: Result<ActivityEntry, String>,
            |
                #[trigger] store.creates_activity(entry, answer) && entry.kind == ActivityKind::Note
                    && entry.title@ == title && opt_string_view(entry.body) == body && from_store(
                    answer,
                    "create activity note"@,
                    |e: ActivityEntry| e,
                    r,
                )
        }),
{
    let entry = match validate_activity_note(input) {
        Ok(entry) => entry,
        Err(e) => {
            return Err(e);
        },
    };
    let ghost sent = entry;
    let answer = store.create_activity_entry(entry);
    let ghost given = answer;
    let r = match answer {
        Ok(stored) => Ok(stored),
        Err(e) => Err(storage_failure("create activity note", e)),
    };
    assert(from_store(given, "create activity note"@, |e: ActivityEntry| e, r));
    assert(store.creates_activity(sent, given));
    r
}

/// Clears the activity log: refused without confirmation (see
/// `require_clear_confirmation`); else the store clears it, and the number of entries it
/// removed is handed back.
pub fn clear_activity_entries<S: AppStore>(store: &S, confirm: bool) -> (r: Result<
    ClearActivityResult,
    ApplicationError,
>)
    ensures
        !confirm ==> fails_with(r, "Activity clear confirmation is required"@),
        confirm ==> exists|answer: Result<i64, String>|
            #[trigger] store.clears_activity(answer) && from_store(
                answer,
                "clear activity entries"@,
                |n: i64| ClearActivityResult { deleted_count: n },
                r,
            ),
{
    match require_clear_confirmation(confirm) {
        Ok(()) => {},
        Err(e) => {
            return Err(e);
        },
    }
    let answer = store.clear_activity_entries();
    let ghost given = answer;
    let r = match answer {
        Ok(deleted_count) => Ok(ClearActivityResult { deleted_count }),
        Err(e) => Err(storage_failure("clear activity entries", e)),
    };
    assert(from_store(given, "clear activity entries"@, |n: i64| ClearActivityResult { deleted_count: n }, r));
    r
}

/// A saved rune page belongs to a champion with a positive id.
pub fn validate_rune_champion_id(champion_id: i64) -> (r: Result<(), ApplicationError>)
    ensures
        champion_id > 0 ==> r is Ok,
        champion_id <= 0 ==> fails_with(r, "Champion id must be greater than 0"@),
{
    if champion_id <= 0 {
        return Err(ApplicationError::Validation("Champion id must be greater than 0".to_owned()));
    }
    Ok(())
}

/// A champion of the built-in ranked statistics.
#[derive(Debug, Clone, PartialEq, Eq)]
pub struct ChampionSeed {
    pub champion_id: i64,
    pub champion_name: String,
}

/// The hints of a seed table: the first entry of each champion id, in table order.
pub open spec fn seed_hints_spec(seeds: Seq<ChampionSeed>) -> Seq<(i64, Seq<char>)>
    decreases seeds.len(),
{
    if seeds.len() == 0 {
        Seq::empty()
    } else {
        let prev = seed_hints_spec(seeds.drop_last());
        let s = seeds.last();
        if exists|i: int| 0 <= i < prev.len() && (#[trigger] prev[i]).0 == s.champion_id {
            prev
        } else {
            prev.push((s.champion_id, s.champion_name@))
        }
    }
}

/// The champion hints of a seed table (see `seed_hints_spec`).
pub fn seed_champion_hints(seeds: &[ChampionSeed]) -> (r: Vec<ChampionHint>)
    ensures
        r@.map_values(|h: ChampionHint| (h.id, h.name@)) == seed_hints_spec(seeds@),
{
    let mut out: Vec<ChampionHint> = Vec::new();
    let mut i: usize = 0;
    while i < seeds.len()
        invariant
            i <= seeds@.len(),
            out@.map_values(|h: ChampionHint| (h.id, h.name@)) == seed_hints_spec(seeds@.subrange(0, i as int)),
        decreases seeds.len() - i,
    {
        assert(seeds@.subrange(0, i + 1).drop_last() =~= seeds@.subrange(0, i as int));
        let ghost prev = out@.map_values(|h: ChampionHint| (h.id, h.name@));
        let id = seeds[i].champion_id;
        let mut seen = false;
        let mut j: usize = 0;
        while j < out.len()
            invariant
                j <= out@.len(),
                prev == out@.map_values(|h: ChampionHint| (h.id, h.name@)),
                seen <==> exists|k: int| 0 <= k < j && (#[trigger] prev[k]).0 == id,
            decreases out.len() - j,
        {
            assert(prev[j as int].0 == out@[j as int].id);
            if out[j].id == id {
                seen = true;
            }
            j = j + 1;
        }
        if !seen {
            out.push(ChampionHint { id, name: seeds[i].champion_name.clone() });
            assert(out@.map_values(|h: ChampionHint| (h.id, h.name@)) =~= prev.push(
                (id, seeds@[i as int].champion_name@),
            ));
        }
        i = i + 1;
    }
    assert(seeds@.subrange(0, seeds@.len() as int) =~= seeds@);
    out
}

/// The note identity of a participant of a finished game, from `(participant id, PUUID,
/// name)` entries: the first entry with the id; refused when there is none or it has no
/// PUUID.
pub fn find_participant_identity(
    participants: &Vec<(i64, Option<String>, String)>,
    participant_id: i64,
) -> (r: Result<(String, String), ApplicationError>)
    ensures
        match first_participant(participants@, participant_id) {
            None => fails_with(r, "Participant was not found in the completed match"@),
            Some(k) => match participants@[k].1 {
                None => fails_with(r, "Participant cannot be linked to local notes"@),
                Some(p) => r matches Ok((puuid, name)) && puuid == p && name == participants@[k].2,
            },
        },
{
    let mut i: usize = 0;
    while i < participants.len()
        invariant
            i <= participants@.len(),
            forall|k: int| 0 <= k < i ==> (#[trigger] participants@[k]).0 != participant_id,
        decreases participants.len() - i,
    {
        if participants[i].0 == participant_id {
            proof {
                lemma_first_participant(participants@, participant_id, i as int);
            }
            return match &participants[i].1 {
                Some(p) => Ok((p.clone(), participants[i].2.clone())),
                None => Err(
                    ApplicationError::Validation(
                        "Participant cannot be linked to local notes".to_owned(),
                    ),
                ),
            };
        }
        i = i + 1;
    }
    proof {
        lemma_first_participant(participants@, participant_id, participants@.len() as int);
    }
    Err(ApplicationError::Validation("Participant was not found in the completed match".to_owned()))
}

/// The position of the first entry with this participant id.
pub open spec fn first_participant(participants: Seq<(i64, Option<String>, String)>, id: i64) -> Option<
    int,
>
    decreases participants.len(),
{
    if participants.len() == 0 {
        None
    } else if participants[0].0 == id {
        Some(0)
    } else {
        match first_participant(participants.drop_first(), id) {
            Some(k) => Some(k + 1),
            None => None,
        }
    }
}

proof fn lemma_first_participant(participants: Seq<(i64, Option<String>, String)>, id: i64, i: int)
    requires
        0 <= i <= participants.len(),
        forall|k: int| 0 <= k < i ==> (#[trigger] participants[k]).0 != id,
        i == participants.len() || participants[i].0 == id,
    ensures
        first_participant(participants, id) == (if i == participants.len() {
            None
        } else {
            Some(i)
        }),
    decreases i,
{
    if i > 0 {
        lemma_first_participant(participants.drop_first(), id, i - 1);
    }
}

/// The settings a user submits, apart from the pick and ban delays: names of the start-up
/// page, language and theme, and the other choices as given.
#[derive(Debug, Clone, PartialEq, Eq)]
pub struct SettingsChoicesInput {
    pub startup_page: String,
    pub language: String,
    pub theme: String,
    pub compact_mode: bool,
    pub activity_limit: i64,
    pub auto_accept_enabled: bool,
    pub auto_pick_enabled: bool,
    pub auto_pick_champion_id: Option<i64>,
    pub auto_ban_enabled: bool,
    pub auto_ban_champion_id: Option<i64>,
    pub ai_base_url: Option<String>,
    pub ai_api_key: Option<String>,
    pub ai_model: Option<String>,
}

/// Validated settings, apart from the pick and ban delays.
#[derive(Debug, Clone, PartialEq, Eq)]
pub struct SettingsChoices {
    pub startup_page: StartupPage,
    pub language: AppLanguagePreference,
    pub theme: AppThemePreference,
    pub compact_mode: bool,
    pub activity_limit: i64,
    pub auto_accept_enabled: bool,
    pub auto_pick_enabled: bool,
    pub auto_pick_champion_id: Option<i64>,
    pub auto_ban_enabled: bool,
    pub auto_ban_champion_id: Option<i64>,
    pub ai_base_url: Option<String>,
    pub ai_api_key: Option<String>,
    pub ai_model: Option<String>,
}

/// The default settings: dashboard, system language, light theme, 100 activity entries,
/// auto-accept on, no automatic pick or ban, no AI provider.
pub fn settings_default_choices() -> (r: SettingsChoices)
    ensures
        r.startup_page == StartupPage::Dashboard,
        r.language == AppLanguagePreference::System,
        r.theme == AppThemePreference::Light,
        !r.compact_mode,
        r.activity_limit == DEFAULT_ACTIVITY_LIMIT,
        r.auto_accept_enabled,
        !r.auto_pick_enabled && r.auto_pick_champion_id is None,
        !r.auto_ban_enabled && r.auto_ban_champion_id is None,
        r.ai_base_url is None && r.ai_api_key is None && r.ai_model is None,
{
    SettingsChoices {
        startup_page: StartupPage::Dashboard,
        language: AppLanguagePreference::System,
        theme: AppThemePreference::Light,
        compact_mode: false,
        activity_limit: DEFAULT_ACTIVITY_LIMIT,
        auto_accept_enabled: true,
        auto_pick_enabled: false,
        auto_pick_champion_id: None,
        auto_ban_enabled: false,
        auto_ban_champion_id: None,
        ai_base_url: None,
        ai_api_key: None,
        ai_model: None,
    }
}

/// The first rule that validated settings break, in order: the activity limit, the two
/// champion ids, an automatic pick or ban without a champion; none when all hold.
pub open spec fn settings_violation(
    activity_limit: i64,
    auto_pick_enabled: bool,
    auto_pick_champion_id: Option<i64>,
    auto_ban_enabled: bool,
    auto_ban_champion_id: Option<i64>,
) -> Option<Seq<char>> {
    if !(MIN_ACTIVITY_LIMIT <= activity_limit <= MAX_ACTIVITY_LIMIT) {
        Some("Activity limit must be between 1 and 500"@)
    } else if auto_pick_champion_id matches Some(id) && !(1 <= id <= MAX_LEAGUE_ASSET_ID) {
        Some("Auto pick champion"@ + " must be between 1 and 1000000"@)
    } else if auto_ban_champion_id matches Some(id) && !(1 <= id <= MAX_LEAGUE_ASSET_ID) {
        Some("Auto ban champion"@ + " must be between 1 and 1000000"@)
    } else if auto_pick_enabled && auto_pick_champion_id is None {
        Some("Auto pick requires a champion"@)
    } else if auto_ban_enabled && auto_ban_champion_id is None {
        Some("Auto ban requires a champion"@)
    } else {
        None
    }
}

/// Checks validated settings (see `settings_violation`).
pub fn validate_settings_values(settings: &SettingsChoices) -> (r: Result<(), ApplicationError>)
    ensures
        match settings_violation(
            settings.activity_limit,
            settings.auto_pick_enabled,
            settings.auto_pick_champion_id,
            settings.auto_ban_enabled,
            settings.auto_ban_champion_id,
        ) {
            Some(m) => fails_with(r, m),
            None => r is Ok,
        },
{
    match normalize_activity_limit(settings.activity_limit) {
        Ok(_) => {},
        Err(e) => {
            return Err(e);
        },
    }
    match validate_optional_champion_id(settings.auto_pick_champion_id, "Auto pick champion") {
        Ok(_) => {},
        Err(e) => {
            return Err(e);
        },
    }
    match validate_optional_champion_id(settings.auto_ban_champion_id, "Auto ban champion") {
        Ok(_) => {},
        Err(e) => {
            return Err(e);
        },
    }
    if settings.auto_pick_enabled && settings.auto_pick_champion_id.is_none() {
        return Err(ApplicationError::Validation("Auto pick requires a champion".to_string()));
    }
    if settings.auto_ban_enabled && settings.auto_ban_champion_id.is_none() {
        return Err(ApplicationError::Validation("Auto ban requires a champion".to_string()));
    }
    Ok(())
}

/// Validates submitted settings: the start-up page, language and theme must be known
/// names (checked in that order), the AI fields are trimmed (blank ones dropped), and the
/// result must pass `validate_settings_values`.
pub fn validate_settings(input: SettingsChoicesInput) -> (r: Result<SettingsChoices, ApplicationError>)
    ensures
        StartupPage::from_name(input.startup_page@) is None ==> fails_with(
            r,
            "Startup page must be dashboard, profile, matches, advisor, or settings"@,
        ),
        StartupPage::from_name(input.startup_page@) is Some && AppLanguagePreference::from_name(
            input.language@,
        ) is None ==> fails_with(r, "Language must be system, zh, or en"@),
        StartupPage::from_name(input.startup_page@) is Some && AppLanguagePreference::from_name(
            input.language@,
        ) is Some && AppThemePreference::from_name(input.theme@) is None ==> fails_with(
            r,
            "Theme must be light or dark"@,
        ),
        StartupPage::from_name(input.startup_page@) is Some && AppLanguagePreference::from_name(
            input.language@,
        ) is Some && AppThemePreference::from_name(input.theme@) is Some ==> match settings_violation(
            input.activity_limit,
            input.auto_pick_enabled,
            input.auto_pick_champion_id,
            input.auto_ban_enabled,
            input.auto_ban_champion_id,
        ) {
            Some(m) => fails_with(r, m),
            None => r matches Ok(v) && Some(v.startup_page) == StartupPage::from_name(
                input.startup_page@,
            ) && Some(v.language) == AppLanguagePreference::from_name(input.language@) && Some(
                v.theme,
            ) == AppThemePreference::from_name(input.theme@) && v.compact_mode == input.compact_mode
                && v.activity_limit == input.activity_limit && v.auto_accept_enabled
                == input.auto_accept_enabled && v.auto_pick_enabled == input.auto_pick_enabled
                && v.auto_pick_champion_id == input.auto_pick_champion_id && v.auto_ban_enabled
                == input.auto_ban_enabled && v.auto_ban_champion_id == input.auto_ban_champion_id
                && opt_string_view(v.ai_base_url) == optional_text_spec(input.ai_base_url)
                && opt_string_view(v.ai_api_key) == optional_text_spec(input.ai_api_key)
                && opt_string_view(v.ai_model) == optional_text_spec(input.ai_model),
        },
{
    let startup_page = match StartupPage::parse(input.startup_page.as_str()) {
        Some(p) => p,
        None => {
            return Err(
                ApplicationError::Validation(
                    "Startup page must be dashboard, profile, matches, advisor, or settings".to_string(),
                ),
            );
        },
    };
    let language = match AppLanguagePreference::parse(input.language.as_str()) {
        Some(l) => l,
        None => {
            return Err(ApplicationError::Validation("Language must be system, zh, or en".to_string()));
        },
    };
    let theme = match AppThemePreference::parse(input.theme.as_str()) {
        Some(t) => t,
        None => {
            return Err(ApplicationError::Validation("Theme must be light or dark".to_string()));
        },
    };
    let values = SettingsChoices {
        startup_page,
        language,
        theme,
        compact_mode: input.compact_mode,
        activity_limit: input.activity_limit,
        auto_accept_enabled: input.auto_accept_enabled,
        auto_pick_enabled: input.auto_pick_enabled,
        auto_pick_champion_id: input.auto_pick_champion_id,
        auto_ban_enabled: input.auto_ban_enabled,
        auto_ban_champion_id: input.auto_ban_champion_id,
        ai_base_url: normalize_optional_string(input.ai_base_url),
        ai_api_key: normalize_optional_string(input.ai_api_key),
        ai_model: normalize_optional_string(input.ai_model),
    };
    match validate_settings_values(&values) {
        Ok(()) => Ok(values),
        Err(e) => Err(e),
    }
}

/// A trimmed optional text, `None` when absent or blank.
pub open spec fn optional_text_spec(value: Option<String>) -> Option<Seq<char>> {
    match value {
        Some(s) => non_empty_spec(s@),
        None => None,
    }
}

} // verus!
