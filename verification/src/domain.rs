//! Shared domain values: preferences, activity records, client status, ranked and
//! advisor references, rune pages.

use vstd::prelude::*;
use crate::text::str_eq;

verus! {

/// Overall health of the application services.
#[derive(Debug, Clone, Copy, PartialEq, Eq, Structural)]
pub enum ServiceStatus {
    Healthy,
    Degraded,
}

/// Availability of the local database.
#[derive(Debug, Clone, Copy, PartialEq, Eq, Structural)]
pub enum DatabaseStatus {
    Healthy,
    Unavailable,
}

/// Health summary shown on start-up.
#[derive(Debug, Clone, PartialEq, Eq)]
pub struct HealthReport {
    pub status: ServiceStatus,
    pub database_status: DatabaseStatus,
    pub schema_version: Option<i64>,
}

/// Provider settings of the AI advisor.
#[derive(Debug, Clone, PartialEq, Eq)]
pub struct AiConfig {
    pub base_url: Option<String>,
    pub api_key: Option<String>,
    pub model: Option<String>,
}

/// A cached AI analysis for one scope.
#[derive(Debug, Clone, PartialEq, Eq)]
pub struct AiAnalysisCache {
    pub scope: String,
    pub result_text: String,
    pub game_count_at_analysis: i64,
    pub analyzed_at: String,
}

/// One chat preset bound to a hotkey slot.
#[derive(Debug, Clone, PartialEq, Eq)]
pub struct ChatPreset {
    pub slot: i64,
    pub label: String,
    pub message: String,
    pub updated_at: String,
}

/// Interface language preference.
#[derive(Debug, Clone, Copy, PartialEq, Eq, Structural)]
pub enum AppLanguagePreference {
    System,
    Zh,
    En,
}

impl AppLanguagePreference {
    /// The stored name of each language preference.
    pub open spec fn name(self) -> Seq<char> {
        match self {
            AppLanguagePreference::System => "system"@,
            AppLanguagePreference::Zh => "zh"@,
            AppLanguagePreference::En => "en"@,
        }
    }

    /// The preference whose stored name is `s`.
    pub open spec fn from_name(s: Seq<char>) -> Option<AppLanguagePreference> {
        if s == "system"@ {
            Some(AppLanguagePreference::System)
        } else if s == "zh"@ {
            Some(AppLanguagePreference::Zh)
        } else if s == "en"@ {
            Some(AppLanguagePreference::En)
        } else {
            None
        }
    }

    pub fn as_str(self) -> (r: &'static str)
        ensures
            r@ == self.name(),
    {
        match self {
            AppLanguagePreference::System => "system",
            AppLanguagePreference::Zh => "zh",
            AppLanguagePreference::En => "en",
        }
    }

    pub fn parse(value: &str) -> (r: Option<AppLanguagePreference>)
        ensures
            r == AppLanguagePreference::from_name(value@),
    {
        if str_eq(value, "system") {
            Some(AppLanguagePreference::System)
        } else if str_eq(value, "zh") {
            Some(AppLanguagePreference::Zh)
        } else if str_eq(value, "en") {
            Some(AppLanguagePreference::En)
        } else {
            None
        }
    }
}

impl Default for AppLanguagePreference {
    fn default() -> (r: AppLanguagePreference)
        ensures
            r == AppLanguagePreference::System,
    {
        AppLanguagePreference::System
    }
}

/// Every language preference is read back from its stored name, and a name is read as a
/// given value only when it is that value's stored name.
pub proof fn lemma_language_name_round_trip(x: AppLanguagePreference)
    ensures
        AppLanguagePreference::from_name(x.name()) == Some(x),
        forall|s: Seq<char>| AppLanguagePreference::from_name(s) == Some(x) ==> s == x.name(),
{
    reveal_strlit("system");
    assert("system"@.len() == 6 && "system"@[0] == 's');
    reveal_strlit("zh");
    assert("zh"@.len() == 2 && "zh"@[0] == 'z');
    reveal_strlit("en");
    assert("en"@.len() == 2 && "en"@[0] == 'e');
}

/// Colour theme preference.
#[derive(Debug, Clone, Copy, PartialEq, Eq, Structural)]
pub enum AppThemePreference {
    Light,
    Dark,
}

impl AppThemePreference {
    /// The stored name of each theme.
    pub open spec fn name(self) -> Seq<char> {
        match self {
            AppThemePreference::Light => "light"@,
            AppThemePreference::Dark => "dark"@,
        }
    }

    /// The theme whose stored name is `s`.
    pub open spec fn from_name(s: Seq<char>) -> Option<AppThemePreference> {
        if s == "light"@ {
            Some(AppThemePreference::Light)
        } else if s == "dark"@ {
            Some(AppThemePreference::Dark)
        } else {
            None
        }
    }

    pub fn as_str(self) -> (r: &'static str)
        ensures
            r@ == self.name(),
    {
        match self {
            AppThemePreference::Light => "light",
            AppThemePreference::Dark => "dark",
        }
    }

    pub fn parse(value: &str) -> (r: Option<AppThemePreference>)
        ensures
            r == AppThemePreference::from_name(value@),
    {
        if str_eq(value, "light") {
            Some(AppThemePreference::Light)
        } else if str_eq(value, "dark") {
            Some(AppThemePreference::Dark)
        } else {
            None
        }
    }
}

impl Default for AppThemePreference {
    fn default() -> (r: AppThemePreference)
        ensures
            r == AppThemePreference::Light,
    {
        AppThemePreference::Light
    }
}

/// Every theme preference is read back from its stored name, and a name is read as a
/// given value only when it is that value's stored name.
pub proof fn lemma_theme_name_round_trip(x: AppThemePreference)
    ensures
        AppThemePreference::from_name(x.name()) == Some(x),
        forall|s: Seq<char>| AppThemePreference::from_name(s) == Some(x) ==> s == x.name(),
{
    reveal_strlit("light");
    assert("light"@.len() == 5 && "light"@[0] == 'l');
    reveal_strlit("dark");
    assert("dark"@.len() == 4 && "dark"@[0] == 'd');
}

/// The page shown when the application starts.
#[derive(Debug, Clone, Copy, PartialEq, Eq, Structural)]
pub enum StartupPage {
    Dashboard,
    Activity,
    Settings,
}

impl StartupPage {
    /// The stored name of each start-up page.
    pub open spec fn name(self) -> Seq<char> {
        match self {
            StartupPage::Dashboard => "dashboard"@,
            StartupPage::Activity => "activity"@,
            StartupPage::Settings => "settings"@,
        }
    }

    /// The start-up page whose stored name is `s`.
    pub open spec fn from_name(s: Seq<char>) -> Option<StartupPage> {
        if s == "dashboard"@ {
            Some(StartupPage::Dashboard)
        } else if s == "activity"@ {
            Some(StartupPage::Activity)
        } else if s == "settings"@ {
            Some(StartupPage::Settings)
        } else {
            None
        }
    }

    pub fn as_str(self) -> (r: &'static str)
        ensures
            r@ == self.name(),
    {
        match self {
            StartupPage::Dashboard => "dashboard",
            StartupPage::Activity => "activity",
            StartupPage::Settings => "settings",
        }
    }

    pub fn parse(value: &str) -> (r: Option<StartupPage>)
        ensures
            r == StartupPage::from_name(value@),
    {
        if str_eq(value, "dashboard") {
            Some(StartupPage::Dashboard)
        } else if str_eq(value, "activity") {
            Some(StartupPage::Activity)
        } else if str_eq(value, "settings") {
            Some(StartupPage::Settings)
        } else {
            None
        }
    }
}

/// Every start-up page is read back from its stored name, and a name is read as a
/// given value only when it is that value's stored name.
pub proof fn lemma_startup_page_name_round_trip(x: StartupPage)
    ensures
        StartupPage::from_name(x.name()) == Some(x),
        forall|s: Seq<char>| StartupPage::from_name(s) == Some(x) ==> s == x.name(),
{
    reveal_strlit("dashboard");
    assert("dashboard"@.len() == 9 && "dashboard"@[0] == 'd');
    reveal_strlit("activity");
    assert("activity"@.len() == 8 && "activity"@[0] == 'a');
    reveal_strlit("settings");
    assert("settings"@.len() == 8 && "settings"@[0] == 's');
}

/// The kind of an activity log entry.
#[derive(Debug, Clone, Copy, PartialEq, Eq, Structural)]
pub enum ActivityKind {
    Note,
    Settings,
    System,
}

impl ActivityKind {
    /// The stored name of each activity kind.
    pub open spec fn name(self) -> Seq<char> {
        match self {
            ActivityKind::Note => "note"@,
            ActivityKind::Settings => "settings"@,
            ActivityKind::System => "system"@,
        }
    }

    /// The activity kind whose stored name is `s`.
    pub open spec fn from_name(s: Seq<char>) -> Option<ActivityKind> {
        if s == "note"@ {
            Some(ActivityKind::Note)
        } else if s == "settings"@ {
            Some(ActivityKind::Settings)
        } else if s == "system"@ {
            Some(ActivityKind::System)
        } else {
            None
        }
    }

    pub fn as_str(self) -> (r: &'static str)
        ensures
            r@ == self.name(),
    {
        match self {
            ActivityKind::Note => "note",
            ActivityKind::Settings => "settings",
            ActivityKind::System => "system",
        }
    }

    pub fn parse(value: &str) -> (r: Option<ActivityKind>)
        ensures
            r == ActivityKind::from_name(value@),
    {
        if str_eq(value, "note") {
            Some(ActivityKind::Note)
        } else if str_eq(value, "settings") {
            Some(ActivityKind::Settings)
        } else if str_eq(value, "system") {
            Some(ActivityKind::System)
        } else {
            None
        }
    }
}

/// Every activity kind is read back from its stored name, and a name is read as a
/// given value only when it is that value's stored name.
pub proof fn lemma_activity_kind_name_round_trip(x: ActivityKind)
    ensures
        ActivityKind::from_name(x.name()) == Some(x),
        forall|s: Seq<char>| ActivityKind::from_name(s) == Some(x) ==> s == x.name(),
{
    reveal_strlit("note");
    assert("note"@.len() == 4 && "note"@[0] == 'n');
    reveal_strlit("settings");
    assert("settings"@.len() == 8 && "settings"@[0] == 's');
    reveal_strlit("system");
    assert("system"@.len() == 6 && "system"@[0] == 's');
}

/// A stored activity log entry.
#[derive(Debug, Clone, PartialEq, Eq)]
pub struct ActivityEntry {
    pub id: i64,
    pub kind: ActivityKind,
    pub title: String,
    pub body: Option<String>,
    pub created_at: String,
}

/// An activity entry about to be stored.
#[derive(Debug, Clone, PartialEq, Eq)]
pub struct NewActivityEntry {
    pub kind: ActivityKind,
    pub title: String,
    pub body: Option<String>,
}

/// An activity entry in an export file.
#[derive(Debug, Clone, PartialEq, Eq)]
pub struct LocalActivityEntry {
    pub kind: ActivityKind,
    pub title: String,
    pub body: Option<String>,
    pub created_at: String,
}

/// How many activity entries a clear removed.
#[derive(Debug, Clone, PartialEq, Eq)]
pub struct ClearActivityResult {
    pub deleted_count: i64,
}

/// The note attached to a player, as shown next to a participant.
#[derive(Debug, Clone, PartialEq, Eq)]
pub struct PlayerNoteSummary {
    pub has_note: bool,
    pub note: Option<String>,
    pub tags: Vec<String>,
}

/// A player note in the context of one participant of one game.
#[derive(Debug, Clone, PartialEq, Eq)]
pub struct PlayerNoteView {
    pub game_id: i64,
    pub participant_id: i64,
    pub note: Option<String>,
    pub tags: Vec<String>,
    pub updated_at: Option<String>,
}

/// Whether clearing a player note removed one.
#[derive(Debug, Clone, PartialEq, Eq)]
pub struct ClearPlayerNoteResult {
    pub cleared: bool,
}

/// Whether the League Client can be reached.
#[derive(Debug, Clone, Copy, PartialEq, Eq, Structural)]
pub enum LeagueClientConnection {
    Connected,
    Unavailable,
}

/// The phase of the connection to the League Client.
#[derive(Debug, Clone, Copy, PartialEq, Eq, Structural)]
pub enum LeagueClientPhase {
    NotRunning,
    LockfileMissing,
    Connecting,
    Connected,
    Unauthorized,
    NotLoggedIn,
    Patching,
    PartialData,
    Unavailable,
}

/// Status of the League Client connection.
#[derive(Debug, Clone, PartialEq, Eq)]
pub struct LeagueClientStatus {
    pub is_running: bool,
    pub lockfile_found: bool,
    pub connection: LeagueClientConnection,
    pub phase: LeagueClientPhase,
    pub message: Option<String>,
}

impl LeagueClientStatus {
    /// A status for a client that cannot be used, with the given phase and message.
    pub fn unavailable(phase: LeagueClientPhase, message: String) -> (r: LeagueClientStatus)
        ensures
            !r.is_running,
            !r.lockfile_found,
            r.connection == LeagueClientConnection::Unavailable,
            r.phase == phase,
            r.message == Some(message),
    {
        LeagueClientStatus {
            is_running: false,
            lockfile_found: false,
            connection: LeagueClientConnection::Unavailable,
            phase,
            message: Some(message),
        }
    }
}

/// State of the ready-check auto-accept feature.
#[derive(Debug, Clone, Copy, PartialEq, Eq, Structural)]
pub enum AutoAcceptStatusState {
    Disabled,
    WaitingForClient,
    Connected,
    Searching,
    ReadyCheckDetected,
    Accepting,
    Accepted,
    Error,
}

/// Auto-accept state with an optional message.
#[derive(Debug, Clone, PartialEq, Eq)]
pub struct AutoAcceptStatus {
    pub state: AutoAcceptStatusState,
    pub message: Option<String>,
}

impl AutoAcceptStatus {
    pub fn new(state: AutoAcceptStatusState, message: Option<String>) -> (r: AutoAcceptStatus)
        ensures
            r.state == state,
            r.message == message,
    {
        AutoAcceptStatus { state, message }
    }
}

/// The part of a snapshot that a warning is about.
#[derive(Debug, Clone, Copy, PartialEq, Eq, Structural)]
pub enum LeagueDataSection {
    Champions,
    Ranked,
    Advisor,
    Matches,
    Participants,
    RecentStats,
    LiveOverlay,
}

/// A warning that part of a snapshot could not be loaded.
#[derive(Debug, Clone, PartialEq, Eq)]
pub struct LeagueDataWarning {
    pub section: LeagueDataSection,
    pub message: String,
}

/// Image bytes with their MIME type.
#[derive(Debug, Clone, PartialEq, Eq)]
pub struct LeagueImageAsset {
    pub mime_type: String,
    pub bytes: Vec<u8>,
}

/// The kind of a game asset.
#[derive(Debug, Clone, Copy, PartialEq, Eq, Structural)]
pub enum LeagueGameAssetKind {
    Item,
    Rune,
    Spell,
}

/// An item, rune or summoner spell with its image.
#[derive(Debug, Clone, PartialEq, Eq)]
pub struct LeagueGameAsset {
    pub kind: LeagueGameAssetKind,
    pub asset_id: i64,
    pub name: String,
    pub description: Option<String>,
    pub image: LeagueImageAsset,
}

/// One champion of the champion catalog.
#[derive(Debug, Clone, PartialEq, Eq)]
pub struct LeagueChampionSummary {
    pub champion_id: i64,
    pub champion_name: String,
}

/// Mastery on one champion.
#[derive(Debug, Clone, PartialEq, Eq)]
pub struct ChampionMasteryEntry {
    pub champion_id: i64,
    pub champion_name: String,
    pub mastery_level: i64,
    pub mastery_points: i64,
}

/// The profile of the logged-in summoner.
#[derive(Debug, Clone, PartialEq, Eq)]
pub struct CurrentSummonerProfile {
    pub display_name: String,
    pub summoner_level: i64,
    pub profile_icon_id: Option<i64>,
    pub honor_level: Option<i64>,
    pub top_mastery: Vec<ChampionMasteryEntry>,
}

/// A ranked queue.
#[derive(Debug, Clone, Copy, PartialEq, Eq, Structural)]
pub enum RankedQueue {
    SoloDuo,
    Flex,
    Other,
}

/// Rank in one queue.
#[derive(Debug, Clone, PartialEq, Eq)]
pub struct RankedQueueSummary {
    pub queue: RankedQueue,
    pub tier: Option<String>,
    pub division: Option<String>,
    pub league_points: Option<i64>,
    pub wins: i64,
    pub losses: i64,
    pub is_ranked: bool,
}

/// A rune, item or spell referenced by id and name.
#[derive(Debug, Clone, PartialEq, Eq)]
pub struct AdvisorNamedRef {
    pub id: Option<i64>,
    pub name: String,
}

/// A recommended rune page.
#[derive(Debug, Clone, PartialEq, Eq)]
pub struct AdvisorRunePage {
    pub primary_style: String,
    pub primary_runes: Vec<AdvisorNamedRef>,
    pub secondary_style: String,
    pub secondary_runes: Vec<AdvisorNamedRef>,
    pub stat_shards: Vec<String>,
}

/// A recommended skill order.
#[derive(Debug, Clone, PartialEq, Eq)]
pub struct AdvisorSkillOrder {
    pub max_order: Vec<String>,
    pub early_order: Vec<String>,
}

/// A recommended item build.
#[derive(Debug, Clone, PartialEq, Eq)]
pub struct AdvisorItemBuild {
    pub starter: Vec<AdvisorNamedRef>,
    pub core: Vec<AdvisorNamedRef>,
    pub boots: Vec<AdvisorNamedRef>,
    pub late: Vec<AdvisorNamedRef>,
    pub situational: Vec<AdvisorNamedRef>,
}

/// A point in the game when a champion becomes stronger.
#[derive(Debug, Clone, PartialEq, Eq)]
pub struct AdvisorPowerSpike {
    pub timing: String,
    pub label: String,
    pub description: String,
}

/// The tone of a player tag.
#[derive(Debug, Clone, Copy, PartialEq, Eq, Structural)]
pub enum AdvisorTagTone {
    Good,
    Warn,
    Info,
}

/// A short label attached to a player in champion select.
#[derive(Debug, Clone, PartialEq, Eq)]
pub struct AdvisorPlayerTag {
    pub label: String,
    pub tone: AdvisorTagTone,
}

/// An item in the live overlay.
#[derive(Debug, Clone, PartialEq, Eq)]
pub struct LiveOverlayItem {
    pub item_id: i64,
    pub display_name: String,
    pub price: i64,
    pub count: i64,
    pub slot: Option<i64>,
}

/// Item value of both teams in the live overlay.
#[derive(Debug, Clone, PartialEq, Eq)]
pub struct LiveOverlayGoldSummary {
    pub ally_item_value: i64,
    pub enemy_item_value: i64,
    pub item_value_diff: i64,
}

/// Where ranked champion data came from.
#[derive(Debug, Clone, Copy, PartialEq, Eq, Structural)]
pub enum RankedChampionDataStatus {
    Sample,
    Cached,
    Fresh,
    StaleCache,
}

/// A lane (position).
#[derive(Debug, Clone, Copy, PartialEq, Eq, Structural)]
pub enum RankedChampionLane {
    Top,
    Jungle,
    Middle,
    Bottom,
    Support,
}

impl RankedChampionLane {
    /// The display label of each lane.
    pub open spec fn label_spec(self) -> Seq<char> {
        match self {
            RankedChampionLane::Top => "Top"@,
            RankedChampionLane::Jungle => "Jungle"@,
            RankedChampionLane::Middle => "Middle"@,
            RankedChampionLane::Bottom => "Bottom"@,
            RankedChampionLane::Support => "Support"@,
        }
    }

    /// The stored name of each lane.
    pub open spec fn name(self) -> Seq<char> {
        match self {
            RankedChampionLane::Top => "top"@,
            RankedChampionLane::Jungle => "jungle"@,
            RankedChampionLane::Middle => "middle"@,
            RankedChampionLane::Bottom => "bottom"@,
            RankedChampionLane::Support => "support"@,
        }
    }

    /// The lane whose stored name is `s`.
    pub open spec fn from_name(s: Seq<char>) -> Option<RankedChampionLane> {
        if s == "top"@ {
            Some(RankedChampionLane::Top)
        } else if s == "jungle"@ {
            Some(RankedChampionLane::Jungle)
        } else if s == "middle"@ {
            Some(RankedChampionLane::Middle)
        } else if s == "bottom"@ {
            Some(RankedChampionLane::Bottom)
        } else if s == "support"@ {
            Some(RankedChampionLane::Support)
        } else {
            None
        }
    }

    /// All lanes, in display order.
    pub fn all() -> (r: [RankedChampionLane; 5])
        ensures
            r@ == seq![
                RankedChampionLane::Top,
                RankedChampionLane::Jungle,
                RankedChampionLane::Middle,
                RankedChampionLane::Bottom,
                RankedChampionLane::Support,
            ],
    {
        [
            RankedChampionLane::Top,
            RankedChampionLane::Jungle,
            RankedChampionLane::Middle,
            RankedChampionLane::Bottom,
            RankedChampionLane::Support,
        ]
    }

    pub fn label(self) -> (r: &'static str)
        ensures
            r@ == self.label_spec(),
    {
        match self {
            RankedChampionLane::Top => "Top",
            RankedChampionLane::Jungle => "Jungle",
            RankedChampionLane::Middle => "Middle",
            RankedChampionLane::Bottom => "Bottom",
            RankedChampionLane::Support => "Support",
        }
    }

    pub fn as_str(self) -> (r: &'static str)
        ensures
            r@ == self.name(),
    {
        match self {
            RankedChampionLane::Top => "top",
            RankedChampionLane::Jungle => "jungle",
            RankedChampionLane::Middle => "middle",
            RankedChampionLane::Bottom => "bottom",
            RankedChampionLane::Support => "support",
        }
    }

    pub fn parse(value: &str) -> (r: Option<RankedChampionLane>)
        ensures
            r == RankedChampionLane::from_name(value@),
    {
        if str_eq(value, "top") {
            Some(RankedChampionLane::Top)
        } else if str_eq(value, "jungle") {
            Some(RankedChampionLane::Jungle)
        } else if str_eq(value, "middle") {
            Some(RankedChampionLane::Middle)
        } else if str_eq(value, "bottom") {
            Some(RankedChampionLane::Bottom)
        } else if str_eq(value, "support") {
            Some(RankedChampionLane::Support)
        } else {
            None
        }
    }
}

/// Every lane is read back from its stored name, and a name is read as a
/// given value only when it is that value's stored name.
pub proof fn lemma_lane_name_round_trip(x: RankedChampionLane)
    ensures
        RankedChampionLane::from_name(x.name()) == Some(x),
        forall|s: Seq<char>| RankedChampionLane::from_name(s) == Some(x) ==> s == x.name(),
{
    reveal_strlit("top");
    assert("top"@.len() == 3 && "top"@[0] == 't');
    reveal_strlit("jungle");
    assert("jungle"@.len() == 6 && "jungle"@[0] == 'j');
    reveal_strlit("middle");
    assert("middle"@.len() == 6 && "middle"@[0] == 'm');
    reveal_strlit("bottom");
    assert("bottom"@.len() == 6 && "bottom"@[0] == 'b');
    reveal_strlit("support");
    assert("support"@.len() == 7 && "support"@[0] == 's');
}

/// Sort key of the ranked champion table.
#[derive(Debug, Clone, Copy, PartialEq, Eq, Structural)]
pub enum RankedChampionSort {
    Overall,
    WinRate,
    BanRate,
    PickRate,
}

/// Result of a finished match.
#[derive(Debug, Clone, Copy, PartialEq, Eq, Structural)]
pub enum MatchResult {
    Win,
    Loss,
    Unknown,
}

/// How often a champion was played in the recent window.
#[derive(Debug, Clone, PartialEq, Eq)]
pub struct RecentChampionSummary {
    pub champion_id: Option<i64>,
    pub champion_name: String,
    pub games: usize,
}

/// Team totals of a finished match.
#[derive(Debug, Clone, PartialEq, Eq)]
pub struct PostMatchTeamTotals {
    pub kills: i64,
    pub deaths: i64,
    pub assists: i64,
    pub gold_earned: i64,
    pub damage_to_champions: i64,
    pub vision_score: i64,
}

/// Recent-KDA category.
#[derive(Debug, Clone, Copy, PartialEq, Eq, Structural)]
pub enum KdaTag {
    High,
    Standard,
    Unavailable,
}

/// Whether recent stats of a champion-select player were loaded.
#[derive(Debug, Clone, Copy, PartialEq, Eq, Structural)]
pub enum ChampSelectRecentStatsStatus {
    NotRequested,
    MissingIdentity,
    Loaded,
    Unavailable,
}

/// Side of a player in champion select.
#[derive(Debug, Clone, Copy, PartialEq, Eq, Structural)]
pub enum ChampSelectTeam {
    Ally,
    Enemy,
}

/// A rune page ready to be written to the League Client.
#[derive(Debug, Clone, PartialEq, Eq)]
pub struct RunePage {
    pub primary_style_id: i64,
    pub sub_style_id: i64,
    pub selected_perk_ids: Vec<i64>,
}

/// One recommended rune page, with how often it was picked.
#[derive(Debug, Clone, PartialEq, Eq)]
pub struct RuneRecommendation {
    /// Lane/position: "top", "jungle", "middle", "bottom", "support".
    pub position: String,
    pub pick_count: i64,
    pub page: RunePage,
}

/// A rune page the user saved for a champion; it takes precedence on lock-in.
#[derive(Debug, Clone, PartialEq, Eq)]
pub struct ChampionRuneConfig {
    pub champion_id: i64,
    pub page: RunePage,
    pub saved_at: String,
}

/// Rune data shown on the rune page tab.
#[derive(Debug, Clone, PartialEq, Eq)]
pub struct RunePageSnapshot {
    pub champion_id: i64,
    pub champion_name: String,
    pub recommendations: Vec<RuneRecommendation>,
    pub saved_config: Option<ChampionRuneConfig>,
    pub auto_applied: bool,
}

} // verus!
