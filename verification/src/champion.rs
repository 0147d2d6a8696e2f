//! Champion data: the champion catalog, ability numbers from Tencent burn strings, and
//! the naming rules for CommunityDragon stat labels and folders.

use vstd::prelude::*;
use std::collections::HashMap;
use crate::domain::LeagueChampionSummary;
use crate::paths::{clean_game_asset_text, clean_text_spec};
use crate::text::{ascii_lower, is_ascii_text, non_empty_owned, non_empty_spec, opt_string_view, to_ascii_lowercase};
use crate::text::{
    lower_letter, upper_letter, upper_text, char_to_uppercase, char_uppercase, concat2, contains,
    contains_seq, eq_ignore_ascii_case, eq_ignore_case, find_char, first_index, is_blank,
    is_lowercase, is_uppercase, lemma_first_index_bound, push_char, push_str, replace,
    replace_seq, split_char, split_seq, str_eq, lower_text, to_lowercase,
    to_uppercase, trim, trim_str,
};
use vstd::string::StringSliceAdditionalSpecFns;

verus! {

broadcast use vstd::std_specs::hash::group_hash_axioms;

/// The views of a sequence of string slices.
pub open spec fn views(s: Seq<&str>) -> Seq<Seq<char>> {
    s.map_values(|x: &str| x@)
}

/// `name` equals some entry of `list`, ignoring ASCII case.
pub open spec fn in_list_ignore_case(name: Seq<char>, list: Seq<Seq<char>>) -> bool {
    exists|i: int| 0 <= i < list.len() && eq_ignore_case(name, #[trigger] list[i])
}

/// Some entry of `list` occurs in `name`.
pub open spec fn contains_any(name: Seq<char>, list: Seq<Seq<char>>) -> bool {
    exists|i: int| 0 <= i < list.len() && contains_seq(name, #[trigger] list[i])
}

/// Whether `name` equals an entry of `list`, ignoring ASCII case.
fn any_eq_ignore_case(name: &str, list: &[&str]) -> (r: bool)
    ensures
        r == in_list_ignore_case(name@, views(list@)),
{
    let mut i: usize = 0;
    while i < list.len()
        invariant
            i <= list.len(),
            forall|j: int| 0 <= j < i ==> !eq_ignore_case(name@, #[trigger] views(list@)[j]),
        decreases list.len() - i,
    {
        if eq_ignore_ascii_case(name, list[i]) {
            assert(eq_ignore_case(name@, views(list@)[i as int]));
            return true;
        }
        i = i + 1;
    }
    false
}

/// Whether some entry of `list` occurs in `name`.
fn contains_any_of(name: &str, list: &[&str]) -> (r: bool)
    ensures
        r == contains_any(name@, views(list@)),
{
    let mut i: usize = 0;
    while i < list.len()
        invariant
            i <= list.len(),
            forall|j: int| 0 <= j < i ==> !contains_seq(name@, #[trigger] views(list@)[j]),
        decreases list.len() - i,
    {
        if contains(name, list[i]) {
            assert(contains_seq(name@, views(list@)[i as int]));
            return true;
        }
        i = i + 1;
    }
    false
}

/// Upper-cased fragments of stat names that are implementation details.
pub open spec fn skip_stat_names() -> Seq<Seq<char>> {
    seq![
        "DURATION"@,
        "TOOLTIP"@,
    ]
}

fn skip_stat_names_list() -> (r: [&'static str; 2])
    ensures
        views(r@) == skip_stat_names(),
{
    let r: [&'static str; 2] = [
        "DURATION",
        "TOOLTIP",
    ];
    assert(views(r@) =~= skip_stat_names());
    r
}

/// Fragments of stat names whose values are percentages.
pub open spec fn percent_suffixes() -> Seq<Seq<char>> {
    seq![
        "Percent"@,
        "Amp"@,
        "Mult"@,
        "Conversion"@,
    ]
}

fn percent_suffixes_list() -> (r: [&'static str; 4])
    ensures
        views(r@) == percent_suffixes(),
{
    let r: [&'static str; 4] = [
        "Percent",
        "Amp",
        "Mult",
        "Conversion",
    ];
    assert(views(r@) =~= percent_suffixes());
    r
}

/// Stat names that are never shown.
pub open spec fn noise_names() -> Seq<Seq<char>> {
    seq![
        "ADRatio"@,
        "APRatio"@,
        "MaxHealthTADRatio"@,
        "MaxHealthTADRatioTOOLTIP"@,
        "MonsterCap"@,
        "LockTime"@,
        "ResourceDecayRate"@,
        "DamageConversionBase"@,
        "PassiveADRatioTT"@,
        "RAPCoefficient"@,
    ]
}

fn noise_names_list() -> (r: [&'static str; 10])
    ensures
        views(r@) == noise_names(),
{
    let r: [&'static str; 10] = [
        "ADRatio",
        "APRatio",
        "MaxHealthTADRatio",
        "MaxHealthTADRatioTOOLTIP",
        "MonsterCap",
        "LockTime",
        "ResourceDecayRate",
        "DamageConversionBase",
        "PassiveADRatioTT",
        "RAPCoefficient",
    ];
    assert(views(r@) =~= noise_names());
    r
}

/// Stat names of damage values.
pub open spec fn damage_labels() -> Seq<Seq<char>> {
    seq![
        "BaseDamage"@,
        "BonusDamage"@,
        "TotalDamage"@,
        "MaxHealthDamage"@,
        "MissingHealthDamage"@,
        "CurrentHealthDamage"@,
        "MinionMod"@,
        "MonsterDamage"@,
        "SingleBaseDamage"@,
        "RepeatDamageMod"@,
        "ReducedDamagePercent"@,
        "DamageAmp"@,
        "DamageStored"@,
        "EnemyMaxHealthDamage"@,
        "MinionBonusDamageMultiplier"@,
        "MinionBonusDamageThreshold"@,
        "QMinimumDamage"@,
        "FourthShotMultiplier"@,
        "PercentMissingAmp"@,
        "CraterEdgeDamageReduction"@,
    ]
}

fn damage_labels_list() -> (r: [&'static str; 20])
    ensures
        views(r@) == damage_labels(),
{
    let r: [&'static str; 20] = [
        "BaseDamage",
        "BonusDamage",
        "TotalDamage",
        "MaxHealthDamage",
        "MissingHealthDamage",
        "CurrentHealthDamage",
        "MinionMod",
        "MonsterDamage",
        "SingleBaseDamage",
        "RepeatDamageMod",
        "ReducedDamagePercent",
        "DamageAmp",
        "DamageStored",
        "EnemyMaxHealthDamage",
        "MinionBonusDamageMultiplier",
        "MinionBonusDamageThreshold",
        "QMinimumDamage",
        "FourthShotMultiplier",
        "PercentMissingAmp",
        "CraterEdgeDamageReduction",
    ];
    assert(views(r@) =~= damage_labels());
    r
}

/// Stat names of durations in seconds.
pub open spec fn duration_labels() -> Seq<Seq<char>> {
    seq![
        "StunDuration"@,
        "CharmDuration"@,
        "RootDuration"@,
        "SlowDuration"@,
        "TauntLength"@,
        "FearDuration"@,
        "KnockupDuration"@,
        "SuppressionDuration"@,
        "BlindDuration"@,
        "SilenceDuration"@,
        "GrabDuration"@,
        "LanternDuration"@,
        "ShieldDuration"@,
        "ShieldMaxDuration"@,
        "MarkerDuration"@,
        "SpottingDuration"@,
        "RevealDuration"@,
        "LockoutTimer"@,
        "EnrageDuration"@,
        "CraterDuration"@,
        "FlameDuration"@,
        "HasteDuration"@,
        "ResistDuration"@,
        "AdrenalineStorageWindow"@,
        "AdrenalineDecayLockTimer"@,
        "GreyHealthDuration"@,
        "TakedownWindow"@,
        "RecastWindow"@,
        "DelayBeforeDecay"@,
        "OutOfCombatTimeBeforeReload"@,
        "InitialDelay"@,
        "SecondaryDelay"@,
        "TrapArmTime"@,
    ]
}

fn duration_labels_list() -> (r: [&'static str; 33])
    ensures
        views(r@) == duration_labels(),
{
    let r: [&'static str; 33] = [
        "StunDuration",
        "CharmDuration",
        "RootDuration",
        "SlowDuration",
        "TauntLength",
        "FearDuration",
        "KnockupDuration",
        "SuppressionDuration",
        "BlindDuration",
        "SilenceDuration",
        "GrabDuration",
        "LanternDuration",
        "ShieldDuration",
        "ShieldMaxDuration",
        "MarkerDuration",
        "SpottingDuration",
        "RevealDuration",
        "LockoutTimer",
        "EnrageDuration",
        "CraterDuration",
        "FlameDuration",
        "HasteDuration",
        "ResistDuration",
        "AdrenalineStorageWindow",
        "AdrenalineDecayLockTimer",
        "GreyHealthDuration",
        "TakedownWindow",
        "RecastWindow",
        "DelayBeforeDecay",
        "OutOfCombatTimeBeforeReload",
        "InitialDelay",
        "SecondaryDelay",
        "TrapArmTime",
    ];
    assert(views(r@) =~= duration_labels());
    r
}

/// Stat names of movement speed values.
pub open spec fn move_speed_labels() -> Seq<Seq<char>> {
    seq![
        "MSAmount"@,
        "MSDuration"@,
        "MovementSpeed"@,
        "MovementSpeedDuration"@,
        "MoveSpeedBonus"@,
        "SelfSlowPercent"@,
    ]
}

fn move_speed_labels_list() -> (r: [&'static str; 6])
    ensures
        views(r@) == move_speed_labels(),
{
    let r: [&'static str; 6] = [
        "MSAmount",
        "MSDuration",
        "MovementSpeed",
        "MovementSpeedDuration",
        "MoveSpeedBonus",
        "SelfSlowPercent",
    ];
    assert(views(r@) =~= move_speed_labels());
    r
}

/// Stat names of shield values.
pub open spec fn shield_labels() -> Seq<Seq<char>> {
    seq![
        "BaseShieldValue"@,
        "ShieldPerSoul"@,
        "ShieldConversion"@,
        "ShieldAmount"@,
    ]
}

fn shield_labels_list() -> (r: [&'static str; 4])
    ensures
        views(r@) == shield_labels(),
{
    let r: [&'static str; 4] = [
        "BaseShieldValue",
        "ShieldPerSoul",
        "ShieldConversion",
        "ShieldAmount",
    ];
    assert(views(r@) =~= shield_labels());
    r
}

/// Stat names of healing values.
pub open spec fn heal_labels() -> Seq<Seq<char>> {
    seq![
        "HealAmount"@,
        "EnrageHealingMult"@,
    ]
}

fn heal_labels_list() -> (r: [&'static str; 2])
    ensures
        views(r@) == heal_labels(),
{
    let r: [&'static str; 2] = [
        "HealAmount",
        "EnrageHealingMult",
    ];
    assert(views(r@) =~= heal_labels());
    r
}

/// Stat names of scaling ratios.
pub open spec fn ratio_labels() -> Seq<Seq<char>> {
    seq![
        "APRatio"@,
        "ADRatio"@,
        "PassiveADRatio"@,
        "PassiveADRatioTT"@,
        "RAPCoefficient"@,
        "MaxHealthTADRatio"@,
        "MaxHealthTADRatioTOOLTIP"@,
        "PercentAttackSpeedPerLevel"@,
        "CritMoveSpeedPercentASRatio"@,
        "JabDamagePercent"@,
        "HookDamagePercentFinal"@,
        "PassiveHealthThresholdAmp"@,
        "EnrageADMult"@,
        "EnrageArmorPen"@,
        "CritReductionPercent"@,
        "FourthShotDamageMult"@,
        "DamageConversionBase"@,
        "PassiveHealthThreshold"@,
    ]
}

fn ratio_labels_list() -> (r: [&'static str; 18])
    ensures
        views(r@) == ratio_labels(),
{
    let r: [&'static str; 18] = [
        "APRatio",
        "ADRatio",
        "PassiveADRatio",
        "PassiveADRatioTT",
        "RAPCoefficient",
        "MaxHealthTADRatio",
        "MaxHealthTADRatioTOOLTIP",
        "PercentAttackSpeedPerLevel",
        "CritMoveSpeedPercentASRatio",
        "JabDamagePercent",
        "HookDamagePercentFinal",
        "PassiveHealthThresholdAmp",
        "EnrageADMult",
        "EnrageArmorPen",
        "CritReductionPercent",
        "FourthShotDamageMult",
        "DamageConversionBase",
        "PassiveHealthThreshold",
    ];
    assert(views(r@) =~= ratio_labels());
    r
}

/// Stat names of ranges and distances.
pub open spec fn range_labels() -> Seq<Seq<char>> {
    seq![
        "LeapDistance"@,
        "DashDistance"@,
        "BounceRange"@,
        "ThrowRange"@,
        "AcquisitionRange"@,
        "BonusAcquisitionRange"@,
        "OrbitRadius"@,
        "CraterRadius"@,
        "CraterSweetSpotRadius"@,
        "TrapAoERadius"@,
        "TrapTriggerRadius"@,
        "DistanceToFirstHit"@,
        "DistancePastFirstHit"@,
        "SpellRange"@,
        "RDashDistance"@,
        "RBaseDashSpeed"@,
        "RAcquisitionRange"@,
        "CarryDistancePerStack"@,
    ]
}

fn range_labels_list() -> (r: [&'static str; 18])
    ensures
        views(r@) == range_labels(),
{
    let r: [&'static str; 18] = [
        "LeapDistance",
        "DashDistance",
        "BounceRange",
        "ThrowRange",
        "AcquisitionRange",
        "BonusAcquisitionRange",
        "OrbitRadius",
        "CraterRadius",
        "CraterSweetSpotRadius",
        "TrapAoERadius",
        "TrapTriggerRadius",
        "DistanceToFirstHit",
        "DistancePastFirstHit",
        "SpellRange",
        "RDashDistance",
        "RBaseDashSpeed",
        "RAcquisitionRange",
        "CarryDistancePerStack",
    ];
    assert(views(r@) =~= range_labels());
    r
}

/// Stat names of counts.
pub open spec fn count_labels() -> Seq<Seq<char>> {
    seq![
        "NumberOfBounces"@,
        "NumHits"@,
        "StackCount"@,
        "MaxStacks"@,
        "MaxAmmo"@,
        "MaxPassiveStacks"@,
        "SoulsToGainOnPickUp"@,
        "RMaxTargetsPerCast"@,
        "RMaxCasts"@,
        "RResetCasts"@,
    ]
}

fn count_labels_list() -> (r: [&'static str; 10])
    ensures
        views(r@) == count_labels(),
{
    let r: [&'static str; 10] = [
        "NumberOfBounces",
        "NumHits",
        "StackCount",
        "MaxStacks",
        "MaxAmmo",
        "MaxPassiveStacks",
        "SoulsToGainOnPickUp",
        "RMaxTargetsPerCast",
        "RMaxCasts",
        "RResetCasts",
    ];
    assert(views(r@) =~= count_labels());
    r
}

/// Stat names of self costs.
pub open spec fn cost_labels() -> Seq<Seq<char>> {
    seq![
        "HealthCost"@,
        "BaseHealthCost"@,
    ]
}

fn cost_labels_list() -> (r: [&'static str; 2])
    ensures
        views(r@) == cost_labels(),
{
    let r: [&'static str; 2] = [
        "HealthCost",
        "BaseHealthCost",
    ];
    assert(views(r@) =~= cost_labels());
    r
}

/// A champion of the client's champion summary.
#[derive(Debug, Clone, PartialEq, Eq)]
pub struct LcuChampionSummary {
    pub id: i64,
    pub name: String,
    /// Language-independent key (e.g. "MonkeyKing").
    pub alias: Option<String>,
}

/// A summary entry is used when its id is positive and its name is not blank.
pub open spec fn valid_summary(c: LcuChampionSummary) -> bool {
    c.id > 0 && trim(c.name@).len() > 0
}

/// The catalog entries of a champion summary: the valid entries, in order, with trimmed
/// names.
pub open spec fn catalog_spec(champions: Seq<LcuChampionSummary>) -> Seq<(i64, Seq<char>)>
    decreases champions.len(),
{
    if champions.len() == 0 {
        Seq::empty()
    } else {
        let prev = catalog_spec(champions.drop_last());
        let c = champions.last();
        if valid_summary(c) {
            prev.push((c.id, trim(c.name@)))
        } else {
            prev
        }
    }
}

/// The id and name of each catalog entry.
pub open spec fn catalog_view(entries: Seq<LeagueChampionSummary>) -> Seq<(i64, Seq<char>)> {
    entries.map_values(|e: LeagueChampionSummary| (e.champion_id, e.champion_name@))
}

/// The champion catalog: valid summary entries with trimmed names, in the order given.
pub fn map_champion_catalog(champions: Vec<LcuChampionSummary>) -> (r: Vec<LeagueChampionSummary>)
    ensures
        catalog_view(r@) == catalog_spec(champions@),
{
    let mut out: Vec<LeagueChampionSummary> = Vec::new();
    let mut i: usize = 0;
    while i < champions.len()
        invariant
            i <= champions.len(),
            catalog_view(out@) == catalog_spec(champions@.subrange(0, i as int)),
        decreases champions.len() - i,
    {
        assert(champions@.subrange(0, i + 1).drop_last() =~= champions@.subrange(0, i as int));
        let c = &champions[i];
        let name = trim_str(c.name.as_str());
        if c.id > 0 && name.unicode_len() > 0 {
            let ghost before = out@;
            out.push(LeagueChampionSummary { champion_id: c.id, champion_name: name.to_owned() });
            assert(catalog_view(out@) =~= catalog_view(before).push((c.id, trim(c.name@))));
        }
        i = i + 1;
    }
    assert(champions@.subrange(0, champions.len() as int) =~= champions@);
    out
}

/// Champion names by id from a summary: valid entries with their names as given; a later
/// entry for the same id replaces an earlier one.
pub open spec fn name_map_spec(champions: Seq<LcuChampionSummary>) -> Map<i64, String>
    decreases champions.len(),
{
    if champions.len() == 0 {
        Map::empty()
    } else {
        let prev = name_map_spec(champions.drop_last());
        let c = champions.last();
        if valid_summary(c) {
            prev.insert(c.id, c.name)
        } else {
            prev
        }
    }
}

/// Champion names by id (see `name_map_spec`).
pub fn champion_name_map(champions: Vec<LcuChampionSummary>) -> (r: HashMap<i64, String>)
    ensures
        r@ == name_map_spec(champions@),
{
    let mut map: HashMap<i64, String> = HashMap::new();
    let mut i: usize = 0;
    while i < champions.len()
        invariant
            i <= champions.len(),
            map@ == name_map_spec(champions@.subrange(0, i as int)),
        decreases champions.len() - i,
    {
        assert(champions@.subrange(0, i + 1).drop_last() =~= champions@.subrange(0, i as int));
        let c = &champions[i];
        if c.id > 0 && !is_blank(c.name.as_str()) {
            map.insert(c.id, c.name.clone());
        }
        i = i + 1;
    }
    assert(champions@.subrange(0, champions.len() as int) =~= champions@);
    map
}

/// The per-rank values of a slash-separated burn string, each trimmed; none for an empty
/// string.
pub open spec fn split_burn_spec(s: Seq<char>) -> Seq<Seq<char>> {
    if s.len() == 0 {
        Seq::empty()
    } else {
        split_seq(s, '/').map_values(|p: Seq<char>| trim(p))
    }
}

/// Splits a burn string such as `"8/7/6/5/4"` into its per-rank values.
pub fn split_burn(s: &str) -> (r: Vec<String>)
    ensures
        r.deep_view() == split_burn_spec(s@),
{
    if s.unicode_len() == 0 {
        let r: Vec<String> = Vec::new();
        assert(r.deep_view() =~= split_burn_spec(s@));
        return r;
    }
    let parts = split_char(s, '/');
    let mut out: Vec<String> = Vec::new();
    let mut i: usize = 0;
    while i < parts.len()
        invariant
            i <= parts.len(),
            out.deep_view() == parts.deep_view().subrange(0, i as int).map_values(
                |p: Seq<char>| trim(p),
            ),
        decreases parts.len() - i,
    {
        assert(parts.deep_view()[i as int] == parts@[i as int]@);
        let ghost before = out.deep_view();
        out.push(trim_str(parts[i].as_str()).to_owned());
        assert(out.deep_view() =~= before.push(trim(parts@[i as int]@)));
        assert(parts.deep_view().subrange(0, i + 1).map_values(|p: Seq<char>| trim(p))
            =~= parts.deep_view().subrange(0, i as int).map_values(|p: Seq<char>| trim(p)).push(
            trim(parts@[i as int]@),
        ));
        i = i + 1;
    }
    assert(parts.deep_view().subrange(0, parts.len() as int) =~= parts.deep_view());
    out
}

/// How many ranks an ability has: 1 for the passive, 3 for the ultimate, 5 otherwise.
pub fn default_rank_count(slot: &str) -> (r: usize)
    ensures
        r == (if slot@ == "Passive"@ {
            1usize
        } else if slot@ == "R"@ {
            3usize
        } else {
            5usize
        }),
{
    if str_eq(slot, "Passive") {
        1
    } else if str_eq(slot, "R") {
        3
    } else {
        5
    }
}

/// Whether a stat is shown to the player: its name is not empty, its upper-cased form holds
/// no skipped fragment, it is not a noise name (ignoring ASCII case), and it is at least
/// five bytes long.
pub open spec fn interesting_stat(name: &str) -> bool {
    &&& name@.len() > 0
    &&& !contains_any(upper_text(name@), skip_stat_names())
    &&& !in_list_ignore_case(name@, noise_names())
    &&& name.len() >= 5
}

/// Whether a stat is shown to the player (see `interesting_stat`).
pub fn is_interesting_stat(name: &str) -> (r: bool)
    ensures
        r == interesting_stat(name),
{
    if name.unicode_len() == 0 {
        return false;
    }
    let upper = to_uppercase(name);
    let skip = skip_stat_names_list();
    if contains_any_of(upper.as_str(), skip.as_slice()) {
        return false;
    }
    let noise = noise_names_list();
    if any_eq_ignore_case(name, noise.as_slice()) {
        return false;
    }
    if name.len() < 5 {
        return false;
    }
    true
}

/// The part of a stat name before its first `*`.
pub open spec fn star_prefix(s: Seq<char>) -> Seq<char> {
    match first_index(s, '*') {
        Some(i) => s.subrange(0, i),
        None => s,
    }
}

/// A word boundary falls before position `i`: an upper-case letter after a lower-case one,
/// or the last capital of an acronym that a lower-case letter follows (see `upper_letter`
/// and `lower_letter`: on ASCII names these are the letters `A`-`Z` and `a`-`z`).
pub open spec fn camel_break(cs: Seq<char>, i: int) -> bool {
    &&& 0 < i < cs.len()
    &&& upper_letter(cs[i])
    &&& (lower_letter(cs[i - 1]) || (upper_letter(cs[i - 1]) && i + 1 < cs.len() && lower_letter(
        cs[i + 1],
    )))
}

/// The first `n` characters of `cs` with a space inserted at each word boundary.
pub open spec fn camel_prefix(cs: Seq<char>, n: int) -> Seq<char>
    decreases n,
{
    if n <= 0 {
        Seq::empty()
    } else if camel_break(cs, n - 1) {
        camel_prefix(cs, n - 1) + seq![' ', cs[n - 1]]
    } else {
        camel_prefix(cs, n - 1).push(cs[n - 1])
    }
}

/// A CamelCase stat name split into words, acronyms kept together; anything from the
/// first `*` on is dropped.
pub open spec fn split_camel(name: Seq<char>) -> Seq<char> {
    camel_prefix(star_prefix(name), star_prefix(name).len() as int)
}

/// Splits a CamelCase name into words: "ADRatioPerTick" becomes "AD Ratio Per Tick".
pub fn split_camel_case(name: &str) -> (r: String)
    ensures
        r@ == split_camel(name@),
{
    let clean = match find_char(name, '*') {
        Some(i) => {
            proof {
                lemma_first_index_bound(name@, '*');
            }
            name.substring_char(0, i)
        },
        None => name,
    };
    let ghost cs = star_prefix(name@);
    assert(clean@ == cs);
    let n = clean.unicode_len();
    let mut result = String::new();
    let mut i: usize = 0;
    while i < n
        invariant
            i <= n,
            n == cs.len(),
            clean@ == cs,
            result@ == camel_prefix(cs, i as int),
        decreases n - i,
    {
        let c = clean.get_char(i);
        if i > 0 && is_uppercase(c) {
            let prev = clean.get_char(i - 1);
            let prev_lower = is_lowercase(prev);
            let acronym_end = is_uppercase(prev) && i + 1 < n && is_lowercase(
                clean.get_char(i + 1),
            );
            if prev_lower || acronym_end {
                push_char(&mut result, ' ');
            }
        }
        push_char(&mut result, c);
        assert(result@ =~= camel_prefix(cs, i + 1));
        i = i + 1;
    }
    result
}

/// The movement-speed label: "MS " and "MovementSpeed" spelled out, "Duration" dropped,
/// trimmed.
pub open spec fn move_speed_label(split: Seq<char>) -> Seq<char> {
    trim(
        replace_seq(
            replace_seq(replace_seq(split, "MS "@, "Move Speed "@), "MovementSpeed"@, "Move Speed"@),
            "Duration"@,
            ""@,
        ),
    )
}

/// The duration label: "Duration", "Length", "Timer", "Window" and "Delay" dropped, trimmed.
pub open spec fn duration_label(split: Seq<char>) -> Seq<char> {
    trim(
        replace_seq(
            replace_seq(
                replace_seq(
                    replace_seq(replace_seq(split, "Duration"@, ""@), "Length"@, ""@),
                    "Timer"@,
                    ""@,
                ),
                "Window"@,
                ""@,
            ),
            "Delay"@,
            ""@,
        ),
    )
}

/// The display label and unit suffix of a stat name. Names of damage, shield and heal
/// values keep their split name; movement-speed names are reworded and get "%" (a percent
/// or slow), "s" (a duration or bonus) or nothing; range, count, cost and ratio names keep
/// their split name; duration names lose their time word and get "s"; other names holding
/// a percent fragment get "%"; the rest keep their split name.
pub open spec fn stat_label(name: Seq<char>) -> (Seq<char>, Seq<char>) {
    let split = split_camel(name);
    if in_list_ignore_case(name, damage_labels()) || in_list_ignore_case(name, shield_labels())
        || in_list_ignore_case(name, heal_labels()) {
        (split, Seq::empty())
    } else if in_list_ignore_case(name, move_speed_labels()) {
        let suffix = if contains_seq(name, "Percent"@) || contains_seq(name, "Slow"@) {
            "%"@
        } else if eq_ignore_case(name, "MSDuration"@) || eq_ignore_case(
            name,
            "MovementSpeedDuration"@,
        ) || contains_seq(name, "Bonus"@) {
            "s"@
        } else {
            Seq::empty()
        };
        (move_speed_label(split), suffix)
    } else if in_list_ignore_case(name, range_labels()) || in_list_ignore_case(
        name,
        count_labels(),
    ) || in_list_ignore_case(name, cost_labels()) || in_list_ignore_case(name, ratio_labels()) {
        (split, Seq::empty())
    } else if in_list_ignore_case(name, duration_labels()) {
        (duration_label(split), "s"@)
    } else if contains_any(name, percent_suffixes()) {
        (split, "%"@)
    } else {
        (split, Seq::empty())
    }
}

/// The display label and unit suffix of a stat name (see `stat_label`).
pub fn clean_stat_label(name: &str) -> (r: (String, String))
    ensures
        (r.0@, r.1@) == stat_label(name@),
{
    let split = split_camel_case(name);
    let damage = damage_labels_list();
    let shield = shield_labels_list();
    let heal = heal_labels_list();
    if any_eq_ignore_case(name, damage.as_slice()) || any_eq_ignore_case(name, shield.as_slice())
        || any_eq_ignore_case(name, heal.as_slice()) {
        return (split, String::new());
    }
    let moves = move_speed_labels_list();
    if any_eq_ignore_case(name, moves.as_slice()) {
        proof {
            reveal_strlit("MS ");
            reveal_strlit("MovementSpeed");
            reveal_strlit("Duration");
        }
        let a = replace(split.as_str(), "MS ", "Move Speed ");
        let b = replace(a.as_str(), "MovementSpeed", "Move Speed");
        let c = replace(b.as_str(), "Duration", "");
        let label = trim_str(c.as_str()).to_owned();
        if contains(name, "Percent") || contains(name, "Slow") {
            return (label, "%".to_owned());
        }
        if eq_ignore_ascii_case(name, "MSDuration") || eq_ignore_ascii_case(
            name,
            "MovementSpeedDuration",
        ) || contains(name, "Bonus") {
            return (label, "s".to_owned());
        }
        return (label, String::new());
    }
    let range = range_labels_list();
    let count = count_labels_list();
    let cost = cost_labels_list();
    let ratio = ratio_labels_list();
    if any_eq_ignore_case(name, range.as_slice()) || any_eq_ignore_case(name, count.as_slice())
        || any_eq_ignore_case(name, cost.as_slice()) || any_eq_ignore_case(name, ratio.as_slice()) {
        return (split, String::new());
    }
    let durations = duration_labels_list();
    if any_eq_ignore_case(name, durations.as_slice()) {
        proof {
            reveal_strlit("Duration");
            reveal_strlit("Length");
            reveal_strlit("Timer");
            reveal_strlit("Window");
            reveal_strlit("Delay");
        }
        let a = replace(split.as_str(), "Duration", "");
        let b = replace(a.as_str(), "Length", "");
        let c = replace(b.as_str(), "Timer", "");
        let d = replace(c.as_str(), "Window", "");
        let e = replace(d.as_str(), "Delay", "");
        let label = trim_str(e.as_str()).to_owned();
        return (label, "s".to_owned());
    }
    let percent = percent_suffixes_list();
    if contains_any_of(name, percent.as_slice()) {
        return (split, "%".to_owned());
    }
    (split, String::new())
}

/// The CommunityDragon folder of a lower-cased champion name: a few champions have folders
/// of their own; the others use the name itself.
pub open spec fn cdragon_folder(lower: Seq<char>) -> Seq<char> {
    if lower == "nunu & willump"@ {
        "nunu"@
    } else if lower == "wukong"@ {
        "monkeyking"@
    } else if lower == "renata glasc"@ {
        "renata"@
    } else if lower == "kog'maw"@ {
        "kogmaw"@
    } else if lower == "cho'gath"@ {
        "chogath"@
    } else if lower == "vel'koz"@ {
        "velkoz"@
    } else if lower == "kha'zix"@ {
        "khazix"@
    } else if lower == "rek'sai"@ {
        "reksai"@
    } else if lower == "kai'sa"@ {
        "kaisa"@
    } else {
        lower
    }
}

/// `s` with its apostrophes removed.
pub open spec fn without_apostrophes(s: Seq<char>) -> Seq<char>
    decreases s.len(),
{
    if s.len() == 0 {
        s
    } else if s.last() == '\'' {
        without_apostrophes(s.drop_last())
    } else {
        without_apostrophes(s.drop_last()).push(s.last())
    }
}

/// The CommunityDragon folder of a champion is its lower-cased name, except for the
/// champions whose folder CommunityDragon spells otherwise: for the names with an
/// apostrophe (Kog'Maw, Cho'Gath, Vel'Koz, Kha'Zix, Rek'Sai, Kai'Sa) the folder is the
/// lower-cased name without its apostrophe, made of small ASCII letters only; Nunu &
/// Willump's folder is "nunu", Wukong's "monkeyking" and Renata Glasc's "renata".
pub proof fn cdragon_folder_of_names(name: Seq<char>)
    ensures
        ({
            let lower = lower_text(name);
            let apostrophe_name = lower == "kog'maw"@ || lower == "cho'gath"@ || lower == "vel'koz"@
                || lower == "kha'zix"@ || lower == "rek'sai"@ || lower == "kai'sa"@;
            &&& apostrophe_name ==> cdragon_folder(lower) == without_apostrophes(lower)
            &&& apostrophe_name ==> forall|i: int| 0 <= i < cdragon_folder(lower).len() ==> 'a' <= #[trigger] cdragon_folder(lower)[i] <= 'z'
            &&& lower == "nunu & willump"@ ==> cdragon_folder(lower) == "nunu"@
            &&& lower == "wukong"@ ==> cdragon_folder(lower) == "monkeyking"@
            &&& lower == "renata glasc"@ ==> cdragon_folder(lower) == "renata"@
            &&& !(apostrophe_name || lower == "nunu & willump"@ || lower == "wukong"@ || lower == "renata glasc"@)
                ==> cdragon_folder(lower) == lower
        }),
{
    reveal_strlit("nunu & willump");
    reveal_strlit("wukong");
    reveal_strlit("renata glasc");
    reveal_strlit("kog'maw");
    reveal_strlit("cho'gath");
    reveal_strlit("vel'koz");
    reveal_strlit("kha'zix");
    reveal_strlit("rek'sai");
    reveal_strlit("kai'sa");
    reveal_strlit("nunu");
    reveal_strlit("monkeyking");
    reveal_strlit("renata");
    reveal_strlit("kogmaw");
    reveal_strlit("chogath");
    reveal_strlit("velkoz");
    reveal_strlit("khazix");
    reveal_strlit("reksai");
    reveal_strlit("kaisa");
    let lower = lower_text(name);
    reveal_with_fuel(without_apostrophes, 9);
    if lower == "kai'sa"@ {
        assert(without_apostrophes(lower) =~= "kaisa"@);
    }
}

/// The CommunityDragon folder name of a champion: the lower-cased name, with the special
/// cases of `cdragon_folder`.
pub fn community_dragon_name(name: &str) -> (r: String)
    ensures
        r@ == cdragon_folder(lower_text(name@)),
{
    let lower = to_lowercase(name);
    let l = lower.as_str();
    if str_eq(l, "nunu & willump") {
        "nunu".to_owned()
    } else if str_eq(l, "wukong") {
        "monkeyking".to_owned()
    } else if str_eq(l, "renata glasc") {
        "renata".to_owned()
    } else if str_eq(l, "kog'maw") {
        "kogmaw".to_owned()
    } else if str_eq(l, "cho'gath") {
        "chogath".to_owned()
    } else if str_eq(l, "vel'koz") {
        "velkoz".to_owned()
    } else if str_eq(l, "kha'zix") {
        "khazix".to_owned()
    } else if str_eq(l, "rek'sai") {
        "reksai".to_owned()
    } else if str_eq(l, "kai'sa") {
        "kaisa".to_owned()
    } else {
        lower
    }
}

/// `s` with its first character upper-cased (Unicode case mapping, which may yield several
/// characters).
pub fn capitalize_first(s: &str) -> (r: String)
    ensures
        r@ == (if s@.len() == 0 {
            Seq::empty()
        } else {
            char_to_uppercase(s@[0]) + s@.drop_first()
        }),
{
    let n = s.unicode_len();
    if n == 0 {
        return String::new();
    }
    let mut out = char_uppercase(s.get_char(0));
    let rest = s.substring_char(1, n);
    assert(rest@ =~= s@.drop_first());
    push_str(&mut out, rest);
    out
}

/// One champion spell from the Tencent champion data.
#[derive(Debug, Clone, PartialEq, Eq)]
pub struct TencentSpell {
    pub spell_key: String,
    pub name: String,
    /// Simplified Chinese description with inlined per-rank values.
    pub description: String,
    /// Slash-separated per-rank cooldowns, e.g. `"8/7/6/5/4"`.
    pub cooldown_burn: String,
    pub cost_burn: String,
    pub range_burn: String,
}

/// Tencent champion data: the champion's ids and its spells keyed by lower-cased spell key.
#[derive(Debug, Clone, PartialEq, Eq)]
pub struct TencentChampionData {
    pub hero_id: String,
    pub alias: String,
    /// `(lower-cased spell key, spell)` pairs in insertion order.
    pub spells: Vec<(String, TencentSpell)>,
}

/// The position of the last pair whose key is `key`.
pub open spec fn last_key_index(pairs: Seq<(String, TencentSpell)>, key: Seq<char>) -> Option<int>
    decreases pairs.len(),
{
    if pairs.len() == 0 {
        None
    } else if pairs.last().0@ == key {
        Some(pairs.len() - 1)
    } else {
        last_key_index(pairs.drop_last(), key)
    }
}

impl TencentSpell {
    /// A field-by-field copy.
    pub fn copy(&self) -> (r: TencentSpell)
        ensures
            r == *self,
    {
        TencentSpell {
            spell_key: self.spell_key.clone(),
            name: self.name.clone(),
            description: self.description.clone(),
            cooldown_burn: self.cooldown_burn.clone(),
            cost_burn: self.cost_burn.clone(),
            range_burn: self.range_burn.clone(),
        }
    }
}

impl TencentChampionData {
    /// The spell table as `(key, spell)` pairs in insertion order.
    pub open spec fn spell_table(self) -> Seq<(String, TencentSpell)> {
        self.spells@
    }

    /// The spell stored under `key`; a later spell with the same key replaces an earlier
    /// one.
    pub open spec fn spell_spec(self, key: Seq<char>) -> Option<TencentSpell> {
        match last_key_index(self.spell_table(), key) {
            Some(i) => Some(self.spell_table()[i].1),
            None => None,
        }
    }

    /// Champion data whose spells are keyed by their lower-cased spell keys.
    pub fn new(hero_id: String, alias: String, spells: Vec<TencentSpell>) -> (r: TencentChampionData)
        ensures
            r.hero_id == hero_id,
            r.alias == alias,
            r.spell_table().len() == spells@.len(),
            forall|i: int| 0 <= i < spells@.len() ==> (#[trigger] r.spell_table()[i]).1 == spells@[i]
                && r.spell_table()[i].0@ == lower_text(spells@[i].spell_key@),
    {
        let mut table: Vec<(String, TencentSpell)> = Vec::new();
        let mut i: usize = 0;
        while i < spells.len()
            invariant
                i <= spells.len(),
                table@.len() == i,
                forall|j: int| 0 <= j < i ==> (#[trigger] table@[j]).1 == spells@[j] && table@[j].0@
                    == lower_text(spells@[j].spell_key@),
            decreases spells.len() - i,
        {
            let key = to_lowercase(spells[i].spell_key.as_str());
            table.push((key, spells[i].copy()));
            i = i + 1;
        }
        TencentChampionData { hero_id, alias, spells: table }
    }

    /// The spell for a slot key, matched case-insensitively (the key is lower-cased; an
    /// ASCII key by its ASCII lower case, so that "Q" and "q" find the same spell).
    pub fn spell(&self, key: &str) -> (r: Option<&TencentSpell>)
        ensures
            match r {
                Some(s) => self.spell_spec(lower_text(key@)) == Some(*s),
                None => self.spell_spec(lower_text(key@)) is None,
            },
            is_ascii_text(key@) ==> match r {
                Some(s) => self.spell_spec(ascii_lower(key@)) == Some(*s),
                None => self.spell_spec(ascii_lower(key@)) is None,
            },
    {
        let lower = to_lowercase(key);
        let mut i: usize = self.spells.len();
        assert(self.spells@.subrange(0, i as int) =~= self.spells@);
        while i > 0
            invariant
                i <= self.spells@.len(),
                lower@ == lower_text(key@),
                is_ascii_text(key@) ==> lower@ == ascii_lower(key@),
                last_key_index(self.spells@, lower@) == last_key_index(
                    self.spells@.subrange(0, i as int),
                    lower@,
                ),
            decreases i,
        {
            assert(self.spells@.subrange(0, i as int).drop_last() =~= self.spells@.subrange(
                0,
                i - 1,
            ));
            if str_eq(self.spells[i - 1].0.as_str(), lower.as_str()) {
                assert(self.spells@.subrange(0, i as int).last() == self.spells@[i - 1]);
                assert(last_key_index(self.spells@.subrange(0, i as int), lower@) == Some(i - 1));
                assert(self.spell_table()[i - 1] == self.spells@[i - 1]);
                let found = &self.spells[i - 1];
                assert(self.spell_spec(lower@) == Some(found.1));
                return Some(&found.1);
            }
            i = i - 1;
        }
        None
    }
}

/// How many ranks an ability slot has: one for the passive, three for the ultimate,
/// five for the basic abilities.
pub fn ability_rank_cap(slot: &str) -> (r: usize)
    ensures
        r == (if slot@ == "Passive"@ {
            1usize
        } else if slot@ == "R"@ {
            3usize
        } else {
            5usize
        }),
{
    if str_eq(slot, "Passive") {
        1
    } else if str_eq(slot, "R") {
        3
    } else {
        5
    }
}

/// The texts shown for a champion ability.
#[derive(Debug, Clone, PartialEq, Eq)]
pub struct AbilityTexts {
    pub name: String,
    pub summary_description: String,
    pub description: String,
}

/// The plain-text summary of an ability: its dynamic description, else its description,
/// with markup removed and trimmed; "No description available" when that leaves nothing.
pub open spec fn ability_summary_spec(dynamic_description: Option<Seq<char>>, description: Option<Seq<char>>) -> Seq<char> {
    let raw = match dynamic_description {
        Some(d) => d,
        None => match description {
            Some(d) => d,
            None => Seq::empty(),
        },
    };
    match non_empty_spec(clean_text_spec(raw)) {
        Some(t) => t,
        None => "No description available"@,
    }
}

/// The texts of an ability: its name (trimmed, else the slot), the plain summary, and
/// the long description: the Tencent description when there is a non-empty one, the
/// summary when there is an empty one, and nothing without Tencent data.
pub fn champion_ability_texts(
    slot: &str,
    name: Option<String>,
    dynamic_description: Option<String>,
    description: Option<String>,
    tencent_description: Option<&str>,
) -> (r: AbilityTexts)
    ensures
        r.name@ == (match non_empty_spec(match name { Some(n) => n@, None => Seq::empty() }) {
            Some(n) => n,
            None => slot@,
        }),
        r.summary_description@ == ability_summary_spec(opt_string_view(dynamic_description), opt_string_view(description)),
        r.description@ == (match tencent_description {
            Some(t) => if t@.len() == 0 {
                ability_summary_spec(opt_string_view(dynamic_description), opt_string_view(description))
            } else {
                t@
            },
            None => Seq::<char>::empty(),
        }),
{
    let raw = match dynamic_description {
        Some(d) => d,
        None => match description {
            Some(d) => d,
            None => String::new(),
        },
    };
    let summary = match non_empty_owned(clean_game_asset_text(raw)) {
        Some(t) => t,
        None => "No description available".to_string(),
    };
    let ability_name = match name {
        Some(n) => match non_empty_owned(n) {
            Some(t) => t,
            None => slot.to_string(),
        },
        None => {
            assert(trim(Seq::<char>::empty()) =~= Seq::<char>::empty());
            slot.to_string()
        },
    };
    let long = match tencent_description {
        Some(t) => if t.unicode_len() == 0 {
            summary.clone()
        } else {
            t.to_string()
        },
        None => String::new(),
    };
    AbilityTexts { name: ability_name, summary_description: summary, description: long }
}

/// `u8::is_ascii_whitespace`: space, tab, line feed, form feed, carriage return.
pub open spec fn is_ascii_ws_byte(b: u8) -> bool {
    b == 0x20 || b == 0x09 || b == 0x0a || b == 0x0c || b == 0x0d
}

/// The first byte of `bytes` that is not ASCII white space, if any.
pub open spec fn first_non_ws_byte(bytes: Seq<u8>) -> Option<u8>
    decreases bytes.len(),
{
    if bytes.len() == 0 {
        None
    } else if is_ascii_ws_byte(bytes[0]) {
        first_non_ws_byte(bytes.drop_first())
    } else {
        Some(bytes[0])
    }
}

proof fn lemma_first_non_ws_byte(bytes: Seq<u8>, i: int)
    requires
        0 <= i <= bytes.len(),
        forall|t: int| 0 <= t < i ==> is_ascii_ws_byte(#[trigger] bytes[t]),
    ensures
        first_non_ws_byte(bytes) == first_non_ws_byte(bytes.subrange(i, bytes.len() as int)),
    decreases i,
{
    if i > 0 {
        assert(bytes.drop_first().subrange(i - 1, bytes.len() - 1) =~= bytes.subrange(i, bytes.len() as int));
        assert forall|t: int| 0 <= t < i - 1 implies is_ascii_ws_byte(#[trigger] bytes.drop_first()[t]) by {
            assert(bytes.drop_first()[t] == bytes[t + 1]);
        }
        lemma_first_non_ws_byte(bytes.drop_first(), i - 1);
    } else {
        assert(bytes.subrange(0, bytes.len() as int) =~= bytes);
    }
}

/// Whether a champion data response looks like a JSON object: its first byte that is
/// not ASCII white space is `{`.
pub fn is_json_object_response(bytes: &[u8]) -> (r: bool)
    ensures
        r == (first_non_ws_byte(bytes@) == Some(0x7bu8)),
{
    let mut i: usize = 0;
    while i < bytes.len()
        invariant
            i <= bytes.len(),
            forall|t: int| 0 <= t < i ==> is_ascii_ws_byte(#[trigger] bytes@[t]),
        decreases bytes.len() - i,
    {
        let b = bytes[i];
        if !(b == 0x20 || b == 0x09 || b == 0x0a || b == 0x0c || b == 0x0d) {
            proof {
                lemma_first_non_ws_byte(bytes@, i as int);
            }
            return b == 0x7b;
        }
        i = i + 1;
    }
    proof {
        lemma_first_non_ws_byte(bytes@, i as int);
    }
    false
}

/// Whether champion data with `alias` is accepted: always without an expected alias,
/// else when both agree without ASCII case.
pub fn tencent_alias_accepted(alias: &str, expected_alias: Option<&str>) -> (r: bool)
    ensures
        r == (match expected_alias {
            Some(e) => eq_ignore_case(alias@, e@),
            None => true,
        }),
{
    match expected_alias {
        Some(e) => eq_ignore_ascii_case(alias, e),
        None => true,
    }
}

/// The key of a spell in a champion's CommunityDragon bin file: the passive under
/// `Characters/{N}/Spells/{N}PassiveAbility/{N}Passive`, another slot `S` under
/// `Characters/{N}/Spells/{N}SAbility/{N}S`, where `N` is the capitalised folder name.
pub open spec fn bin_spell_path_spec(name: Seq<char>, slot: Seq<char>) -> Seq<char> {
    let part = if slot == "Passive"@ { "Passive"@ } else { slot };
    "Characters/"@ + name + "/Spells/"@ + name + part + "Ability/"@ + name + part
}

/// The bin-file key of a spell (see `bin_spell_path_spec`).
pub fn bin_spell_path(name: &str, slot: &str) -> (r: String)
    ensures
        r@ == bin_spell_path_spec(name@, slot@),
{
    proof {
        reveal_strlit("Passive");
    }
    let part = if str_eq(slot, "Passive") { "Passive" } else { slot };
    let mut out = concat2("Characters/", name);
    push_str(&mut out, "/Spells/");
    push_str(&mut out, name);
    push_str(&mut out, part);
    push_str(&mut out, "Ability/");
    push_str(&mut out, name);
    push_str(&mut out, part);
    out
}

/// The rank count of a bin spell: its tooltip's level count when that is positive, else
/// the slot's default.
pub fn spell_rank_count(level_count: Option<usize>, default_count: usize) -> (r: usize)
    ensures
        r == (match level_count {
            Some(n) => if n > 0 { n } else { default_count },
            None => default_count,
        }),
{
    match level_count {
        Some(n) => if n > 0 { n } else { default_count },
        None => default_count,
    }
}

/// The stat name of a direct spell property: a key `m` followed by an ASCII capital
/// names the property that follows the `m`; other keys name none.
pub open spec fn direct_value_name_spec(key: Seq<char>) -> Option<Seq<char>> {
    if key.len() >= 2 && key[0] == 'm' && 'A' <= key[1] <= 'Z' {
        Some(key.drop_first())
    } else {
        None
    }
}

/// The stat name of a direct spell property such as `mAmmoRechargeTime` (see
/// `direct_value_name_spec`).
pub fn direct_value_name(key: &str) -> (r: Option<String>)
    ensures
        opt_string_view(r) == direct_value_name_spec(key@),
{
    let n = key.unicode_len();
    if n >= 2 && key.get_char(0) == 'm' {
        let c = key.get_char(1);
        if 'A' <= c && c <= 'Z' {
            let rest = key.substring_char(1, n);
            assert(rest@ =~= key@.drop_first());
            return Some(rest.to_owned());
        }
    }
    None
}

/// Whether `name` equals one of `names`, ignoring ASCII case.
pub fn has_name_ignoring_case(names: &Vec<String>, name: &str) -> (r: bool)
    ensures
        r == exists|i: int| 0 <= i < names@.len() && eq_ignore_case(#[trigger] names@[i]@, name@),
{
    let mut i: usize = 0;
    while i < names.len()
        invariant
            i <= names.len(),
            forall|j: int| 0 <= j < i ==> !eq_ignore_case(#[trigger] names@[j]@, name@),
        decreases names.len() - i,
    {
        if eq_ignore_ascii_case(names[i].as_str(), name) {
            return true;
        }
        i = i + 1;
    }
    false
}

/// The first `n` values when there are more than `n` (and `n` is positive); all values
/// otherwise.
pub open spec fn truncate_to_rank_spec<T>(values: Seq<T>, rank_count: Option<usize>) -> Seq<T> {
    match rank_count {
        Some(n) => if n > 0 && values.len() > n {
            values.subrange(0, n as int)
        } else {
            values
        },
        None => values,
    }
}

/// Cuts coefficient values to the rank count: the client sometimes appends a value
/// beyond the last rank (see `truncate_to_rank_spec`).
pub fn truncate_to_rank<T>(values: Vec<T>, rank_count: Option<usize>) -> (r: Vec<T>)
    ensures
        r@ == truncate_to_rank_spec(values@, rank_count),
{
    let mut v = values;
    match rank_count {
        Some(n) => {
            if n > 0 && v.len() > n {
                v.truncate(n);
            }
        },
        None => {},
    }
    v
}

/// The per-rank window of a stat's values: with more values than ranks, the first value
/// (the unranked one) is skipped and the next `rank_count` are kept; otherwise all are kept.
pub open spec fn rank_window_spec<T>(values: Seq<T>, rank_count: usize) -> Seq<T> {
    if rank_count > 0 && values.len() > rank_count {
        values.subrange(1, rank_count + 1)
    } else {
        values
    }
}

/// The per-rank window of a stat's values (see `rank_window_spec`).
pub fn rank_window<T>(values: Vec<T>, rank_count: usize) -> (r: Vec<T>)
    ensures
        r@ == rank_window_spec(values@, rank_count),
{
    let mut v = values;
    if rank_count > 0 && v.len() > rank_count {
        let _first = v.remove(0);
        v.truncate(rank_count);
        assert(v@ =~= values@.subrange(1, rank_count + 1));
    }
    v
}

/// Cutting values to a rank count keeps their first values, in order: as many as there are
/// ranks when there are more values than ranks, else all of them; without a rank count (or
/// with none) nothing is cut. A stat's rank window, with more values than ranks, holds one
/// value per rank, the values after the first.
pub proof fn rank_values_keep_their_order<T>(values: Seq<T>, rank_count: usize)
    ensures
        truncate_to_rank_spec(values, Some(rank_count)).len() == (if rank_count > 0 && values.len() > rank_count {
            rank_count as int
        } else {
            values.len() as int
        }),
        forall|i: int| 0 <= i < truncate_to_rank_spec(values, Some(rank_count)).len() ==> #[trigger] truncate_to_rank_spec(
            values,
            Some(rank_count),
        )[i] == values[i],
        truncate_to_rank_spec(values, None) == values,
        rank_count > 0 && values.len() > rank_count ==> rank_window_spec(values, rank_count).len() == rank_count
            && forall|i: int| 0 <= i < rank_count ==> #[trigger] rank_window_spec(values, rank_count)[i] == values[i + 1],
        !(rank_count > 0 && values.len() > rank_count) ==> rank_window_spec(values, rank_count) == values,
{
}

/// The texts of `s` that are not blank, in order.
pub open spec fn non_blank_texts(s: Seq<Seq<char>>) -> Seq<Seq<char>>
    decreases s.len(),
{
    if s.len() == 0 {
        Seq::empty()
    } else {
        let rest = non_blank_texts(s.drop_last());
        if trim(s.last()).len() > 0 {
            rest.push(s.last())
        } else {
            rest
        }
    }
}

/// `s` without the trailing repeats of its last text: while the last two texts are equal,
/// the last is dropped.
pub open spec fn drop_trailing_repeats(s: Seq<Seq<char>>) -> Seq<Seq<char>>
    decreases s.len(),
{
    if s.len() > 1 && s.last() == s[s.len() - 2] {
        drop_trailing_repeats(s.drop_last())
    } else {
        s
    }
}

/// Display texts of a value list: the blank ones dropped, then the trailing repeats of the
/// last one ("5 / 5 / 5" shows once).
pub fn compact_display_strings(values: Vec<String>) -> (r: Vec<String>)
    ensures
        r.deep_view() == drop_trailing_repeats(non_blank_texts(values.deep_view())),
{
    let mut kept: Vec<String> = Vec::new();
    let mut i: usize = 0;
    while i < values.len()
        invariant
            i <= values.len(),
            kept.deep_view() == non_blank_texts(values.deep_view().subrange(0, i as int)),
        decreases values.len() - i,
    {
        let ghost prefix = values.deep_view().subrange(0, i + 1);
        assert(prefix.drop_last() =~= values.deep_view().subrange(0, i as int));
        assert(prefix.last() == values[i as int]@);
        if !is_blank(values[i].as_str()) {
            kept.push(values[i].clone());
            assert(kept.deep_view() =~= non_blank_texts(prefix));
        }
        i = i + 1;
    }
    assert(values.deep_view().subrange(0, values.len() as int) =~= values.deep_view());
    let ghost target = drop_trailing_repeats(non_blank_texts(values.deep_view()));
    while kept.len() > 1 && str_eq(kept[kept.len() - 1].as_str(), kept[kept.len() - 2].as_str())
        invariant
            drop_trailing_repeats(kept.deep_view()) == target,
        decreases kept.len(),
    {
        let ghost before = kept.deep_view();
        let _last = kept.pop();
        assert(kept.deep_view() =~= before.drop_last());
    }
    kept
}

/// Texts in lexicographic order of their characters' code points, a proper prefix first
/// (the order of `str` comparison, as UTF-8 keeps code-point order).
pub open spec fn text_le(a: Seq<char>, b: Seq<char>) -> bool
    decreases a.len(),
{
    if a.len() == 0 {
        true
    } else if b.len() == 0 {
        false
    } else if a[0] != b[0] {
        (a[0] as int) < (b[0] as int)
    } else {
        text_le(a.drop_first(), b.drop_first())
    }
}

proof fn lemma_text_le_total(a: Seq<char>, b: Seq<char>)
    ensures
        text_le(a, b) || text_le(b, a),
    decreases a.len(),
{
    if a.len() > 0 && b.len() > 0 {
        if a[0] == b[0] {
            lemma_text_le_total(a.drop_first(), b.drop_first());
        } else {
            assert((a[0] as int) != (b[0] as int));
        }
    }
}

proof fn lemma_text_le_antisymmetric(a: Seq<char>, b: Seq<char>)
    requires
        text_le(a, b),
        text_le(b, a),
    ensures
        a == b,
    decreases a.len(),
{
    if a.len() > 0 {
        lemma_text_le_antisymmetric(a.drop_first(), b.drop_first());
        assert(a =~= b) by {
            assert forall|i: int| 0 <= i < a.len() implies a[i] == b[i] by {
                if i > 0 {
                    assert(a[i] == a.drop_first()[i - 1]);
                    assert(b[i] == b.drop_first()[i - 1]);
                }
            }
        }
    } else {
        assert(b.len() == 0);
        assert(a =~= b);
    }
}

proof fn lemma_text_le_transitive(a: Seq<char>, b: Seq<char>, c: Seq<char>)
    requires
        text_le(a, b),
        text_le(b, c),
    ensures
        text_le(a, c),
    decreases a.len(),
{
    if a.len() > 0 && b.len() > 0 && c.len() > 0 && a[0] == b[0] && b[0] == c[0] {
        lemma_text_le_transitive(a.drop_first(), b.drop_first(), c.drop_first());
    }
}

/// The sort key of a catalog entry: its name, ASCII lower-cased.
pub open spec fn catalog_key(c: LeagueChampionSummary) -> Seq<char> {
    ascii_lower(c.champion_name@)
}

/// The catalog order: by ASCII lower-cased name, then by id.
pub open spec fn catalog_le(a: LeagueChampionSummary, b: LeagueChampionSummary) -> bool {
    &&& text_le(catalog_key(a), catalog_key(b))
    &&& catalog_key(a) == catalog_key(b) ==> a.champion_id <= b.champion_id
}

proof fn lemma_catalog_le_total(a: LeagueChampionSummary, b: LeagueChampionSummary)
    ensures
        catalog_le(a, b) || catalog_le(b, a),
{
    lemma_text_le_total(catalog_key(a), catalog_key(b));
}

proof fn lemma_catalog_le_transitive(a: LeagueChampionSummary, b: LeagueChampionSummary, c: LeagueChampionSummary)
    requires
        catalog_le(a, b),
        catalog_le(b, c),
    ensures
        catalog_le(a, c),
{
    lemma_text_le_transitive(catalog_key(a), catalog_key(b), catalog_key(c));
    if catalog_key(a) == catalog_key(c) {
        lemma_text_le_antisymmetric(catalog_key(a), catalog_key(b));
    }
}

/// Entries in catalog order.
pub open spec fn catalog_sorted(s: Seq<LeagueChampionSummary>) -> bool {
    forall|i: int, j: int| 0 <= i < j < s.len() ==> catalog_le(#[trigger] s[i], #[trigger] s[j])
}

/// Where `x` goes in `s`: before the first entry that does not come before or with it.
pub open spec fn catalog_slot(s: Seq<LeagueChampionSummary>, x: LeagueChampionSummary) -> nat
    decreases s.len(),
{
    if s.len() == 0 || !catalog_le(s[0], x) {
        0
    } else {
        1 + catalog_slot(s.drop_first(), x)
    }
}

/// Sorts entries into catalog order by insertion, keeping the order of equal entries.
pub open spec fn catalog_sort(s: Seq<LeagueChampionSummary>) -> Seq<LeagueChampionSummary>
    decreases s.len(),
{
    if s.len() == 0 {
        s
    } else {
        let sorted = catalog_sort(s.drop_last());
        sorted.insert(catalog_slot(sorted, s.last()) as int, s.last())
    }
}

proof fn lemma_catalog_slot(s: Seq<LeagueChampionSummary>, x: LeagueChampionSummary)
    ensures
        catalog_slot(s, x) <= s.len(),
        forall|i: int| 0 <= i < catalog_slot(s, x) ==> catalog_le(#[trigger] s[i], x),
        catalog_slot(s, x) < s.len() ==> !catalog_le(s[catalog_slot(s, x) as int], x),
    decreases s.len(),
{
    if s.len() > 0 && catalog_le(s[0], x) {
        lemma_catalog_slot(s.drop_first(), x);
        assert forall|i: int| 0 <= i < catalog_slot(s, x) implies catalog_le(#[trigger] s[i], x) by {
            if i > 0 {
                assert(s[i] == s.drop_first()[i - 1]);
            }
        }
    }
}

proof fn lemma_catalog_insert_sorted(s: Seq<LeagueChampionSummary>, x: LeagueChampionSummary)
    requires
        catalog_sorted(s),
    ensures
        catalog_sorted(s.insert(catalog_slot(s, x) as int, x)),
{
    lemma_catalog_slot(s, x);
    let p = catalog_slot(s, x) as int;
    let t = s.insert(p, x);
    assert forall|i: int, j: int| 0 <= i < j < t.len() implies catalog_le(#[trigger] t[i], #[trigger] t[j]) by {
        if j < p {
            assert(t[i] == s[i] && t[j] == s[j]);
        } else if j == p {
            assert(t[i] == s[i]);
        } else if i < p {
            assert(t[i] == s[i] && t[j] == s[j - 1]);
            assert(catalog_le(s[i], x));
            lemma_catalog_le_total(s[p], x);
            assert(catalog_le(x, s[p]));
            if j - 1 > p {
                lemma_catalog_le_transitive(x, s[p], s[j - 1]);
            }
            lemma_catalog_le_transitive(s[i], x, s[j - 1]);
        } else if i == p {
            assert(t[j] == s[j - 1]);
            lemma_catalog_le_total(s[p], x);
            if j - 1 > p {
                lemma_catalog_le_transitive(x, s[p], s[j - 1]);
            }
        } else {
            assert(t[i] == s[i - 1] && t[j] == s[j - 1]);
        }
    }
}

/// The catalog sort puts the entries in catalog order and keeps each of them.
pub proof fn lemma_catalog_sort(s: Seq<LeagueChampionSummary>)
    ensures
        catalog_sorted(catalog_sort(s)),
        catalog_sort(s).to_multiset() == s.to_multiset(),
    decreases s.len(),
{
    broadcast use vstd::seq_lib::to_multiset_insert, vstd::seq_lib::to_multiset_build;

    if s.len() > 0 {
        let rest = catalog_sort(s.drop_last());
        lemma_catalog_sort(s.drop_last());
        lemma_catalog_insert_sorted(rest, s.last());
        lemma_catalog_slot(rest, s.last());
        assert(s.drop_last().push(s.last()) =~= s);
    }
}

/// Whether `a` comes before `b` in lexicographic code-point order (see `text_le`).
fn text_le_exec(a: &str, b: &str) -> (r: bool)
    ensures
        r == text_le(a@, b@),
{
    let la = a.unicode_len();
    let lb = b.unicode_len();
    let mut i: usize = 0;
    assert(a@.subrange(0, la as int) =~= a@);
    assert(b@.subrange(0, lb as int) =~= b@);
    while i < la && i < lb && a.get_char(i) == b.get_char(i)
        invariant
            i <= la,
            i <= lb,
            la == a@.len(),
            lb == b@.len(),
            text_le(a@, b@) == text_le(a@.subrange(i as int, la as int), b@.subrange(i as int, lb as int)),
        decreases la - i,
    {
        assert(a@.subrange(i as int, la as int).drop_first() =~= a@.subrange(i + 1, la as int));
        assert(b@.subrange(i as int, lb as int).drop_first() =~= b@.subrange(i + 1, lb as int));
        i = i + 1;
    }
    if i == la {
        true
    } else if i == lb {
        false
    } else {
        let ca = a.get_char(i);
        let cb = b.get_char(i);
        assert((ca as u32) as int == ca as int);
        assert((cb as u32) as int == cb as int);
        (ca as u32) < (cb as u32)
    }
}

/// Whether `a` comes before or with `b` in the catalog (see `catalog_le`).
fn catalog_le_exec(a: &LeagueChampionSummary, b: &LeagueChampionSummary) -> (r: bool)
    ensures
        r == catalog_le(*a, *b),
{
    let ka = to_ascii_lowercase(a.champion_name.as_str());
    let kb = to_ascii_lowercase(b.champion_name.as_str());
    if !text_le_exec(ka.as_str(), kb.as_str()) {
        false
    } else if str_eq(ka.as_str(), kb.as_str()) {
        a.champion_id <= b.champion_id
    } else {
        true
    }
}

/// The champion catalog in display order: by name ignoring ASCII case, then by id; entries
/// that tie keep their order.
pub fn sort_champion_catalog(champions: Vec<LeagueChampionSummary>) -> (r: Vec<LeagueChampionSummary>)
    ensures
        r@ == catalog_sort(champions@),
        catalog_sorted(r@),
        r@.to_multiset() == champions@.to_multiset(),
{
    let ghost all = champions@;
    let mut input = champions;
    let mut out: Vec<LeagueChampionSummary> = Vec::new();
    let mut k: usize = 0;
    let n = input.len();
    assert(all.len() == n);
    assert(all.subrange(0, 0) =~= Seq::<LeagueChampionSummary>::empty());
    assert(all.subrange(0, all.len() as int) =~= all);
    while input.len() > 0
        invariant
            k + input@.len() == all.len(),
            all.len() <= usize::MAX,
            input@ == all.subrange(k as int, all.len() as int),
            out@ == catalog_sort(all.subrange(0, k as int)),
        decreases input.len(),
    {
        let x = input.remove(0);
        assert(input@ =~= all.subrange(k + 1, all.len() as int));
        let mut j: usize = 0;
        assert(out@.subrange(0, out@.len() as int) =~= out@);
        while j < out.len() && catalog_le_exec(&out[j], &x)
            invariant
                j <= out@.len(),
                catalog_slot(out@, x) == j + catalog_slot(out@.subrange(j as int, out@.len() as int), x),
            decreases out.len() - j,
        {
            assert(out@.subrange(j as int, out@.len() as int).drop_first() =~= out@.subrange(j + 1, out@.len() as int));
            j = j + 1;
        }
        proof {
            if j < out.len() {
                assert(out@.subrange(j as int, out@.len() as int)[0] == out@[j as int]);
            }
            assert(catalog_slot(out@, x) == j);
            assert(all.subrange(0, k + 1).drop_last() =~= all.subrange(0, k as int));
            assert(all.subrange(0, k + 1).last() == x);
        }
        out.insert(j, x);
        k = k + 1;
    }
    proof {
        lemma_catalog_sort(all);
    }
    out
}

/// The per-rank numbers of an ability: those of the Tencent burn string when there is one
/// that gives any, else the fallback (from the client's or CommunityDragon's data).
pub fn burn_values_or(burn: Option<&str>, fallback: Vec<String>) -> (r: Vec<String>)
    ensures
        r.deep_view() == (match burn {
            Some(b) => if split_burn_spec(b@).len() > 0 {
                split_burn_spec(b@)
            } else {
                fallback.deep_view()
            },
            None => fallback.deep_view(),
        }),
{
    match burn {
        Some(b) => {
            let values = split_burn(b);
            if values.len() > 0 {
                values
            } else {
                fallback
            }
        },
        None => fallback,
    }
}

} // verus!
