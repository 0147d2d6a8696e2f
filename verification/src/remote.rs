//! Remote champion statistics: lane and tier names of the providers, checks on advisor
//! data, and the calendar arithmetic behind dated requests.

use vstd::prelude::*;
use crate::application::{ChampionHint, RankedChampionDataError};
use crate::domain::{AdvisorNamedRef, AdvisorPowerSpike, RankedChampionLane};
use crate::performance::MatchupNote;
use crate::json::{json_error_message, json_from_str, json_from_str_or_error, json_member, json_parse, JsonValue};
use crate::text::{
    is_ws, trim_end, trim_start, ascii_lower, concat2, concat3, decimal, decimal_digits, int_to_string, is_blank, nat_to_string,
    non_empty_spec, opt_string_view, push_char, push_str, split_char, split_seq, starts_with,
    starts_with_seq, str_eq, to_ascii_lowercase, trim, trim_str,
};

verus! {

/// A trimmed optional string, `None` when absent or blank.
pub fn optional_non_empty(value: Option<String>) -> (r: Option<String>)
    ensures
        opt_string_view(r) == (match value {
            Some(s) => non_empty_spec(s@),
            None => None,
        }),
{
    let value = match value {
        Some(v) => v,
        None => {
            return None;
        },
    };
    let trimmed = trim_str(value.as_str());
    if trimmed.unicode_len() == 0 {
        None
    } else {
        Some(trimmed.to_owned())
    }
}

/// The lane that a remote lane name denotes, after trimming and ASCII lower-casing;
/// common short names are accepted.
pub open spec fn remote_lane(key: Seq<char>) -> Option<RankedChampionLane> {
    if key == "top"@ {
        Some(RankedChampionLane::Top)
    } else if key == "jungle"@ || key == "jug"@ {
        Some(RankedChampionLane::Jungle)
    } else if key == "middle"@ || key == "mid"@ {
        Some(RankedChampionLane::Middle)
    } else if key == "bottom"@ || key == "bot"@ || key == "adc"@ {
        Some(RankedChampionLane::Bottom)
    } else if key == "support"@ || key == "sup"@ {
        Some(RankedChampionLane::Support)
    } else {
        None
    }
}

/// The lane of a remote lane name (see `remote_lane`).
pub fn ranked_lane_from_remote(value: &str) -> (r: Option<RankedChampionLane>)
    ensures
        r == remote_lane(ascii_lower(trim(value@))),
{
    let key = to_ascii_lowercase(trim_str(value));
    let k = key.as_str();
    if str_eq(k, "top") {
        Some(RankedChampionLane::Top)
    } else if str_eq(k, "jungle") || str_eq(k, "jug") {
        Some(RankedChampionLane::Jungle)
    } else if str_eq(k, "middle") || str_eq(k, "mid") {
        Some(RankedChampionLane::Middle)
    } else if str_eq(k, "bottom") || str_eq(k, "bot") || str_eq(k, "adc") {
        Some(RankedChampionLane::Bottom)
    } else if str_eq(k, "support") || str_eq(k, "sup") {
        Some(RankedChampionLane::Support)
    } else {
        None
    }
}

/// `r` is an invalid-data error with message `m`.
pub open spec fn invalid_with<T>(r: Result<T, RankedChampionDataError>, m: Seq<char>) -> bool {
    r matches Err(RankedChampionDataError::InvalidData(s)) && s@ == m
}

/// A named reference is valid when its id, if any, is positive and its name is not blank.
pub open spec fn valid_named_ref(r: AdvisorNamedRef) -> bool {
    (r.id matches Some(id) ==> id > 0) && trim(r.name@).len() > 0
}

/// Checks a list of advisor references: it must not be empty, and every entry must be
/// valid. The messages name the list by `label`.
pub fn validate_advisor_named_refs(refs: &[AdvisorNamedRef], label: &str) -> (r: Result<
    (),
    RankedChampionDataError,
>)
    ensures
        refs@.len() == 0 ==> invalid_with(r, "Advisor "@ + label@ + " must not be empty"@),
        (refs@.len() > 0 && (exists|i: int| 0 <= i < refs@.len() && !valid_named_ref(#[trigger] refs@[i])))
            ==> invalid_with(r, "Advisor "@ + label@ + " contains an invalid entry"@),
        r is Ok <==> refs@.len() > 0 && forall|i: int| 0 <= i < refs@.len() ==> valid_named_ref(
            #[trigger] refs@[i],
        ),
{
    if refs.len() == 0 {
        return Err(
            RankedChampionDataError::InvalidData(concat3("Advisor ", label, " must not be empty")),
        );
    }
    let mut i: usize = 0;
    while i < refs.len()
        invariant
            i <= refs.len(),
            forall|j: int| 0 <= j < i ==> valid_named_ref(#[trigger] refs@[j]),
        decreases refs.len() - i,
    {
        let bad_id = match refs[i].id {
            Some(id) => id <= 0,
            None => false,
        };
        if bad_id || is_blank(refs[i].name.as_str()) {
            assert(!valid_named_ref(refs@[i as int]));
            return Err(
                RankedChampionDataError::InvalidData(
                    concat3("Advisor ", label, " contains an invalid entry"),
                ),
            );
        }
        i = i + 1;
    }
    Ok(())
}

/// Checks a list of advisor strings: it must not be empty and hold no blank value.
pub fn validate_string_list(values: &[String], label: &str) -> (r: Result<(), RankedChampionDataError>)
    ensures
        r is Ok <==> values@.len() > 0 && forall|i: int| 0 <= i < values@.len() ==> trim(
            #[trigger] values@[i]@,
        ).len() > 0,
        r is Err ==> invalid_with(r, "Advisor "@ + label@ + " must contain non-empty values"@),
{
    let mut ok = values.len() > 0;
    let mut i: usize = 0;
    while i < values.len()
        invariant
            i <= values.len(),
            ok <==> values@.len() > 0 && forall|j: int| 0 <= j < i ==> trim(
                #[trigger] values@[j]@,
            ).len() > 0,
        decreases values.len() - i,
    {
        if is_blank(values[i].as_str()) {
            ok = false;
        }
        i = i + 1;
    }
    if !ok {
        return Err(
            RankedChampionDataError::InvalidData(
                concat3("Advisor ", label, " must contain non-empty values"),
            ),
        );
    }
    Ok(())
}

/// A power spike is valid when its timing, label and description are not blank.
pub open spec fn valid_power_spike(s: AdvisorPowerSpike) -> bool {
    trim(s.timing@).len() > 0 && trim(s.label@).len() > 0 && trim(s.description@).len() > 0
}

/// Checks the power spikes of an advisor record: at least one, and each valid.
pub fn validate_power_spikes(spikes: &[AdvisorPowerSpike]) -> (r: Result<(), RankedChampionDataError>)
    ensures
        r is Ok <==> spikes@.len() > 0 && forall|i: int| 0 <= i < spikes@.len() ==> valid_power_spike(
            #[trigger] spikes@[i],
        ),
        r is Err ==> invalid_with(r, "Advisor powerSpikes must contain non-empty values"@),
{
    let mut ok = spikes.len() > 0;
    let mut i: usize = 0;
    while i < spikes.len()
        invariant
            i <= spikes.len(),
            ok <==> spikes@.len() > 0 && forall|j: int| 0 <= j < i ==> valid_power_spike(
                #[trigger] spikes@[j],
            ),
        decreases spikes.len() - i,
    {
        let s = &spikes[i];
        if is_blank(s.timing.as_str()) || is_blank(s.label.as_str()) || is_blank(
            s.description.as_str(),
        ) {
            ok = false;
        }
        i = i + 1;
    }
    if !ok {
        return Err(
            RankedChampionDataError::InvalidData(
                "Advisor powerSpikes must contain non-empty values".to_owned(),
            ),
        );
    }
    Ok(())
}

/// The lane names of the Tencent statistics API.
pub open spec fn tencent_lane(lane: RankedChampionLane) -> Seq<char> {
    match lane {
        RankedChampionLane::Top => "top"@,
        RankedChampionLane::Jungle => "jungle"@,
        RankedChampionLane::Middle => "mid"@,
        RankedChampionLane::Bottom => "bottom"@,
        RankedChampionLane::Support => "support"@,
    }
}

/// The lane name used by the Tencent statistics API.
pub fn tencent_lane_str(lane: RankedChampionLane) -> (r: &'static str)
    ensures
        r@ == tencent_lane(lane),
{
    match lane {
        RankedChampionLane::Top => "top",
        RankedChampionLane::Jungle => "jungle",
        RankedChampionLane::Middle => "mid",
        RankedChampionLane::Bottom => "bottom",
        RankedChampionLane::Support => "support",
    }
}

/// The Tencent lane name of each lane names that lane: read back as a remote lane name
/// (after trimming and ASCII lower-casing, as `ranked_lane_from_remote` reads it), it gives
/// the same lane; it is the lane's stored name, except the middle lane, which Tencent calls
/// "mid". So no two lanes share a Tencent name.
pub proof fn tencent_lane_names_the_lane(lane: RankedChampionLane)
    ensures
        remote_lane(ascii_lower(trim(tencent_lane(lane)))) == Some(lane),
        lane != RankedChampionLane::Middle ==> tencent_lane(lane) == lane.name(),
        lane == RankedChampionLane::Middle ==> tencent_lane(lane) == "mid"@,
        forall|other: RankedChampionLane| tencent_lane(other) == tencent_lane(lane) ==> other == lane,
{
    reveal_strlit("top");
    reveal_strlit("jungle");
    reveal_strlit("mid");
    reveal_strlit("middle");
    reveal_strlit("bottom");
    reveal_strlit("support");
    reveal_strlit("jug");
    reveal_strlit("bot");
    reveal_strlit("adc");
    reveal_strlit("sup");
    let t = tencent_lane(lane);
    assert(trim_start(t.drop_first()) == trim_start(t.drop_first()));
    assert(!is_ws(t[0]));
    assert(trim_start(t) == t);
    assert(!is_ws(t.last()));
    assert(trim_end(t) == t);
    assert(ascii_lower(t) =~= t);
    crate::domain::lemma_lane_name_round_trip(lane);
}

/// The tier label of a Tencent tier filter.
pub open spec fn tencent_tier(tier: u32) -> Seq<char> {
    if tier == 0 {
        "CHALLENGER"@
    } else if tier <= 20 {
        "MASTER+"@
    } else if tier <= 40 {
        "DIAMOND+"@
    } else if tier <= 80 {
        "PLATINUM+"@
    } else if tier <= 120 {
        "GOLD+"@
    } else if tier <= 160 {
        "SILVER+"@
    } else {
        "BRONZE+"@
    }
}

/// The tier label of a Tencent tier filter (see `tencent_tier`).
pub fn tencent_tier_label(tier: u32) -> (r: &'static str)
    ensures
        r@ == tencent_tier(tier),
{
    if tier == 0 {
        "CHALLENGER"
    } else if tier <= 20 {
        "MASTER+"
    } else if tier <= 40 {
        "DIAMOND+"
    } else if tier <= 80 {
        "PLATINUM+"
    } else if tier <= 120 {
        "GOLD+"
    } else if tier <= 160 {
        "SILVER+"
    } else {
        "BRONZE+"
    }
}

/// The lane numbers of the lol.ps API.
pub open spec fn lolps_lane(lane: RankedChampionLane) -> Seq<char> {
    match lane {
        RankedChampionLane::Top => "0"@,
        RankedChampionLane::Jungle => "1"@,
        RankedChampionLane::Middle => "2"@,
        RankedChampionLane::Bottom => "3"@,
        RankedChampionLane::Support => "4"@,
    }
}

/// The lane number used by the lol.ps API.
pub fn lolps_lane_str(lane: RankedChampionLane) -> (r: &'static str)
    ensures
        r@ == lolps_lane(lane),
{
    match lane {
        RankedChampionLane::Top => "0",
        RankedChampionLane::Jungle => "1",
        RankedChampionLane::Middle => "2",
        RankedChampionLane::Bottom => "3",
        RankedChampionLane::Support => "4",
    }
}

/// The lol.ps lane number of a lane is the lane's place, counted from 0, in the order top,
/// jungle, middle, bottom, support: a single digit, different for each lane.
pub proof fn lolps_lane_numbers_follow_lane_order(lane: RankedChampionLane)
    ensures
        lolps_lane(lane).len() == 1,
        lolps_lane(lane)[0] == (match lane {
            RankedChampionLane::Top => '0',
            RankedChampionLane::Jungle => '1',
            RankedChampionLane::Middle => '2',
            RankedChampionLane::Bottom => '3',
            RankedChampionLane::Support => '4',
        }),
        forall|other: RankedChampionLane| lolps_lane(other) == lolps_lane(lane) ==> other == lane,
{
    reveal_strlit("0");
    reveal_strlit("1");
    reveal_strlit("2");
    reveal_strlit("3");
    reveal_strlit("4");
    assert forall|other: RankedChampionLane| lolps_lane(other) == lolps_lane(lane) implies other == lane by {
        assert(lolps_lane(other)[0] == lolps_lane(lane)[0]);
    }
}

/// The tier label of a lol.ps tier filter.
pub open spec fn lolps_tier(tier: u32) -> Seq<char> {
    if tier == 1 {
        "Bronze-Platinum"@
    } else if tier == 3 {
        "Master+"@
    } else if tier == 13 {
        "Diamond+"@
    } else {
        "Emerald+"@
    }
}

/// The tier label of a lol.ps tier filter (see `lolps_tier`).
pub fn lolps_tier_label(tier: u32) -> (r: &'static str)
    ensures
        r@ == lolps_tier(tier),
{
    if tier == 1 {
        "Bronze-Platinum"
    } else if tier == 3 {
        "Master+"
    } else if tier == 13 {
        "Diamond+"
    } else {
        "Emerald+"
    }
}

/// The civil (proleptic Gregorian) date of day `z` counted from 1970-01-01, by the
/// era-based conversion: `(year, month, day)`.
pub open spec fn civil_from_days(z: int) -> (int, int, int) {
    let z = z + 719468;
    let era = z / 146097;
    let doe = z - era * 146097;
    let yoe = (doe - doe / 1460 + doe / 36524 - doe / 146096) / 365;
    let y = yoe + era * 400;
    let doy = doe - (365 * yoe + yoe / 4 - yoe / 100);
    let mp = (5 * doy + 2) / 153;
    let d = doy - (153 * mp + 2) / 5 + 1;
    let m = if mp < 10 {
        mp + 3
    } else {
        mp - 9
    };
    let y = if m <= 2 {
        y + 1
    } else {
        y
    };
    (y, m, d)
}

/// The civil date of a day number (see `civil_from_days`); the month is 1 to 12 and the
/// day 1 to 31.
pub fn days_to_ymd(z: u32) -> (r: (u32, u32, u32))
    requires
        z + 719468 <= u32::MAX,
    ensures
        (r.0 as int, r.1 as int, r.2 as int) == civil_from_days(z as int),
        1 <= r.1 <= 12,
        1 <= r.2 <= 31,
{
    let z = z + 719_468;
    let era = z / 146_097;
    assert(era * 146_097 <= z) by (nonlinear_arith)
        requires
            era == z / 146_097,
    ;
    let doe = z - era * 146_097;
    assert(doe < 146_097) by (nonlinear_arith)
        requires
            era == z / 146_097,
            doe == z - era * 146_097,
    ;
    let yoe = (doe - doe / 1460 + doe / 36524 - doe / 146_096) / 365;
    assert(yoe <= 399);
    assert(yoe * 365 <= doe - doe / 1460 + doe / 36524 - doe / 146_096) by (nonlinear_arith)
        requires
            yoe == (doe - doe / 1460 + doe / 36524 - doe / 146_096) / 365,
    ;
    let y = yoe + era * 400;
    let doy = doe - (365 * yoe + yoe / 4 - yoe / 100);
    assert(doy <= 365) by (nonlinear_arith)
        requires
            yoe == (doe - doe / 1460 + doe / 36524 - doe / 146_096) / 365,
            doy == doe - (365 * yoe + yoe / 4 - yoe / 100),
            doe < 146_097,
    ;
    let mp = (5 * doy + 2) / 153;
    assert(mp <= 11);
    assert(153 * mp <= 5 * doy + 2) by (nonlinear_arith)
        requires
            mp == (5 * doy + 2) / 153,
    ;
    let d = doy - (153 * mp + 2) / 5 + 1;
    assert(d <= 31) by (nonlinear_arith)
        requires
            mp == (5 * doy + 2) / 153,
            d == doy - (153 * mp + 2) / 5 + 1,
    ;
    let m = if mp < 10 {
        mp + 3
    } else {
        mp - 9
    };
    let y = if m <= 2 {
        y + 1
    } else {
        y
    };
    (y, m, d)
}

/// `n` written with at least `width` digits, zero-padded on the left.
pub open spec fn padded(n: nat, width: nat) -> Seq<char> {
    let digits = decimal_digits(n);
    if digits.len() >= width {
        digits
    } else {
        Seq::new((width - digits.len()) as nat, |_i: int| '0') + digits
    }
}

/// Appends `n` zero-padded to `width` digits.
fn push_padded(s: &mut String, n: u32, width: usize)
    requires
        width <= 16,
    ensures
        final(s)@ == old(s)@ + padded(n as nat, width as nat),
{
    let digits = nat_to_string(n as u64);
    let len = digits.as_str().unicode_len();
    let ghost start = s@;
    if len < width {
        let mut k: usize = 0;
        while k < width - len
            invariant
                k <= width - len,
                s@ == start + Seq::new(k as nat, |_i: int| '0'),
            decreases width - len - k,
        {
            push_char(s, '0');
            assert(s@ =~= start + Seq::new((k + 1) as nat, |_i: int| '0'));
            k = k + 1;
        }
    }
    push_str(s, digits.as_str());
    assert(s@ =~= start + padded(n as nat, width as nat));
}

/// The text `yyyymmdd` of the day before the moment `secs` (seconds since the Unix epoch);
/// a moment within the first day gives the epoch's date.
pub open spec fn yesterday_text(secs: u64) -> Seq<char> {
    let day = (if secs >= 86400 {
        secs - 86400
    } else {
        0
    }) / 86400;
    let (y, m, d) = civil_from_days(day as int);
    padded(y as nat, 4) + padded(m as nat, 2) + padded(d as nat, 2)
}

/// The date `yyyymmdd` of the day before the moment `secs` (seconds since the Unix
/// epoch); a moment within the first day gives the epoch's date.
pub fn yesterday_date_from(secs: u64) -> (r: String)
    requires
        secs / 86400 <= 4_294_000_000,
    ensures
        r@ == yesterday_text(secs),
{
    let day_secs = if secs >= 86400 {
        secs - 86400
    } else {
        0
    };
    let days = day_secs / 86400;
    assert(days + 719468 <= u32::MAX);
    let (y, m, d) = days_to_ymd(days as u32);
    let mut out = String::new();
    push_padded(&mut out, y, 4);
    push_padded(&mut out, m, 2);
    push_padded(&mut out, d, 2);
    out
}

/// Seconds since the Unix epoch by the system clock; `None` when the clock is before the
/// epoch. Nothing is stated of the value: it is the current time.
#[verifier::external_body]
fn system_unix_seconds() -> (r: Option<u64>) {
    match std::time::SystemTime::now().duration_since(std::time::UNIX_EPOCH) {
        Ok(duration) => Some(duration.as_secs()),
        Err(_) => None,
    }
}

/// The decimal seconds of a clock reading, or "0" for a clock before the epoch.
pub fn timestamp_text(secs: Option<u64>) -> (r: String)
    ensures
        r@ == (match secs {
            Some(s) => decimal_digits(s as nat),
            None => seq!['0'],
        }),
{
    match secs {
        Some(s) => nat_to_string(s),
        None => {
            let mut out = String::new();
            push_char(&mut out, '0');
            out
        },
    }
}

/// The current time as decimal seconds since the Unix epoch ("0" before the epoch).
pub fn unix_timestamp_seconds() -> (r: String)
    ensures
        r@.len() > 0,
        forall|i: int| 0 <= i < r@.len() ==> '0' <= #[trigger] r@[i] <= '9',
{
    let secs = system_unix_seconds();
    let r = timestamp_text(secs);
    proof {
        if let Some(s) = secs {
            crate::text::lemma_decimal_digits_are_digits(s as nat);
        }
    }
    r
}

/// Yesterday's date `yyyymmdd` by the system clock. A clock before the epoch, or beyond
/// the range of day numbers that `days_to_ymd` takes, counts as the epoch.
pub fn yesterday_date() -> (r: String)
    ensures
        exists|secs: u64| r@ == #[trigger] yesterday_text(secs),
{
    let secs = match system_unix_seconds() {
        Some(s) => if s / 86400 <= 4_294_000_000 {
            s
        } else {
            0
        },
        None => 0,
    };
    yesterday_date_from(secs)
}

/// A matchup is valid when its champion id is positive and its name and note are not
/// blank.
pub open spec fn valid_matchup(m: MatchupNote) -> bool {
    m.champion_id > 0 && trim(m.champion_name@).len() > 0 && trim(m.note@).len() > 0
}

/// Checks the matchups of an advisor record: each must be valid (an empty list is fine).
pub fn validate_matchups(matchups: &[MatchupNote], label: &str) -> (r: Result<(), RankedChampionDataError>)
    ensures
        r is Ok <==> forall|i: int| 0 <= i < matchups@.len() ==> valid_matchup(#[trigger] matchups@[i]),
        r is Err ==> invalid_with(r, "Advisor "@ + label@ + " contains an invalid matchup"@),
{
    let mut i: usize = 0;
    while i < matchups.len()
        invariant
            i <= matchups.len(),
            forall|j: int| 0 <= j < i ==> valid_matchup(#[trigger] matchups@[j]),
        decreases matchups.len() - i,
    {
        let m = &matchups[i];
        if m.champion_id <= 0 || is_blank(m.champion_name.as_str()) || is_blank(m.note.as_str()) {
            assert(!valid_matchup(matchups@[i as int]));
            return Err(
                RankedChampionDataError::InvalidData(
                    concat3("Advisor ", label, " contains an invalid matchup"),
                ),
            );
        }
        i = i + 1;
    }
    Ok(())
}

/// The newest data version that the Korean tier list is searched for.
pub const LOLPS_MAX_VERSION: u32 = 500;

/// A binary search for the newest data version that has data: versions below `lo` are
/// known to have data, versions above `hi` are known not to, and `best` is the newest
/// version seen with data.
#[derive(Debug, Clone, Copy, PartialEq, Eq)]
pub struct VersionSearch {
    pub lo: u32,
    pub hi: u32,
    pub best: Option<u32>,
}

/// A search state is well formed: its bounds stay within the versions searched, and
/// `best` is the version just below `lo` once `lo` has moved.
pub open spec fn version_search_ok(s: VersionSearch) -> bool {
    &&& 1 <= s.lo
    &&& s.hi <= LOLPS_MAX_VERSION
    &&& s.lo <= s.hi + 1
    &&& s.best == if s.lo > 1 {
        Some((s.lo - 1) as u32)
    } else {
        None
    }
}

/// The version probed next: the middle of the bounds.
pub open spec fn version_search_mid(s: VersionSearch) -> u32 {
    (s.lo + (s.hi - s.lo) / 2) as u32
}

/// The search over all versions, before any probe.
pub fn version_search_start() -> (r: VersionSearch)
    ensures
        r == (VersionSearch { lo: 1, hi: LOLPS_MAX_VERSION, best: None }),
        version_search_ok(r),
{
    VersionSearch { lo: 1, hi: LOLPS_MAX_VERSION, best: None }
}

/// The version to probe next, or `None` when the search is over (its answer is `best`).
pub fn version_search_next(s: &VersionSearch) -> (r: Option<u32>)
    requires
        version_search_ok(*s),
    ensures
        s.lo <= s.hi ==> r == Some(version_search_mid(*s)),
        s.lo > s.hi ==> r is None,
{
    if s.lo <= s.hi {
        Some(s.lo + (s.hi - s.lo) / 2)
    } else {
        None
    }
}

/// The search after probing its middle version: with data, the versions up to it have
/// data and it is the newest seen; without, the versions from it on have none.
pub fn version_search_step(s: VersionSearch, has_data: bool) -> (r: VersionSearch)
    requires
        version_search_ok(s),
        s.lo <= s.hi,
    ensures
        version_search_ok(r),
        r.hi + 1 - r.lo < s.hi + 1 - s.lo,
        has_data ==> r == (VersionSearch {
            lo: (version_search_mid(s) + 1) as u32,
            hi: s.hi,
            best: Some(version_search_mid(s)),
        }),
        !has_data ==> r == (VersionSearch {
            lo: s.lo,
            hi: (version_search_mid(s) - 1) as u32,
            best: s.best,
        }),
{
    let mid = s.lo + (s.hi - s.lo) / 2;
    if has_data {
        VersionSearch { lo: mid + 1, hi: s.hi, best: Some(mid) }
    } else {
        VersionSearch { lo: s.lo, hi: mid - 1, best: s.best }
    }
}

/// Where the search ends when every probe of version `v` is answered with `has_data(v)`.
pub open spec fn version_search_run(s: VersionSearch, has_data: spec_fn(u32) -> bool) -> Option<u32>
    decreases s.hi + 1 - s.lo,
{
    if !version_search_ok(s) || s.lo > s.hi {
        s.best
    } else {
        let mid = version_search_mid(s);
        if has_data(mid) {
            version_search_run(VersionSearch { lo: (mid + 1) as u32, hi: s.hi, best: Some(mid) }, has_data)
        } else {
            version_search_run(VersionSearch { lo: s.lo, hi: (mid - 1) as u32, best: s.best }, has_data)
        }
    }
}

proof fn lemma_version_search_run(s: VersionSearch, has_data: spec_fn(u32) -> bool)
    requires
        version_search_ok(s),
        forall|u: u32, v: u32| 1 <= u <= v <= LOLPS_MAX_VERSION && #[trigger] has_data(v) ==> #[trigger] has_data(u),
        forall|v: u32| 1 <= v < s.lo ==> #[trigger] has_data(v),
        forall|v: u32| s.hi < v <= LOLPS_MAX_VERSION ==> !#[trigger] has_data(v),
    ensures
        match version_search_run(s, has_data) {
            Some(v) => 1 <= v <= LOLPS_MAX_VERSION && has_data(v) && forall|u: u32|
                v < u <= LOLPS_MAX_VERSION ==> !#[trigger] has_data(u),
            None => forall|u: u32| 1 <= u <= LOLPS_MAX_VERSION ==> !#[trigger] has_data(u),
        },
    decreases s.hi + 1 - s.lo,
{
    if s.lo <= s.hi {
        let mid = version_search_mid(s);
        if has_data(mid) {
            let next = VersionSearch { lo: (mid + 1) as u32, hi: s.hi, best: Some(mid) };
            assert forall|v: u32| 1 <= v < next.lo implies #[trigger] has_data(v) by {
                if v >= s.lo {
                    assert(has_data(mid));
                }
            }
            lemma_version_search_run(next, has_data);
        } else {
            let next = VersionSearch { lo: s.lo, hi: (mid - 1) as u32, best: s.best };
            assert forall|v: u32| next.hi < v <= LOLPS_MAX_VERSION implies !#[trigger] has_data(v) by {
                if v <= s.hi && has_data(v) {
                    assert(has_data(mid));
                }
            }
            lemma_version_search_run(next, has_data);
        }
    } else {
        if s.lo > 1 {
            assert(has_data((s.lo - 1) as u32));
        }
    }
}

/// When versions with data are exactly the oldest ones (every version older than one with
/// data has data too), the search ends on the newest version with data, or on none when
/// no version has data.
pub proof fn lemma_version_search_finds_newest(has_data: spec_fn(u32) -> bool)
    requires
        forall|u: u32, v: u32| 1 <= u <= v <= LOLPS_MAX_VERSION && #[trigger] has_data(v) ==> #[trigger] has_data(u),
    ensures
        match version_search_run(VersionSearch { lo: 1, hi: LOLPS_MAX_VERSION, best: None }, has_data) {
            Some(v) => 1 <= v <= LOLPS_MAX_VERSION && has_data(v) && forall|u: u32|
                v < u <= LOLPS_MAX_VERSION ==> !#[trigger] has_data(u),
            None => forall|u: u32| 1 <= u <= LOLPS_MAX_VERSION ==> !#[trigger] has_data(u),
        },
{
    lemma_version_search_run(VersionSearch { lo: 1, hi: LOLPS_MAX_VERSION, best: None }, has_data);
}

/// The address of a remote data document: the one of the request, else the provider's
/// default. Without either the address is required; one that is not `https://` is refused.
pub open spec fn remote_data_url_spec(
    input_url: Option<Seq<char>>,
    default_url: Option<Seq<char>>,
    label: Seq<char>,
) -> Result<Seq<char>, Seq<char>> {
    let chosen = match input_url {
        Some(u) => Some(u),
        None => default_url,
    };
    match chosen {
        None => Err(label + " URL is required"@),
        Some(u) => if starts_with_seq(u, "https://"@) {
            Ok(u)
        } else {
            Err(label + " URL must use HTTPS"@)
        },
    }
}

/// The address to download a remote data document from (see `remote_data_url_spec`);
/// each refusal is invalid data. `label` names the data, as in "Ranked champion data".
pub fn remote_data_url(
    input_url: Option<String>,
    default_url: Option<String>,
    label: &str,
) -> (r: Result<String, RankedChampionDataError>)
    ensures
        match remote_data_url_spec(opt_string_view(input_url), opt_string_view(default_url), label@) {
            Ok(u) => r matches Ok(v) && v@ == u,
            Err(m) => r matches Err(RankedChampionDataError::InvalidData(e)) && e@ == m,
        },
{
    let chosen = match input_url {
        Some(u) => Some(u),
        None => default_url,
    };
    match chosen {
        None => Err(RankedChampionDataError::InvalidData(concat2(label, " URL is required"))),
        Some(u) => {
            if starts_with(u.as_str(), "https://") {
                Ok(u)
            } else {
                Err(RankedChampionDataError::InvalidData(concat2(label, " URL must use HTTPS")))
            }
        },
    }
}

/// The win, pick and ban rate texts of a Tencent champion details record: its fourth,
/// fifth and sixth `_`-separated fields, when it has at least six.
pub open spec fn tencent_rate_fields_spec(details: Seq<char>) -> Option<(Seq<char>, Seq<char>, Seq<char>)> {
    let fields = split_seq(details, '_');
    if fields.len() >= 6 {
        Some((fields[3], fields[4], fields[5]))
    } else {
        None
    }
}

/// The rate texts of a Tencent champion details record (see `tencent_rate_fields_spec`).
pub fn tencent_rate_fields(details: &str) -> (r: Option<(String, String, String)>)
    ensures
        match tencent_rate_fields_spec(details@) {
            Some((w, p, b)) => r matches Some((rw, rp, rb)) && rw@ == w && rp@ == p && rb@ == b,
            None => r is None,
        },
{
    let fields = split_char(details, '_');
    if fields.len() >= 6 {
        proof {
            assert(fields.deep_view()[3] == fields@[3]@);
            assert(fields.deep_view()[4] == fields@[4]@);
            assert(fields.deep_view()[5] == fields@[5]@);
        }
        Some((fields[3].clone(), fields[4].clone(), fields[5].clone()))
    } else {
        None
    }
}

/// The position of the last hint for `id`, if any.
pub open spec fn last_hint_index(hints: Seq<ChampionHint>, id: i64) -> Option<int>
    decreases hints.len(),
{
    if hints.len() == 0 {
        None
    } else if hints.last().id == id {
        Some(hints.len() - 1)
    } else {
        last_hint_index(hints.drop_last(), id)
    }
}

/// The name of a lol.ps champion entry: its English name when not empty, else the name
/// of the last hint for its id, else "Champion {id}".
pub open spec fn lolps_champion_name_spec(name_us: Option<Seq<char>>, champion_id: i64, hints: Seq<ChampionHint>) -> Seq<char> {
    match name_us {
        Some(n) if n.len() > 0 => n,
        _ => match last_hint_index(hints, champion_id) {
            Some(i) => hints[i].name@,
            None => "Champion "@ + decimal(champion_id as int),
        },
    }
}

/// The name of a lol.ps champion entry (see `lolps_champion_name_spec`).
pub fn lolps_champion_name(name_us: Option<String>, champion_id: i64, hints: &Vec<ChampionHint>) -> (r: String)
    ensures
        r@ == lolps_champion_name_spec(opt_string_view(name_us), champion_id, hints@),
{
    let ghost name_view = opt_string_view(name_us);
    if let Some(n) = name_us {
        if n.unicode_len() > 0 {
            return n;
        }
    }
    let mut i: usize = hints.len();
    assert(hints@.subrange(0, i as int) =~= hints@);
    while i > 0
        invariant
            i <= hints.len(),
            name_view == opt_string_view(name_us),
            match name_view {
                Some(n) => n.len() == 0,
                None => true,
            },
            last_hint_index(hints@, champion_id) == last_hint_index(hints@.subrange(0, i as int), champion_id),
        decreases i,
    {
        let ghost pre = hints@.subrange(0, i as int);
        assert(pre.drop_last() =~= hints@.subrange(0, i - 1));
        if hints[i - 1].id == champion_id {
            assert(pre.last() == hints@[i - 1]);
            assert(last_hint_index(pre, champion_id) == Some(i - 1));
            let found = hints[i - 1].name.clone();
            assert(found@ == hints@[i - 1].name@);
            return found;
        }
        i = i - 1;
    }
    proof {
        assert(hints@.subrange(0, 0) =~= Seq::<ChampionHint>::empty());
    }
    concat2("Champion ", int_to_string(champion_id).as_str())
}

/// The parts of an advisor record that are checked as text and lists (its rates are
/// checked apart).
pub struct AdvisorContent {
    pub summoner_spells: Vec<AdvisorNamedRef>,
    pub item_starter: Vec<AdvisorNamedRef>,
    pub item_core: Vec<AdvisorNamedRef>,
    pub item_boots: Vec<AdvisorNamedRef>,
    pub item_late: Vec<AdvisorNamedRef>,
    pub item_situational: Vec<AdvisorNamedRef>,
    pub skill_max_order: Vec<String>,
    pub skill_early_order: Vec<String>,
    pub primary_style: String,
    pub secondary_style: String,
    pub primary_runes: Vec<AdvisorNamedRef>,
    pub secondary_runes: Vec<AdvisorNamedRef>,
    pub stat_shards: Vec<String>,
    pub strong_against: Vec<MatchupNote>,
    pub weak_against: Vec<MatchupNote>,
    pub power_spikes: Vec<AdvisorPowerSpike>,
    pub lane_advice: String,
    pub teamfight_advice: String,
}

/// The first of two findings.
pub open spec fn first_error(a: Option<Seq<char>>, b: Option<Seq<char>>) -> Option<Seq<char>> {
    if a is Some {
        a
    } else {
        b
    }
}

/// What `validate_advisor_named_refs` finds wrong with a list, if anything.
pub open spec fn refs_error(refs: Seq<AdvisorNamedRef>, label: Seq<char>) -> Option<Seq<char>> {
    if refs.len() == 0 {
        Some("Advisor "@ + label + " must not be empty"@)
    } else if exists|i: int| 0 <= i < refs.len() && !valid_named_ref(#[trigger] refs[i]) {
        Some("Advisor "@ + label + " contains an invalid entry"@)
    } else {
        None
    }
}

/// What `validate_string_list` finds wrong with a list, if anything.
pub open spec fn strings_error(values: Seq<String>, label: Seq<char>) -> Option<Seq<char>> {
    if values.len() > 0 && forall|i: int| 0 <= i < values.len() ==> trim(#[trigger] values[i]@).len() > 0 {
        None
    } else {
        Some("Advisor "@ + label + " must contain non-empty values"@)
    }
}

/// What `validate_matchups` finds wrong with a list, if anything.
pub open spec fn matchups_error(matchups: Seq<MatchupNote>, label: Seq<char>) -> Option<Seq<char>> {
    if forall|i: int| 0 <= i < matchups.len() ==> valid_matchup(#[trigger] matchups[i]) {
        None
    } else {
        Some("Advisor "@ + label + " contains an invalid matchup"@)
    }
}

/// What `validate_power_spikes` finds wrong with a list, if anything.
pub open spec fn spikes_error(spikes: Seq<AdvisorPowerSpike>) -> Option<Seq<char>> {
    if spikes.len() > 0 && forall|i: int| 0 <= i < spikes.len() ==> valid_power_spike(#[trigger] spikes[i]) {
        None
    } else {
        Some("Advisor powerSpikes must contain non-empty values"@)
    }
}

/// The first thing wrong with an advisor record's content, checked in this order: the
/// summoner spells, the five item lists, the two skill orders, the two rune styles, the
/// two rune lists, the stat shards, the strong and weak matchups, the power spikes, the
/// lane advice and the teamfight advice.
pub open spec fn advisor_content_error(c: AdvisorContent) -> Option<Seq<char>> {
    first_error(refs_error(c.summoner_spells@, "summonerSpells"@),
    first_error(refs_error(c.item_starter@, "itemBuild.starter"@),
    first_error(refs_error(c.item_core@, "itemBuild.core"@),
    first_error(refs_error(c.item_boots@, "itemBuild.boots"@),
    first_error(refs_error(c.item_late@, "itemBuild.late"@),
    first_error(refs_error(c.item_situational@, "itemBuild.situational"@),
    first_error(strings_error(c.skill_max_order@, "skillOrder.maxOrder"@),
    first_error(strings_error(c.skill_early_order@, "skillOrder.earlyOrder"@),
    first_error(if trim(c.primary_style@).len() == 0 || trim(c.secondary_style@).len() == 0 {
        Some("Advisor rune styles are required"@)
    } else {
        None
    },
    first_error(refs_error(c.primary_runes@, "runes.primaryRunes"@),
    first_error(refs_error(c.secondary_runes@, "runes.secondaryRunes"@),
    first_error(strings_error(c.stat_shards@, "runes.statShards"@),
    first_error(matchups_error(c.strong_against@, "strongAgainst"@),
    first_error(matchups_error(c.weak_against@, "weakAgainst"@),
    first_error(spikes_error(c.power_spikes@),
    first_error(if trim(c.lane_advice@).len() == 0 {
        Some("Advisor laneAdvice is required"@)
    } else {
        None
    },
    if trim(c.teamfight_advice@).len() == 0 {
        Some("Advisor teamfightAdvice is required"@)
    } else {
        None
    }))))))))))))))))
}

/// Checks an advisor record's content (see `advisor_content_error`): the first thing
/// wrong is the error; else the trimmed lane and teamfight advice.
pub fn validate_advisor_content(c: &AdvisorContent) -> (r: Result<(String, String), RankedChampionDataError>)
    ensures
        match advisor_content_error(*c) {
            Some(m) => invalid_with(r, m),
            None => r matches Ok((l, t)) && l@ == trim(c.lane_advice@) && t@ == trim(c.teamfight_advice@),
        },
{
    validate_advisor_named_refs(c.summoner_spells.as_slice(), "summonerSpells")?;
    validate_advisor_named_refs(c.item_starter.as_slice(), "itemBuild.starter")?;
    validate_advisor_named_refs(c.item_core.as_slice(), "itemBuild.core")?;
    validate_advisor_named_refs(c.item_boots.as_slice(), "itemBuild.boots")?;
    validate_advisor_named_refs(c.item_late.as_slice(), "itemBuild.late")?;
    validate_advisor_named_refs(c.item_situational.as_slice(), "itemBuild.situational")?;
    validate_string_list(c.skill_max_order.as_slice(), "skillOrder.maxOrder")?;
    validate_string_list(c.skill_early_order.as_slice(), "skillOrder.earlyOrder")?;
    if is_blank(c.primary_style.as_str()) || is_blank(c.secondary_style.as_str()) {
        return Err(RankedChampionDataError::InvalidData("Advisor rune styles are required".to_string()));
    }
    validate_advisor_named_refs(c.primary_runes.as_slice(), "runes.primaryRunes")?;
    validate_advisor_named_refs(c.secondary_runes.as_slice(), "runes.secondaryRunes")?;
    validate_string_list(c.stat_shards.as_slice(), "runes.statShards")?;
    validate_matchups(c.strong_against.as_slice(), "strongAgainst")?;
    validate_matchups(c.weak_against.as_slice(), "weakAgainst")?;
    validate_power_spikes(c.power_spikes.as_slice())?;
    let lane = trim_str(c.lane_advice.as_str());
    if lane.unicode_len() == 0 {
        return Err(RankedChampionDataError::InvalidData("Advisor laneAdvice is required".to_string()));
    }
    let teamfight = trim_str(c.teamfight_advice.as_str());
    if teamfight.unicode_len() == 0 {
        return Err(RankedChampionDataError::InvalidData("Advisor teamfightAdvice is required".to_string()));
    }
    Ok((lane.to_owned(), teamfight.to_owned()))
}

/// The `data` array of a lol.ps tier-list document, when it has one.
pub open spec fn lolps_data(doc: JsonValue) -> Option<Seq<JsonValue>> {
    match json_member(doc, "data"@) {
        Some(JsonValue::Array(items)) => Some(items@),
        _ => None,
    }
}

/// The `data` array of a lol.ps tier-list document (see `lolps_data`).
fn lolps_data_array(doc: &JsonValue) -> (r: Option<&Vec<JsonValue>>)
    ensures
        match lolps_data(*doc) {
            Some(items) => r matches Some(v) && v@ == items,
            None => r is None,
        },
{
    match doc.get("data") {
        Some(JsonValue::Array(items)) => Some(items),
        _ => None,
    }
}

/// Whether a lol.ps tier-list response has data: it is JSON whose `data` member is a
/// non-empty array.
pub open spec fn lolps_has_data(body: Seq<char>) -> bool {
    match json_parse(body) {
        Some(doc) => lolps_data(doc) matches Some(items) && items.len() > 0,
        None => false,
    }
}

/// Whether a lol.ps tier-list response has data (see `lolps_has_data`); the version search
/// probes with it.
pub fn lolps_version_has_data(body: &str) -> (r: bool)
    ensures
        r == lolps_has_data(body@),
{
    match json_from_str(body) {
        Some(doc) => match lolps_data_array(&doc) {
            Some(items) => items.len() > 0,
            None => false,
        },
        None => false,
    }
}

/// Checks a lol.ps tier-list response before its entries are read: text that is not JSON
/// is invalid data naming the parser's message; a document without a `data` array is
/// invalid data; an empty `data` array means the provider has nothing for the lane and
/// tier; else the entries can be read.
pub fn lolps_response_check(body: &str) -> (r: Result<(), RankedChampionDataError>)
    ensures
        match json_parse(body@) {
            None => invalid_with(
                r,
                "lol.ps response JSON is invalid: "@ + json_error_message(body@),
            ),
            Some(doc) => match lolps_data(doc) {
                None => invalid_with(r, "lol.ps response missing 'data' array"@),
                Some(items) => if items.len() == 0 {
                    r matches Err(RankedChampionDataError::Unavailable(m))
                        && m@ == "lol.ps returned no data for the selected lane/tier"@
                } else {
                    r is Ok
                },
            },
        },
{
    let doc = match json_from_str_or_error(body) {
        Ok(doc) => doc,
        Err(message) => {
            return Err(
                RankedChampionDataError::InvalidData(
                    concat2("lol.ps response JSON is invalid: ", message.as_str()),
                ),
            );
        },
    };
    match lolps_data_array(&doc) {
        None => Err(
            RankedChampionDataError::InvalidData("lol.ps response missing 'data' array".to_string()),
        ),
        Some(items) => if items.len() == 0 {
            Err(
                RankedChampionDataError::Unavailable(
                    "lol.ps returned no data for the selected lane/tier".to_string(),
                ),
            )
        } else {
            Ok(())
        },
    }
}

/// Checks the identity of an advisor record, in this order: a positive champion id, a
/// games count that is not negative, a champion name that is not blank, and a lane name
/// that `ranked_lane_from_remote` knows. Gives the trimmed name and the lane.
pub fn validate_advisor_identity(champion_id: i64, games: i64, champion_name: &str, lane: &str) -> (r: Result<
    (String, RankedChampionLane),
    RankedChampionDataError,
>)
    ensures
        champion_id <= 0 ==> invalid_with(r, "Advisor champion id must be positive"@),
        champion_id > 0 && games < 0 ==> invalid_with(r, "Advisor champion games must not be negative"@),
        champion_id > 0 && games >= 0 && trim(champion_name@).len() == 0 ==> invalid_with(
            r,
            "Advisor champion name is required"@,
        ),
        champion_id > 0 && games >= 0 && trim(champion_name@).len() > 0 ==> match remote_lane(
            ascii_lower(trim(lane@)),
        ) {
            None => invalid_with(r, "Advisor lane is invalid: "@ + lane@),
            Some(l) => r matches Ok((name, rl)) && name@ == trim(champion_name@) && rl == l,
        },
{
    if champion_id <= 0 {
        return Err(RankedChampionDataError::InvalidData("Advisor champion id must be positive".to_string()));
    }
    if games < 0 {
        return Err(
            RankedChampionDataError::InvalidData("Advisor champion games must not be negative".to_string()),
        );
    }
    let name = trim_str(champion_name);
    if name.unicode_len() == 0 {
        return Err(RankedChampionDataError::InvalidData("Advisor champion name is required".to_string()));
    }
    match ranked_lane_from_remote(lane) {
        Some(l) => Ok((name.to_owned(), l)),
        None => Err(RankedChampionDataError::InvalidData(concat2("Advisor lane is invalid: ", lane))),
    }
}

} // verus!
