//! Local API paths of the League Client and the live game client, and the cleaning of
//! asset paths and texts that the client returns.

use vstd::prelude::*;
use crate::domain::LeagueGameAssetKind;
use crate::text::{
    concat2, concat3, contains, contains_seq, decimal, decimal_digits, eq_ignore_ascii_case,
    eq_ignore_case, int_to_string, push_char, push_str, replace, replace_seq, starts_with,
    starts_with_seq, trim, trim_str,
};
use vstd::string::StringSliceAdditionalSpecFns;

verus! {

/// `/lol-game-data/assets/v1/profile-icons/<id>.jpg`
pub fn profile_icon_path(profile_icon_id: i64) -> (r: String)
    ensures
        r@ == "/lol-game-data/assets/v1/profile-icons/"@ + decimal(profile_icon_id as int) + ".jpg"@,
{
    concat3("/lol-game-data/assets/v1/profile-icons/", int_to_string(profile_icon_id).as_str(), ".jpg")
}

/// `/lol-game-data/assets/v1/champion-icons/<id>.png`
pub fn champion_icon_path(champion_id: i64) -> (r: String)
    ensures
        r@ == "/lol-game-data/assets/v1/champion-icons/"@ + decimal(champion_id as int) + ".png"@,
{
    concat3("/lol-game-data/assets/v1/champion-icons/", int_to_string(champion_id).as_str(), ".png")
}

/// `/lol-champ-select/v1/session/actions/<id>`: the champion-select action to complete.
pub fn champ_select_action_path(action_id: i64) -> (r: String)
    ensures
        r@ == "/lol-champ-select/v1/session/actions/"@ + decimal(action_id as int),
{
    concat2("/lol-champ-select/v1/session/actions/", int_to_string(action_id).as_str())
}

/// `/lol-game-data/assets/v1/champions/<id>.json`
pub fn champion_details_path(champion_id: i64) -> (r: String)
    ensures
        r@ == "/lol-game-data/assets/v1/champions/"@ + decimal(champion_id as int) + ".json"@,
{
    concat3("/lol-game-data/assets/v1/champions/", int_to_string(champion_id).as_str(), ".json")
}

/// The current summoner's latest `limit` matches.
pub fn current_matches_path(limit: i64) -> (r: String)
    ensures
        r@ == "/lol-match-history/v1/products/lol/current-summoner/matches?begIndex=0&endIndex="@
            + decimal(limit as int),
{
    concat2(
        "/lol-match-history/v1/products/lol/current-summoner/matches?begIndex=0&endIndex=",
        int_to_string(limit).as_str(),
    )
}

/// The detail of one finished game.
pub fn completed_match_path(game_id: i64) -> (r: String)
    ensures
        r@ == "/lol-match-history/v1/games/"@ + decimal(game_id as int),
{
    concat2("/lol-match-history/v1/games/", int_to_string(game_id).as_str())
}

/// A player's latest `limit` matches.
pub fn puuid_matches_path(player_puuid: &str, limit: i64) -> (r: String)
    ensures
        r@ == "/lol-match-history/v1/products/lol/"@ + player_puuid@ + "/matches?begIndex=0&endIndex="@
            + decimal(limit as int),
{
    let head = concat3("/lol-match-history/v1/products/lol/", player_puuid, "/matches?begIndex=0&endIndex=");
    concat2(head.as_str(), int_to_string(limit).as_str())
}

/// The metadata file of each kind of game asset.
pub open spec fn metadata_path_spec(kind: LeagueGameAssetKind) -> Seq<char> {
    match kind {
        LeagueGameAssetKind::Item => "/lol-game-data/assets/v1/items.json"@,
        LeagueGameAssetKind::Rune => "/lol-game-data/assets/v1/perks.json"@,
        LeagueGameAssetKind::Spell => "/lol-game-data/assets/v1/summoner-spells.json"@,
    }
}

/// The metadata file of a kind of game asset.
pub fn game_asset_metadata_path(kind: LeagueGameAssetKind) -> (r: &'static str)
    ensures
        r@ == metadata_path_spec(kind),
{
    match kind {
        LeagueGameAssetKind::Item => "/lol-game-data/assets/v1/items.json",
        LeagueGameAssetKind::Rune => "/lol-game-data/assets/v1/perks.json",
        LeagueGameAssetKind::Spell => "/lol-game-data/assets/v1/summoner-spells.json",
    }
}

/// The image of an asset when its metadata names none: items and spells have a fixed
/// path by id; runes have none.
pub fn fallback_game_asset_image_path(kind: LeagueGameAssetKind, asset_id: i64) -> (r: Option<String>)
    ensures
        match kind {
            LeagueGameAssetKind::Item => r matches Some(p) && p@ == "/lol-game-data/assets/v1/items/"@
                + decimal(asset_id as int) + ".png"@,
            LeagueGameAssetKind::Rune => r is None,
            LeagueGameAssetKind::Spell => r matches Some(p) && p@
                == "/lol-game-data/assets/v1/summoner-spells/"@ + decimal(asset_id as int) + ".png"@,
        },
{
    match kind {
        LeagueGameAssetKind::Item => Some(
            concat3("/lol-game-data/assets/v1/items/", int_to_string(asset_id).as_str(), ".png"),
        ),
        LeagueGameAssetKind::Rune => None,
        LeagueGameAssetKind::Spell => Some(
            concat3(
                "/lol-game-data/assets/v1/summoner-spells/",
                int_to_string(asset_id).as_str(),
                ".png",
            ),
        ),
    }
}

/// The label of each kind of game asset.
pub fn game_asset_label(kind: LeagueGameAssetKind) -> (r: &'static str)
    ensures
        r@ == (match kind {
            LeagueGameAssetKind::Item => "Item"@,
            LeagueGameAssetKind::Rune => "Rune"@,
            LeagueGameAssetKind::Spell => "Spell"@,
        }),
{
    match kind {
        LeagueGameAssetKind::Item => "Item",
        LeagueGameAssetKind::Rune => "Rune",
        LeagueGameAssetKind::Spell => "Spell",
    }
}

/// An asset path of the client made into a local API path: trimmed, with `\` turned into
/// `/` and spaces into `%20`; refused when empty or holding `://` or `..`; paths under
/// `/lol-game-data/assets/` are kept, `lol-game-data/assets/…` gets a leading `/`, and
/// `ASSETS/…` or `assets/…` is placed under `/lol-game-data/assets/`; anything else is
/// refused.
pub open spec fn asset_path_spec(value: Seq<char>) -> Option<Seq<char>> {
    let path = replace_seq(replace_seq(trim(value), "\\"@, "/"@), " "@, "%20"@);
    if path.len() == 0 || contains_seq(path, "://"@) || contains_seq(path, ".."@) {
        None
    } else if starts_with_seq(path, "/lol-game-data/assets/"@) {
        Some(path)
    } else if starts_with_seq(path, "lol-game-data/assets/"@) {
        Some("/"@ + path)
    } else if starts_with_seq(path, "ASSETS/"@) || starts_with_seq(path, "assets/"@) {
        Some("/lol-game-data/assets/"@ + path)
    } else {
        None
    }
}

/// An asset path of the client made into a local API path (see `asset_path_spec`).
pub fn normalize_lcu_asset_path(value: &str) -> (r: Option<String>)
    ensures
        crate::text::opt_string_view(r) == asset_path_spec(value@),
{
    proof {
        reveal_strlit("\\");
        reveal_strlit(" ");
    }
    let a = replace(trim_str(value), "\\", "/");
    let path = replace(a.as_str(), " ", "%20");
    let p = path.as_str();
    if p.unicode_len() == 0 || contains(p, "://") || contains(p, "..") {
        return None;
    }
    if starts_with(p, "/lol-game-data/assets/") {
        Some(path)
    } else if starts_with(p, "lol-game-data/assets/") {
        Some(concat2("/", p))
    } else if starts_with(p, "ASSETS/") || starts_with(p, "assets/") {
        Some(concat2("/lol-game-data/assets/", p))
    } else {
        None
    }
}

/// The characters of `s` outside `<…>` markup: a `<` opens a tag and a `>` closes it,
/// neither kept.
pub open spec fn strip_tags(s: Seq<char>, n: int) -> (Seq<char>, bool)
    decreases n,
{
    if n <= 0 {
        (Seq::empty(), false)
    } else {
        let (text, inside) = strip_tags(s, n - 1);
        let c = s[n - 1];
        if c == '<' {
            (text, true)
        } else if c == '>' {
            (text, false)
        } else if !inside {
            (text.push(c), inside)
        } else {
            (text, inside)
        }
    }
}

/// A description of the client as plain text: markup removed, the entities `&nbsp;`,
/// `&amp;`, `&lt;` and `&gt;` decoded (in that order), double spaces halved, trimmed.
pub open spec fn clean_text_spec(value: Seq<char>) -> Seq<char> {
    let text = strip_tags(value, value.len() as int).0;
    trim(
        replace_seq(
            replace_seq(
                replace_seq(replace_seq(replace_seq(text, "&nbsp;"@, " "@), "&amp;"@, "&"@), "&lt;"@, "<"@),
                "&gt;"@,
                ">"@,
            ),
            "  "@,
            " "@,
        ),
    )
}

/// A description of the client as plain text (see `clean_text_spec`).
pub fn clean_game_asset_text(value: String) -> (r: String)
    ensures
        r@ == clean_text_spec(value@),
{
    let v = value.as_str();
    let n = v.unicode_len();
    let mut text = String::new();
    let mut inside_tag = false;
    let mut i: usize = 0;
    while i < n
        invariant
            i <= n,
            n == v@.len(),
            (text@, inside_tag) == strip_tags(v@, i as int),
        decreases n - i,
    {
        let c = v.get_char(i);
        if c == '<' {
            inside_tag = true;
        } else if c == '>' {
            inside_tag = false;
        } else if !inside_tag {
            push_char(&mut text, c);
        }
        i = i + 1;
    }
    proof {
        reveal_strlit("&nbsp;");
        reveal_strlit("&amp;");
        reveal_strlit("&lt;");
        reveal_strlit("&gt;");
        reveal_strlit("  ");
    }
    let a = replace(text.as_str(), "&nbsp;", " ");
    let b = replace(a.as_str(), "&amp;", "&");
    let c = replace(b.as_str(), "&lt;", "<");
    let d = replace(c.as_str(), "&gt;", ">");
    let e = replace(d.as_str(), "  ", " ");
    trim_str(e.as_str()).to_owned()
}

/// An ASCII letter or digit, `-` or `_`.
pub open spec fn path_id_char(c: char) -> bool {
    ('a' <= c <= 'z') || ('A' <= c <= 'Z') || ('0' <= c <= '9') || c == '-' || c == '_'
}

/// Whether a value may stand as one segment of a local API path: not empty, and only
/// ASCII letters and digits, `-` and `_`.
pub fn is_safe_lcu_path_id(value: &str) -> (r: bool)
    ensures
        r == (value@.len() > 0 && forall|i: int| 0 <= i < value@.len() ==> path_id_char(#[trigger] value@[i])),
{
    let n = value.unicode_len();
    if n == 0 {
        return false;
    }
    let mut i: usize = 0;
    while i < n
        invariant
            i <= n,
            n == value@.len(),
            forall|k: int| 0 <= k < i ==> path_id_char(#[trigger] value@[k]),
        decreases n - i,
    {
        let c = value.get_char(i);
        if !(('a' <= c && c <= 'z') || ('A' <= c && c <= 'Z') || ('0' <= c && c <= '9') || c == '-'
            || c == '_') {
            assert(!path_id_char(value@[i as int]));
            return false;
        }
        i = i + 1;
    }
    true
}

/// The upper-case hexadecimal digit of a value below 16.
pub open spec fn hex_digit(v: u8) -> char {
    if v < 10 {
        ((48 + v) as u8) as char
    } else {
        ((55 + v) as u8) as char
    }
}

/// A byte that stands for itself in a path segment: an ASCII letter or digit, `-`, `_`,
/// `.` or `~`.
pub open spec fn unreserved_byte(b: u8) -> bool {
    (97 <= b <= 122) || (65 <= b <= 90) || (48 <= b <= 57) || b == 45 || b == 95 || b == 46 || b
        == 126
}

/// A byte of a path segment: itself when unreserved, else `%` and two upper-case hex
/// digits.
pub open spec fn encode_byte(b: u8) -> Seq<char> {
    if unreserved_byte(b) {
        seq![b as char]
    } else {
        seq!['%', hex_digit(b / 16), hex_digit(b % 16)]
    }
}

/// The encoding of the first `n` bytes.
pub open spec fn encode_bytes(bytes: Seq<u8>, n: int) -> Seq<char>
    decreases n,
{
    if n <= 0 {
        Seq::empty()
    } else {
        encode_bytes(bytes, n - 1) + encode_byte(bytes[n - 1])
    }
}

/// The hexadecimal digit of a value below 16.
fn hex_char(v: u8) -> (r: char)
    requires
        v < 16,
    ensures
        r == hex_digit(v),
{
    if v < 10 {
        (48 + v) as char
    } else {
        (55 + v) as char
    }
}

/// A value made safe as one segment of a path: its UTF-8 bytes, each kept or
/// percent-encoded (see `encode_byte`).
pub fn percent_encode_path_value(value: &str) -> (r: String)
    ensures
        r@ == encode_bytes(value.spec_bytes(), value.spec_bytes().len() as int),
{
    let bytes = value.as_bytes();
    let mut encoded = String::new();
    let mut i: usize = 0;
    while i < bytes.len()
        invariant
            i <= bytes@.len(),
            bytes@ == value.spec_bytes(),
            encoded@ == encode_bytes(bytes@, i as int),
        decreases bytes.len() - i,
    {
        let b = bytes[i];
        if (97 <= b && b <= 122) || (65 <= b && b <= 90) || (48 <= b && b <= 57) || b == 45 || b == 95
            || b == 46 || b == 126 {
            push_char(&mut encoded, b as char);
        } else {
            push_char(&mut encoded, '%');
            push_char(&mut encoded, hex_char(b / 16));
            push_char(&mut encoded, hex_char(b % 16));
        }
        assert(encoded@ =~= encode_bytes(bytes@, i + 1));
        i = i + 1;
    }
    encoded
}

/// Whether a process is the League Client (its name compared ignoring ASCII case).
pub fn is_league_client_process(name: &str) -> (r: bool)
    ensures
        r == (eq_ignore_case(name@, "LeagueClientUx.exe"@) || eq_ignore_case(name@, "LeagueClient.exe"@)),
{
    eq_ignore_ascii_case(name, "LeagueClientUx.exe") || eq_ignore_ascii_case(name, "LeagueClient.exe")
}

/// A byte that the live client's query encoding escapes: control characters, non-ASCII
/// bytes, and ` "#<>`?{}/:@\$&+,=%`.
pub open spec fn query_escaped(b: u8) -> bool {
    b < 32 || b == 127 || b >= 128 || b == 32 || b == 34 || b == 35 || b == 60 || b == 62 || b == 96
        || b == 63 || b == 123 || b == 125 || b == 47 || b == 58 || b == 64 || b == 92 || b == 36
        || b == 38 || b == 43 || b == 44 || b == 61 || b == 37
}

/// A byte of a query value: `%` and two upper-case hex digits when escaped, else itself.
pub open spec fn query_byte(b: u8) -> Seq<char> {
    if query_escaped(b) {
        seq!['%', hex_digit(b / 16), hex_digit(b % 16)]
    } else {
        seq![b as char]
    }
}

/// The query encoding of the first `n` bytes.
pub open spec fn query_bytes(bytes: Seq<u8>, n: int) -> Seq<char>
    decreases n,
{
    if n <= 0 {
        Seq::empty()
    } else {
        query_bytes(bytes, n - 1) + query_byte(bytes[n - 1])
    }
}

/// A player name made safe as a query value of the live client (the percent-encoding of
/// its UTF-8 bytes with the escaped set of `query_escaped`).
pub fn percent_encode_query(value: &str) -> (r: String)
    ensures
        r@ == query_bytes(value.spec_bytes(), value.spec_bytes().len() as int),
{
    let bytes = value.as_bytes();
    let mut encoded = String::new();
    let mut i: usize = 0;
    while i < bytes.len()
        invariant
            i <= bytes@.len(),
            bytes@ == value.spec_bytes(),
            encoded@ == query_bytes(bytes@, i as int),
        decreases bytes.len() - i,
    {
        let b = bytes[i];
        if b < 32 || b == 127 || b >= 128 || b == 32 || b == 34 || b == 35 || b == 60 || b == 62
            || b == 96 || b == 63 || b == 123 || b == 125 || b == 47 || b == 58 || b == 64 || b == 92
            || b == 36 || b == 38 || b == 43 || b == 44 || b == 61 || b == 37 {
            push_char(&mut encoded, '%');
            push_char(&mut encoded, hex_char(b / 16));
            push_char(&mut encoded, hex_char(b % 16));
        } else {
            push_char(&mut encoded, b as char);
        }
        assert(encoded@ =~= query_bytes(bytes@, i + 1));
        i = i + 1;
    }
    encoded
}

/// A per-player path of the live client: `/liveclientdata/<endpoint>?summonerName=` and
/// the encoded name.
pub fn live_player_path(endpoint: &str, display_name: &str) -> (r: String)
    ensures
        r@ == "/liveclientdata/"@ + endpoint@ + "?summonerName="@ + query_bytes(
            display_name.spec_bytes(),
            display_name.spec_bytes().len() as int,
        ),
{
    let head = concat3("/liveclientdata/", endpoint, "?summonerName=");
    concat2(head.as_str(), percent_encode_query(display_name).as_str())
}

/// The fallback image of a game asset kind: the item or summoner-spell icon by id; runes
/// have none.
pub open spec fn fallback_image_spec(kind: LeagueGameAssetKind, asset_id: i64) -> Option<Seq<char>> {
    match kind {
        LeagueGameAssetKind::Item => Some("/lol-game-data/assets/v1/items/"@ + decimal(asset_id as int) + ".png"@),
        LeagueGameAssetKind::Rune => None,
        LeagueGameAssetKind::Spell => Some(
            "/lol-game-data/assets/v1/summoner-spells/"@ + decimal(asset_id as int) + ".png"@,
        ),
    }
}

/// The name of a game asset: its metadata name when that is not blank (trimmed), else
/// "<kind label> <id>".
pub fn game_asset_name(kind: LeagueGameAssetKind, asset_id: i64, metadata_name: Option<&str>) -> (r: String)
    ensures
        r@ == (match crate::text::opt_non_empty(crate::text::opt_view(metadata_name)) {
            Some(n) => n,
            None => (match kind {
                LeagueGameAssetKind::Item => "Item"@,
                LeagueGameAssetKind::Rune => "Rune"@,
                LeagueGameAssetKind::Spell => "Spell"@,
            }) + " "@ + decimal(asset_id as int),
        }),
{
    match crate::text::non_empty(metadata_name) {
        Some(n) => n.to_string(),
        None => concat3(game_asset_label(kind), " ", int_to_string(asset_id).as_str()),
    }
}

/// The image of a game asset: its metadata icon as a client asset path when it has one
/// (see `asset_path_spec`), else the fallback image of its kind.
pub fn game_asset_image_path(kind: LeagueGameAssetKind, asset_id: i64, icon_path: Option<&str>) -> (r: Option<String>)
    ensures
        crate::text::opt_string_view(r) == (match icon_path {
            Some(p) => match asset_path_spec(p@) {
                Some(n) => Some(n),
                None => fallback_image_spec(kind, asset_id),
            },
            None => fallback_image_spec(kind, asset_id),
        }),
{
    let normalized = match icon_path {
        Some(p) => normalize_lcu_asset_path(p),
        None => None,
    };
    match normalized {
        Some(n) => Some(n),
        None => fallback_game_asset_image_path(kind, asset_id),
    }
}

} // verus!
