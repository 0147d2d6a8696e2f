//! Rune recommendations: rune trees of perks, the two trees of a page, the perk lists of
//! the Tencent guide data, and the order in which recommendations are offered.

use vstd::prelude::*;
use crate::domain::{RankedChampionLane, RunePage, RuneRecommendation};
use crate::json::{json_str, 
    json_from_str, json_i64, json_member, json_member_str, json_object_values, json_parse, JsonValue,
};
use crate::text::{
    find_char, first_index, lemma_first_index_bound, parse_i64, parse_signed, split_char,
    opt_string_view, split_seq, str_eq, lower_text, to_lowercase, trim, trim_str,
};

verus! {

/// Perks of the Precision tree.
pub open spec fn precision_perks() -> Seq<i64> {
    seq![8005, 8008, 8021, 8010, 9101, 9111, 8009, 9104, 9105, 9103, 8014, 8017, 8299, 8306]
}

/// Perks of the Domination tree.
pub open spec fn domination_perks() -> Seq<i64> {
    seq![8112, 8124, 8128, 9923, 8126, 8139, 8143, 8136, 8120, 8138, 8135, 8134, 8105, 8106]
}

/// Perks of the Sorcery tree.
pub open spec fn sorcery_perks() -> Seq<i64> {
    seq![8214, 8229, 8230, 8224, 8226, 8275, 8210, 8234, 8233, 8237, 8232, 8236]
}

/// Perks of the Inspiration tree.
pub open spec fn inspiration_perks() -> Seq<i64> {
    seq![8351, 8360, 8369, 8306, 8304, 8313, 8321, 8316, 8345, 8347, 8410, 8352, 8303]
}

/// Perks of the Resolve tree.
pub open spec fn resolve_perks() -> Seq<i64> {
    seq![8437, 8439, 8465, 8446, 8463, 8401, 8429, 8444, 8473, 8451, 8453, 8242]
}

/// The tree (style id) of a perk; trees are tried in the order Precision, Domination,
/// Sorcery, Inspiration, Resolve. Stat shards and unknown perks have none.
pub open spec fn rune_style(perk_id: i64) -> Option<i64> {
    if precision_perks().contains(perk_id) {
        Some(8000)
    } else if domination_perks().contains(perk_id) {
        Some(8100)
    } else if sorcery_perks().contains(perk_id) {
        Some(8200)
    } else if inspiration_perks().contains(perk_id) {
        Some(8300)
    } else if resolve_perks().contains(perk_id) {
        Some(8400)
    } else {
        None
    }
}

/// Whether `x` occurs in `list`.
fn contains_id(list: &[i64], x: i64) -> (r: bool)
    ensures
        r == list@.contains(x),
{
    let mut i: usize = 0;
    while i < list.len()
        invariant
            i <= list.len(),
            forall|j: int| 0 <= j < i ==> list@[j] != x,
        decreases list.len() - i,
    {
        if list[i] == x {
            assert(list@[i as int] == x);
            return true;
        }
        i = i + 1;
    }
    false
}

proof fn lemma_precision_members(id: i64)
    ensures
        precision_perks().contains(id) <==> (id == 8005 || id == 8008 || id == 8021 || id == 8010 || id == 9101 || id == 9111 || id == 8009 || id == 9104 || id == 9105 || id == 9103 || id == 8014 || id == 8017 || id == 8299 || id == 8306),
{
    let p = precision_perks();
    if p.contains(id) {
        let i = choose|i: int| 0 <= i < p.len() && p[i] == id;
        assert(0 <= i < p.len());
    } else {
        assert(p[0] == 8005);
    }
}

proof fn lemma_domination_members(id: i64)
    ensures
        domination_perks().contains(id) <==> (id == 8112 || id == 8124 || id == 8128 || id == 9923 || id == 8126 || id == 8139 || id == 8143 || id == 8136 || id == 8120 || id == 8138 || id == 8135 || id == 8134 || id == 8105 || id == 8106),
{
    let p = domination_perks();
    if p.contains(id) {
        let i = choose|i: int| 0 <= i < p.len() && p[i] == id;
        assert(0 <= i < p.len());
    } else {
        assert(p[0] == 8112);
    }
}

proof fn lemma_sorcery_members(id: i64)
    ensures
        sorcery_perks().contains(id) <==> (id == 8214 || id == 8229 || id == 8230 || id == 8224 || id == 8226 || id == 8275 || id == 8210 || id == 8234 || id == 8233 || id == 8237 || id == 8232 || id == 8236),
{
    let p = sorcery_perks();
    if p.contains(id) {
        let i = choose|i: int| 0 <= i < p.len() && p[i] == id;
        assert(0 <= i < p.len());
    } else {
        assert(p[0] == 8214);
    }
}

proof fn lemma_inspiration_members(id: i64)
    ensures
        inspiration_perks().contains(id) <==> (id == 8351 || id == 8360 || id == 8369 || id == 8306 || id == 8304 || id == 8313 || id == 8321 || id == 8316 || id == 8345 || id == 8347 || id == 8410 || id == 8352 || id == 8303),
{
    let p = inspiration_perks();
    if p.contains(id) {
        let i = choose|i: int| 0 <= i < p.len() && p[i] == id;
        assert(0 <= i < p.len());
    } else {
        assert(p[0] == 8351);
    }
}

proof fn lemma_resolve_members(id: i64)
    ensures
        resolve_perks().contains(id) <==> (id == 8437 || id == 8439 || id == 8465 || id == 8446 || id == 8463 || id == 8401 || id == 8429 || id == 8444 || id == 8473 || id == 8451 || id == 8453 || id == 8242),
{
    let p = resolve_perks();
    if p.contains(id) {
        let i = choose|i: int| 0 <= i < p.len() && p[i] == id;
        assert(0 <= i < p.len());
    } else {
        assert(p[0] == 8437);
    }
}

/// Each perk belongs to its own rune tree. Precision (8000): Press the Attack 8005, Lethal
/// Tempo 8008 and 8306, Fleet Footwork 8021, Conqueror 8010, Absorb Life 9101, Triumph
/// 9111, Presence of Mind 8009, the Legend runes 9104, 9105, 9103, Coup de Grace 8014, Cut
/// Down 8017, Last Stand 8299. Domination (8100), Sorcery (8200), Inspiration (8300) and
/// Resolve (8400) likewise, each perk under its own tree; stat shards (5001 to 5013) have no
/// tree.
pub proof fn rune_trees_of_perks(id: i64)
    ensures
        (id == 8005 || id == 8008 || id == 8021 || id == 8010 || id == 9101 || id == 9111 || id == 8009 || id == 9104 || id == 9105 || id == 9103 || id == 8014 || id == 8017 || id == 8299 || id == 8306) ==> rune_style(id) == Some(8000i64),
        (id == 8112 || id == 8124 || id == 8128 || id == 9923 || id == 8126 || id == 8139 || id == 8143 || id == 8136 || id == 8120 || id == 8138 || id == 8135 || id == 8134 || id == 8105 || id == 8106) ==> rune_style(id) == Some(8100i64),
        (id == 8214 || id == 8229 || id == 8230 || id == 8224 || id == 8226 || id == 8275 || id == 8210 || id == 8234 || id == 8233 || id == 8237 || id == 8232 || id == 8236) ==> rune_style(id) == Some(8200i64),
        (id == 8351 || id == 8360 || id == 8369 || id == 8304 || id == 8313 || id == 8321 || id == 8316 || id == 8345 || id == 8347 || id == 8410 || id == 8352 || id == 8303) ==> rune_style(id) == Some(8300i64),
        (id == 8437 || id == 8439 || id == 8465 || id == 8446 || id == 8463 || id == 8401 || id == 8429 || id == 8444 || id == 8473 || id == 8451 || id == 8453 || id == 8242) ==> rune_style(id) == Some(8400i64),
        5001 <= id <= 5013 ==> rune_style(id) is None,
{
    lemma_precision_members(id);
    lemma_domination_members(id);
    lemma_sorcery_members(id);
    lemma_inspiration_members(id);
    lemma_resolve_members(id);
}

/// The tree of a perk (see `rune_style`).
pub fn rune_style_id(perk_id: i64) -> (r: Option<i64>)
    ensures
        r == rune_style(perk_id),
{
    let precision: [i64; 14] = [
        8005, 8008, 8021, 8010, 9101, 9111, 8009, 9104, 9105, 9103, 8014, 8017, 8299, 8306,
    ];
    let domination: [i64; 14] = [
        8112, 8124, 8128, 9923, 8126, 8139, 8143, 8136, 8120, 8138, 8135, 8134, 8105, 8106,
    ];
    let sorcery: [i64; 12] = [
        8214, 8229, 8230, 8224, 8226, 8275, 8210, 8234, 8233, 8237, 8232, 8236,
    ];
    let inspiration: [i64; 13] = [
        8351, 8360, 8369, 8306, 8304, 8313, 8321, 8316, 8345, 8347, 8410, 8352, 8303,
    ];
    let resolve: [i64; 12] = [
        8437, 8439, 8465, 8446, 8463, 8401, 8429, 8444, 8473, 8451, 8453, 8242,
    ];
    assert(precision@ =~= precision_perks());
    assert(domination@ =~= domination_perks());
    assert(sorcery@ =~= sorcery_perks());
    assert(inspiration@ =~= inspiration_perks());
    assert(resolve@ =~= resolve_perks());
    if contains_id(precision.as_slice(), perk_id) {
        return Some(8000);
    }
    if contains_id(domination.as_slice(), perk_id) {
        return Some(8100);
    }
    if contains_id(sorcery.as_slice(), perk_id) {
        return Some(8200);
    }
    if contains_id(inspiration.as_slice(), perk_id) {
        return Some(8300);
    }
    if contains_id(resolve.as_slice(), perk_id) {
        return Some(8400);
    }
    None
}

/// The trees seen in the first `n` perks: the tree of the first perk that has one, and
/// the first tree after it that differs from it. The scan stops once both are known.
pub open spec fn style_scan(perks: Seq<i64>, n: int) -> (Option<i64>, Option<i64>)
    decreases n,
{
    if n <= 0 {
        (None, None)
    } else {
        let (p, s) = style_scan(perks, n - 1);
        if s is Some {
            (p, s)
        } else {
            match rune_style(perks[n - 1]) {
                None => (p, s),
                Some(st) => if p is None {
                    (Some(st), None)
                } else if Some(st) != p {
                    (p, Some(st))
                } else {
                    (p, s)
                },
            }
        }
    }
}

/// The primary and secondary trees of a page's perks, when both are found.
pub open spec fn derive_styles(perks: Seq<i64>) -> Option<(i64, i64)> {
    match style_scan(perks, perks.len() as int) {
        (Some(p), Some(s)) => Some((p, s)),
        _ => None,
    }
}

/// The primary and secondary trees of a page's perks (see `derive_styles`).
pub fn derive_style_ids(perk_ids: &[i64]) -> (r: Option<(i64, i64)>)
    ensures
        r == derive_styles(perk_ids@),
        r matches Some((p, s)) ==> p != s,
{
    let mut primary: Option<i64> = None;
    let mut secondary: Option<i64> = None;
    let mut i: usize = 0;
    while i < perk_ids.len() && secondary.is_none()
        invariant
            i <= perk_ids.len(),
            (primary, secondary) == style_scan(perk_ids@, i as int),
            secondary matches Some(s) ==> primary matches Some(p) && p != s,
            secondary is Some ==> style_scan(perk_ids@, perk_ids@.len() as int) == (
                primary,
                secondary,
            ),
        decreases perk_ids.len() - i,
    {
        match rune_style_id(perk_ids[i]) {
            None => {},
            Some(style) => {
                if primary.is_none() {
                    primary = Some(style);
                } else if Some(style) != primary {
                    secondary = Some(style);
                    proof {
                        lemma_style_scan_settled(perk_ids@, i as int + 1);
                    }
                }
            },
        }
        i = i + 1;
    }
    proof {
        if secondary is None {
            assert(i == perk_ids.len());
        }
    }
    match (primary, secondary) {
        (Some(p), Some(s)) => Some((p, s)),
        _ => None,
    }
}

/// The first tree of a page starts at `i`, and its second at `j`.
pub open spec fn trees_at(perks: Seq<i64>, i: int, j: int, p: i64, s: i64) -> bool {
    &&& 0 <= i < j < perks.len()
    &&& rune_style(perks[i]) == Some(p)
    &&& rune_style(perks[j]) == Some(s)
    &&& p != s
    &&& forall|k: int| 0 <= k < i ==> rune_style(#[trigger] perks[k]) is None
    &&& forall|k: int| i < k < j ==> rune_style(#[trigger] perks[k]) is None || rune_style(perks[k]) == Some(p)
}

proof fn lemma_style_scan_meaning(perks: Seq<i64>, n: int)
    requires
        0 <= n <= perks.len(),
    ensures
        match style_scan(perks, n) {
            (None, None) => forall|k: int| 0 <= k < n ==> rune_style(#[trigger] perks[k]) is None,
            (Some(p), None) => (forall|k: int| 0 <= k < n ==> rune_style(#[trigger] perks[k]) is None
                || rune_style(perks[k]) == Some(p)) && exists|i: int| 0 <= i < n && rune_style(#[trigger] perks[i]) == Some(p)
                && forall|k: int| 0 <= k < i ==> rune_style(#[trigger] perks[k]) is None,
            (Some(p), Some(s)) => exists|i: int, j: int| j < n && #[trigger] trees_at(perks, i, j, p, s),
            (None, Some(_)) => false,
        },
    decreases n,
{
    if n > 0 {
        lemma_style_scan_meaning(perks, n - 1);
        let (p0, s0) = style_scan(perks, n - 1);
        if s0 is None {
            match rune_style(perks[n - 1]) {
                None => {},
                Some(st) => {
                    if p0 is None {
                        assert(rune_style(perks[n - 1]) == Some(st));
                    } else if Some(st) != p0 {
                        let p = p0->0;
                        let i = choose|i: int| 0 <= i < n - 1 && rune_style(#[trigger] perks[i]) == Some(p)
                            && forall|k: int| 0 <= k < i ==> rune_style(#[trigger] perks[k]) is None;
                        assert(trees_at(perks, i, n - 1, p, st));
                    }
                },
            }
        }
    }
}

/// A page's primary tree is the tree of its first perk that has one, and its secondary
/// tree the tree of the first later perk whose tree differs (the perks between belong to
/// the primary tree or to none). Whenever the perks come from two trees, both are found.
pub proof fn page_trees_from_perks(perks: Seq<i64>)
    ensures
        derive_styles(perks) matches Some((p, s)) ==> exists|i: int, j: int| #[trigger] trees_at(perks, i, j, p, s),
        (exists|a: int, b: int|
            0 <= a < perks.len() && 0 <= b < perks.len() && rune_style(#[trigger] perks[a]) is Some
                && rune_style(#[trigger] perks[b]) is Some && rune_style(perks[a]) != rune_style(perks[b]))
            ==> derive_styles(perks) is Some,
{
    lemma_style_scan_meaning(perks, perks.len() as int);
    match derive_styles(perks) {
        Some((p, s)) => {
            assert(style_scan(perks, perks.len() as int) == (Some(p), Some(s)));
            let (i, j) = choose|i: int, j: int| j < perks.len() && #[trigger] trees_at(perks, i, j, p, s);
            assert(trees_at(perks, i, j, p, s));
            assert(exists|i: int, j: int| #[trigger] trees_at(perks, i, j, p, s));
        },
        None => {},
    }
    if exists|a: int, b: int|
        0 <= a < perks.len() && 0 <= b < perks.len() && rune_style(#[trigger] perks[a]) is Some
            && rune_style(#[trigger] perks[b]) is Some && rune_style(perks[a]) != rune_style(perks[b]) {
        let (a, b) = choose|a: int, b: int|
            0 <= a < perks.len() && 0 <= b < perks.len() && rune_style(#[trigger] perks[a]) is Some
                && rune_style(#[trigger] perks[b]) is Some && rune_style(perks[a]) != rune_style(perks[b]);
        assert(rune_style(perks[a]) is Some);
        assert(rune_style(perks[b]) is Some);
    }
}

/// Once the secondary tree is found, later perks change nothing.
proof fn lemma_style_scan_settled(perks: Seq<i64>, n: int)
    requires
        0 <= n <= perks.len(),
        style_scan(perks, n).1 is Some,
    ensures
        style_scan(perks, perks.len() as int) == style_scan(perks, n),
    decreases perks.len() - n,
{
    if n < perks.len() {
        lemma_style_scan_settled(perks, n + 1);
    }
}

/// The position name used in recommendations: the lower-cased lane, with "mid" and "bot"
/// spelled out.
pub open spec fn position_name(lower: Seq<char>) -> Seq<char> {
    if lower == "mid"@ {
        "middle"@
    } else if lower == "bot"@ {
        "bottom"@
    } else {
        lower
    }
}

/// The position of a guide lane is named as the lane is named elsewhere: the guide's short
/// names "mid" and "bot" become the stored names of the middle and bottom lanes; every
/// other lane name is kept.
pub proof fn guide_positions_use_lane_names(lower: Seq<char>)
    ensures
        lower == "mid"@ ==> position_name(lower) == RankedChampionLane::Middle.name(),
        lower == "bot"@ ==> position_name(lower) == RankedChampionLane::Bottom.name(),
        lower != "mid"@ && lower != "bot"@ ==> position_name(lower) == lower,
{
    reveal_strlit("mid");
    reveal_strlit("bot");
    reveal_strlit("middle");
    reveal_strlit("bottom");
    assert("bot"@[0] != "mid"@[0]);
}

/// The position name of a guide lane (see `position_name`).
pub fn normalize_position(lane: &str) -> (r: String)
    ensures
        r@ == position_name(lower_text(lane@)),
{
    let lower = to_lowercase(lane);
    if str_eq(lower.as_str(), "mid") {
        "middle".to_owned()
    } else if str_eq(lower.as_str(), "bot") {
        "bottom".to_owned()
    } else {
        lower
    }
}

/// The perk ids of a list of pieces: each trimmed piece that parses as an `i64`, with 0
/// standing for the stat shard 5001.
pub open spec fn parsed_perks(pieces: Seq<Seq<char>>) -> Seq<i64>
    decreases pieces.len(),
{
    if pieces.len() == 0 {
        Seq::empty()
    } else {
        let prev = parsed_perks(pieces.drop_last());
        match parse_signed(trim(pieces.last())) {
            Some(v) => if i64::MIN <= v <= i64::MAX {
                prev.push(if v == 0 {
                    5001
                } else {
                    v as i64
                })
            } else {
                prev
            },
            None => prev,
        }
    }
}

/// The perk ids of a guide perk string `a&b&c…`: at most the first nine that parse.
pub open spec fn perk_ids_spec(perk: Seq<char>) -> Seq<i64> {
    let all = parsed_perks(split_seq(perk, '&'));
    if all.len() > 9 {
        all.subrange(0, 9)
    } else {
        all
    }
}

/// The perk ids of a guide perk string (see `perk_ids_spec`).
pub fn parse_perk_ids(perk: &str) -> (r: Vec<i64>)
    ensures
        r@ == perk_ids_spec(perk@),
{
    let pieces = split_char(perk, '&');
    let ghost ps = pieces.deep_view();
    let mut all: Vec<i64> = Vec::new();
    let mut i: usize = 0;
    while i < pieces.len()
        invariant
            i <= pieces.len(),
            ps == pieces.deep_view(),
            all@ == parsed_perks(ps.subrange(0, i as int)),
        decreases pieces.len() - i,
    {
        assert(ps.subrange(0, i + 1).drop_last() =~= ps.subrange(0, i as int));
        assert(ps[i as int] == pieces@[i as int]@);
        match parse_i64(trim_str(pieces[i].as_str())) {
            Some(v) => {
                all.push(if v == 0 {
                    5001
                } else {
                    v
                });
            },
            None => {},
        }
        i = i + 1;
    }
    assert(ps.subrange(0, pieces.len() as int) =~= ps);
    if all.len() > 9 {
        let mut out: Vec<i64> = Vec::new();
        let mut k: usize = 0;
        while k < 9
            invariant
                k <= 9,
                all@.len() > 9,
                out@ == all@.subrange(0, k as int),
            decreases 9 - k,
        {
            out.push(all[k]);
            assert(out@ =~= all@.subrange(0, k + 1));
            k = k + 1;
        }
        out
    } else {
        all
    }
}

/// The first position in `s` whose key is below `k` (the length when there is none).
pub open spec fn first_below<A>(s: Seq<A>, k: int, key: spec_fn(A) -> int) -> int
    decreases s.len(),
{
    if s.len() == 0 {
        0
    } else if key(s[0]) < k {
        0
    } else {
        1 + first_below(s.drop_first(), k, key)
    }
}

/// `s` with `x` placed after every element whose key is at least `x`'s.
pub open spec fn insert_desc<A>(s: Seq<A>, x: A, key: spec_fn(A) -> int) -> Seq<A> {
    s.insert(first_below(s, key(x), key), x)
}

/// `s` sorted by key, largest first; equal keys keep their order (a stable sort).
pub open spec fn sort_desc<A>(s: Seq<A>, key: spec_fn(A) -> int) -> Seq<A>
    decreases s.len(),
{
    if s.len() == 0 {
        Seq::empty()
    } else {
        insert_desc(sort_desc(s.drop_last(), key), s.last(), key)
    }
}

/// The keys of `s` never increase.
pub open spec fn sorted_desc<A>(s: Seq<A>, key: spec_fn(A) -> int) -> bool {
    forall|i: int, j: int| 0 <= i < j < s.len() ==> key(#[trigger] s[i]) >= key(#[trigger] s[j])
}

/// Where `first_below` lands: every earlier key is at least `k`, and the key there is
/// below `k`.
proof fn lemma_first_below<A>(s: Seq<A>, k: int, key: spec_fn(A) -> int)
    ensures
        0 <= first_below(s, k, key) <= s.len(),
        forall|i: int| 0 <= i < first_below(s, k, key) ==> key(#[trigger] s[i]) >= k,
        first_below(s, k, key) < s.len() ==> key(s[first_below(s, k, key)]) < k,
    decreases s.len(),
{
    if s.len() > 0 && key(s[0]) >= k {
        lemma_first_below(s.drop_first(), k, key);
        assert forall|i: int| 0 <= i < first_below(s, k, key) implies key(#[trigger] s[i]) >= k by {
            if i > 0 {
                assert(s[i] == s.drop_first()[i - 1]);
            }
        }
    }
}

/// Inserting in place keeps a sequence sorted.
proof fn lemma_insert_desc_sorted<A>(s: Seq<A>, x: A, key: spec_fn(A) -> int)
    requires
        sorted_desc(s, key),
    ensures
        sorted_desc(insert_desc(s, x, key), key),
        insert_desc(s, x, key).len() == s.len() + 1,
{
    lemma_first_below(s, key(x), key);
    let p = first_below(s, key(x), key);
    let t = insert_desc(s, x, key);
    assert forall|i: int, j: int| 0 <= i < j < t.len() implies key(#[trigger] t[i]) >= key(
        #[trigger] t[j],
    ) by {
        if j < p {
        } else if j == p {
            assert(t[i] == s[i]);
        } else if i < p {
            assert(t[j] == s[j - 1]);
            if p < s.len() {
                assert(key(s[i]) >= key(x));
            }
        } else if i == p {
            assert(t[j] == s[j - 1]);
            assert(key(s[p]) < key(x));
            assert(key(s[p]) >= key(s[j - 1]));
        } else {
            assert(t[i] == s[i - 1]);
            assert(t[j] == s[j - 1]);
        }
    }
}

/// A stable sort by key, largest first, is sorted.
pub proof fn lemma_sort_desc_sorted<A>(s: Seq<A>, key: spec_fn(A) -> int)
    ensures
        sorted_desc(sort_desc(s, key), key),
        sort_desc(s, key).len() == s.len(),
    decreases s.len(),
{
    if s.len() > 0 {
        lemma_sort_desc_sorted(s.drop_last(), key);
        lemma_insert_desc_sorted(sort_desc(s.drop_last(), key), s.last(), key);
    }
}

/// The key of a perk-list entry: its game count.
pub open spec fn entry_key() -> spec_fn((i64, Vec<i64>)) -> int {
    |e: (i64, Vec<i64>)| e.0 as int
}

/// The key of a recommendation: its pick count.
pub open spec fn rec_key() -> spec_fn(RuneRecommendation) -> int {
    |r: RuneRecommendation| r.pick_count as int
}

/// Sorts perk-list entries by game count, largest first, keeping the order of ties.
pub fn sort_entries_desc(entries: Vec<(i64, Vec<i64>)>) -> (r: Vec<(i64, Vec<i64>)>)
    ensures
        r@ == sort_desc(entries@, entry_key()),
{
    let mut out: Vec<(i64, Vec<i64>)> = Vec::new();
    let mut entries = entries;
    let ghost all = entries@;
    assert(all.len() == entries.len());
    let mut rest: Vec<(i64, Vec<i64>)> = Vec::new();
    while entries.len() > 0
        invariant
            entries@.len() + rest@.len() == all.len(),
            all.len() <= usize::MAX,
            rest@ == all.subrange(entries@.len() as int, all.len() as int).reverse(),
            entries@ == all.subrange(0, entries@.len() as int),
        decreases entries.len(),
    {
        let e = entries.pop().unwrap();
        rest.push(e);
        assert(rest@ =~= all.subrange(entries@.len() as int, all.len() as int).reverse());
        assert(entries@ =~= all.subrange(0, entries@.len() as int));
    }
    assert(rest@.len() == all.len());
    let mut k: usize = 0;
    while rest.len() > 0
        invariant
            k + rest@.len() == all.len(),
            all.len() <= usize::MAX,
            rest@ == all.subrange(k as int, all.len() as int).reverse(),
            out@ == sort_desc(all.subrange(0, k as int), entry_key()),
        decreases rest.len(),
    {
        let x = rest.pop().unwrap();
        assert(x == all[k as int]) by {
            assert(all.subrange(k as int, all.len() as int).reverse().last() == all[k as int]);
        }
        let mut j: usize = 0;
        assert(out@.subrange(0, out@.len() as int) =~= out@);
        while j < out.len() && out[j].0 >= x.0
            invariant
                j <= out@.len(),
                first_below(out@, x.0 as int, entry_key()) == j + first_below(
                    out@.subrange(j as int, out@.len() as int),
                    x.0 as int,
                    entry_key(),
                ),
            decreases out.len() - j,
        {
            assert(out@.subrange(j as int, out@.len() as int).drop_first() =~= out@.subrange(
                j + 1,
                out@.len() as int,
            ));
            j = j + 1;
        }
        proof {
            if j < out.len() {
                assert(out@.subrange(j as int, out@.len() as int)[0] == out@[j as int]);
            }
            assert(first_below(out@, x.0 as int, entry_key()) == j);
            assert(all.subrange(0, k + 1).drop_last() =~= all.subrange(0, k as int));
        }
        out.insert(j, x);
        k = k + 1;
        assert(rest@ =~= all.subrange(k as int, all.len() as int).reverse());
    }
    assert(all.subrange(0, all.len() as int) =~= all);
    out
}

/// Sorts recommendations by pick count, largest first, keeping the order of ties.
pub fn sort_recommendations_desc(recs: Vec<RuneRecommendation>) -> (r: Vec<RuneRecommendation>)
    ensures
        r@ == sort_desc(recs@, rec_key()),
        sorted_desc(r@, rec_key()),
{
    let mut out: Vec<RuneRecommendation> = Vec::new();
    let mut entries = recs;
    let ghost all = entries@;
    assert(all.len() == entries.len());
    let mut rest: Vec<RuneRecommendation> = Vec::new();
    while entries.len() > 0
        invariant
            entries@.len() + rest@.len() == all.len(),
            all.len() <= usize::MAX,
            rest@ == all.subrange(entries@.len() as int, all.len() as int).reverse(),
            entries@ == all.subrange(0, entries@.len() as int),
        decreases entries.len(),
    {
        let e = entries.pop().unwrap();
        rest.push(e);
        assert(rest@ =~= all.subrange(entries@.len() as int, all.len() as int).reverse());
        assert(entries@ =~= all.subrange(0, entries@.len() as int));
    }
    let mut k: usize = 0;
    while rest.len() > 0
        invariant
            k + rest@.len() == all.len(),
            all.len() <= usize::MAX,
            rest@ == all.subrange(k as int, all.len() as int).reverse(),
            out@ == sort_desc(all.subrange(0, k as int), rec_key()),
        decreases rest.len(),
    {
        let x = rest.pop().unwrap();
        assert(x == all[k as int]) by {
            assert(all.subrange(k as int, all.len() as int).reverse().last() == all[k as int]);
        }
        let mut j: usize = 0;
        assert(out@.subrange(0, out@.len() as int) =~= out@);
        while j < out.len() && out[j].pick_count >= x.pick_count
            invariant
                j <= out@.len(),
                first_below(out@, x.pick_count as int, rec_key()) == j + first_below(
                    out@.subrange(j as int, out@.len() as int),
                    x.pick_count as int,
                    rec_key(),
                ),
            decreases out.len() - j,
        {
            assert(out@.subrange(j as int, out@.len() as int).drop_first() =~= out@.subrange(
                j + 1,
                out@.len() as int,
            ));
            j = j + 1;
        }
        proof {
            if j < out.len() {
                assert(out@.subrange(j as int, out@.len() as int)[0] == out@[j as int]);
            }
            assert(first_below(out@, x.pick_count as int, rec_key()) == j);
            assert(all.subrange(0, k + 1).drop_last() =~= all.subrange(0, k as int));
        }
        out.insert(j, x);
        k = k + 1;
        assert(rest@ =~= all.subrange(k as int, all.len() as int).reverse());
    }
    assert(all.subrange(0, all.len() as int) =~= all);
    proof {
        lemma_sort_desc_sorted(all, rec_key());
    }
    out
}

/// The fields of a recommendation: position, pick count, primary and secondary trees, and
/// perks.
pub open spec fn rec_view(r: RuneRecommendation) -> (Seq<char>, i64, i64, i64, Seq<i64>) {
    (r.position@, r.pick_count, r.page.primary_style_id, r.page.sub_style_id, r.page.selected_perk_ids@)
}

/// A perk-list entry by value: its game count and its perks.
pub open spec fn entry_views(s: Seq<(i64, Vec<i64>)>) -> Seq<(i64, Seq<i64>)> {
    s.map_values(|e: (i64, Vec<i64>)| (e.0, e.1@))
}

/// The key of a perk-list entry by value: its game count.
pub open spec fn entry_view_key() -> spec_fn((i64, Seq<i64>)) -> int {
    |e: (i64, Seq<i64>)| e.0 as int
}

/// The recommendations made from the first `n` of a lane's sorted entries: each entry
/// whose trees can be derived becomes a page with those trees.
pub open spec fn lane_recs_prefix(position: Seq<char>, sorted: Seq<(i64, Seq<i64>)>, n: int) -> Seq<
    (Seq<char>, i64, i64, i64, Seq<i64>),
>
    decreases n,
{
    if n <= 0 {
        Seq::empty()
    } else {
        let prev = lane_recs_prefix(position, sorted, n - 1);
        let e = sorted[n - 1];
        match derive_styles(e.1) {
            Some((p, st)) => prev.push((position, e.0, p, st, e.1)),
            None => prev,
        }
    }
}

/// The recommendations of one lane: of its entries sorted by game count (largest first,
/// ties in order), the first two whose trees can be derived from their perks... only among
/// those two; an entry without derivable trees is dropped, not replaced.
pub open spec fn lane_recs(position: Seq<char>, entries: Seq<(i64, Seq<i64>)>) -> Seq<
    (Seq<char>, i64, i64, i64, Seq<i64>),
> {
    let sorted = sort_desc(entries, entry_view_key());
    lane_recs_prefix(position, sorted, if sorted.len() < 2 {
        sorted.len() as int
    } else {
        2
    })
}

/// How many of `s` were played more than `c` times.
pub open spec fn count_above(s: Seq<(i64, Seq<i64>)>, c: int) -> nat
    decreases s.len(),
{
    if s.len() == 0 {
        0
    } else {
        count_above(s.drop_last(), c) + if s.last().0 > c {
            1nat
        } else {
            0nat
        }
    }
}

proof fn lemma_count_above_insert(t: Seq<(i64, Seq<i64>)>, i: int, x: (i64, Seq<i64>), c: int)
    requires
        0 <= i <= t.len(),
    ensures
        count_above(t.insert(i, x), c) == count_above(t, c) + if x.0 > c {
            1nat
        } else {
            0nat
        },
    decreases t.len(),
{
    if i == t.len() {
        assert(t.insert(i, x) =~= t.push(x));
        assert(t.push(x).drop_last() =~= t);
    } else {
        lemma_count_above_insert(t.drop_last(), i, x, c);
        assert(t.insert(i, x).drop_last() =~= t.drop_last().insert(i, x));
        assert(t.insert(i, x).last() == t.last());
    }
}

proof fn lemma_count_above_sort(s: Seq<(i64, Seq<i64>)>, c: int)
    ensures
        count_above(sort_desc(s, entry_view_key()), c) == count_above(s, c),
    decreases s.len(),
{
    if s.len() > 0 {
        let key = entry_view_key();
        lemma_count_above_sort(s.drop_last(), c);
        let t = sort_desc(s.drop_last(), key);
        lemma_first_below(t, key(s.last()), key);
        lemma_count_above_insert(t, first_below(t, key(s.last()), key), s.last(), c);
    }
}

proof fn lemma_count_above_bounded(s: Seq<(i64, Seq<i64>)>, m: int, c: int)
    requires
        0 <= m,
        forall|j: int| m <= j < s.len() ==> (#[trigger] s[j]).0 <= c,
    ensures
        count_above(s, c) <= m,
        count_above(s, c) <= s.len(),
    decreases s.len(),
{
    if s.len() > 0 {
        assert forall|j: int| m <= j < s.drop_last().len() implies (#[trigger] s.drop_last()[j]).0 <= c by {
            assert(s.drop_last()[j] == s[j]);
        }
        lemma_count_above_bounded(s.drop_last(), m, c);
        if s.len() > m {
            assert(s[s.len() - 1].0 <= c);
        }
    }
}

proof fn lemma_lane_recs_prefix_sources(position: Seq<char>, sorted: Seq<(i64, Seq<i64>)>, n: int)
    requires
        0 <= n <= sorted.len(),
        sorted_desc(sorted, entry_view_key()),
    ensures
        lane_recs_prefix(position, sorted, n).len() <= n,
        forall|i: int| 0 <= i < lane_recs_prefix(position, sorted, n).len() ==> exists|k: int|
            0 <= k < n && (#[trigger] lane_recs_prefix(position, sorted, n)[i]) == (
                position,
                sorted[k].0,
                lane_recs_prefix(position, sorted, n)[i].2,
                lane_recs_prefix(position, sorted, n)[i].3,
                sorted[k].1,
            ) && derive_styles(sorted[k].1) == Some(
                (lane_recs_prefix(position, sorted, n)[i].2, lane_recs_prefix(position, sorted, n)[i].3),
            ),
        forall|i: int, j: int| 0 <= i < j < lane_recs_prefix(position, sorted, n).len() ==> (
        #[trigger] lane_recs_prefix(position, sorted, n)[i]).1 >= (#[trigger] lane_recs_prefix(position, sorted, n)[j]).1,
    decreases n,
{
    if n > 0 {
        lemma_lane_recs_prefix_sources(position, sorted, n - 1);
        let prev = lane_recs_prefix(position, sorted, n - 1);
        let r = lane_recs_prefix(position, sorted, n);
        let e = sorted[n - 1];
        if r.len() > prev.len() {
            assert forall|i: int| 0 <= i < prev.len() implies (#[trigger] prev[i]).1 >= e.0 by {
                let k = choose|k: int| 0 <= k < n - 1 && (#[trigger] prev[i]) == (
                    position,
                    sorted[k].0,
                    prev[i].2,
                    prev[i].3,
                    sorted[k].1,
                ) && derive_styles(sorted[k].1) == Some((prev[i].2, prev[i].3));
                assert(entry_view_key()(sorted[k]) >= entry_view_key()(sorted[n - 1]));
            }
            assert forall|i: int| 0 <= i < r.len() implies exists|k: int|
                0 <= k < n && (#[trigger] r[i]) == (position, sorted[k].0, r[i].2, r[i].3, sorted[k].1)
                    && derive_styles(sorted[k].1) == Some((r[i].2, r[i].3)) by {
                if i < prev.len() {
                    assert(r[i] == prev[i]);
                    let k = choose|k: int| 0 <= k < n - 1 && (#[trigger] prev[i]) == (
                        position,
                        sorted[k].0,
                        prev[i].2,
                        prev[i].3,
                        sorted[k].1,
                    ) && derive_styles(sorted[k].1) == Some((prev[i].2, prev[i].3));
                } else {
                    assert(r[i] == r.last());
                    assert(r[i] == (position, sorted[n - 1].0, r[i].2, r[i].3, sorted[n - 1].1));
                }
            }
            assert forall|i: int, j: int| 0 <= i < j < r.len() implies (#[trigger] r[i]).1 >= (#[trigger] r[j]).1 by {
                assert(r[i] == prev[i]);
                if j < prev.len() {
                    assert(r[j] == prev[j]);
                }
            }
        }
    }
}

/// A lane offers at most two pages, most played first: each is made from one of the
/// lane's entries whose trees can be derived (the page has that entry's game count, perks
/// and trees), and at most one entry of the lane was played more often than any page
/// offered (only the two most played entries are considered).
pub proof fn lane_offers_its_most_played_pages(position: Seq<char>, entries: Seq<(i64, Seq<i64>)>)
    ensures
        lane_recs(position, entries).len() <= 2,
        forall|i: int| 0 <= i < lane_recs(position, entries).len() ==> {
            let r = #[trigger] lane_recs(position, entries)[i];
            &&& r.0 == position
            &&& entries.contains((r.1, r.4))
            &&& derive_styles(r.4) == Some((r.2, r.3))
            &&& count_above(entries, r.1 as int) <= 1
        },
        forall|i: int, j: int| 0 <= i < j < lane_recs(position, entries).len() ==> (
        #[trigger] lane_recs(position, entries)[i]).1 >= (#[trigger] lane_recs(position, entries)[j]).1,
{
    let key = entry_view_key();
    let sorted = sort_desc(entries, key);
    lemma_sort_desc_sorted(entries, key);
    lemma_sort_desc_members(entries, key);
    let n: int = if sorted.len() < 2 {
        sorted.len() as int
    } else {
        2
    };
    lemma_lane_recs_prefix_sources(position, sorted, n);
    let r = lane_recs(position, entries);
    assert forall|i: int| 0 <= i < r.len() implies {
        let x = #[trigger] r[i];
        &&& x.0 == position
        &&& entries.contains((x.1, x.4))
        &&& derive_styles(x.4) == Some((x.2, x.3))
        &&& count_above(entries, x.1 as int) <= 1
    } by {
        let k = choose|k: int| 0 <= k < n && (#[trigger] r[i]) == (position, sorted[k].0, r[i].2, r[i].3, sorted[k].1)
            && derive_styles(sorted[k].1) == Some((r[i].2, r[i].3));
        assert(entries.contains(sorted[k]));
        let c = sorted[k].0 as int;
        assert forall|j: int| k + 1 <= j < sorted.len() implies (#[trigger] sorted[j]).0 <= c by {
            assert(key(sorted[k]) >= key(sorted[j]));
        }
        lemma_count_above_bounded(sorted, k + 1, c);
        lemma_count_above_sort(entries, c);
        if k == 1 {
            assert(count_above(sorted, c) <= 2);
            assert(key(sorted[0]) >= key(sorted[1]));
            lemma_count_above_not_first(sorted, c);
        }
    }
}

/// In a list sorted by game count, an entry at position 1 is outplayed by at most one.
proof fn lemma_count_above_not_first(sorted: Seq<(i64, Seq<i64>)>, c: int)
    requires
        sorted.len() >= 2,
        sorted_desc(sorted, entry_view_key()),
        sorted[1].0 == c,
    ensures
        count_above(sorted, c) <= 1,
{
    let key = entry_view_key();
    assert forall|j: int| 1 <= j < sorted.len() implies (#[trigger] sorted[j]).0 <= c by {
        if j > 1 {
            assert(key(sorted[1]) >= key(sorted[j]));
        }
    }
    lemma_count_above_bounded(sorted, 1, c);
}

/// Where `first_below` lands does not change when every element is mapped to one with
/// the same key.
proof fn lemma_first_below_map<A, B>(s: Seq<A>, k: int, key: spec_fn(A) -> int, f: spec_fn(A) -> B, key2: spec_fn(B) -> int)
    requires
        forall|x: A| #[trigger] key2(f(x)) == key(x),
    ensures
        first_below(s, k, key) == first_below(s.map_values(f), k, key2),
    decreases s.len(),
{
    if s.len() > 0 {
        assert(s.map_values(f).drop_first() =~= s.drop_first().map_values(f));
        assert(key2(f(s[0])) == key(s[0]));
        lemma_first_below_map(s.drop_first(), k, key, f, key2);
    }
}

/// Sorting commutes with mapping every element to one with the same key.
pub proof fn lemma_sort_desc_map<A, B>(s: Seq<A>, key: spec_fn(A) -> int, f: spec_fn(A) -> B, key2: spec_fn(B) -> int)
    requires
        forall|x: A| #[trigger] key2(f(x)) == key(x),
    ensures
        sort_desc(s, key).map_values(f) == sort_desc(s.map_values(f), key2),
    decreases s.len(),
{
    if s.len() > 0 {
        lemma_sort_desc_map(s.drop_last(), key, f, key2);
        assert(s.map_values(f).drop_last() =~= s.drop_last().map_values(f));
        let t = sort_desc(s.drop_last(), key);
        lemma_sort_desc_sorted(s.drop_last(), key);
        lemma_first_below(t, key(s.last()), key);
        lemma_first_below_map(t, key(s.last()), key, f, key2);
        assert(key2(f(s.last())) == key(s.last()));
        let p = first_below(t, key(s.last()), key);
        assert(t.insert(p, s.last()).map_values(f) =~= t.map_values(f).insert(p, f(s.last())));
    }
}

/// The recommendations of one lane (see `lane_recs`).
pub fn lane_recommendations(position: &str, entries: Vec<(i64, Vec<i64>)>) -> (r: Vec<
    RuneRecommendation,
>)
    ensures
        r@.map_values(|x: RuneRecommendation| rec_view(x)) == lane_recs(position@, entry_views(entries@)),
{
    let ghost ein = entries@;
    let sorted = sort_entries_desc(entries);
    proof {
        lemma_sort_desc_map(ein, entry_key(), |e: (i64, Vec<i64>)| (e.0, e.1@), entry_view_key());
    }
    let ghost sv = entry_views(sorted@);
    let limit: usize = if sorted.len() < 2 {
        sorted.len()
    } else {
        2
    };
    let mut out: Vec<RuneRecommendation> = Vec::new();
    let mut i: usize = 0;
    while i < limit
        invariant
            i <= limit <= sorted@.len(),
            sv == entry_views(sorted@),
            out@.map_values(|x: RuneRecommendation| rec_view(x)) == lane_recs_prefix(
                position@,
                sv,
                i as int,
            ),
        decreases limit - i,
    {
        let entry = &sorted[i];
        assert(sv[i as int] == (entry.0, entry.1@));
        match derive_style_ids(entry.1.as_slice()) {
            Some((primary_style_id, sub_style_id)) => {
                let ghost before = out@;
                out.push(
                    RuneRecommendation {
                        position: position.to_owned(),
                        pick_count: entry.0,
                        page: RunePage {
                            primary_style_id,
                            sub_style_id,
                            selected_perk_ids: entry.1.clone(),
                        },
                    },
                );
                assert(out@.map_values(|x: RuneRecommendation| rec_view(x)) =~= before.map_values(
                    |x: RuneRecommendation| rec_view(x),
                ).push((position@, entry.0, primary_style_id, sub_style_id, entry.1@)));
            },
            None => {},
        }
        i = i + 1;
    }
    out
}

/// A well-formed recommendation: a full page of nine perks, from which its two trees
/// derive.
pub open spec fn well_formed_recommendation(r: RuneRecommendation) -> bool {
    &&& r.page.selected_perk_ids@.len() == 9
    &&& derive_styles(r.page.selected_perk_ids@) == Some(
        (r.page.primary_style_id, r.page.sub_style_id),
    )
}

/// The position of the last `c` in `s`.
pub open spec fn last_index(s: Seq<char>, c: char) -> Option<int>
    decreases s.len(),
{
    if s.len() == 0 {
        None
    } else if s.last() == c {
        Some(s.len() - 1)
    } else {
        last_index(s.drop_last(), c)
    }
}

/// The position of the last `c` in `s` (`str::rfind` with a `char`, in characters).
pub fn rfind_char(s: &str, c: char) -> (r: Option<usize>)
    ensures
        match r {
            Some(i) => last_index(s@, c) == Some(i as int) && i < s@.len() && s@[i as int] == c,
            None => last_index(s@, c) is None,
        },
{
    let n = s.unicode_len();
    let mut i: usize = n;
    assert(s@.subrange(0, n as int) =~= s@);
    while i > 0
        invariant
            i <= n,
            n == s@.len(),
            last_index(s@, c) == last_index(s@.subrange(0, i as int), c),
        decreases i,
    {
        assert(s@.subrange(0, i as int).drop_last() =~= s@.subrange(0, i - 1));
        if s.get_char(i - 1) == c {
            return Some(i - 1);
        }
        i = i - 1;
    }
    None
}

/// The JSON part of a guide script: from its first `{` to its last `}`, when both occur.
/// The text must not put its last `}` before its first `{`.
pub open spec fn json_span_ok(s: Seq<char>) -> bool {
    match (first_index(s, '{'), last_index(s, '}')) {
        (Some(a), Some(b)) => a <= b + 1,
        _ => true,
    }
}

/// Whether a guide script meets `json_span_ok`, so that its JSON part can be taken.
pub fn json_span_is_ok(js_text: &str) -> (r: bool)
    ensures
        r == json_span_ok(js_text@),
{
    match (find_char(js_text, '{'), rfind_char(js_text, '}')) {
        (Some(a), Some(b)) => a == 0 || a - 1 <= b,
        _ => true,
    }
}

/// The JSON part of a guide script (see `json_span_ok`).
pub fn json_span(js_text: &str) -> (r: Option<&str>)
    requires
        json_span_ok(js_text@),
    ensures
        match (first_index(js_text@, '{'), last_index(js_text@, '}')) {
            (Some(a), Some(b)) => r matches Some(t) && t@ == js_text@.subrange(a, b + 1),
            _ => r is None,
        },
{
    let n = js_text.unicode_len();
    let start = match find_char(js_text, '{') {
        Some(i) => i,
        None => {
            return None;
        },
    };
    proof {
        lemma_first_index_bound(js_text@, '{');
    }
    let end = match rfind_char(js_text, '}') {
        Some(i) => i + 1,
        None => {
            return None;
        },
    };
    Some(js_text.substring_char(start, end))
}

/// The perk list of one guide entry: its game count `igamecnt` (0 when absent) and the
/// perk ids of its `perk` string. The entry is read as `serde` reads a struct of these two
/// fields: an object with a string `perk` and, if present, an `igamecnt` that is an
/// integer fitting an `i64`; or an array of the fields in that order, `[perk]` or
/// `[perk, igamecnt]`. `None` for anything else.
pub open spec fn perk_entry_spec(entry: JsonValue) -> Option<(i64, Seq<i64>)> {
    match entry {
        JsonValue::Array(items) => if items@.len() == 1 {
            match json_str(items@[0]) {
                Some(perk) => Some((0, perk_ids_spec(perk))),
                None => None,
            }
        } else if items@.len() == 2 {
            match (json_str(items@[0]), json_i64(items@[1])) {
                (Some(perk), Some(n)) => Some((n, perk_ids_spec(perk))),
                _ => None,
            }
        } else {
            None
        },
        _ => match json_member_str(entry, "perk"@) {
            None => None,
            Some(perk) => if json_object_values(entry) is None {
                None
            } else {
                match json_member(entry, "igamecnt"@) {
                    Some(v) => match json_i64(v) {
                        Some(n) => Some((n, perk_ids_spec(perk))),
                        None => None,
                    },
                    None => Some((0, perk_ids_spec(perk))),
                }
            },
        },
    }
}

/// The perk list of one guide entry (see `perk_entry_spec`).
fn perk_entry(entry: &JsonValue) -> (r: Option<(i64, Vec<i64>)>)
    ensures
        match perk_entry_spec(*entry) {
            Some((c, p)) => r matches Some((rc, rp)) && rc == c && rp@ == p,
            None => r is None,
        },
        r matches Some((_, perks)) ==> perks@.len() <= 9,
{
    if let JsonValue::Array(items) = entry {
        if items.len() == 1 || items.len() == 2 {
            let perk = match items[0].as_str() {
                Some(s) => s,
                None => {
                    return None;
                },
            };
            let count = if items.len() == 2 {
                match items[1].as_i64() {
                    Some(n) => n,
                    None => {
                        return None;
                    },
                }
            } else {
                0
            };
            let perks = parse_perk_ids(perk);
            return Some((count, perks));
        }
        return None;
    }
    let perk = match string_member(entry, "perk") {
        Some(s) => s,
        None => {
            return None;
        },
    };
    if entry.as_object().is_none() {
        return None;
    }
    let count = match entry.get("igamecnt") {
        Some(v) => match v.as_i64() {
            Some(n) => n,
            None => {
                return None;
            },
        },
        None => 0,
    };
    let perks = parse_perk_ids(perk.as_str());
    Some((count, perks))
}

/// The entries of a list of guide entries that make a full page of nine perks, in order.
pub open spec fn inner_entries(inner: Seq<JsonValue>) -> Seq<(i64, Seq<i64>)>
    decreases inner.len(),
{
    if inner.len() == 0 {
        Seq::empty()
    } else {
        let prev = inner_entries(inner.drop_last());
        match perk_entry_spec(inner.last()) {
            Some((c, p)) => if p.len() == 9 {
                prev.push((c, p))
            } else {
                prev
            },
            None => prev,
        }
    }
}

/// The entries of each object among `outer`, in order.
pub open spec fn outer_entries(outer: Seq<JsonValue>) -> Seq<(i64, Seq<i64>)>
    decreases outer.len(),
{
    if outer.len() == 0 {
        Seq::empty()
    } else {
        outer_entries(outer.drop_last()) + match json_object_values(outer.last()) {
            Some(inner) => inner_entries(inner),
            None => Seq::empty(),
        }
    }
}

/// The perk lists of a lane's `perkdetail` document: an object of objects of entries,
/// keeping the entries that make a full page of nine perks; none when it is not an
/// object.
pub open spec fn lane_entries_spec(perkdetail: JsonValue) -> Seq<(i64, Seq<i64>)> {
    match json_object_values(perkdetail) {
        Some(outer) => outer_entries(outer),
        None => Seq::empty(),
    }
}

/// The perk lists of a lane's `perkdetail` document (see `lane_entries_spec`).
fn lane_entries(perkdetail: &JsonValue) -> (r: Vec<(i64, Vec<i64>)>)
    ensures
        entry_views(r@) == lane_entries_spec(*perkdetail),
        forall|i: int| 0 <= i < r@.len() ==> (#[trigger] r@[i]).1@.len() == 9,
{
    let mut entries: Vec<(i64, Vec<i64>)> = Vec::new();
    let outer = match perkdetail.as_object() {
        Some(members) => members,
        None => {
            assert(entry_views(entries@) =~= Seq::<(i64, Seq<i64>)>::empty());
            return entries;
        },
    };
    let ghost ov = outer@.map_values(|p: (String, JsonValue)| p.1);
    assert(entry_views(entries@) =~= outer_entries(ov.subrange(0, 0)));
    let mut i: usize = 0;
    while i < outer.len()
        invariant
            i <= outer.len(),
            ov == outer@.map_values(|p: (String, JsonValue)| p.1),
            entry_views(entries@) == outer_entries(ov.subrange(0, i as int)),
            forall|k: int| 0 <= k < entries@.len() ==> (#[trigger] entries@[k]).1@.len() == 9,
        decreases outer.len() - i,
    {
        let ghost base = entry_views(entries@);
        assert(ov.subrange(0, i + 1).drop_last() =~= ov.subrange(0, i as int));
        assert(ov.subrange(0, i + 1).last() == outer@[i as int].1);
        match outer[i].1.as_object() {
            Some(inner) => {
                let ghost iv = inner@.map_values(|p: (String, JsonValue)| p.1);
                assert(base + inner_entries(iv.subrange(0, 0)) =~= base);
                let mut j: usize = 0;
                while j < inner.len()
                    invariant
                        j <= inner.len(),
                        iv == inner@.map_values(|p: (String, JsonValue)| p.1),
                        entry_views(entries@) == base + inner_entries(iv.subrange(0, j as int)),
                        forall|k: int| 0 <= k < entries@.len() ==> (#[trigger] entries@[k]).1@.len() == 9,
                    decreases inner.len() - j,
                {
                    assert(iv.subrange(0, j + 1).drop_last() =~= iv.subrange(0, j as int));
                    assert(iv.subrange(0, j + 1).last() == inner@[j as int].1);
                    if let Some((count, perks)) = perk_entry(&inner[j].1) {
                        if perks.len() == 9 {
                            let ghost before = entries@;
                            entries.push((count, perks));
                            assert(entry_views(entries@) =~= entry_views(before).push((count, perks@)));
                        }
                    }
                    j = j + 1;
                }
                assert(iv.subrange(0, inner@.len() as int) =~= iv);
            },
            None => {
                assert(base + Seq::<(i64, Seq<i64>)>::empty() =~= base);
            },
        }
        i = i + 1;
    }
    assert(ov.subrange(0, outer@.len() as int) =~= ov);
    entries
}

/// The string member `key` of an object (see `json_member_str`).
fn string_member(value: &JsonValue, key: &str) -> (r: Option<String>)
    ensures
        opt_string_view(r) == json_member_str(*value, key@),
{
    match value.get(key) {
        Some(v) => match v.as_str() {
            Some(s) => Some(s.to_string()),
            None => None,
        },
        None => None,
    }
}

/// Every recommendation in the list is well formed.
pub open spec fn all_well_formed(recs: Seq<RuneRecommendation>) -> bool {
    forall|i: int| 0 <= i < recs.len() ==> well_formed_recommendation(#[trigger] recs[i])
}

/// The key of a recommendation by value: its pick count.
pub open spec fn rec_view_key() -> spec_fn((Seq<char>, i64, i64, i64, Seq<i64>)) -> int {
    |v: (Seq<char>, i64, i64, i64, Seq<i64>)| v.1 as int
}

/// The `lane`, `hold3` and `perkdetail` strings of a lane of a guide, read as `serde`
/// reads a struct of these three fields: the string members of an object, or an array of
/// exactly three strings in that order. `None` for anything else.
pub open spec fn lane_fields(v: JsonValue) -> Option<(Seq<char>, Seq<char>, Seq<char>)> {
    match v {
        JsonValue::Array(items) => if items@.len() == 3 {
            match (json_str(items@[0]), json_str(items@[1]), json_str(items@[2])) {
                (Some(lane), Some(hold3), Some(pd)) => Some((lane, hold3, pd)),
                _ => None,
            }
        } else {
            None
        },
        JsonValue::Object(_) => match (
            json_member_str(v, "lane"@),
            json_member_str(v, "hold3"@),
            json_member_str(v, "perkdetail"@),
        ) {
            (Some(lane), Some(hold3), Some(pd)) => Some((lane, hold3, pd)),
            _ => None,
        },
        _ => None,
    }
}

/// The fields of a lane of a guide (see `lane_fields`).
fn lane_field_values(v: &JsonValue) -> (r: Option<(String, String, String)>)
    ensures
        match lane_fields(*v) {
            Some((l, h, p)) => r matches Some((rl, rh, rp)) && rl@ == l && rh@ == h && rp@ == p,
            None => r is None,
        },
{
    match v {
        JsonValue::Array(items) => {
            if items.len() != 3 {
                return None;
            }
            match (items[0].as_str(), items[1].as_str(), items[2].as_str()) {
                (Some(l), Some(h), Some(p)) => Some((l.to_string(), h.to_string(), p.to_string())),
                _ => None,
            }
        },
        JsonValue::Object(_) => {
            let lane = string_member(v, "lane");
            let hold3 = string_member(v, "hold3");
            let perkdetail = string_member(v, "perkdetail");
            match (lane, hold3, perkdetail) {
                (Some(l), Some(h), Some(p)) => Some((l, h, p)),
                _ => None,
            }
        },
        _ => None,
    }
}

/// The recommendations of one lane of a guide: with its fields (see `lane_fields`), a
/// non-empty `hold3` and a non-empty `perkdetail` that is itself a JSON document, the
/// lane's recommendations (see `lane_recs`) from that document's entries, under the
/// position name of the lane; none otherwise.
pub open spec fn lane_part(v: JsonValue) -> Seq<(Seq<char>, i64, i64, i64, Seq<i64>)> {
    match lane_fields(v) {
        Some((lane, hold3, pd)) => if hold3.len() == 0 || pd.len() == 0 {
            Seq::empty()
        } else {
            match json_parse(pd) {
                Some(detail) => lane_recs(position_name(lower_text(lane)), lane_entries_spec(detail)),
                None => Seq::empty(),
            }
        },
        None => Seq::empty(),
    }
}

/// The recommendations of the lanes, lane after lane.
pub open spec fn lanes_recs(lanes: Seq<JsonValue>) -> Seq<(Seq<char>, i64, i64, i64, Seq<i64>)>
    decreases lanes.len(),
{
    if lanes.len() == 0 {
        Seq::empty()
    } else {
        lanes_recs(lanes.drop_last()) + lane_part(lanes.last())
    }
}

/// The lanes of a guide script: the member values of `list.championLane` in the document
/// between its first `{` and its last `}`.
pub open spec fn rune_js_lanes(js: Seq<char>) -> Option<Seq<JsonValue>> {
    match (first_index(js, '{'), last_index(js, '}')) {
        (Some(a), Some(b)) => match json_parse(js.subrange(a, b + 1)) {
            Some(root) => match json_member(root, "list"@) {
                Some(list) => match json_member(list, "championLane"@) {
                    Some(cl) => json_object_values(cl),
                    None => None,
                },
                None => None,
            },
            None => None,
        },
        _ => None,
    }
}

/// The recommendations of a guide script: those of its lanes, sorted by pick count (most
/// picked first, ties in order); none when the script holds no lanes.
pub open spec fn rune_js_spec(js: Seq<char>) -> Seq<(Seq<char>, i64, i64, i64, Seq<i64>)> {
    match rune_js_lanes(js) {
        Some(lanes) => sort_desc(lanes_recs(lanes), rec_view_key()),
        None => Seq::empty(),
    }
}

/// Rune recommendations from a Tencent guide script (see `rune_js_spec`): for each lane
/// of `list.championLane` (with a lane name, a non-empty `hold3` and a non-empty
/// `perkdetail` document), the lane's recommendations (see `lane_recs`) under its position
/// name; all of them sorted by pick count, most picked first. Text that holds no JSON
/// gives none.
pub fn parse_rune_js(js_text: &str, champion_id: i64) -> (r: Vec<RuneRecommendation>)
    requires
        json_span_ok(js_text@),
    ensures
        r@.map_values(|x: RuneRecommendation| rec_view(x)) == rune_js_spec(js_text@),
        sorted_desc(r@, rec_key()),
        all_well_formed(r@),
{
    let json = match json_span(js_text) {
        Some(t) => t,
        None => {
            return Vec::new();
        },
    };
    let root = match json_from_str(json) {
        Some(v) => v,
        None => {
            return Vec::new();
        },
    };
    let list = match root.get("list") {
        Some(v) => v,
        None => {
            return Vec::new();
        },
    };
    let lanes = match list.get("championLane") {
        Some(v) => match v.as_object() {
            Some(members) => members,
            None => {
                return Vec::new();
            },
        },
        None => {
            return Vec::new();
        },
    };
    let ghost lv = lanes@.map_values(|p: (String, JsonValue)| p.1);
    assert(rune_js_lanes(js_text@) == Some(lv));
    let mut all: Vec<RuneRecommendation> = Vec::new();
    assert(all@.map_values(|x: RuneRecommendation| rec_view(x)) =~= lanes_recs(lv.subrange(0, 0)));
    let mut i: usize = 0;
    while i < lanes.len()
        invariant
            i <= lanes.len(),
            lv == lanes@.map_values(|p: (String, JsonValue)| p.1),
            all@.map_values(|x: RuneRecommendation| rec_view(x)) == lanes_recs(lv.subrange(0, i as int)),
            all_well_formed(all@),
        decreases lanes.len() - i,
    {
        let lane_value = &lanes[i].1;
        let ghost before = all@.map_values(|x: RuneRecommendation| rec_view(x));
        proof {
            assert(lv.subrange(0, i + 1).drop_last() =~= lv.subrange(0, i as int));
            assert(lv.subrange(0, i + 1).last() == *lane_value);
            assert(before + Seq::<(Seq<char>, i64, i64, i64, Seq<i64>)>::empty() =~= before);
        }
        i = i + 1;
        let (lane, hold3, perkdetail) = match lane_field_values(lane_value) {
            Some(fields) => fields,
            None => continue,
        };
        if hold3.as_str().unicode_len() == 0 || perkdetail.as_str().unicode_len() == 0 {
            continue;
        }
        let position = normalize_position(lane.as_str());
        let detail = match json_from_str(perkdetail.as_str()) {
            Some(v) => v,
            None => continue,
        };
        let entries = lane_entries(&detail);
        let ghost ev = entries@;
        let recs = lane_recommendations(position.as_str(), entries);
        proof {
            lemma_lane_recs_well_formed(position@, entry_views(ev), recs@);
            assert(recs@.map_values(|x: RuneRecommendation| rec_view(x)) == lane_part(*lane_value));
        }
        let mut k: usize = 0;
        while k < recs.len()
            invariant
                k <= recs.len(),
                all_well_formed(all@),
                all_well_formed(recs@),
                all@.map_values(|x: RuneRecommendation| rec_view(x)) == before + recs@.subrange(0, k as int).map_values(
                    |x: RuneRecommendation| rec_view(x),
                ),
            decreases recs.len() - k,
        {
            let copy = recs[k].clone_rec();
            assert(well_formed_recommendation(recs@[k as int]));
            let ghost prev = all@;
            all.push(copy);
            assert(all@ =~= prev.push(copy));
            assert(all@.map_values(|x: RuneRecommendation| rec_view(x)) =~= prev.map_values(
                |x: RuneRecommendation| rec_view(x),
            ).push(rec_view(recs@[k as int])));
            assert(recs@.subrange(0, k + 1) =~= recs@.subrange(0, k as int).push(recs@[k as int]));
            assert(recs@.subrange(0, k + 1).map_values(|x: RuneRecommendation| rec_view(x)) =~= recs@.subrange(
                0,
                k as int,
            ).map_values(|x: RuneRecommendation| rec_view(x)).push(rec_view(recs@[k as int])));
            assert(all@.map_values(|x: RuneRecommendation| rec_view(x)) =~= before + recs@.subrange(
                0,
                k + 1,
            ).map_values(|x: RuneRecommendation| rec_view(x)));
            k = k + 1;
        }
        assert(recs@.subrange(0, recs@.len() as int) =~= recs@);
    }
    assert(lv.subrange(0, lanes@.len() as int) =~= lv);
    let ghost unsorted = all@;
    let r = sort_recommendations_desc_kept(all);
    proof {
        lemma_sort_desc_map(unsorted, rec_key(), |x: RuneRecommendation| rec_view(x), rec_view_key());
    }
    r
}

/// Sorting keeps every element well formed.
fn sort_recommendations_desc_kept(recs: Vec<RuneRecommendation>) -> (r: Vec<RuneRecommendation>)
    requires
        all_well_formed(recs@),
    ensures
        r@ == sort_desc(recs@, rec_key()),
        sorted_desc(r@, rec_key()),
        all_well_formed(r@),
{
    let ghost input = recs@;
    let r = sort_recommendations_desc(recs);
    proof {
        lemma_sort_desc_members(input, rec_key());
        assert forall|i: int| 0 <= i < r@.len() implies well_formed_recommendation(#[trigger] r@[i]) by {
            assert(input.contains(r@[i]));
        }
    }
    r
}

/// Every element of a sorted sequence comes from the input.
proof fn lemma_sort_desc_members<A>(s: Seq<A>, key: spec_fn(A) -> int)
    ensures
        forall|i: int| 0 <= i < sort_desc(s, key).len() ==> s.contains(#[trigger] sort_desc(s, key)[i]),
        sort_desc(s, key).len() == s.len(),
    decreases s.len(),
{
    if s.len() > 0 {
        lemma_sort_desc_members(s.drop_last(), key);
        let prev = sort_desc(s.drop_last(), key);
        lemma_first_below(prev, key(s.last()), key);
        let p = first_below(prev, key(s.last()), key);
        assert forall|i: int| 0 <= i < sort_desc(s, key).len() implies s.contains(
            #[trigger] sort_desc(s, key)[i],
        ) by {
            let t = sort_desc(s, key);
            if i < p {
                assert(t[i] == prev[i]);
                assert(s.drop_last().contains(prev[i]));
                let k = choose|k: int| 0 <= k < s.drop_last().len() && s.drop_last()[k] == prev[i];
                assert(s[k] == prev[i]);
            } else if i == p {
                assert(t[i] == s.last());
                assert(s[s.len() - 1] == s.last());
            } else {
                assert(t[i] == prev[i - 1]);
                assert(s.drop_last().contains(prev[i - 1]));
                let k = choose|k: int| 0 <= k < s.drop_last().len() && s.drop_last()[k] == prev[i - 1];
                assert(s[k] == prev[i - 1]);
            }
        }
    }
}

/// The recommendations of a lane whose entries hold nine perks are well formed.
proof fn lemma_lane_recs_well_formed(
    position: Seq<char>,
    entries: Seq<(i64, Seq<i64>)>,
    recs: Seq<RuneRecommendation>,
)
    requires
        forall|i: int| 0 <= i < entries.len() ==> (#[trigger] entries[i]).1.len() == 9,
        recs.map_values(|x: RuneRecommendation| rec_view(x)) == lane_recs(position, entries),
    ensures
        all_well_formed(recs),
{
    let sorted = sort_desc(entries, entry_view_key());
    lemma_sort_desc_members(entries, entry_view_key());
    let n = if sorted.len() < 2 {
        sorted.len() as int
    } else {
        2
    };
    lemma_lane_recs_prefix_shape(position, sorted, n);
    assert forall|i: int| 0 <= i < recs.len() implies well_formed_recommendation(#[trigger] recs[i]) by {
        let v = recs.map_values(|x: RuneRecommendation| rec_view(x))[i];
        assert(v == rec_view(recs[i]));
        let j = choose|j: int| 0 <= j < n && (#[trigger] sorted[j]).1 == v.4 && derive_styles(v.4)
            == Some((v.2, v.3));
        assert(entries.contains(sorted[j]));
        let k = choose|k: int| 0 <= k < entries.len() && entries[k] == sorted[j];
        assert(entries[k].1.len() == 9);
    }
}

/// Each recommendation of a lane prefix comes from one of the first `n` entries and
/// carries the trees derived from its perks.
proof fn lemma_lane_recs_prefix_shape(position: Seq<char>, sorted: Seq<(i64, Seq<i64>)>, n: int)
    requires
        0 <= n <= sorted.len(),
    ensures
        forall|i: int| 0 <= i < lane_recs_prefix(position, sorted, n).len() ==> exists|j: int|
            0 <= j < n && (#[trigger] sorted[j]).1 == (#[trigger] lane_recs_prefix(position, sorted, n)[i]).4
                && derive_styles(lane_recs_prefix(position, sorted, n)[i].4) == Some(
                (lane_recs_prefix(position, sorted, n)[i].2, lane_recs_prefix(position, sorted, n)[i].3),
            ),
    decreases n,
{
    if n > 0 {
        lemma_lane_recs_prefix_shape(position, sorted, n - 1);
        let prev = lane_recs_prefix(position, sorted, n - 1);
        let cur = lane_recs_prefix(position, sorted, n);
        assert forall|i: int| 0 <= i < cur.len() implies exists|j: int|
            0 <= j < n && (#[trigger] sorted[j]).1 == (#[trigger] cur[i]).4 && derive_styles(
                cur[i].4,
            ) == Some((cur[i].2, cur[i].3)) by {
            if i < prev.len() {
                assert(cur[i] == prev[i]);
                let j = choose|j: int|
                    0 <= j < n - 1 && (#[trigger] sorted[j]).1 == (#[trigger] prev[i]).4
                        && derive_styles(prev[i].4) == Some((prev[i].2, prev[i].3));
                assert(sorted[j].1 == cur[i].4);
            } else {
                assert(sorted[n - 1].1 == cur[i].4);
            }
        }
    }
}

impl RuneRecommendation {
    /// A field-by-field copy.
    pub fn clone_rec(&self) -> (r: RuneRecommendation)
        ensures
            rec_view(r) == rec_view(*self),
    {
        RuneRecommendation {
            position: self.position.clone(),
            pick_count: self.pick_count,
            page: RunePage {
                primary_style_id: self.page.primary_style_id,
                sub_style_id: self.page.sub_style_id,
                selected_perk_ids: self.page.selected_perk_ids.clone(),
            },
        }
    }
}

/// A rune page of the client, as far as choosing the page to replace goes.
#[derive(Debug, Clone, Copy, PartialEq, Eq)]
pub struct LcuPerkPage {
    pub id: i64,
    pub is_deletable: bool,
    pub is_temporary: bool,
}

/// The position of the first page that can be deleted and is not temporary.
pub open spec fn replaceable_page_index(pages: Seq<LcuPerkPage>) -> Option<int>
    decreases pages.len(),
{
    if pages.len() == 0 {
        None
    } else if pages[0].is_deletable && !pages[0].is_temporary {
        Some(0)
    } else {
        match replaceable_page_index(pages.drop_first()) {
            Some(i) => Some(i + 1),
            None => None,
        }
    }
}

/// The page that applying a rune page replaces: the first deletable page that is not
/// temporary, if any (see `replaceable_page_index`).
pub fn page_to_replace(pages: &Vec<LcuPerkPage>) -> (r: Option<i64>)
    ensures
        match replaceable_page_index(pages@) {
            Some(i) => r == Some(pages@[i].id),
            None => r is None,
        },
{
    let mut i: usize = 0;
    assert(pages@.subrange(0, pages@.len() as int) =~= pages@);
    while i < pages.len()
        invariant
            i <= pages@.len(),
            replaceable_page_index(pages@) == match replaceable_page_index(pages@.subrange(i as int, pages@.len() as int)) {
                Some(k) => Some(k + i),
                None => None::<int>,
            },
        decreases pages.len() - i,
    {
        let ghost rest = pages@.subrange(i as int, pages@.len() as int);
        assert(rest[0] == pages@[i as int]);
        assert(rest.drop_first() =~= pages@.subrange(i + 1, pages@.len() as int));
        if pages[i].is_deletable && !pages[i].is_temporary {
            return Some(pages[i].id);
        }
        i = i + 1;
    }
    None
}

} // verus!
