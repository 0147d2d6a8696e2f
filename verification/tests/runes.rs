use lol_assistant::runes::{
    derive_style_ids, json_span_is_ok, lane_recommendations, normalize_position, parse_perk_ids, parse_rune_js,
    rune_style_id, sort_recommendations_desc,
    page_to_replace, LcuPerkPage,
};
use lol_assistant::domain::{RunePage, RuneRecommendation};

#[test]
fn rune_styles_by_tree() {
    assert_eq!(rune_style_id(8005), Some(8000));
    assert_eq!(rune_style_id(8112), Some(8100));
    assert_eq!(rune_style_id(8214), Some(8200));
    assert_eq!(rune_style_id(8306), Some(8000));
    assert_eq!(rune_style_id(8351), Some(8300));
    assert_eq!(rune_style_id(8437), Some(8400));
    assert_eq!(rune_style_id(5001), None);
}

#[test]
fn page_trees_are_the_first_two_distinct_trees() {
    assert_eq!(derive_style_ids(&[8005, 9111, 8014, 8299, 8139, 8135, 5008]), Some((8000, 8100)));
    assert_eq!(derive_style_ids(&[5008, 8005, 8009]), None);
    assert_eq!(derive_style_ids(&[]), None);
}

#[test]
fn positions_are_spelled_out() {
    assert_eq!(normalize_position("MID"), "middle");
    assert_eq!(normalize_position("bot"), "bottom");
    assert_eq!(normalize_position("Top"), "top");
}

#[test]
fn perk_strings_parse_with_shard_and_limit() {
    assert_eq!(parse_perk_ids("8005& 9111 &x&0"), vec![8005, 9111, 5001]);
    assert_eq!(parse_perk_ids("1&2&3&4&5&6&7&8&9&10&11"), vec![1, 2, 3, 4, 5, 6, 7, 8, 9]);
}

fn rec(count: i64) -> RuneRecommendation {
    RuneRecommendation {
        position: "top".to_string(),
        pick_count: count,
        page: RunePage { primary_style_id: 8000, sub_style_id: 8100, selected_perk_ids: vec![count] },
    }
}

#[test]
fn recommendations_sort_most_picked_first_keeping_ties_in_order() {
    let mut a = rec(5);
    a.position = "a".to_string();
    let mut b = rec(5);
    b.position = "b".to_string();
    let sorted = sort_recommendations_desc(vec![rec(1), a, rec(9), b]);
    let counts: Vec<i64> = sorted.iter().map(|r| r.pick_count).collect();
    assert_eq!(counts, vec![9, 5, 5, 1]);
    assert_eq!(sorted[1].position, "a");
    assert_eq!(sorted[2].position, "b");
}

#[test]
fn lane_recommendations_take_the_two_most_played_entries() {
    let full = vec![8005, 9111, 8014, 8299, 8139, 8135];
    let only_shards = vec![5001, 5002, 5003, 5008, 5005, 5007];
    let recs = lane_recommendations(
        "middle",
        vec![(3, full.clone()), (10, only_shards), (7, full.clone())],
    );
    assert_eq!(recs.len(), 1);
    assert_eq!(recs[0].pick_count, 7);
    assert_eq!(recs[0].page.primary_style_id, 8000);
    assert_eq!(recs[0].page.sub_style_id, 8100);
    assert_eq!(recs[0].position, "middle");
}

#[test]
fn rune_script_is_parsed() {
    let perkdetail = r#"{\"1\":{\"a\":{\"perk\":\"8005&9111&8014&8299&8139&8135&5008&5002&5003\",\"igamecnt\":120},\"b\":{\"perk\":\"8437&8446&8444&8451&8005&9111&5008&5002&5001\",\"igamecnt\":300},\"c\":{\"perk\":\"8437&8446&8444&8451&8005&9111\",\"igamecnt\":900}}}"#;
    let js = format!(
        "window.champDetail = {{\"list\":{{\"championLane\":{{\"mid\":{{\"lane\":\"mid\",\"hold3\":\"x\",\"perkdetail\":\"{perkdetail}\"}}}}}}}};"
    );
    let recs = parse_rune_js(&js, 103);
    assert_eq!(recs.len(), 2);
    assert_eq!(recs[0].pick_count, 300);
    assert_eq!(recs[0].position, "middle");
    assert_eq!(recs[0].page.primary_style_id, 8400);
    assert_eq!(recs[0].page.sub_style_id, 8000);
    assert_eq!(recs[1].pick_count, 120);
    assert!(recs.iter().all(|r| r.page.selected_perk_ids.len() == 9));
    assert!(parse_rune_js("no json here", 1).is_empty());
}

fn perk_page(id: i64, is_deletable: bool, is_temporary: bool) -> LcuPerkPage {
    LcuPerkPage { id, is_deletable, is_temporary }
}

#[test]
fn the_first_deletable_lasting_page_is_replaced() {
    let pages = vec![perk_page(1, false, false), perk_page(2, true, true), perk_page(3, true, false), perk_page(4, true, false)];
    assert_eq!(page_to_replace(&pages), Some(3));
    assert_eq!(page_to_replace(&vec![perk_page(1, false, false), perk_page(2, true, true)]), None);
    assert_eq!(page_to_replace(&Vec::new()), None);
}

#[test]
fn rune_script_reads_lanes_and_entries_written_as_arrays() {
    let perkdetail = r#"{\"1\":{\"a\":[\"8005&9111&8014&8299&8139&8135&5008&5002&5003\",40],\"b\":[\"8437&8446&8444&8451&8005&9111&5008&5002&5001\"],\"c\":[\"8437&8446&8444&8451&8005&9111&5008&5002&5001\",1,2]}}"#;
    let js = format!(
        "{{\"list\":{{\"championLane\":{{\"top\":[\"top\",\"x\",\"{perkdetail}\"],\"bad\":[\"jungle\",\"x\"]}}}}}}"
    );
    let recs = parse_rune_js(&js, 86);
    assert_eq!(recs.len(), 2);
    assert_eq!(recs[0].pick_count, 40);
    assert_eq!(recs[0].position, "top");
    assert_eq!(recs[0].page.primary_style_id, 8000);
    assert_eq!(recs[1].pick_count, 0);
    assert_eq!(recs[1].page.primary_style_id, 8400);
}

#[test]
fn json_span_check_matches_the_brace_order() {
    assert!(json_span_is_ok("x = {\"a\":1};"));
    assert!(json_span_is_ok("no braces"));
    assert!(json_span_is_ok("}{"));
    assert!(!json_span_is_ok("} x {"));
}
