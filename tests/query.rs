use e6kiro::query::{build_query, clamp_quantity, DEFAULT_QUANTITY, MAX_QUANTITY};

fn tags_of(raw: &str) -> Vec<String> {
    build_query(raw).tags
}

#[test]
fn safe_search_with_trailing_arguments() {
    let q = build_query("!e6 male, canine 3 --safe");
    assert_eq!(q.tags, vec!["male", "canine", "rating:safe"]);
    assert_eq!(q.quantity, 1);
}

#[test]
fn quantity_follows_the_first_tag() {
    let q = build_query("!e6 male 3");
    assert_eq!(q.tags, vec!["male", "rating:explicit"]);
    assert_eq!(q.quantity, 3);
}

#[test]
fn tag_count_is_pieces_plus_one() {
    let q = build_query("!e6 a,b,c 7");
    assert_eq!(q.tags, vec!["a", "b", "c", "rating:explicit"]);
    assert_eq!(q.quantity, 7);
}

#[test]
fn non_last_tags_keep_their_spaces() {
    assert_eq!(tags_of("!e6 big cat, dog"), vec!["big cat", "dog", "rating:explicit"]);
}

#[test]
fn empty_last_piece_stays_empty() {
    assert_eq!(tags_of("!e6 male,"), vec!["male", "", "rating:explicit"]);
}

#[test]
fn bare_command_keeps_its_text() {
    let q = build_query("!e6");
    assert_eq!(q.tags, vec!["!e6", "rating:explicit"]);
    assert_eq!(q.quantity, DEFAULT_QUANTITY);
}

#[test]
fn safe_marker_inside_a_tag_selects_safe() {
    assert_eq!(tags_of("!e6 not--safe"), vec!["not--safe", "rating:safe"]);
}

#[test]
fn without_marker_explicit_is_asked() {
    assert_eq!(tags_of("!e6 fox -safe"), vec!["fox", "rating:explicit"]);
}

#[test]
fn unreadable_quantity_falls_back_to_one() {
    assert_eq!(build_query("!e6 fox many").quantity, 1);
    assert_eq!(build_query("!e6 fox").quantity, 1);
    assert_eq!(build_query("!e6 fox 4294967296").quantity, 1);
    assert_eq!(build_query("!e6 fox -3").quantity, 1);
    assert_eq!(build_query("!e6 fox +").quantity, 1);
}

#[test]
fn quantity_reads_like_u32() {
    assert_eq!(build_query("!e6 fox +7").quantity, 7);
    assert_eq!(build_query("!e6 fox 4294967295").quantity, 4294967295);
    assert_eq!(build_query("!e6 fox 0").quantity, 0);
}

#[test]
fn quantity_is_capped() {
    assert_eq!(clamp_quantity(25), MAX_QUANTITY);
    assert_eq!(clamp_quantity(10), 10);
    assert_eq!(clamp_quantity(1), 1);
    assert_eq!(clamp_quantity(u32::MAX), 10);
    for raw in ["!e6 a 0", "!e6 a 1", "!e6 a 11", "!e6 a x", "!e6 a"] {
        let q = clamp_quantity(build_query(raw).quantity);
        assert!(q <= 10);
    }
    for raw in ["!e6 a 1", "!e6 a 11", "!e6 a x", "!e6 a"] {
        assert!(clamp_quantity(build_query(raw).quantity) >= 1);
    }
}
