use metadata_service::identifier::{
    is_generated_identifier_text, is_identifier_text, IDENTIFIER_LEN,
};

#[test]
fn identifier_length_is_thirty_six() {
    assert_eq!(IDENTIFIER_LEN, 36);
}

#[test]
fn canonical_text_is_an_identifier() {
    assert!(is_identifier_text("a1a2a3a4-b1b2-c1c2-d1d2-d3d4d5d6d7d8"));
    assert!(is_identifier_text("00000000-0000-0000-0000-000000000000"));
    assert!(is_identifier_text("ffffffff-ffff-ffff-ffff-ffffffffffff"));
}

#[test]
fn empty_text_is_no_identifier() {
    assert!(!is_identifier_text(""));
}

#[test]
fn wrong_length_is_no_identifier() {
    assert!(!is_identifier_text("a1a2a3a4-b1b2-c1c2-d1d2-d3d4d5d6d7d"));
    assert!(!is_identifier_text("a1a2a3a4-b1b2-c1c2-d1d2-d3d4d5d6d7d8e"));
    assert!(!is_identifier_text("a1a2a3a4b1b2c1c2d1d2d3d4d5d6d7d8"));
}

#[test]
fn upper_case_digits_are_refused() {
    assert!(!is_identifier_text("A1A2A3A4-B1B2-C1C2-D1D2-D3D4D5D6D7D8"));
    assert!(!is_identifier_text("a1a2a3a4-b1b2-c1c2-d1d2-d3d4d5d6d7D8"));
}

#[test]
fn misplaced_hyphen_is_refused() {
    assert!(!is_identifier_text("a1a2a3a-4b1b2-c1c2-d1d2-d3d4d5d6d7d8"));
    assert!(!is_identifier_text("a1a2a3a4-b1b2-c1c2-d1d2-d3d4d5d6d7d-"));
    assert!(!is_identifier_text("a1a2a3a4_b1b2_c1c2_d1d2_d3d4d5d6d7d8"));
}

#[test]
fn digit_beyond_f_is_refused() {
    assert!(!is_identifier_text("g1a2a3a4-b1b2-c1c2-d1d2-d3d4d5d6d7d8"));
    assert!(!is_identifier_text("a1a2a3a4-b1b2-c1c2-d1d2-d3d4d5d6d7 8"));
}

#[test]
fn text_outside_ascii_is_refused() {
    // thirty-six characters, one of them outside ASCII
    assert!(!is_identifier_text("é1a2a3a4-b1b2-c1c2-d1d2-d3d4d5d6d7d8"));
    // thirty-six bytes, fewer characters
    assert!(!is_identifier_text("éa2a3a4-b1b2-c1c2-d1d2-d3d4d5d6d7d8"));
}

#[test]
fn generated_identifier_needs_version_four() {
    assert!(is_generated_identifier_text("a1a2a3a4-b1b2-41c2-81d2-d3d4d5d6d7d8"));
    assert!(!is_generated_identifier_text("a1a2a3a4-b1b2-c1c2-81d2-d3d4d5d6d7d8"));
    assert!(!is_generated_identifier_text("a1a2a3a4-b1b2-11c2-81d2-d3d4d5d6d7d8"));
}

#[test]
fn generated_identifier_needs_variant_one() {
    assert!(is_generated_identifier_text("a1a2a3a4-b1b2-41c2-81d2-d3d4d5d6d7d8"));
    assert!(is_generated_identifier_text("a1a2a3a4-b1b2-41c2-91d2-d3d4d5d6d7d8"));
    assert!(is_generated_identifier_text("a1a2a3a4-b1b2-41c2-a1d2-d3d4d5d6d7d8"));
    assert!(is_generated_identifier_text("a1a2a3a4-b1b2-41c2-b1d2-d3d4d5d6d7d8"));
    assert!(!is_generated_identifier_text("a1a2a3a4-b1b2-41c2-71d2-d3d4d5d6d7d8"));
    assert!(!is_generated_identifier_text("a1a2a3a4-b1b2-41c2-c1d2-d3d4d5d6d7d8"));
    assert!(!is_generated_identifier_text("a1a2a3a4-b1b2-41c2-01d2-d3d4d5d6d7d8"));
}

#[test]
fn generated_identifier_is_an_identifier_first() {
    assert!(!is_generated_identifier_text(""));
    assert!(!is_generated_identifier_text("A1A2A3A4-B1B2-41C2-81D2-D3D4D5D6D7D8"));
    assert!(!is_generated_identifier_text("00000000-0000-0000-0000-000000000000"));
}

#[test]
fn syntax_agrees_with_the_identifier_library() {
    let drawn = uuid::Uuid::new_v4().to_string();
    assert!(is_identifier_text(&drawn));
    assert!(is_generated_identifier_text(&drawn));
    let nil = uuid::Uuid::nil().to_string();
    assert!(is_identifier_text(&nil));
    assert!(!is_generated_identifier_text(&nil));
}
