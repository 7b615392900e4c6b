use crossscp::masks::{FileMask, MaskDecision, MaskSet};

#[test]
fn exact_masks_match_exact_paths_only() {
    let mask = FileMask::new("report.txt");

    assert!(mask.matches("report.txt"));
    assert!(!mask.matches("report.csv"));
    assert!(!mask.matches("old/report.txt"));
}

#[test]
fn star_matches_zero_or_more_characters() {
    let mask = FileMask::new("*.txt");

    assert!(mask.matches("report.txt"));
    assert!(mask.matches(".txt"));
    assert!(!mask.matches("report.txt.bak"));
}

#[test]
fn question_mark_matches_one_character() {
    let mask = FileMask::new("file-?.log");

    assert!(mask.matches("file-1.log"));
    assert!(!mask.matches("file-10.log"));
    assert!(!mask.matches("file-.log"));
}

#[test]
fn exclude_masks_win_over_include_masks() {
    let masks = MaskSet::new().include_pattern("*.txt").exclude("secret-*.txt");

    assert_eq!(masks.decide("notes.txt"), MaskDecision::Included);
    assert_eq!(masks.decide("secret-plan.txt"), MaskDecision::Excluded);
    assert_eq!(masks.decide("image.png"), MaskDecision::Excluded);
}

#[test]
fn empty_include_set_includes_by_default() {
    let masks = MaskSet::new().exclude("*.tmp");

    assert_eq!(masks.decide("keep.md"), MaskDecision::Included);
    assert_eq!(masks.decide("scratch.tmp"), MaskDecision::Excluded);
}
