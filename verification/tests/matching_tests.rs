use health_guard::matching::name_fuzzy_match;

#[test]
fn reading_name_matches_indicator_with_parenthetical() {
    assert!(name_fuzzy_match("血糖(空腹)", "血糖"));
    assert!(name_fuzzy_match("血糖（空腹）", "血糖"));
}

#[test]
fn containment_matches_case_insensitively() {
    assert!(name_fuzzy_match("cholesterol", "Total Cholesterol"));
    assert!(name_fuzzy_match("Total Cholesterol", "cholesterol"));
}

#[test]
fn unrelated_names_do_not_match() {
    assert!(!name_fuzzy_match("ALT", "AST"));
    assert!(!name_fuzzy_match("血糖", "血压"));
}

#[test]
fn exact_and_trimmed_names_match() {
    assert!(name_fuzzy_match("ALT", "ALT"));
    assert!(name_fuzzy_match("  ALT ", "alt"));
}

#[test]
fn both_sides_stripped_of_parens_match() {
    assert!(name_fuzzy_match("总胆固醇(TC)", "总胆固醇（酶法）"));
}

#[test]
fn nested_parens_strip_together() {
    assert!(name_fuzzy_match("葡萄糖(空腹(静脉))", "葡萄糖"));
}
