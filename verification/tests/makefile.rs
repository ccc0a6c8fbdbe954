use phoniphy::makefile::{get_targets_from_line, is_phoniphy_macro, split_targets, Makefile};

#[test]
fn it_retunrs_true_for_perfect_macro_syntax() {
    assert_eq!(is_phoniphy_macro("#[phoniphy]"), true);
}

#[test]
fn it_returns_true_if_macro_is_prefixed_with_blanks() {
    assert_eq!(is_phoniphy_macro("\t #[phoniphy]"), true);
}

#[test]
fn it_returns_true_if_macro_has_trailing_blanks() {
    assert_eq!(is_phoniphy_macro("#[phoniphy]    "), true);
}

#[test]
fn it_returns_true_if_macro_has_blanks_betweeen_comment_and_macro() {
    assert_eq!(is_phoniphy_macro("# \t   [phoniphy]"), true);
}

#[test]
fn it_returns_true_if_macro_has_blanks_everywhere() {
    assert_eq!(is_phoniphy_macro("   #    [phoniphy] \t   "), true);
}

#[test]
fn it_returns_false_if_not_surrounded_by_square_brackets() {
    assert_eq!(is_phoniphy_macro("#phoniphy]"), false);
}

#[test]
fn it_returns_false_if_line_is_not_makefile_comment() {
    assert_eq!(is_phoniphy_macro("[phoniphy]"), false);
}

#[test]
fn it_returns_false_if_macro_is_not_phoniphy() {
    assert_eq!(is_phoniphy_macro("[phoni]"), false);
}

#[test]
fn it_returns_targets_for_target_line() {
    assert_eq!(get_targets_from_line("start: dev-env  "), Some(vec!["start"]));
}

#[test]
fn it_returns_empty_for_no_target_line() {
    assert_eq!(get_targets_from_line("  $(CC) main.c"), None);
}

#[test]
fn it_split_one_targets() {
    assert_eq!(split_targets("run"), vec!["run"])
}

#[test]
fn it_split_one_targets_removing_blanks() {
    assert_eq!(split_targets("  dev "), vec!["dev"])
}

#[test]
fn it_split_two_targets() {
    assert_eq!(split_targets("dev start"), vec!["dev", "start"])
}

#[test]
fn it_split_three_targets_with_more_than_one_space() {
    assert_eq!(split_targets("hey   you   !"), vec!["hey", "you", "!"])
}

#[test]
fn it_consider_targets_which_are_variables() {
    assert_eq!(split_targets("$(list)"), vec!["$(list)"])
}

#[test]
fn it_does_not_consider_targets_which_are_patterns() {
    let empty: Vec<String> = vec![];

    assert_eq!(split_targets("%.o"), empty);
}

#[test]
fn annotation_may_be_followed_by_other_text() {
    assert_eq!(is_phoniphy_macro("#[phoniphy] build helpers"), true);
}

#[test]
fn annotation_must_be_complete() {
    assert_eq!(is_phoniphy_macro("# [phoniphy"), false);
}

#[test]
fn annotation_is_not_found_after_a_second_hash() {
    assert_eq!(is_phoniphy_macro("##[phoniphy]"), false);
}

#[test]
fn empty_line_is_no_annotation() {
    assert_eq!(is_phoniphy_macro(""), false);
}

#[test]
fn blank_line_is_no_annotation() {
    assert_eq!(is_phoniphy_macro(" \t "), false);
}

#[test]
fn splitting_an_empty_field_gives_nothing() {
    let empty: Vec<&str> = vec![];

    assert_eq!(split_targets(""), empty);
}

#[test]
fn patterns_are_dropped_among_targets() {
    assert_eq!(split_targets("foo %.o bar"), vec!["foo", "bar"]);
}

#[test]
fn line_with_leading_colon_has_no_targets() {
    assert_eq!(get_targets_from_line(": all"), None);
}

#[test]
fn line_with_only_patterns_has_no_targets() {
    assert_eq!(get_targets_from_line("%.o: %.c"), None);
}

#[test]
fn targets_stop_at_the_first_colon() {
    assert_eq!(get_targets_from_line("a b: c: d"), Some(vec!["a", "b"]));
}

#[test]
fn tabs_separate_targets_too() {
    assert_eq!(split_targets("dev\tstart"), vec!["dev", "start"]);
}

#[test]
fn a_makefile_keeps_its_path_and_targets() {
    let m = Makefile::new(
        String::from("Makefile"),
        vec![String::from("run"), String::from("dev")],
    );
    assert_eq!(m.path, "Makefile");
    assert_eq!(m.targets, vec![String::from("run"), String::from("dev")]);
}
