use mcfly::display::{
    match_bounds, replace_all, shorten_duration, timing_label, truncate_for_display,
};

#[test]
fn replace_all_replaces_left_to_right() {
    assert_eq!(replace_all("aaa", "aa", "b"), "ba");
    assert_eq!(replace_all("2days", "days", "d"), "2d");
    assert_eq!(replace_all("abc", "x", "y"), "abc");
    assert_eq!(replace_all("", "x", "y"), "");
}

#[test]
fn shorten_duration_keeps_two_abbreviated_words() {
    assert_eq!(shorten_duration("2h 37m"), "2h 37m");
    assert_eq!(shorten_duration("1year 2months 3days"), "1y 2mo");
    assert_eq!(shorten_duration("5days 3h 2m"), "5d 3h");
    assert_eq!(shorten_duration("1month"), "1mo");
    assert_eq!(shorten_duration("0s"), "< 1m");
}

#[test]
fn timing_label_formats_whole_minutes() {
    assert_eq!(timing_label(10_000, 10_000 - 9_420), "2h 37m");
    assert_eq!(timing_label(100, 100), "< 1m");
    assert_eq!(timing_label(100, 41), "< 1m");
    assert_eq!(timing_label(34_187_616, 0), "1y 30d");
}

#[test]
fn truncate_for_display_highlights_matches() {
    let r = truncate_for_display(
        "git status",
        &vec![(0, 3)],
        "git",
        80,
        "<",
        ">",
        false,
        "",
        &vec![],
    );
    assert_eq!(r, "<git> status");
}

#[test]
fn truncate_for_display_ignores_bounds_without_search() {
    let r = truncate_for_display("git status", &vec![(0, 3)], "", 80, "<", ">", false, "", &vec![]);
    assert_eq!(r, "git status");
}

#[test]
fn truncate_for_display_cuts_to_width() {
    let r = truncate_for_display("git status", &vec![(0, 3)], "g", 13, "<", ">", false, "", &vec![]);
    assert_eq!(r, "<git> ");
    let r = truncate_for_display("abcdefghijklmnop", &vec![], "", 0, "<", ">", false, "", &vec![]);
    assert_eq!(r, "abcdefghijk");
}

#[test]
fn truncate_for_display_appends_debug_fields() {
    let fields = vec![String::from("rnk: 1.00 "), String::from("age: 0.50 ")];
    let r = truncate_for_display("ls", &vec![], "", 120, "<", ">", true, "[", &fields);
    assert_eq!(r, "ls  [rnk: 1.00 age: 0.50 >");
}

#[test]
fn match_bounds_finds_occurrences_ignoring_ascii_case() {
    assert_eq!(match_bounds("Git status; git log", "git", 0), vec![(0, 3), (12, 15)]);
    assert_eq!(match_bounds("aaaa", "aa", 0), vec![(0, 2), (2, 4)]);
    assert_eq!(match_bounds("ls", "", 0), vec![]);
    assert_eq!(match_bounds("ls", "x", 0), vec![]);
    assert_eq!(match_bounds("héllo wörld", "wö", 0), vec![(6, 8)]);
}

#[test]
fn fuzzy_match_bounds_take_each_character_in_turn() {
    assert_eq!(match_bounds("git status", "gst", 2), vec![(0, 1), (4, 5), (5, 6)]);
    assert_eq!(match_bounds("git status", "gz", 2), vec![(0, 1)]);
}
