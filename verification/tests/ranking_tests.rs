use vanity_search::options::Options;
use vanity_search::ranking::matching_positions;
use vanity_search::ranking::matching_prefix_length;
use vanity_search::scheme::Scheme;

fn options(prefix: &str, only_case_sensitive: bool) -> Options {
    Options {
        prefix: prefix.to_string(),
        seed_prefix: String::new(),
        only_case_sensitive,
        scheme: Scheme::Sr25519,
    }
}

#[test]
fn matching_prefix_length_counts_shared_start() {
    assert_eq!(matching_prefix_length("abc", "abd"), 2);
    assert_eq!(matching_prefix_length("abc", "abc"), 3);
    assert_eq!(matching_prefix_length("abc", "abcdef"), 3);
    assert_eq!(matching_prefix_length("abcdef", "abc"), 3);
    assert_eq!(matching_prefix_length("xbc", "abc"), 0);
}

#[test]
fn matching_prefix_length_of_empty_text_is_zero() {
    assert_eq!(matching_prefix_length("", "abd"), 0);
    assert_eq!(matching_prefix_length("abd", ""), 0);
    assert_eq!(matching_prefix_length("", ""), 0);
}

#[test]
fn matching_prefix_length_counts_characters_not_bytes() {
    assert_eq!(matching_prefix_length("héllo", "hélas"), 3);
    assert_eq!(matching_prefix_length("日本語", "日本酒"), 2);
}

#[test]
fn matching_prefix_length_stops_at_first_difference() {
    assert_eq!(matching_prefix_length("abXde", "abYde"), 2);
}

#[test]
fn matching_positions_counts_beyond_first_difference() {
    assert_eq!(matching_positions("abXde", "abYde"), 4);
    assert_eq!(matching_positions("abc", "xbc"), 2);
    assert_eq!(matching_positions("abc", "xyz"), 0);
    assert_eq!(matching_positions("abc", "abcdef"), 3);
    assert_eq!(matching_positions("", "abc"), 0);
    assert_eq!(matching_positions("aaa", "a"), 1);
}

#[test]
fn loose_prefix_match_ignores_case_unless_told_otherwise() {
    assert_eq!(options("AB", false).loose_prefix_match("abc"), 2);
    assert_eq!(options("ab", false).loose_prefix_match("ABc"), 2);
    assert_eq!(options("AB", true).loose_prefix_match("abc"), 0);
    assert_eq!(options("AB", true).loose_prefix_match("ABc"), 2);
    assert_eq!(options("Ab", true).loose_prefix_match("AB"), 1);
}

#[test]
fn match_count_is_always_case_sensitive() {
    assert_eq!(options("AB", false).match_count("abc"), 0);
    assert_eq!(options("AB", false).match_count("aBc"), 1);
    assert_eq!(options("AB", false).match_count("ABc"), 2);
    assert_eq!(options("abc", true).match_count("xbc"), 2);
}

#[test]
fn str_is_better_goes_by_prefix_length_first() {
    let o = options("abc", false);
    assert!(o.str_is_better("abx", "axc"));
    assert!(!o.str_is_better("axc", "abx"));
    assert!(o.str_is_better("ABC", "abx"));
}

#[test]
fn str_is_better_breaks_prefix_ties_by_match_count() {
    let o = options("ab", false);
    assert!(o.str_is_better("ab1", "AB1"));
    assert!(!o.str_is_better("AB1", "ab1"));
    assert!(o.str_is_better("aB1", "AB1"));
    let p = options("abc", false);
    assert!(p.str_is_better("axc", "axy"));
    assert!(!p.str_is_better("axy", "axc"));
}

#[test]
fn str_is_better_is_false_on_a_full_tie() {
    let o = options("ab", false);
    assert!(!o.str_is_better("ab1", "abz"));
    assert!(!o.str_is_better("abz", "ab1"));
    assert!(!o.str_is_better("xy", "zz"));
}

#[test]
fn str_is_better_is_never_true_of_an_address_and_itself() {
    let o = options("ab", false);
    assert!(!o.str_is_better("ab1", "ab1"));
    assert!(!o.str_is_better("", ""));
    let s = options("ab", true);
    assert!(!s.str_is_better("AB", "AB"));
}

#[test]
fn str_is_better_gives_the_same_answer_every_time() {
    let o = options("5Fab", false);
    let first = o.str_is_better("5FaB9", "5fxx9");
    for _ in 0..5 {
        assert_eq!(o.str_is_better("5FaB9", "5fxx9"), first);
    }
    assert!(first);
}

#[test]
fn empty_prefix_makes_nothing_better() {
    let o = options("", false);
    assert!(!o.str_is_better("abc", "xyz"));
    assert_eq!(o.loose_prefix_match("abc"), 0);
    assert_eq!(o.match_count("abc"), 0);
}
