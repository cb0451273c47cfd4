use dispo::models::HcOptions;
use dispo::options::{get_hc_options, ArgCursor};

fn cursor(tokens: &[&str], offset: usize) -> ArgCursor {
    ArgCursor { tokens: tokens.iter().map(|s| s.to_string()).collect(), offset }
}

fn opts(post: bool, wickets: u8, overs: u8) -> HcOptions {
    HcOptions { post, wickets, overs }
}

#[test]
fn no_flags_gives_standard_options() {
    let mut a = cursor(&["<@1>"], 1);
    assert_eq!(get_hc_options(&mut a), Ok(opts(false, 1, 4)));
    assert_eq!(HcOptions::standard(), opts(false, 1, 4));
}

#[test]
fn flag_right_after_subcommand_is_skipped() {
    // The cursor advances before it reads, so the token under it is never read.
    let mut a = cursor(&["<@1>", "--post"], 1);
    assert_eq!(get_hc_options(&mut a), Ok(opts(false, 1, 4)));
    assert_eq!(a.offset, 2);
}

#[test]
fn flags_after_the_skipped_token_are_read() {
    let mut a = cursor(&["<@1>", "x", "--post", "--wickets", "3", "--overs", "10"], 1);
    assert_eq!(get_hc_options(&mut a), Ok(opts(true, 3, 10)));
}

#[test]
fn out_of_range_counts_are_ignored() {
    let mut a = cursor(&["t", "x", "--wickets", "11", "--overs", "0"], 1);
    assert_eq!(get_hc_options(&mut a), Ok(opts(false, 1, 4)));
}

#[test]
fn flag_without_number_is_an_error() {
    let mut a = cursor(&["t", "x", "--wickets", "many"], 1);
    assert_eq!(
        get_hc_options(&mut a),
        Err("Given value for `wickets` flag is not valid, try for a number from 1 to 10.".to_string())
    );
    let mut b = cursor(&["t", "x", "--overs"], 1);
    assert_eq!(
        get_hc_options(&mut b),
        Err("Given value for `overs` flag is not valid, try for a number from 1 to 10.".to_string())
    );
    let mut c = cursor(&["t", "x", "--overs", "300"], 1);
    assert!(get_hc_options(&mut c).is_err());
}

#[test]
fn cursor_single_and_advance() {
    let mut a = cursor(&["team", "--post"], 0);
    assert_eq!(a.single(), Some("team".to_string()));
    assert_eq!(a.current(), Some(&"--post".to_string()));
    a.advance();
    assert_eq!(a.current(), None);
    a.advance();
    assert_eq!(a.offset, 2);
    assert_eq!(a.single(), None);
}

#[test]
fn flag_groups_read_the_same_in_any_order() {
    let mut a = cursor(&["t", "x", "--post", "--wickets", "3", "--overs", "7"], 1);
    let mut b = cursor(&["t", "x", "--overs", "7", "--post", "--wickets", "3"], 1);
    let mut c = cursor(&["t", "x", "--wickets", "3", "--overs", "7", "--post"], 1);
    let ra = get_hc_options(&mut a);
    assert_eq!(ra, Ok(opts(true, 3, 7)));
    assert_eq!(get_hc_options(&mut b), ra);
    assert_eq!(get_hc_options(&mut c), ra);
}

#[test]
fn a_repeated_flag_keeps_its_last_valid_number() {
    let mut a = cursor(&["t", "x", "--wickets", "3", "--wickets", "5"], 1);
    assert_eq!(get_hc_options(&mut a), Ok(opts(false, 5, 4)));
    let mut b = cursor(&["t", "x", "--wickets", "5", "--wickets", "3"], 1);
    assert_eq!(get_hc_options(&mut b), Ok(opts(false, 3, 4)));
    let mut c = cursor(&["t", "x", "--overs", "6", "--overs", "20"], 1);
    assert_eq!(get_hc_options(&mut c), Ok(opts(false, 1, 6)));
}

#[test]
fn flag_groups_in_any_order_with_any_spelling() {
    let mut a = cursor(&["t", "x", "--wickets", "+3", "--overs", "07", "--post"], 1);
    let mut b = cursor(&["t", "x", "--post", "--overs", "07", "--wickets", "+3"], 1);
    let ra = get_hc_options(&mut a);
    assert_eq!(ra, Ok(opts(true, 3, 7)));
    assert_eq!(get_hc_options(&mut b), ra);
}
