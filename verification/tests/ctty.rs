use histdb::ctty::find_path_for_dev;
use histdb::ctty::parse_ctty_dev;
use histdb::ctty::CttyError;
use histdb::ctty::Terminal;

fn terminal(path: &str, rdev: u64) -> Terminal {
    Terminal { path: path.to_string(), rdev }
}

#[test]
fn the_device_is_the_fifth_word_behind_the_name() {
    let stat = "12345 (cat) R 12344 12345 12344 34817 12345 4194304 92 0 0 0 0 0 0 0 20 0 1 0";
    assert_eq!(parse_ctty_dev(stat), Ok(34817));
}

#[test]
fn a_name_with_spaces_and_parentheses_is_passed_over() {
    let stat = "77 (my (odd) name)) S 1 77 77 34816 77 0";
    assert_eq!(parse_ctty_dev(stat), Ok(34816));
    assert_eq!(parse_ctty_dev("1 (a)  \t S\n0   1 1 34818"), Ok(34818));
}

#[test]
fn a_negative_device_wraps_round() {
    assert_eq!(parse_ctty_dev("1 (x) S 0 1 1 -1 5"), Ok(u64::MAX));
    assert_eq!(parse_ctty_dev("1 (x) S 0 1 1 -2 5"), Ok(u64::MAX - 1));
    assert_eq!(parse_ctty_dev("1 (x) S 0 1 1 0 5"), Ok(0));
}

#[test]
fn a_line_that_is_not_made_as_expected_is_an_error() {
    for stat in [
        "",
        "no parenthesis at all",
        ") S 0 1 1 34816 1",
        "1 (x)",
        "1 (x) ",
        "1 (x) S 0 1 1",
        "1 (x) S 0 1 1 tty 5",
        "1 (x) S 0 1 1 99999999999 5",
        "1 (x)é S 0 1 1 34816 5",
    ] {
        assert_eq!(parse_ctty_dev(stat), Err(CttyError::SystemDataParseFailure), "{:?}", stat);
    }
}

#[test]
fn the_character_behind_the_name_is_passed_over() {
    assert_eq!(parse_ctty_dev("1 (x)XS 0 1 1 34816 5"), Ok(34816));
}

#[test]
fn the_first_terminal_with_the_device_is_picked() {
    let found = vec![
        terminal("/dev/pts/0", 34816),
        terminal("/dev/pts/1", 34817),
        terminal("/dev/pts/2", 34817),
        terminal("/dev/tty", 1280),
    ];
    assert_eq!(find_path_for_dev(34817, &found), Ok("/dev/pts/1".to_string()));
    assert_eq!(find_path_for_dev(34816, &found), Ok("/dev/pts/0".to_string()));
    assert_eq!(find_path_for_dev(1280, &found), Ok("/dev/tty".to_string()));
    assert_eq!(find_path_for_dev(5, &found), Err(CttyError::NotFound));
    assert_eq!(find_path_for_dev(5, &Vec::new()), Err(CttyError::NotFound));
}

#[test]
fn the_errors_say_what_went_wrong() {
    assert_eq!(CttyError::NotFound.message(), "Controlling TTY for this process not found");
    assert_eq!(
        CttyError::SystemDataParseFailure.message(),
        "System returned invalid data when looking up CTTY"
    );
    assert_eq!(CttyError::IOError("denied".to_string()).message(), "denied");
}
