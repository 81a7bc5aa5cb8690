use histdb::util::getshorthostname;
use histdb::util::past_time;
use histdb::util::probe_answers;
use histdb::util::probe_target;
use histdb::util::session_from_path;
use histdb::util::short_hostname;
use histdb::util::to_decimal;
use histdb::util::Interval;
use histdb::util::SessionError;
use histdb::HISTDB_PORT;
use histdb::MAX_DATAGRAM_SIZE;

#[test]
fn a_host_name_is_cut_at_its_first_dot() {
    assert_eq!(short_hostname("pn50.example.com"), "pn50");
    assert_eq!(short_hostname("localhost"), "localhost");
    assert_eq!(short_hostname(".hidden"), "");
    assert_eq!(short_hostname(""), "");
    assert_eq!(short_hostname("a.b"), "a");
    assert_eq!(short_hostname("münchen.de"), "münchen");
}

#[test]
fn this_host_has_a_short_name() {
    let name = getshorthostname();
    assert!(!name.contains('.'));
    assert_eq!(name, gethostname::gethostname().to_string_lossy().split('.').next().unwrap());
}

#[test]
fn the_session_is_the_number_of_the_terminal() {
    assert_eq!(session_from_path("/dev/pts/3"), Ok(3));
    assert_eq!(session_from_path("/dev/pts/128"), Ok(128));
    assert_eq!(session_from_path("17"), Ok(17));
    assert_eq!(session_from_path("/dev/pts//dev/pts/12"), Ok(12));
    assert_eq!(session_from_path("/dev/tty"), Err(SessionError::NotANumber));
    assert_eq!(session_from_path("/dev/pts/"), Err(SessionError::NotANumber));
    assert_eq!(session_from_path("/dev/pts/3x"), Err(SessionError::NotANumber));
    assert_eq!(session_from_path(""), Err(SessionError::NotANumber));
}

#[test]
fn spans_look_into_the_past() {
    let now = 1_700_000_000;
    assert_eq!(past_time(now, Interval::Seconds(900)), Some(now - 900));
    assert_eq!(past_time(now, Interval::Seconds(-900)), Some(now - 900));
    assert_eq!(past_time(now, Interval::Seconds(0)), Some(now));
    assert_eq!(past_time(now, Interval::Days(2)), Some(now - 172_800));
    assert_eq!(past_time(now, Interval::Days(-2)), Some(now - 172_800));
    assert_eq!(past_time(now, Interval::Seconds(i32::MIN)), Some(now - 2_147_483_648));
    assert_eq!(past_time(i64::MIN, Interval::Seconds(1)), None);
    assert_eq!(past_time(i64::MIN + 86_400, Interval::Days(1)), Some(i64::MIN));
    assert_eq!(past_time(i64::MIN + 86_399, Interval::Days(1)), None);
}

#[test]
fn months_go_by_the_calendar() {
    // 2020-03-31 12:00:00 and 2020-02-29 12:00:00, universal time.
    assert_eq!(past_time(1_585_656_000, Interval::Months(1)), Some(1_582_977_600));
    assert_eq!(past_time(1_585_656_000, Interval::Months(-1)), Some(1_582_977_600));
    assert_eq!(past_time(1_585_656_000, Interval::Months(0)), Some(1_585_656_000));
    // Twelve months before is 2019-03-31 12:00:00.
    assert_eq!(past_time(1_585_656_000, Interval::Months(12)), Some(1_585_656_000 - 366 * 86_400));
    assert_eq!(past_time(1_585_656_000, Interval::Months(i32::MIN)), None);
    assert_eq!(past_time(i64::MAX, Interval::Months(1)), None);
}

#[test]
fn numbers_are_written_in_decimal() {
    assert_eq!(to_decimal(0), "0");
    assert_eq!(to_decimal(7), "7");
    assert_eq!(to_decimal(10), "10");
    assert_eq!(to_decimal(29080), "29080");
    assert_eq!(to_decimal(1_000_000), "1000000");
    assert_eq!(to_decimal(u64::MAX), "18446744073709551615");
    for n in [1u64, 9, 11, 99, 100, 101, 65_535, 4_294_967_296] {
        assert_eq!(to_decimal(n), n.to_string());
    }
}

#[test]
fn the_probe_sends_to_its_own_port() {
    assert_eq!(probe_target("127.0.0.1", 40123), "127.0.0.1:40123");
    assert_eq!(probe_target("some-host", 0), "some-host:0");
}

#[test]
fn the_probe_knows_its_own_datagram() {
    assert!(probe_answers(b"DEADBEEF"));
    assert!(!probe_answers(b"DEADBEE"));
    assert!(!probe_answers(b"DEADBEEFX"));
    assert!(!probe_answers(b"deadbeef"));
    assert!(!probe_answers(b""));
}

#[test]
fn the_service_has_one_port() {
    assert_eq!(HISTDB_PORT, 29080);
    assert_eq!(MAX_DATAGRAM_SIZE, 65_507);
}
