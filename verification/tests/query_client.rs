use histdb::cli::query::date_pattern;
use histdb::cli::query::date_text;
use histdb::cli::query::CLOCK_PATTERN;
use histdb::cli::query::DAY_PATTERN;
use histdb::cli::query::FIRST_TIME;
use histdb::cli::query::LAST_TIME;
use histdb::cli::query::day_of;
use histdb::cli::query::header_keys;
use histdb::cli::query::keep_wide;
use histdb::cli::query::remove_zero_width_graphemes;
use histdb::cli::query::row_cells;
use histdb::cli::query::same_utc_day;
use histdb::cli::query::server_target;
use histdb::cli::query::ClientError;
use histdb::cli::query::NOT_CONFIGURED;
use histdb::cli::query::supports_shell;
use histdb::cli::query::Cell;
use histdb::cli::query::Columns;
use histdb::cli::query::QueryClientOptions;
use histdb::tcp::Query;
use histdb::tcp::QueryResultRow;

fn plain() -> QueryClientOptions {
    QueryClientOptions {
        limit: 25,
        session: None,
        since: None,
        until: None,
        status: None,
        desc: false,
        indir: None,
        at: None,
        host: None,
        exact: false,
        nh: false,
        eval: None,
        command: None,
    }
}

fn some(s: &str) -> Option<String> {
    Some(s.to_string())
}

#[test]
fn without_options_the_request_is_for_this_host() {
    let q = plain().to_query("pn50", "/home/me", 4, None, None);
    assert_eq!(
        q,
        Query {
            host: some("pn50"),
            command: None,
            exact: false,
            indir: None,
            atdir: None,
            session: None,
            status: None,
            since: None,
            until: None,
            desc: false,
            limit: 25,
        }
    );
}

#[test]
fn options_without_a_value_take_what_is_current() {
    let o = QueryClientOptions {
        session: Some(None),
        status: Some(None),
        indir: Some(None),
        at: Some(None),
        host: Some(None),
        ..plain()
    };
    let q = o.to_query("pn50", "/home/me", 4, Some(5), Some(6));
    assert_eq!(q.host, None);
    assert_eq!(q.indir, some("/home/me"));
    assert_eq!(q.atdir, some("/home/me"));
    assert_eq!(q.session, Some(4));
    assert_eq!(q.status, some("error"));
    assert_eq!(q.since, Some(5));
    assert_eq!(q.until, Some(6));
    assert!(o.needs_session());
    assert!(!plain().needs_session());
}

#[test]
fn options_with_a_value_keep_it() {
    let o = QueryClientOptions {
        limit: 3,
        session: Some(Some(9)),
        status: Some(some("2")),
        desc: true,
        indir: Some(some("/src")),
        at: Some(some("/doc")),
        host: Some(some("other")),
        exact: true,
        command: some("make"),
        ..plain()
    };
    let q = o.to_query("pn50", "/home/me", 4, None, None);
    assert_eq!(
        q,
        Query {
            host: some("other"),
            command: some("make"),
            exact: true,
            indir: some("/src"),
            atdir: some("/doc"),
            session: Some(9),
            status: some("2"),
            since: None,
            until: None,
            desc: true,
            limit: 3,
        }
    );
    assert!(!o.needs_session());
}

#[test]
fn the_columns_follow_the_options() {
    assert_eq!(plain().columns(), Columns { host: false, tty: true, dir: true });
    let all = QueryClientOptions { host: Some(None), ..plain() };
    assert_eq!(all.columns(), Columns { host: true, tty: true, dir: true });
    let named = QueryClientOptions { host: Some(some("x")), ..plain() };
    assert_eq!(named.columns(), Columns { host: false, tty: true, dir: true });
    let narrow = QueryClientOptions { session: Some(None), at: Some(some("/")), ..plain() };
    assert_eq!(narrow.columns(), Columns { host: false, tty: false, dir: false });
}

#[test]
fn the_headers_name_the_columns() {
    assert_eq!(plain().headers(), Some(vec!["time".to_string(), "tty".into(), "dir".into(), "cmd".into()]));
    assert_eq!(QueryClientOptions { nh: true, ..plain() }.headers(), None);
    assert_eq!(
        header_keys(Columns { host: true, tty: true, dir: true }),
        vec!["time", "host", "tty", "dir", "cmd"]
    );
    assert_eq!(header_keys(Columns { host: false, tty: false, dir: false }), vec!["time", "cmd"]);
    assert_eq!(header_keys(Columns { host: true, tty: false, dir: false }), vec!["time", "host", "cmd"]);
}

#[test]
fn a_row_gives_one_cell_for_each_column() {
    let row = QueryResultRow {
        time: 5,
        session: 3,
        argv: "ls -la".to_string(),
        dir: "/tmp".to_string(),
        host: "bob".to_string(),
    };
    assert_eq!(
        row_cells(&row, Columns { host: true, tty: true, dir: true }, "09/14".to_string()),
        vec![
            Cell::Text("09/14".to_string()),
            Cell::Text("bob".to_string()),
            Cell::Int(3),
            Cell::Text("/tmp".to_string()),
            Cell::Text("ls -la".to_string()),
        ]
    );
    assert_eq!(
        row_cells(&row, Columns { host: false, tty: false, dir: false }, "3:05PM".to_string()),
        vec![Cell::Text("3:05PM".to_string()), Cell::Text("ls -la".to_string())]
    );
    assert_eq!(
        row_cells(&row, Columns { host: false, tty: true, dir: false }, "x".to_string()),
        vec![Cell::Text("x".to_string()), Cell::Int(3), Cell::Text("ls -la".to_string())]
    );
}

#[test]
fn what_takes_no_column_is_taken_out() {
    assert_eq!(remove_zero_width_graphemes("plain text"), "plain text");
    assert_eq!(remove_zero_width_graphemes(""), "");
    assert_eq!(remove_zero_width_graphemes("ab\u{200b}c"), "abc");
    assert_eq!(remove_zero_width_graphemes("\u{200b}"), "");
    assert_eq!(remove_zero_width_graphemes("e\u{301}x"), "e\u{301}x");
    assert_eq!(remove_zero_width_graphemes("日本語"), "日本語");
    let row = QueryResultRow {
        time: 5,
        session: 3,
        argv: "l\u{200b}s".to_string(),
        dir: "/t\u{200b}mp".to_string(),
        host: "b\u{200b}ob".to_string(),
    };
    assert_eq!(
        row_cells(&row, Columns { host: true, tty: false, dir: true }, "d".to_string()),
        vec![
            Cell::Text("d".to_string()),
            Cell::Text("bob".to_string()),
            Cell::Text("/tmp".to_string()),
            Cell::Text("ls".to_string()),
        ]
    );
}

#[test]
fn clusters_are_kept_by_their_widths() {
    let clusters = vec!["a".to_string(), "b".to_string(), "cd".to_string()];
    assert_eq!(keep_wide(&clusters, &vec![1, 0, 2]), "acd");
    assert_eq!(keep_wide(&clusters, &vec![0, 0, 0]), "");
    assert_eq!(keep_wide(&clusters, &vec![1, 1, 1]), "abcd");
    assert_eq!(keep_wide(&Vec::new(), &Vec::new()), "");
    assert_eq!(keep_wide(&clusters, &vec![1, 1]), "");
}

#[test]
fn days_are_counted_in_universal_time() {
    assert_eq!(day_of(0), 0);
    assert_eq!(day_of(86_399), 0);
    assert_eq!(day_of(86_400), 1);
    assert_eq!(day_of(-1), -1);
    assert_eq!(day_of(-86_400), -1);
    assert_eq!(day_of(-86_401), -2);
    assert_eq!(day_of(1_700_000_000), 19_675);
    assert_eq!(day_of(i64::MAX), i64::MAX.div_euclid(86_400));
    assert_eq!(day_of(i64::MIN), i64::MIN.div_euclid(86_400));
    assert!(same_utc_day(1_700_000_000, 1_700_000_001));
    assert!(same_utc_day(19_675 * 86_400, 19_675 * 86_400 + 86_399));
    assert!(!same_utc_day(19_675 * 86_400 - 1, 19_675 * 86_400));
    assert!(!same_utc_day(-1, 0));
}

#[test]
fn the_date_cell_is_short() {
    // 2023-11-14 22:13:20 in universal time.
    assert_eq!(date_text(1_700_000_000, 1_700_000_100, 0), Some("10:13PM".to_string()));
    assert_eq!(date_text(1_700_000_000, 1_700_000_100, 3600), Some("11:13PM".to_string()));
    assert_eq!(date_text(1_700_000_000, 1_700_000_100, -8 * 3600), Some("2:13PM".to_string()));
    assert_eq!(date_text(1_700_000_000, 1_700_000_100, 2 * 3600), Some("12:13AM".to_string()));
    // 2020-09-13 12:26:40 in universal time.
    assert_eq!(date_text(1_600_000_000, 1_700_000_100, 0), Some("09/13".to_string()));
    assert_eq!(date_text(1_600_000_000, 1_700_000_100, 12 * 3600), Some("09/14".to_string()));
    assert_eq!(date_text(1_600_000_000, 1_700_000_100, -13 * 3600), Some("09/12".to_string()));
    assert_eq!(date_text(0, 86_400, 0), Some("01/01".to_string()));
    assert_eq!(date_text(0, 86_399, 0), Some("12:00AM".to_string()));
    assert_eq!(date_text(i64::MAX, 0, 0), None);
}

#[test]
fn a_zone_lies_less_than_a_day_from_universal_time() {
    assert!(date_text(0, 0, 86_399).is_some());
    assert!(date_text(0, 0, -86_399).is_some());
    assert_eq!(date_text(0, 0, 86_400), None);
    assert_eq!(date_text(0, 0, -86_400), None);
    assert_eq!(date_text(0, 0, i32::MAX), None);
    assert_eq!(date_text(0, 0, i32::MIN), None);
    assert_eq!(date_text(0, 86_400, 86_399), Some("01/01".to_string()));
    assert_eq!(date_text(0, 86_400, -1), Some("12/31".to_string()));
}

#[test]
fn only_bash_is_supported() {
    assert!(supports_shell("/bin/bash"));
    assert!(supports_shell("bash"));
    assert!(!supports_shell("/bin/zsh"));
    assert!(!supports_shell("/bin/bash "));
    assert!(!supports_shell(""));
}

#[test]
fn a_client_needs_the_address_of_the_server() {
    assert_eq!(server_target(Some("10.0.0.7"), 29080), Ok("10.0.0.7:29080".to_string()));
    assert_eq!(server_target(None, 29080), Err(ClientError::NotConfigured));
    assert!(NOT_CONFIGURED.contains("__history_server"));
    assert!(NOT_CONFIGURED.contains(".bashrc"));
}

#[test]
fn a_date_is_written_for_every_time_of_the_calendar() {
    assert_eq!(FIRST_TIME, -8_334_601_228_800);
    assert_eq!(LAST_TIME, 8_210_266_876_799);
    assert!(date_text(LAST_TIME, 0, 0).is_some());
    assert!(date_text(LAST_TIME, LAST_TIME, 0).is_some());
    assert!(date_text(LAST_TIME + 1, 0, 0).is_none());
    assert!(date_text(LAST_TIME + 1, LAST_TIME + 1, 0).is_none());
    assert!(date_text(FIRST_TIME, 0, 0).is_some());
    assert!(date_text(FIRST_TIME, FIRST_TIME, 0).is_some());
    assert!(date_text(FIRST_TIME - 1, 0, 0).is_none());
    assert!(date_text(FIRST_TIME - 1, FIRST_TIME - 1, 0).is_none());
    assert!(date_text(0, 0, 0).is_some());
    for offset in [86_399, -86_399] {
        assert!(date_text(LAST_TIME, 0, offset).is_some());
        assert!(date_text(LAST_TIME, LAST_TIME, offset).is_some());
        assert!(date_text(FIRST_TIME, 0, offset).is_some());
        assert!(date_text(FIRST_TIME, FIRST_TIME, offset).is_some());
        assert!(date_text(LAST_TIME + 1, 0, offset).is_none());
        assert!(date_text(FIRST_TIME - 1, 0, offset).is_none());
    }
    assert!(date_text(i64::MIN, 0, 0).is_none());
    assert_eq!(
        chrono::DateTime::from_timestamp(FIRST_TIME, 0).map(|t| t.naive_utc().date()),
        Some(chrono::NaiveDate::MIN)
    );
    assert_eq!(
        chrono::DateTime::from_timestamp(LAST_TIME, 0).map(|t| t.naive_utc().date()),
        Some(chrono::NaiveDate::MAX)
    );
}

#[test]
fn the_pattern_goes_by_the_day() {
    assert_eq!(date_pattern(1_700_000_000, 1_700_000_100), CLOCK_PATTERN);
    assert_eq!(date_pattern(1_700_000_000, 1_700_000_000), CLOCK_PATTERN);
    assert_eq!(date_pattern(1_600_000_000, 1_700_000_100), DAY_PATTERN);
    assert_eq!(date_pattern(19_675 * 86_400 - 1, 19_675 * 86_400), DAY_PATTERN);
    assert_eq!(date_pattern(19_675 * 86_400, 19_675 * 86_400 + 86_399), CLOCK_PATTERN);
    assert_eq!(CLOCK_PATTERN, "%-I:%M%p");
    assert_eq!(DAY_PATTERN, "%m/%d");
}
