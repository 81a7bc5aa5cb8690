use histdb::tcp::arrange;
use histdb::tcp::check_rows;
use histdb::tcp::distinct_groups;
use histdb::tcp::row_fits;
use histdb::tcp::argv_rows;
use histdb::tcp::isearch_statement;
use histdb::tcp::like_escape;
use histdb::tcp::query_statement;
use histdb::tcp::same_text;
use histdb::tcp::settle_query;
use histdb::tcp::settle_search;
use histdb::tcp::RpcError;
use histdb::tcp::MISFIT;
use histdb::tcp::IsearchQuery;
use histdb::tcp::Query;
use histdb::tcp::QueryResultRow;
use histdb::tcp::SqlType;
use histdb::tcp::ISEARCH_SQL;
use histdb::udp::after_insertion;
use histdb::udp::command_insert;
use histdb::udp::command_lookup;
use histdb::udp::command_params;
use histdb::udp::history_statement;
use histdb::udp::place_insert;
use histdb::udp::place_lookup;
use histdb::udp::Upsert;
use histdb::tcp::SqlStatement;
use histdb::udp::history_params;
use histdb::udp::place_params;
use histdb::udp::RpcMessage;

fn text(s: &str) -> SqlType {
    SqlType::String(s.to_string())
}

fn row(time: i64, argv: &str) -> QueryResultRow {
    QueryResultRow { time, session: 1, argv: argv.to_string(), dir: "/".to_string(), host: "h".to_string() }
}

const HEAD: &str = "SELECT end_time, session, argv, dir, host, max(end_time) as max_time FROM commands JOIN history on history.command_id = commands.id JOIN places on history.place_id = places.id WHERE ";
const TAIL: &str = " GROUP BY history.command_id, history.place_id ORDER BY max_time DESC LIMIT ?";

#[test]
fn a_query_without_filters_asks_for_everything() {
    let st = query_statement(&Query {
        host: None,
        command: None,
        exact: false,
        indir: None,
        atdir: None,
        session: None,
        status: None,
        since: None,
        until: None,
        desc: false,
        limit: 25,
    });
    assert_eq!(st.sql, format!("{}1 AND 1 AND 1 AND 1 AND 1 AND 1 AND 1 AND 1{}", HEAD, TAIL));
    assert_eq!(st.params, vec![SqlType::Int(25)]);
}

#[test]
fn a_query_with_every_filter_binds_them_in_order() {
    let st = query_statement(&Query {
        host: Some("bob".to_string()),
        command: Some("ls".to_string()),
        exact: false,
        indir: Some("/a_b".to_string()),
        atdir: Some("/a_b/c".to_string()),
        session: Some(-4),
        status: Some("3".to_string()),
        since: Some(10),
        until: Some(20),
        desc: true,
        limit: -1,
    });
    assert_eq!(
        st.sql,
        format!(
            "{}places.host = ? AND commands.argv GLOB ? AND substr(places.dir, 1, length(?)) = ? AND places.dir = ? AND session = ? AND cast(history.exit_status as str) = ? AND history.end_time >= ? AND history.end_time <= ?{}",
            HEAD, TAIL
        )
    );
    assert_eq!(
        st.params,
        vec![
            text("bob"),
            text("*ls*"),
            text("/a_b"),
            text("/a_b"),
            text("/a_b/c"),
            SqlType::Int(-4),
            text("3"),
            SqlType::Int(10),
            SqlType::Int(20),
            SqlType::Int(-1),
        ]
    );
}

#[test]
fn an_exact_command_and_the_error_status_bind_differently() {
    let st = query_statement(&Query {
        host: None,
        command: Some("ls".to_string()),
        exact: true,
        indir: None,
        atdir: None,
        session: None,
        status: Some("error".to_string()),
        since: None,
        until: None,
        desc: false,
        limit: 5,
    });
    assert_eq!(
        st.sql,
        format!(
            "{}1 AND commands.argv = ? AND 1 AND 1 AND 1 AND history.exit_status > 0 AND 1 AND 1{}",
            HEAD, TAIL
        )
    );
    assert_eq!(st.params, vec![text("ls"), SqlType::Int(5)]);
}

#[test]
fn the_search_escapes_its_texts() {
    let st = isearch_statement(&IsearchQuery {
        command: "50%_off".to_string(),
        dir: "/my_dir".to_string(),
        limit: 1,
        offset: 7,
    });
    assert_eq!(st.sql, ISEARCH_SQL);
    assert_eq!(
        st.params,
        vec![text("50\\%\\_off"), text("/my\\_dir"), SqlType::Int(1), SqlType::Int(7)]
    );
}

#[test]
fn escaping_puts_a_backslash_before_each_wildcard() {
    assert_eq!(like_escape(""), "");
    assert_eq!(like_escape("plain"), "plain");
    assert_eq!(like_escape("%"), "\\%");
    assert_eq!(like_escape("_"), "\\_");
    assert_eq!(like_escape("a%b_c"), "a\\%b\\_c");
    assert_eq!(like_escape("%%__"), "\\%\\%\\_\\_");
    assert_eq!(like_escape("back\\slash"), "back\\slash");
    assert_eq!(like_escape("ünï_cödé"), "ünï\\_cödé");
}

#[test]
fn escaping_agrees_with_two_replacements() {
    for s in ["", "%", "_%", "a_b%c", "100%", "__init__", "\\%", "x"] {
        assert_eq!(like_escape(s), s.replace("%", "\\%").replace("_", "\\_"));
    }
}

#[test]
fn texts_compare_by_their_characters() {
    assert!(same_text("error", "error"));
    assert!(!same_text("error", "errors"));
    assert!(!same_text("error", "errar"));
    assert!(same_text("", ""));
}

#[test]
fn rows_are_turned_round_unless_desc() {
    let rows = vec![row(30, "c"), row(20, "b"), row(10, "a")];
    assert_eq!(arrange(rows.clone(), true), rows);
    assert_eq!(arrange(rows.clone(), false), vec![row(10, "a"), row(20, "b"), row(30, "c")]);
    assert_eq!(arrange(Vec::new(), false), Vec::<QueryResultRow>::new());
    assert_eq!(arrange(vec![row(1, "x")], false), vec![row(1, "x")]);
}

#[test]
fn search_rows_carry_the_command_line_alone() {
    let rows = argv_rows(vec!["one".to_string(), "two".to_string(), "three".to_string()]);
    assert_eq!(rows.len(), 3);
    assert_eq!(rows[0].argv, "one");
    assert_eq!(rows[1].argv, "two");
    assert_eq!(rows[2].argv, "three");
    for r in rows {
        assert_eq!((r.time, r.session, r.dir.as_str(), r.host.as_str()), (0, 0, "", ""));
    }
}

#[test]
fn an_event_binds_its_fields() {
    let msg = RpcMessage {
        host: "bob".to_string(),
        session: 3,
        exit_status: 1,
        dir: "/tmp".to_string(),
        argv: "ls".to_string(),
        time: 99,
    };
    assert_eq!(command_params(&msg), vec![text("ls")]);
    assert_eq!(place_params(&msg), vec![text("bob"), text("/tmp")]);
    assert_eq!(
        history_params(&msg, 11, 12),
        Some(vec![
            SqlType::Int(3),
            SqlType::Int(11),
            SqlType::Int(12),
            SqlType::Int(1),
            SqlType::Int(99)
        ])
    );
    let late = RpcMessage { time: (i64::MAX as u64) + 1, ..msg.clone() };
    assert_eq!(history_params(&late, 11, 12), None);
    let last = RpcMessage { time: i64::MAX as u64, ..msg };
    assert!(history_params(&last, 11, 12).is_some());
}

fn filter() -> Query {
    Query {
        host: Some("h".to_string()),
        command: Some("make".to_string()),
        exact: true,
        indir: Some("/src".to_string()),
        atdir: None,
        session: Some(1),
        status: None,
        since: Some(10),
        until: Some(20),
        desc: false,
        limit: 2,
    }
}

fn hit(time: i64) -> QueryResultRow {
    QueryResultRow {
        time,
        session: 1,
        argv: "make".to_string(),
        dir: "/src/lib".to_string(),
        host: "h".to_string(),
    }
}

#[test]
fn a_row_passes_the_filters_it_shows() {
    let q = filter();
    assert!(row_fits(&q, &hit(10)));
    assert!(row_fits(&q, &hit(20)));
    assert!(!row_fits(&q, &hit(9)));
    assert!(!row_fits(&q, &hit(21)));
    assert!(!row_fits(&q, &QueryResultRow { host: "g".to_string(), ..hit(15) }));
    assert!(!row_fits(&q, &QueryResultRow { argv: "make test".to_string(), ..hit(15) }));
    assert!(!row_fits(&q, &QueryResultRow { dir: "/sr".to_string(), ..hit(15) }));
    assert!(!row_fits(&q, &QueryResultRow { dir: "/SRC/lib".to_string(), ..hit(15) }));
    assert!(!row_fits(&q, &QueryResultRow { session: 2, ..hit(15) }));
    let glob = Query { exact: false, ..filter() };
    assert!(row_fits(&glob, &QueryResultRow { argv: "cmake".to_string(), ..hit(15) }));
    let at = Query { atdir: Some("/src/lib".to_string()), ..filter() };
    assert!(row_fits(&at, &hit(15)));
    let at = Query { atdir: Some("/src".to_string()), ..filter() };
    assert!(!row_fits(&at, &hit(15)));
}

#[test]
fn a_store_must_answer_the_request() {
    let q = filter();
    assert!(check_rows(&q, &vec![]));
    assert!(!check_rows(&q, &vec![hit(20), hit(10)]));
    assert!(check_rows(
        &q,
        &vec![hit(20), QueryResultRow { dir: "/src".to_string(), ..hit(10) }]
    ));
    assert!(!check_rows(&q, &vec![hit(15), hit(15)]));
    assert!(check_rows(
        &q,
        &vec![hit(15), QueryResultRow { dir: "/src/bin".to_string(), ..hit(15) }]
    ));
    assert!(!check_rows(&q, &vec![hit(10), hit(20)]));
    assert!(!check_rows(&q, &vec![hit(20), hit(15), hit(10)]));
    assert!(!check_rows(&q, &vec![hit(20), hit(5)]));
    let any = Query { limit: -1, ..filter() };
    assert!(check_rows(
        &any,
        &vec![
            hit(20),
            QueryResultRow { dir: "/src/a".to_string(), ..hit(15) },
            QueryResultRow { dir: "/src/b".to_string(), ..hit(10) },
        ]
    ));
    let none = Query { limit: 0, ..filter() };
    assert!(check_rows(&none, &vec![]));
    assert!(!check_rows(&none, &vec![hit(15)]));
}

#[test]
fn a_group_may_be_shown_once() {
    assert!(distinct_groups(&vec![]));
    assert!(distinct_groups(&vec![row(1, "a")]));
    assert!(distinct_groups(&vec![row(1, "a"), row(1, "b"), row(1, "c")]));
    assert!(!distinct_groups(&vec![row(1, "a"), row(2, "b"), row(3, "a")]));
    assert!(!distinct_groups(&vec![row(1, "a"), row(1, "a")]));
    let here = row(1, "a");
    let there = QueryResultRow { dir: "/x".to_string(), ..row(1, "a") };
    let other = QueryResultRow { host: "g".to_string(), ..row(1, "a") };
    assert!(distinct_groups(&vec![here, there, other]));
    // Texts that run into each other are still told apart.
    let one = QueryResultRow { argv: "ab".to_string(), dir: "c".to_string(), ..row(1, "") };
    let two = QueryResultRow { argv: "a".to_string(), dir: "bc".to_string(), ..row(1, "") };
    assert!(distinct_groups(&vec![one, two]));
    let many: Vec<QueryResultRow> = (0..2000).map(|i| row(i, &format!("cmd {}", i))).collect();
    assert!(distinct_groups(&many));
}

fn misfit<T>() -> Result<T, RpcError> {
    Err(RpcError::SqlError { msg: MISFIT.to_string() })
}

#[test]
fn rows_that_fit_are_arranged_and_others_refused() {
    let q = filter();
    let there = QueryResultRow { dir: "/src".to_string(), ..hit(10) };
    assert_eq!(
        settle_query(&q, vec![hit(20), there.clone()]),
        Ok(vec![there.clone(), hit(20)])
    );
    let down = Query { desc: true, ..filter() };
    assert_eq!(
        settle_query(&down, vec![hit(20), there.clone()]),
        Ok(vec![hit(20), there.clone()])
    );
    assert_eq!(settle_query(&q, vec![]), Ok(vec![]));
    assert_eq!(settle_query(&q, vec![there.clone(), hit(20)]), misfit());
    assert_eq!(settle_query(&q, vec![hit(20), hit(20)]), misfit());
    assert_eq!(settle_query(&q, vec![hit(30)]), misfit());
    assert_eq!(MISFIT, "the store answered against the request");
}

#[test]
fn lines_within_the_limit_become_rows() {
    let q = IsearchQuery { command: "x".to_string(), dir: "/".to_string(), limit: 2, offset: 0 };
    let rows = settle_search(&q, vec!["one".to_string(), "two".to_string()]).unwrap();
    assert_eq!(rows.len(), 2);
    assert_eq!(rows[0].argv, "one");
    assert_eq!(rows[1].argv, "two");
    assert_eq!((rows[0].time, rows[0].session), (0, 0));
    assert_eq!(settle_search(&q, vec![]), Ok(vec![]));
    assert_eq!(
        settle_search(&q, vec!["a".to_string(), "b".to_string(), "c".to_string()]),
        misfit()
    );
}

#[test]
fn a_failure_of_the_database_keeps_its_message() {
    let e = rusqlite::Error::QueryReturnedNoRows;
    assert_eq!(RpcError::from_sql(&e), RpcError::SqlError { msg: e.to_string() });
    let e = rusqlite::Error::InvalidColumnIndex(7);
    assert_eq!(RpcError::from_sql(&e), RpcError::SqlError { msg: format!("{}", e) });
    assert!(!e.to_string().is_empty());
}

#[test]
fn each_statement_goes_with_its_own_values() {
    let msg = RpcMessage {
        host: "bob".to_string(),
        session: 3,
        exit_status: 1,
        dir: "/tmp".to_string(),
        argv: "ls".to_string(),
        time: 99,
    };
    assert_eq!(
        command_insert(&msg),
        SqlStatement {
            sql: "insert into commands (argv) values (?)".to_string(),
            params: vec![text("ls")],
        }
    );
    assert_eq!(
        command_lookup(&msg),
        SqlStatement {
            sql: "select id from commands where argv = ?".to_string(),
            params: vec![text("ls")],
        }
    );
    assert_eq!(
        place_insert(&msg),
        SqlStatement {
            sql: "insert into places (host, dir) values (?, ?)".to_string(),
            params: vec![text("bob"), text("/tmp")],
        }
    );
    assert_eq!(
        place_lookup(&msg),
        SqlStatement {
            sql: "select id from places where host = ? AND dir = ?".to_string(),
            params: vec![text("bob"), text("/tmp")],
        }
    );
    assert_eq!(
        history_statement(&msg, 11, 12),
        Some(SqlStatement {
            sql: "insert into history (session, command_id, place_id, exit_status, end_time) values (?, ?, ?, ?, ?)".to_string(),
            params: vec![
                SqlType::Int(3),
                SqlType::Int(11),
                SqlType::Int(12),
                SqlType::Int(1),
                SqlType::Int(99)
            ],
        })
    );
    let late = RpcMessage { time: u64::MAX, ..msg };
    assert_eq!(history_statement(&late, 11, 12), None);
}

#[test]
fn a_row_that_was_not_inserted_is_looked_up() {
    assert_eq!(after_insertion(&Ok(7)), Upsert::Done(7));
    assert_eq!(after_insertion(&Ok(-1)), Upsert::Done(-1));
    assert_eq!(
        after_insertion(&Err(rusqlite::Error::StatementChangedRows(0))),
        Upsert::LookUp
    );
    assert_eq!(after_insertion(&Err(rusqlite::Error::QueryReturnedNoRows)), Upsert::LookUp);
}
