use histdb::cli::eval::bash_eval_string;
use histdb::cli::eval::eval_script;
use histdb::cli::eval::launch_line;
use histdb::cli::eval::EVAL_TEMPLATE;
use histdb::cli::server::shutdown_for;
use histdb::cli::server::Endpoint;
use histdb::cli::server::ServerEvent;
use histdb::cli::server::ServerOptions;
use histdb::cli::server::Shutdown;
use histdb::cli::server::DAEMON_DIR;
use histdb::cli::server::DAEMON_LOG;

#[test]
fn the_server_is_started_as_a_daemon() {
    assert_eq!(
        launch_line("/usr/bin/histdb"),
        "__history_mode=\"server\" /usr/bin/histdb --daemonize $HOME/.histdb.db"
    );
}

#[test]
fn the_fragment_has_its_marks_replaced() {
    let script = eval_script("/usr/bin/histdb", "10.0.0.7", "pn50", 29080);
    assert!(script.starts_with("export __history_server=\"10.0.0.7\"\n"));
    assert!(script.contains("\"pn50\" \"$EXIT\" \"$(pwd)\" \"$(command history 1)\" > /dev/udp/10.0.0.7/29080\n"));
    assert!(script.contains("__history_mode=isearch __history_pwd=$(pwd) /usr/bin/histdb 3>&1 1>&2 2>&3"));
    assert!(script.contains("    __history_pwd=$(pwd) /usr/bin/histdb \"$@\"\n"));
    assert!(script.contains("bind -x '\"\\C-r\": __history_interactive'"));
    assert!(!script.contains("@history_"));
    assert!(!script.contains("@HISTORY_PORT@"));
    assert_eq!(
        script,
        EVAL_TEMPLATE
            .replace("@history_EXE@", "/usr/bin/histdb")
            .replace("@history_ADDR@", "10.0.0.7")
            .replace("@history_HOSTNAME@", "pn50")
            .replace("@HISTORY_PORT@", "29080")
    );
}

#[test]
fn the_server_is_started_only_where_the_address_leads_back() {
    let here = bash_eval_string("/h", "127.0.0.1", "pn50", 29080, true);
    let elsewhere = bash_eval_string("/h", "127.0.0.1", "pn50", 29080, false);
    let script = eval_script("/h", "127.0.0.1", "pn50", 29080);
    assert_eq!(elsewhere, format!("{}\n", script));
    assert_eq!(here, format!("{}\n{}\n", launch_line("/h"), script));
}

#[test]
fn the_first_event_ends_the_server() {
    assert_eq!(shutdown_for(ServerEvent::Interrupt), Shutdown::Exit(1));
    assert_eq!(shutdown_for(ServerEvent::Returned(Endpoint::Monitor)), Shutdown::Finish);
    assert_eq!(
        shutdown_for(ServerEvent::Failed(Endpoint::Ingest, "socket closed".to_string())),
        Shutdown::Fail("socket closed".to_string())
    );
    assert_eq!(
        shutdown_for(ServerEvent::Failed(Endpoint::Query, "bind".to_string())),
        Shutdown::Fail("bind".to_string())
    );
}

#[test]
fn a_daemon_works_under_tmp() {
    assert_eq!(DAEMON_LOG, "/tmp/history-daemon.log");
    assert_eq!(DAEMON_DIR, "/tmp");
    let options = ServerOptions { daemonize: true, history: "/home/me/.histdb.db".to_string() };
    assert!(options.daemonize);
    assert_eq!(options.history, "/home/me/.histdb.db");
}
