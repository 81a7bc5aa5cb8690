//! The server's start-up and its end: the options it is started with, and
//! what the end of one of its three endpoints, or an interrupt, does to the
//! process.

use vstd::prelude::*;

verus! {

/// Where a daemon's output goes.
pub const DAEMON_LOG: &'static str = "/tmp/history-daemon.log";

/// Where a daemon works.
pub const DAEMON_DIR: &'static str = "/tmp";

/// The seconds between two samples of the monitor.
pub const MONITOR_PERIOD_SECS: u64 = 60;

/// The options of the server.
#[derive(Clone, Debug, PartialEq, Eq)]
pub struct ServerOptions {
    /// Become a daemon.
    pub daemonize: bool,
    /// The path of the database.
    pub history: String,
}

/// One of the three endpoints that the server runs side by side.
#[derive(Clone, Copy, Debug, PartialEq, Eq, Structural)]
pub enum Endpoint {
    Monitor,
    Ingest,
    Query,
}

/// What ends the server's wait.
#[derive(Clone, Debug, PartialEq, Eq)]
pub enum ServerEvent {
    /// An endpoint returned without an error.
    Returned(Endpoint),
    /// An endpoint returned with an error, or broke down; the text says
    /// how.
    Failed(Endpoint, String),
    /// The user interrupted the process.
    Interrupt,
}

/// How the process ends.
#[derive(Clone, Debug, PartialEq, Eq)]
pub enum Shutdown {
    /// Leave with this status at once.
    Exit(i32),
    /// Hand the error on, to end with a failure.
    Fail(String),
    /// End without an error.
    Finish,
}

/// A `Shutdown` with its text as a character sequence.
pub ghost enum ShutdownView {
    Exit(i32),
    Fail(Seq<char>),
    Finish,
}

impl View for Shutdown {
    type V = ShutdownView;

    open spec fn view(&self) -> ShutdownView {
        match *self {
            Shutdown::Exit(code) => ShutdownView::Exit(code),
            Shutdown::Fail(msg) => ShutdownView::Fail(msg@),
            Shutdown::Finish => ShutdownView::Finish,
        }
    }
}

/// How the process ends after the first event: an interrupt leaves with
/// status 1, an endpoint's error is handed on, and an endpoint that returns
/// without one ends the process without one.
pub open spec fn shutdown_of(ev: ServerEvent) -> ShutdownView {
    match ev {
        ServerEvent::Interrupt => ShutdownView::Exit(1),
        ServerEvent::Failed(_, msg) => ShutdownView::Fail(msg@),
        ServerEvent::Returned(_) => ShutdownView::Finish,
    }
}

/// Decides how the process ends after the first event.
pub fn shutdown_for(ev: ServerEvent) -> (end: Shutdown)
    ensures
        end@ == shutdown_of(ev),
{
    match ev {
        ServerEvent::Interrupt => Shutdown::Exit(1),
        ServerEvent::Failed(_, msg) => Shutdown::Fail(msg),
        ServerEvent::Returned(_) => Shutdown::Finish,
    }
}

} // verus!
