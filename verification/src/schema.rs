//! The tables of the store and their bootstrap.

use vstd::prelude::*;
use crate::store::execute_batch;
use crate::tcp::RpcError;

verus! {

/// The bootstrap: the three tables if they are not there, the version of the
/// schema, write-ahead logging, exclusive locking and relaxed syncing, and
/// the indices that the queries work with. A command line occurs once among
/// the commands, a pair of host and directory once among the places; a
/// second insertion of either is passed over.
pub const SCHEMA: &'static str =
    "
        create table if not exists commands (
            id integer primary key autoincrement,
            argv text,
            unique(argv) on conflict ignore
        );
        create table if not exists places (
            id integer primary key autoincrement,
            host text,
            dir text,
            unique(host, dir) on conflict ignore
        );
        create table if not exists history (
            id integer primary key autoincrement,
            session int,
            command_id int references commands (id),
            place_id int references places (id),
            exit_status int,
            end_time int);

        PRAGMA user_version = 1;
        PRAGMA journal_mode = WAL;
        PRAGMA locking_mode = EXCLUSIVE;
        PRAGMA synchronous = normal;

        create index if not exists hist_time on history(end_time);
        create index if not exists place_dir on places(dir);
        create index if not exists place_host on places(host);
        create index if not exists history_command_place on history(command_id, place_id);
";

/// Runs the bootstrap on `con`. What the database makes of it is the
/// database's own; a failure comes back as the error it reported.
pub fn create_schema(con: &rusqlite::Connection) -> (r: Result<(), RpcError>)
    ensures
        r matches Err(e) ==> e.reported(),
{
    match execute_batch(con, SCHEMA) {
        Ok(()) => Ok(()),
        Err(e) => Err(RpcError::from_sql(&e)),
    }
}

} // verus!
