//! The query service: the two requests, the statements they become, and the
//! rows they give back.

use std::collections::HashSet;
use vstd::prelude::*;
use vstd::multiset::Multiset;
use vstd::string::*;
use crate::store::prepare;
use crate::store::statement_history_rows;
use crate::store::statement_text_rows;
use crate::store::to_values;
use crate::text::from_chars;
use crate::text::starts_with;
use crate::text::to_chars;

verus! {

/// What a request can fail with, each kind with a message for the user.
#[derive(Clone, Debug, PartialEq, Eq)]
pub enum RpcError {
    InvalidFilename { path: String },
    IoError { msg: String },
    SqlError { msg: String },
    OtherError { msg: String },
}

/// Whether a text is what an error of the database displays.
pub open spec fn displays(cause: rusqlite::Error, msg: String) -> bool {
    vstd::string::to_string_from_display_ensures::<rusqlite::Error>(&cause, msg)
}

impl RpcError {
    /// Whether the error hands on a failure that the database reported: it
    /// is an `SqlError`, and its message is what an error of the database
    /// displays.
    pub open spec fn reported(&self) -> bool {
        match *self {
            RpcError::SqlError { msg } => exists|cause: rusqlite::Error| #[trigger] displays(cause, msg),
            _ => false,
        }
    }

    /// Whether the error says that the store gave rows that are no answer
    /// to the request.
    pub open spec fn misfit(&self) -> bool {
        match *self {
            RpcError::SqlError { msg } => msg@ == MISFIT@,
            _ => false,
        }
    }

    /// The error for a failure that the database reported: its message is
    /// what the database's error displays.
    pub fn from_sql(e: &rusqlite::Error) -> (err: RpcError)
        ensures
            match err {
                RpcError::SqlError { msg } => displays(*e, msg),
                _ => false,
            },
            err.reported(),
    {
        let err = RpcError::SqlError { msg: e.to_string() };
        assert(err matches RpcError::SqlError { msg } && displays(*e, msg));
        err
    }

    /// The kind of the error followed by its message.
    pub open spec fn message_text(&self) -> Seq<char> {
        match *self {
            RpcError::InvalidFilename { path } => "Invalid filename: "@ + path@,
            RpcError::IoError { msg } => "IoError: "@ + msg@,
            RpcError::SqlError { msg } => "SqlError: "@ + msg@,
            RpcError::OtherError { msg } => "OtherError: "@ + msg@,
        }
    }

    /// The kind of the error followed by its message.
    pub fn message(&self) -> (text: String)
        ensures
            text@ == self.message_text(),
    {
        match self {
            RpcError::InvalidFilename { path } => String::from_str("Invalid filename: ").concat(
                path.as_str(),
            ),
            RpcError::IoError { msg } => String::from_str("IoError: ").concat(msg.as_str()),
            RpcError::SqlError { msg } => String::from_str("SqlError: ").concat(msg.as_str()),
            RpcError::OtherError { msg } => String::from_str("OtherError: ").concat(msg.as_str()),
        }
    }
}

/// A filter over the recorded history.
#[derive(Clone, Debug, PartialEq, Eq)]
pub struct Query {
    pub host: Option<String>,
    pub command: Option<String>,
    pub exact: bool,
    pub indir: Option<String>,
    pub atdir: Option<String>,
    pub session: Option<i32>,
    pub status: Option<String>,
    pub since: Option<i64>,
    pub until: Option<i64>,
    pub desc: bool,
    pub limit: i32,
}

/// A `Query` with its texts as character sequences.
pub ghost struct QueryView {
    pub host: Option<Seq<char>>,
    pub command: Option<Seq<char>>,
    pub exact: bool,
    pub indir: Option<Seq<char>>,
    pub atdir: Option<Seq<char>>,
    pub session: Option<i32>,
    pub status: Option<Seq<char>>,
    pub since: Option<i64>,
    pub until: Option<i64>,
    pub desc: bool,
    pub limit: i32,
}

/// The characters of an optional text.
pub open spec fn text_of(s: Option<String>) -> Option<Seq<char>> {
    match s {
        Some(t) => Some(t@),
        None => None,
    }
}

impl View for Query {
    type V = QueryView;

    open spec fn view(&self) -> QueryView {
        QueryView {
            host: text_of(self.host),
            command: text_of(self.command),
            exact: self.exact,
            indir: text_of(self.indir),
            atdir: text_of(self.atdir),
            session: self.session,
            status: text_of(self.status),
            since: self.since,
            until: self.until,
            desc: self.desc,
            limit: self.limit,
        }
    }
}

/// One step of an incremental reverse search.
#[derive(Clone, Debug, PartialEq, Eq)]
pub struct IsearchQuery {
    pub command: String,
    pub dir: String,
    pub limit: u32,
    pub offset: u32,
}

/// An `IsearchQuery` with its texts as character sequences.
pub ghost struct IsearchQueryView {
    pub command: Seq<char>,
    pub dir: Seq<char>,
    pub limit: u32,
    pub offset: u32,
}

impl View for IsearchQuery {
    type V = IsearchQueryView;

    open spec fn view(&self) -> IsearchQueryView {
        IsearchQueryView {
            command: self.command@,
            dir: self.dir@,
            limit: self.limit,
            offset: self.offset,
        }
    }
}

/// One row of an answer.
#[derive(Clone, Debug, PartialEq, Eq)]
pub struct QueryResultRow {
    pub time: i64,
    pub session: i32,
    pub argv: String,
    pub dir: String,
    pub host: String,
}

/// A `QueryResultRow` with its texts as character sequences.
pub ghost struct RowView {
    pub time: i64,
    pub session: i32,
    pub argv: Seq<char>,
    pub dir: Seq<char>,
    pub host: Seq<char>,
}

impl View for QueryResultRow {
    type V = RowView;

    open spec fn view(&self) -> RowView {
        RowView {
            time: self.time,
            session: self.session,
            argv: self.argv@,
            dir: self.dir@,
            host: self.host@,
        }
    }
}

/// A value bound to a parameter of a statement.
#[derive(Clone, Debug, PartialEq, Eq)]
pub enum SqlType {
    Int(i64),
    String(String),
}

/// A bound value with its text as a character sequence.
pub ghost enum SqlValue {
    Int(i64),
    Text(Seq<char>),
}

impl View for SqlType {
    type V = SqlValue;

    open spec fn view(&self) -> SqlValue {
        match *self {
            SqlType::Int(i) => SqlValue::Int(i),
            SqlType::String(s) => SqlValue::Text(s@),
        }
    }
}

/// A statement and the values bound to its parameters, by position.
#[derive(Clone, Debug, PartialEq, Eq)]
pub struct SqlStatement {
    pub sql: String,
    pub params: Vec<SqlType>,
}

/// A `SqlStatement` as text and bound values.
pub ghost struct SqlStatementView {
    pub sql: Seq<char>,
    pub params: Seq<SqlValue>,
}

/// The bound values behind a list of parameters.
pub open spec fn values_of(params: Seq<SqlType>) -> Seq<SqlValue> {
    Seq::new(params.len(), |i: int| params[i]@)
}

impl View for SqlStatement {
    type V = SqlStatementView;

    open spec fn view(&self) -> SqlStatementView {
        SqlStatementView { sql: self.sql@, params: values_of(self.params@) }
    }
}

/// The character that escapes a wildcard in a `LIKE` pattern.
pub open spec fn like_escape_char() -> char {
    '\\'
}

/// A character as it stands in an escaped pattern: `%` and `_` behind a
/// backslash, every other character alone.
pub open spec fn escaped_char(c: char) -> Seq<char> {
    if c == '%' || c == '_' {
        seq![like_escape_char(), c]
    } else {
        seq![c]
    }
}

/// `s` with a backslash put before every `%` and every `_`.
pub open spec fn like_escaped(s: Seq<char>) -> Seq<char>
    decreases s.len(),
{
    if s.len() == 0 {
        Seq::<char>::empty()
    } else {
        escaped_char(s[0]) + like_escaped(s.skip(1))
    }
}

/// Puts a backslash before every `%` and every `_` of `s`, so that a `LIKE`
/// pattern with the backslash as escape character takes them literally.
pub fn like_escape(s: &str) -> (out: String)
    ensures
        out@ == like_escaped(s@),
{
    let chars = to_chars(s);
    let mut out: Vec<char> = Vec::new();
    let mut i: usize = 0;
    assert(s@.skip(0) =~= s@);
    assert(out@ + like_escaped(s@) =~= like_escaped(s@));
    while i < chars.len()
        invariant
            i <= chars.len(),
            chars@ == s@,
            out@ + like_escaped(s@.skip(i as int)) == like_escaped(s@),
        decreases chars.len() - i,
    {
        let c = chars[i];
        let ghost before = out@;
        let ghost rest = s@.skip(i as int);
        if c == '%' || c == '_' {
            out.push('\\');
        }
        out.push(c);
        proof {
            assert(rest.skip(1) =~= s@.skip(i + 1));
            assert(out@ =~= before + escaped_char(c));
            assert(out@ + like_escaped(s@.skip(i + 1)) =~= before + like_escaped(rest));
        }
        i += 1;
    }
    assert(out@ + like_escaped(s@.skip(i as int)) =~= out@);
    from_chars(&out)
}

/// The text that a `LIKE` pattern stands for, read with the backslash as
/// escape character, where it holds no wildcard: the escape makes the
/// character after it literal, and every character but `%` and `_` is
/// literal. Nothing where the pattern holds a `%` or `_` that is not escaped,
/// or ends in an escape.
pub open spec fn like_literal(pattern: Seq<char>) -> Option<Seq<char>>
    decreases pattern.len(),
{
    if pattern.len() == 0 {
        Some(Seq::<char>::empty())
    } else if pattern[0] == like_escape_char() {
        if pattern.len() == 1 {
            None
        } else {
            match like_literal(pattern.skip(2)) {
                Some(text) => Some(seq![pattern[1]] + text),
                None => None,
            }
        }
    } else if pattern[0] == '%' || pattern[0] == '_' {
        None
    } else {
        match like_literal(pattern.skip(1)) {
            Some(text) => Some(seq![pattern[0]] + text),
            None => None,
        }
    }
}

/// The leading text of the filtered query, up to its conditions.
pub const QUERY_HEAD: &'static str =
    "SELECT end_time, session, argv, dir, host, max(end_time) as max_time FROM commands JOIN history on history.command_id = commands.id JOIN places on history.place_id = places.id WHERE ";

/// The trailing text of the filtered query: one row for each pair of command
/// and place, the latest first, at most as many as the last parameter says.
pub const QUERY_TAIL: &'static str =
    " GROUP BY history.command_id, history.place_id ORDER BY max_time DESC LIMIT ?";

/// The text of the incremental search. Its parameters are, by position, the
/// escaped fragment, the escaped directory, the limit and the offset.
pub const ISEARCH_SQL: &'static str =
    "SELECT argv FROM history JOIN commands on history.command_id = commands.id JOIN places on history.place_id = places.id WHERE argv LIKE ('%' || :argv || '%') ESCAPE '\\' GROUP BY history.command_id, history.place_id ORDER BY max(history.id) DESC, argv LIKE (:argv || '%') ESCAPE '\\' DESC, dir LIKE (:dir || '%') ESCAPE '\\' DESC LIMIT :limit OFFSET :offset";

/// The condition on the host.
pub open spec fn host_clause(q: QueryView) -> Seq<char> {
    if q.host is Some {
        "places.host = ?"@
    } else {
        "1"@
    }
}

/// The condition on the command line: a glob around the fragment, or
/// equality where the request is exact.
pub open spec fn command_clause(q: QueryView) -> Seq<char> {
    if q.command is None {
        "1"@
    } else if q.exact {
        "commands.argv = ?"@
    } else {
        "commands.argv GLOB ?"@
    }
}

/// The condition on the directory and what lies under it: the directory's
/// first characters, as many as the prefix has, are the prefix.
pub open spec fn indir_clause(q: QueryView) -> Seq<char> {
    if q.indir is Some {
        "substr(places.dir, 1, length(?))"@ + " = ?"@
    } else {
        "1"@
    }
}

/// The condition on the directory itself.
pub open spec fn atdir_clause(q: QueryView) -> Seq<char> {
    if q.atdir is Some {
        "places.dir = ?"@
    } else {
        "1"@
    }
}

/// The condition on the session.
pub open spec fn session_clause(q: QueryView) -> Seq<char> {
    if q.session is Some {
        "session = ?"@
    } else {
        "1"@
    }
}

/// The condition on the exit status: positive for `error`, else equal to the
/// given text.
pub open spec fn status_clause(q: QueryView) -> Seq<char> {
    match q.status {
        None => "1"@,
        Some(x) => if x == "error"@ {
            "history.exit_status > 0"@
        } else {
            "cast(history.exit_status as str) = ?"@
        },
    }
}

/// The condition on the earliest end time.
pub open spec fn since_clause(q: QueryView) -> Seq<char> {
    if q.since is Some {
        "history.end_time >= ?"@
    } else {
        "1"@
    }
}

/// The condition on the latest end time.
pub open spec fn until_clause(q: QueryView) -> Seq<char> {
    if q.until is Some {
        "history.end_time <= ?"@
    } else {
        "1"@
    }
}

/// The text of the filtered query for `q`: the eight conditions joined by
/// `AND`, an absent filter standing as `1`.
pub open spec fn query_sql(q: QueryView) -> Seq<char> {
    QUERY_HEAD@ + host_clause(q) + " AND "@ + command_clause(q) + " AND "@ + indir_clause(q)
        + " AND "@ + atdir_clause(q) + " AND "@ + session_clause(q) + " AND "@ + status_clause(q)
        + " AND "@ + since_clause(q) + " AND "@ + until_clause(q) + QUERY_TAIL@
}

/// One text, where there is one.
pub open spec fn text_param(s: Option<Seq<char>>) -> Seq<SqlValue> {
    match s {
        Some(t) => seq![SqlValue::Text(t)],
        None => Seq::<SqlValue>::empty(),
    }
}

/// One integer, where there is one.
pub open spec fn int_param(i: Option<i64>) -> Seq<SqlValue> {
    match i {
        Some(v) => seq![SqlValue::Int(v)],
        None => Seq::<SqlValue>::empty(),
    }
}

/// The value bound for the command line: the fragment between two `*`, or
/// the fragment itself where the request is exact.
pub open spec fn command_param(q: QueryView) -> Seq<SqlValue> {
    match q.command {
        None => Seq::<SqlValue>::empty(),
        Some(c) => if q.exact {
            seq![SqlValue::Text(c)]
        } else {
            seq![SqlValue::Text("*"@ + c + "*"@)]
        },
    }
}

/// The values bound for the directory prefix: the prefix, once for its
/// length and once for the comparison.
pub open spec fn indir_param(q: QueryView) -> Seq<SqlValue> {
    match q.indir {
        None => Seq::<SqlValue>::empty(),
        Some(d) => seq![SqlValue::Text(d), SqlValue::Text(d)],
    }
}

/// The value bound for the session.
pub open spec fn session_param(q: QueryView) -> Seq<SqlValue> {
    match q.session {
        None => Seq::<SqlValue>::empty(),
        Some(s) => seq![SqlValue::Int(s as i64)],
    }
}

/// The value bound for the exit status; `error` binds none.
pub open spec fn status_param(q: QueryView) -> Seq<SqlValue> {
    match q.status {
        None => Seq::<SqlValue>::empty(),
        Some(x) => if x == "error"@ {
            Seq::<SqlValue>::empty()
        } else {
            seq![SqlValue::Text(x)]
        },
    }
}

/// The values bound to the filtered query for `q`, in the order of its
/// conditions, the limit last.
pub open spec fn query_params(q: QueryView) -> Seq<SqlValue> {
    text_param(q.host) + command_param(q) + indir_param(q) + text_param(q.atdir) + session_param(q)
        + status_param(q) + int_param(q.since) + int_param(q.until) + seq![
        SqlValue::Int(q.limit as i64),
    ]
}

/// The statement of the filtered query for `q`.
pub open spec fn query_plan(q: QueryView) -> SqlStatementView {
    SqlStatementView { sql: query_sql(q), params: query_params(q) }
}

/// The statement of the incremental search for `q`.
pub open spec fn isearch_plan(q: IsearchQueryView) -> SqlStatementView {
    SqlStatementView {
        sql: ISEARCH_SQL@,
        params: seq![
            SqlValue::Text(like_escaped(q.command)),
            SqlValue::Text(like_escaped(q.dir)),
            SqlValue::Int(q.limit as i64),
            SqlValue::Int(q.offset as i64),
        ],
    }
}

/// Whether two texts hold the same characters.
pub fn same_text(a: &str, b: &str) -> (same: bool)
    ensures
        same == (a@ == b@),
{
    let x = to_chars(a);
    let y = to_chars(b);
    if x.len() != y.len() {
        return false;
    }
    let mut i: usize = 0;
    while i < x.len()
        invariant
            i <= x.len(),
            x.len() == y.len(),
            x@ == a@,
            y@ == b@,
            forall|j: int| 0 <= j < i ==> x@[j] == y@[j],
        decreases x.len() - i,
    {
        if x[i] != y[i] {
            return false;
        }
        i += 1;
    }
    assert(x@ =~= y@);
    true
}

/// The bound value behind an optional parameter.
pub open spec fn value_of(param: Option<SqlType>) -> Seq<SqlValue> {
    match param {
        Some(p) => seq![p@],
        None => Seq::<SqlValue>::empty(),
    }
}

/// Adds one condition to a statement under construction, with the value it
/// binds where it binds one.
fn add_condition(sql: &mut String, params: &mut Vec<SqlType>, clause: &str, param: Option<SqlType>)
    ensures
        final(sql)@ == old(sql)@ + clause@,
        values_of(final(params)@) == values_of(old(params)@) + value_of(param),
{
    sql.append(clause);
    match param {
        Some(p) => {
            params.push(p);
        },
        None => {},
    }
    assert(values_of(params@) =~= values_of(old(params)@) + value_of(param));
}

/// Builds the statement of the filtered query: for every filter that is
/// present its condition and its bound value, for every absent one the
/// condition `1`.
pub fn query_statement(q: &Query) -> (st: SqlStatement)
    ensures
        st@ == query_plan(q@),
{
    let mut sql = String::from_str(QUERY_HEAD);
    let mut params: Vec<SqlType> = Vec::new();
    let ghost v = q@;
    assert(values_of(params@) =~= Seq::<SqlValue>::empty());
    match &q.host {
        Some(h) => add_condition(
            &mut sql,
            &mut params,
            "places.host = ?",
            Some(SqlType::String(h.clone())),
        ),
        None => add_condition(&mut sql, &mut params, "1", None),
    }
    assert(values_of(params@) =~= text_param(v.host));
    sql.append(" AND ");
    match &q.command {
        Some(c) => {
            if q.exact {
                add_condition(
                    &mut sql,
                    &mut params,
                    "commands.argv = ?",
                    Some(SqlType::String(c.clone())),
                );
            } else {
                let glob = String::from_str("*").concat(c.as_str()).concat("*");
                add_condition(
                    &mut sql,
                    &mut params,
                    "commands.argv GLOB ?",
                    Some(SqlType::String(glob)),
                );
            }
        },
        None => add_condition(&mut sql, &mut params, "1", None),
    }
    sql.append(" AND ");
    match &q.indir {
        Some(d) => {
            let ghost before = values_of(params@);
            let ghost text = sql@;
            add_condition(
                &mut sql,
                &mut params,
                "substr(places.dir, 1, length(?))",
                Some(SqlType::String(d.clone())),
            );
            add_condition(&mut sql, &mut params, " = ?", Some(SqlType::String(d.clone())));
            assert(values_of(params@) =~= before + indir_param(v));
            assert(sql@ =~= text + indir_clause(v));
        },
        None => add_condition(&mut sql, &mut params, "1", None),
    }
    sql.append(" AND ");
    match &q.atdir {
        Some(d) => add_condition(
            &mut sql,
            &mut params,
            "places.dir = ?",
            Some(SqlType::String(d.clone())),
        ),
        None => add_condition(&mut sql, &mut params, "1", None),
    }
    sql.append(" AND ");
    match q.session {
        Some(s) => add_condition(&mut sql, &mut params, "session = ?", Some(SqlType::Int(s as i64))),
        None => add_condition(&mut sql, &mut params, "1", None),
    }
    sql.append(" AND ");
    match &q.status {
        Some(x) => {
            if same_text(x.as_str(), "error") {
                add_condition(&mut sql, &mut params, "history.exit_status > 0", None);
            } else {
                add_condition(
                    &mut sql,
                    &mut params,
                    "cast(history.exit_status as str) = ?",
                    Some(SqlType::String(x.clone())),
                );
            }
        },
        None => add_condition(&mut sql, &mut params, "1", None),
    }
    sql.append(" AND ");
    match q.since {
        Some(t) => add_condition(&mut sql, &mut params, "history.end_time >= ?", Some(SqlType::Int(t))),
        None => add_condition(&mut sql, &mut params, "1", None),
    }
    sql.append(" AND ");
    match q.until {
        Some(t) => add_condition(&mut sql, &mut params, "history.end_time <= ?", Some(SqlType::Int(t))),
        None => add_condition(&mut sql, &mut params, "1", None),
    }
    add_condition(&mut sql, &mut params, QUERY_TAIL, Some(SqlType::Int(q.limit as i64)));
    SqlStatement { sql, params }
}

/// Builds the statement of the incremental search: the fragment and the
/// directory with their wildcards escaped, then the limit and the offset.
pub fn isearch_statement(q: &IsearchQuery) -> (st: SqlStatement)
    ensures
        st@ == isearch_plan(q@),
{
    let mut params: Vec<SqlType> = Vec::new();
    params.push(SqlType::String(like_escape(q.command.as_str())));
    params.push(SqlType::String(like_escape(q.dir.as_str())));
    params.push(SqlType::Int(q.limit as i64));
    params.push(SqlType::Int(q.offset as i64));
    assert(values_of(params@) =~= isearch_plan(q@).params);
    SqlStatement { sql: String::from_str(ISEARCH_SQL), params }
}

/// The rows of an answer in the order asked for: as the store gave them,
/// latest first, or turned round so that the latest comes last.
pub open spec fn arranged(rows: Seq<QueryResultRow>, desc: bool) -> Seq<QueryResultRow> {
    if desc {
        rows
    } else {
        rows.reverse()
    }
}

/// Puts the rows that the store gave into the order asked for.
pub fn arrange(rows: Vec<QueryResultRow>, desc: bool) -> (out: Vec<QueryResultRow>)
    ensures
        out@ == arranged(rows@, desc),
{
    if desc {
        return rows;
    }
    let mut rest = rows;
    let mut out: Vec<QueryResultRow> = Vec::new();
    while rest.len() > 0
        invariant
            rest@.len() <= rows@.len(),
            out@.len() + rest@.len() == rows@.len(),
            rest@ == rows@.take(rest@.len() as int),
            forall|j: int| 0 <= j < out@.len() ==> out@[j] == rows@[rows@.len() - 1 - j],
        decreases rest.len(),
    {
        let row = rest.pop().unwrap();
        out.push(row);
        assert(rest@ =~= rows@.take(rest@.len() as int));
    }
    assert(out@ =~= rows@.reverse());
    out
}

/// Whether the end times never rise from one row to the next.
pub open spec fn latest_first(rows: Seq<QueryResultRow>) -> bool {
    forall|i: int, j: int| 0 <= i <= j < rows.len() ==> rows[i].time >= rows[j].time
}

/// Whether the end times never fall from one row to the next.
pub open spec fn latest_last(rows: Seq<QueryResultRow>) -> bool {
    forall|i: int, j: int| 0 <= i <= j < rows.len() ==> rows[i].time <= rows[j].time
}

/// Rows that come latest first stay so where the request says `desc`, and
/// come out latest last where it does not. Either way the answer holds the
/// same rows, each as often as before.
pub proof fn lemma_arranged_order(rows: Seq<QueryResultRow>, desc: bool)
    requires
        latest_first(rows),
    ensures
        desc ==> latest_first(arranged(rows, desc)),
        !desc ==> latest_last(arranged(rows, desc)),
        arranged(rows, desc).len() == rows.len(),
        arranged(rows, desc).to_multiset() == rows.to_multiset(),
{
    if !desc {
        let out = rows.reverse();
        assert forall|i: int, j: int| 0 <= i <= j < out.len() implies out[i].time
            <= out[j].time by {
            assert(out[i] == rows[rows.len() - 1 - i]);
            assert(out[j] == rows[rows.len() - 1 - j]);
        }
        lemma_reverse_keeps_rows(rows);
    }
}

/// Turning a sequence round keeps each of its elements as often as before.
pub proof fn lemma_reverse_keeps_rows(rows: Seq<QueryResultRow>)
    ensures
        rows.reverse().to_multiset() == rows.to_multiset(),
    decreases rows.len(),
{
    broadcast use vstd::seq_lib::group_to_multiset_ensures;

    if rows.len() == 0 {
        assert(rows.reverse() =~= rows);
    } else {
        let last = rows.last();
        let front = rows.drop_last();
        lemma_reverse_keeps_rows(front);
        assert(rows.reverse() =~= seq![last] + front.reverse());
        assert(rows =~= front.push(last));
        vstd::seq_lib::lemma_multiset_commutative(seq![last], front.reverse());
        assert(seq![last] =~= Seq::<QueryResultRow>::empty().push(last));
        assert(seq![last].to_multiset() =~= Multiset::<QueryResultRow>::empty().insert(last));
        assert(front.push(last).to_multiset() =~= front.to_multiset().insert(last));
    }
}

/// Escaping leaves no wildcard: where `s` holds no backslash, the pattern
/// made of `s` escaped stands for `s` itself, character by character.
pub proof fn lemma_escaped_is_literal(s: Seq<char>)
    requires
        !s.contains(like_escape_char()),
    ensures
        like_literal(like_escaped(s)) == Some(s),
    decreases s.len(),
{
    if s.len() == 0 {
        assert(like_escaped(s) =~= Seq::<char>::empty());
        assert(s =~= Seq::<char>::empty());
    } else {
        let rest = s.skip(1);
        let pattern = like_escaped(s);
        assert forall|i: int| 0 <= i < rest.len() implies rest[i] != like_escape_char() by {
            assert(rest[i] == s[i + 1]);
            assert(s.contains(s[i + 1]));
        }
        assert(!rest.contains(like_escape_char()));
        lemma_escaped_is_literal(rest);
        assert(s.contains(s[0]));
        assert(s =~= seq![s[0]] + rest);
        if s[0] == '%' || s[0] == '_' {
            assert(pattern[0] == like_escape_char());
            assert(pattern[1] == s[0]);
            assert(pattern.skip(2) =~= like_escaped(rest));
        } else {
            assert(pattern[0] == s[0]);
            assert(pattern.skip(1) =~= like_escaped(rest));
        }
    }
}

/// A pattern made by escaping stands for a text no longer than the text
/// escaped, if it stands for one at all, and for a shorter one where the
/// text holds a backslash: the backslash takes the character behind it as
/// its own.
pub proof fn lemma_escaped_length(s: Seq<char>)
    ensures
        like_literal(like_escaped(s)) matches Some(text) ==> text.len() <= s.len() && (s.contains(
            like_escape_char(),
        ) ==> text.len() < s.len()),
    decreases s.len(),
{
    if s.len() == 0 {
        assert(like_escaped(s) =~= Seq::<char>::empty());
        assert(!s.contains(like_escape_char()));
    } else {
        let rest = s.skip(1);
        let pattern = like_escaped(s);
        assert forall|i: int| 0 <= i < rest.len() implies s.contains(#[trigger] rest[i]) by {
            assert(rest[i] == s[i + 1]);
        }
        if s[0] == like_escape_char() {
            assert(pattern =~= seq![like_escape_char()] + like_escaped(rest));
            assert(pattern[0] == like_escape_char());
            if rest.len() == 0 {
                assert(like_escaped(rest) =~= Seq::<char>::empty());
                assert(pattern.len() == 1);
            } else {
                let after = rest.skip(1);
                assert(like_escaped(rest) =~= escaped_char(rest[0]) + like_escaped(after));
                if rest[0] == '%' || rest[0] == '_' {
                    let tail = pattern.skip(2);
                    assert(pattern[1] == like_escape_char());
                    assert(tail =~= seq![rest[0]] + like_escaped(after));
                    assert(tail[0] == rest[0]);
                    assert(like_literal(tail) is None);
                } else {
                    assert(pattern[1] == rest[0]);
                    assert(pattern.skip(2) =~= like_escaped(after));
                    lemma_escaped_length(after);
                }
            }
        } else {
            lemma_escaped_length(rest);
            if s.contains(like_escape_char()) {
                let i = choose|i: int| 0 <= i < s.len() && s[i] == like_escape_char();
                assert(rest[i - 1] == s[i]);
                assert(rest.contains(like_escape_char()));
            }
            if s[0] == '%' || s[0] == '_' {
                assert(pattern[0] == like_escape_char());
                assert(pattern[1] == s[0]);
                assert(pattern.skip(2) =~= like_escaped(rest));
            } else {
                assert(pattern[0] == s[0]);
                assert(pattern.skip(1) =~= like_escaped(rest));
            }
        }
    }
}

/// Escaping takes the query literally for the texts without a backslash
/// and for no others: a text that holds one is not what its pattern stands
/// for.
pub proof fn lemma_backslash_is_not_literal(s: Seq<char>)
    requires
        s.contains(like_escape_char()),
    ensures
        like_literal(like_escaped(s)) != Some(s),
{
    lemma_escaped_length(s);
}

/// Whether a row passes the filters of a request, as far as the row itself
/// shows it: the host, the directory and the session asked for, the command
/// line where the request is exact, and the bounds on the end time. The
/// exit status is not in a row, and a fragment that is matched as a glob is
/// left to the store.
pub open spec fn row_passes(q: QueryView, row: RowView) -> bool {
    &&& q.host matches Some(h) ==> row.host == h
    &&& q.command matches Some(c) ==> (q.exact ==> row.argv == c)
    &&& q.indir matches Some(d) ==> d.is_prefix_of(row.dir)
    &&& q.atdir matches Some(d) ==> row.dir == d
    &&& q.session matches Some(n) ==> row.session == n
    &&& q.since matches Some(t) ==> row.time >= t
    &&& q.until matches Some(t) ==> row.time <= t
}

/// Whether every row passes the filters of a request that a row shows:
/// all but the exit status and a fragment matched as a glob.
pub open spec fn all_pass(q: QueryView, rows: Seq<QueryResultRow>) -> bool {
    forall|i: int| 0 <= i < rows.len() ==> row_passes(q, (#[trigger] rows[i])@)
}

/// Whether there are no more rows than the request allows; a negative limit
/// allows any number.
pub open spec fn within_limit(q: QueryView, rows: Seq<QueryResultRow>) -> bool {
    q.limit >= 0 ==> rows.len() <= q.limit
}

/// Whether two rows stand for the same group: the same command line in the
/// same place, which is a host and a directory.
pub open spec fn same_group(a: RowView, b: RowView) -> bool {
    a.argv == b.argv && a.dir == b.dir && a.host == b.host
}

/// Whether every group is shown by one row at most.
pub open spec fn one_per_group(rows: Seq<QueryResultRow>) -> bool {
    forall|i: int, j: int| 0 <= i < j < rows.len() ==> !same_group(rows[i]@, rows[j]@)
}

/// Whether the rows are what a store may give for a request: latest first,
/// within the limit, one row for a group, every row passing the filters
/// that a row shows. Whether a row's event had the exit status asked for,
/// and whether its command line matches a fragment given as a glob, is not
/// part of this: neither can be read off a row.
pub open spec fn store_answers(q: QueryView, rows: Seq<QueryResultRow>) -> bool {
    &&& latest_first(rows)
    &&& within_limit(q, rows)
    &&& one_per_group(rows)
    &&& all_pass(q, rows)
}

/// Whether the rows are an answer to a request as far as rows show it: in
/// the order asked for, latest first with `desc` and latest last without,
/// within the limit, one row for a group, every row passing the filters on
/// host, directory, session, end time and exact command line. The filters
/// on the exit status and on a fragment matched as a glob are not part of
/// this: neither can be read off a row, and both are left to the store.
pub open spec fn answers(q: QueryView, rows: Seq<QueryResultRow>) -> bool {
    &&& if q.desc {
        latest_first(rows)
    } else {
        latest_last(rows)
    }
    &&& within_limit(q, rows)
    &&& one_per_group(rows)
    &&& all_pass(q, rows)
}

/// A number that stands for a text behind a number: equal texts behind
/// equal numbers give equal numbers.
pub open spec fn text_mark(s: Seq<char>, seed: u64) -> u64
    decreases s.len(),
{
    if s.len() == 0 {
        seed
    } else {
        ((text_mark(s.drop_last(), seed) * 31 + s.last() as u32) % 0x1_0000_0000_0000_0000) as u64
    }
}

/// A number that stands for the group of a row: rows of the same group give
/// the same number.
pub open spec fn group_mark(row: RowView) -> u64 {
    text_mark(row.host, text_mark(row.dir, text_mark(row.argv, 0)))
}

/// Computes the number that stands for a text behind a number.
fn mark_text(s: &str, seed: u64) -> (mark: u64)
    ensures
        mark == text_mark(s@, seed),
{
    let chars = to_chars(s);
    let mut mark = seed;
    let mut i: usize = 0;
    while i < chars.len()
        invariant
            i <= chars.len(),
            chars@ == s@,
            mark == text_mark(s@.take(i as int), seed),
        decreases chars.len() - i,
    {
        assert(s@.take(i + 1).drop_last() =~= s@.take(i as int));
        let wide: u128 = mark as u128 * 31 + chars[i] as u32 as u128;
        mark = (wide % 0x1_0000_0000_0000_0000) as u64;
        i += 1;
    }
    assert(s@.take(s@.len() as int) =~= s@);
    mark
}

/// Computes the number that stands for the group of a row.
fn mark_group(row: &QueryResultRow) -> (mark: u64)
    ensures
        mark == group_mark(row@),
{
    mark_text(row.host.as_str(), mark_text(row.dir.as_str(), mark_text(row.argv.as_str(), 0)))
}

/// Tests whether every group is shown by one row at most. Rows are told
/// apart by their numbers first, and compared only where the numbers agree.
pub fn distinct_groups(rows: &Vec<QueryResultRow>) -> (ok: bool)
    ensures
        ok == one_per_group(rows@),
{
    broadcast use vstd::std_specs::hash::group_hash_axioms;

    let mut seen: HashSet<u64> = HashSet::new();
    let mut i: usize = 0;
    while i < rows.len()
        invariant
            i <= rows.len(),
            one_per_group(rows@.take(i as int)),
            forall|k: int| 0 <= k < i ==> seen@.contains(group_mark(#[trigger] rows@[k]@)),
        decreases rows.len() - i,
    {
        let mark = mark_group(&rows[i]);
        let fresh = seen.insert(mark);
        if !fresh {
            let mut k: usize = 0;
            while k < i
                invariant
                    k <= i < rows.len(),
                    forall|m: int| 0 <= m < k ==> !same_group(#[trigger] rows@[m]@, rows@[i as int]@),
                decreases i - k,
            {
                let a = &rows[k];
                let b = &rows[i];
                if same_text(a.argv.as_str(), b.argv.as_str()) && same_text(
                    a.dir.as_str(),
                    b.dir.as_str(),
                ) && same_text(a.host.as_str(), b.host.as_str()) {
                    assert(same_group(rows@[k as int]@, rows@[i as int]@));
                    return false;
                }
                k += 1;
            }
        }
        proof {
            let before = rows@.take(i as int);
            let now = rows@.take(i + 1);
            assert forall|a: int, b: int| 0 <= a < b < now.len() implies !same_group(
                now[a]@,
                now[b]@,
            ) by {
                if b < i {
                    assert(before[a] == now[a] && before[b] == now[b]);
                } else if fresh {
                    assert(group_mark(rows@[a]@) != mark);
                } else {
                    assert(!same_group(rows@[a]@, rows@[i as int]@));
                }
            }
        }
        i += 1;
    }
    assert(rows@.take(rows@.len() as int) =~= rows@);
    true
}

/// Tests whether a row passes the filters of a request.
pub fn row_fits(q: &Query, row: &QueryResultRow) -> (fits: bool)
    ensures
        fits == row_passes(q@, row@),
{
    let host = match &q.host {
        Some(h) => same_text(row.host.as_str(), h.as_str()),
        None => true,
    };
    let command = match &q.command {
        Some(c) => !q.exact || same_text(row.argv.as_str(), c.as_str()),
        None => true,
    };
    let indir = match &q.indir {
        Some(d) => starts_with(&to_chars(row.dir.as_str()), &to_chars(d.as_str())),
        None => true,
    };
    let atdir = match &q.atdir {
        Some(d) => same_text(row.dir.as_str(), d.as_str()),
        None => true,
    };
    let session = match q.session {
        Some(n) => row.session == n,
        None => true,
    };
    let since = match q.since {
        Some(t) => row.time >= t,
        None => true,
    };
    let until = match q.until {
        Some(t) => row.time <= t,
        None => true,
    };
    host && command && indir && atdir && session && since && until
}

/// Tests whether rows are what a store may give for a request, as far as
/// rows show it.
pub fn check_rows(q: &Query, rows: &Vec<QueryResultRow>) -> (ok: bool)
    ensures
        ok == store_answers(q@, rows@),
{
    if q.limit >= 0 && rows.len() > q.limit as usize {
        return false;
    }
    if !distinct_groups(rows) {
        return false;
    }
    let mut i: usize = 0;
    while i < rows.len()
        invariant
            i <= rows.len(),
            within_limit(q@, rows@),
            one_per_group(rows@),
            latest_first(rows@.take(i as int)),
            all_pass(q@, rows@.take(i as int)),
        decreases rows.len() - i,
    {
        if !row_fits(q, &rows[i]) {
            return false;
        }
        if i > 0 && rows[i - 1].time < rows[i].time {
            return false;
        }
        proof {
            let before = rows@.take(i as int);
            let now = rows@.take(i + 1);
            assert forall|a: int, b: int| 0 <= a <= b < now.len() implies now[a].time
                >= now[b].time by {
                if b < i {
                    assert(before[a] == now[a] && before[b] == now[b]);
                } else if a < i {
                    assert(before[a] == now[a] && before[i - 1] == now[i - 1]);
                    assert(before[a].time >= before[i - 1].time);
                }
            }
            assert forall|k: int| 0 <= k < now.len() implies row_passes(q@, (#[trigger] now[k])@) by {
                if k < i {
                    assert(before[k] == now[k]);
                }
            }
        }
        i += 1;
    }
    assert(rows@.take(rows@.len() as int) =~= rows@);
    true
}

/// What a store may give for a request is an answer to it once it is put
/// into the order asked for.
pub proof fn lemma_arranged_answers(q: QueryView, rows: Seq<QueryResultRow>)
    requires
        store_answers(q, rows),
    ensures
        answers(q, arranged(rows, q.desc)),
{
    lemma_arranged_order(rows, q.desc);
    if !q.desc {
        let out = rows.reverse();
        assert forall|i: int| 0 <= i < out.len() implies row_passes(q, (#[trigger] out[i])@) by {
            assert(out[i] == rows[rows.len() - 1 - i]);
        }
        assert forall|i: int, j: int| 0 <= i < j < out.len() implies !same_group(
            out[i]@,
            out[j]@,
        ) by {
            assert(out[i] == rows[rows.len() - 1 - i]);
            assert(out[j] == rows[rows.len() - 1 - j]);
            assert(!same_group(rows[rows.len() - 1 - j]@, rows[rows.len() - 1 - i]@));
        }
    }
}

/// What is told where the store gives rows that are no answer to the
/// request: the store is not what the bootstrap made.
pub const MISFIT: &'static str = "the store answered against the request";

/// The store that answers the two requests.
pub struct HistdbQueryServer {
    con: rusqlite::Connection,
}

/// The two requests of the query service.
pub trait HistdbQueryService {
    /// The filtered history. The store is asked for one row for each pair of
    /// command and place that has an event passing the filters, with the
    /// event that ended last, the latest pairs first and no more than the
    /// limit. What it gives is checked before it is believed, as far as
    /// rows show it: the order, the limit, one row for a group, and the
    /// filters on host, directory, session, end time and exact command
    /// line; the exit status and a fragment matched as a glob are left to
    /// the store. The rows are turned round unless the request says `desc`.
    /// A store that fails, or that answers against the request, gives an
    /// error.
    fn query(&self, query: Query) -> (r: Result<Vec<QueryResultRow>, RpcError>)
        ensures
            r matches Ok(rows) ==> answers(query@, rows@),
            r matches Err(e) ==> e.reported() || e.misfit(),
    ;

    /// The incremental search. The store is asked for the command lines that
    /// hold the fragment, one for each pair of command and place, the pair
    /// used last first, from the offset on and no more than the limit. The
    /// rows carry the command line alone. A store that fails, or that gives
    /// more rows than asked for, gives an error.
    fn isearch(&self, query: IsearchQuery) -> (r: Result<Vec<QueryResultRow>, RpcError>)
        ensures
            r matches Ok(rows) ==> bare_rows(rows@) && rows@.len() <= query.limit,
            r matches Err(e) ==> e.reported() || e.misfit(),
    ;
}

/// Whether a row carries a command line and nothing else.
pub open spec fn is_bare(row: QueryResultRow) -> bool {
    &&& row.time == 0
    &&& row.session == 0
    &&& row.dir@ == Seq::<char>::empty()
    &&& row.host@ == Seq::<char>::empty()
}

/// Whether every row carries a command line and nothing else.
pub open spec fn bare_rows(rows: Seq<QueryResultRow>) -> bool {
    forall|i: int| 0 <= i < rows.len() ==> is_bare(#[trigger] rows[i])
}

/// One row for each command line, in order, with time and session zero and
/// directory and host empty.
pub fn argv_rows(lines: Vec<String>) -> (rows: Vec<QueryResultRow>)
    ensures
        rows@.len() == lines@.len(),
        forall|i: int| 0 <= i < rows@.len() ==> (#[trigger] rows@[i]).argv == lines@[i],
        bare_rows(rows@),
{
    let mut rest = lines;
    let mut back: Vec<QueryResultRow> = Vec::new();
    while rest.len() > 0
        invariant
            back@.len() + rest@.len() == lines@.len(),
            rest@ == lines@.take(rest@.len() as int),
            forall|j: int|
                0 <= j < back@.len() ==> (#[trigger] back@[j]).argv == lines@[lines@.len() - 1 - j],
            bare_rows(back@),
        decreases rest.len(),
    {
        let argv = rest.pop().unwrap();
        back.push(
            QueryResultRow { time: 0, session: 0, argv, dir: String::new(), host: String::new() },
        );
        assert(rest@ =~= lines@.take(rest@.len() as int));
    }
    let ghost turned = back@;
    let mut rows: Vec<QueryResultRow> = Vec::new();
    while back.len() > 0
        invariant
            rows@.len() + back@.len() == turned.len(),
            back@ == turned.take(back@.len() as int),
            forall|j: int|
                0 <= j < rows@.len() ==> (#[trigger] rows@[j]) == turned[turned.len() - 1 - j],
        decreases back.len(),
    {
        let row = back.pop().unwrap();
        rows.push(row);
        assert(back@ =~= turned.take(back@.len() as int));
    }
    rows
}

impl HistdbQueryServer {
    /// The connection that the server holds.
    pub closed spec fn held(&self) -> rusqlite::Connection {
        self.con
    }

    /// A server that answers from `con`.
    pub fn new(con: rusqlite::Connection) -> (server: HistdbQueryServer)
        ensures
            server.held() == con,
    {
        HistdbQueryServer { con }
    }

    /// The connection that the server answers from.
    pub fn connection(&self) -> (con: &rusqlite::Connection)
        ensures
            *con == self.held(),
    {
        &self.con
    }
}

/// What the service makes of the rows that the store gave for a request:
/// rows that are what a store may give are put into the order asked for,
/// any others are an error.
pub fn settle_query(query: &Query, rows: Vec<QueryResultRow>) -> (r: Result<
    Vec<QueryResultRow>,
    RpcError,
>)
    ensures
        match r {
            Ok(out) => store_answers(query@, rows@) && out@ == arranged(rows@, query.desc)
                && answers(query@, out@),
            Err(e) => !store_answers(query@, rows@) && e.misfit(),
        },
{
    if check_rows(query, &rows) {
        proof {
            lemma_arranged_answers(query@, rows@);
        }
        Ok(arrange(rows, query.desc))
    } else {
        Err(RpcError::SqlError { msg: String::from_str(MISFIT) })
    }
}

/// What the service makes of the command lines that the store gave for a
/// search: no more lines than asked for become rows that carry a line each,
/// in order, and more are an error.
pub fn settle_search(query: &IsearchQuery, lines: Vec<String>) -> (r: Result<
    Vec<QueryResultRow>,
    RpcError,
>)
    ensures
        match r {
            Ok(rows) => {
                &&& lines@.len() <= query.limit
                &&& rows@.len() == lines@.len()
                &&& bare_rows(rows@)
                &&& forall|i: int| 0 <= i < rows@.len() ==> (#[trigger] rows@[i]).argv == lines@[i]
            },
            Err(e) => lines@.len() > query.limit && e.misfit(),
        },
{
    if lines.len() <= query.limit as usize {
        Ok(argv_rows(lines))
    } else {
        Err(RpcError::SqlError { msg: String::from_str(MISFIT) })
    }
}

impl HistdbQueryService for HistdbQueryServer {
    fn query(&self, query: Query) -> (r: Result<Vec<QueryResultRow>, RpcError>) {
        let st = query_statement(&query);
        let mut stmt = match prepare(&self.con, st.sql.as_str()) {
            Ok(stmt) => stmt,
            Err(e) => {
                return Err(RpcError::from_sql(&e));
            },
        };
        let values = to_values(&st.params);
        match statement_history_rows(&mut stmt, &values) {
            Ok(rows) => settle_query(&query, rows),
            Err(e) => Err(RpcError::from_sql(&e)),
        }
    }

    fn isearch(&self, query: IsearchQuery) -> (r: Result<Vec<QueryResultRow>, RpcError>) {
        let st = isearch_statement(&query);
        let mut stmt = match prepare(&self.con, st.sql.as_str()) {
            Ok(stmt) => stmt,
            Err(e) => {
                return Err(RpcError::from_sql(&e));
            },
        };
        let values = to_values(&st.params);
        match statement_text_rows(&mut stmt, &values) {
            Ok(lines) => settle_search(&query, lines),
            Err(e) => Err(RpcError::from_sql(&e)),
        }
    }
}

} // verus!
