//! The ingest path: the grammar of a datagram, the record it becomes, and the
//! statements that put the record into the store.

use vstd::prelude::*;
use vstd::slice::slice_subrange;
use vstd::string::*;
use crate::store::prepare;
use crate::store::statement_execute;
use crate::store::statement_first_id;
use crate::store::statement_insert;
use crate::store::to_values;
use crate::tcp::values_of;
use crate::tcp::RpcError;
use crate::tcp::SqlStatement;
use crate::tcp::SqlStatementView;
use crate::tcp::SqlType;
use crate::tcp::SqlValue;
use crate::text::decimal_i32;
use crate::text::parse_i32;

verus! {

/// The text that `String::from_utf8_lossy` makes of bytes: the text they
/// encode, with the replacement character for every run that is not UTF-8.
pub uninterp spec fn utf8_lossy(b: Seq<u8>) -> Seq<char>;

/// The text that bytes are read as: the text they encode where they are
/// UTF-8, and otherwise what `String::from_utf8_lossy` makes of them.
pub open spec fn text_of_bytes(b: Seq<u8>) -> Seq<char> {
    if vstd::utf8::valid_utf8(b) {
        vstd::utf8::decode_utf8(b)
    } else {
        utf8_lossy(b)
    }
}

/// `String::from_utf8_lossy`: reads bytes as text. The result is a function
/// of the bytes alone, and bytes that are UTF-8 give the text they encode.
#[verifier::external_body]
fn lossy_text(b: &[u8]) -> (text: String)
    ensures
        text@ == utf8_lossy(b@),
        vstd::utf8::valid_utf8(b@) ==> text@ == vstd::utf8::decode_utf8(b@),
{
    String::from_utf8_lossy(b).into_owned()
}

/// `std::time::SystemTime::now` and `duration_since` the epoch: the whole
/// seconds since the first of January 1970, or nothing where the clock
/// stands before it. Nothing is claimed of the number.
#[verifier::external_body]
fn unix_seconds() -> (now: Option<u64>) {
    match std::time::SystemTime::now().duration_since(std::time::SystemTime::UNIX_EPOCH) {
        Ok(d) => Some(d.as_secs()),
        Err(_) => None,
    }
}

/// The number of bytes that the shell's history builtin puts before the
/// command line: the line's number and its padding.
pub const LINE_NUMBER_WIDTH: usize = 7;

/// One finished command, as a shell reported it.
#[derive(Clone, Debug, PartialEq, Eq)]
pub struct RpcMessage {
    pub host: String,
    pub session: i32,
    pub exit_status: i32,
    pub dir: String,
    pub argv: String,
    pub time: u64,
}

/// An `RpcMessage` with its texts as character sequences.
pub ghost struct MessageView {
    pub host: Seq<char>,
    pub session: i32,
    pub exit_status: i32,
    pub dir: Seq<char>,
    pub argv: Seq<char>,
    pub time: u64,
}

impl View for RpcMessage {
    type V = MessageView;

    open spec fn view(&self) -> MessageView {
        MessageView {
            host: self.host@,
            session: self.session,
            exit_status: self.exit_status,
            dir: self.dir@,
            argv: self.argv@,
            time: self.time,
        }
    }
}

/// Why a datagram is turned away.
#[derive(Clone, Copy, Debug, PartialEq, Eq, Structural)]
pub enum DatagramError {
    /// It does not hold five fields.
    FieldCount,
    /// Its first field is no decimal integer of 32 bits.
    Session,
    /// Its third field is no decimal integer of 32 bits.
    ExitStatus,
    /// Its fifth field is too short to begin with a line number.
    ArgvTooShort,
    /// The clock stands before the first of January 1970.
    Clock,
}

impl DatagramError {
    /// What is told of the error.
    pub open spec fn describe_text(&self) -> Seq<char> {
        match *self {
            DatagramError::FieldCount => "Unable to parse UDP datagram as 5 null-separated fields"@,
            DatagramError::Session => "Unable to parse session id (first field) as i32"@,
            DatagramError::ExitStatus => "Unable to parse exit status (third field) as i32"@,
            DatagramError::ArgvTooShort => "The command line (fifth field), ostensibly from $(history 1) is too short, and doesn't contain the expected leading line number"@,
            DatagramError::Clock => "The system clock stands before the epoch"@,
        }
    }

    /// What to tell of the error.
    pub fn describe(&self) -> (text: String)
        ensures
            text@ == self.describe_text(),
    {
        match self {
            DatagramError::FieldCount => String::from_str(
                "Unable to parse UDP datagram as 5 null-separated fields",
            ),
            DatagramError::Session => String::from_str(
                "Unable to parse session id (first field) as i32",
            ),
            DatagramError::ExitStatus => String::from_str(
                "Unable to parse exit status (third field) as i32",
            ),
            DatagramError::ArgvTooShort => String::from_str(
                "The command line (fifth field), ostensibly from $(history 1) is too short, and doesn't contain the expected leading line number",
            ),
            DatagramError::Clock => String::from_str("The system clock stands before the epoch"),
        }
    }
}

/// The positions of the NUL bytes of `b`, rising.
pub open spec fn nul_positions(b: Seq<u8>) -> Seq<int>
    decreases b.len(),
{
    if b.len() == 0 {
        Seq::<int>::empty()
    } else if b.last() == 0 {
        nul_positions(b.drop_last()).push(b.len() - 1)
    } else {
        nul_positions(b.drop_last())
    }
}

/// Where field `k` of a datagram begins: at the start, or behind the NUL
/// before it.
pub open spec fn field_start(b: Seq<u8>, k: int) -> int {
    if k == 0 {
        0
    } else {
        nul_positions(b)[k - 1] + 1
    }
}

/// Where field `k` of a datagram ends: at the NUL behind it, or at the end.
pub open spec fn field_end(b: Seq<u8>, k: int) -> int {
    if k == nul_positions(b).len() {
        b.len() as int
    } else {
        nul_positions(b)[k]
    }
}

/// Field `k` of a datagram, counted from zero: the bytes between two NUL
/// bytes, or between a NUL byte and an end.
pub open spec fn field(b: Seq<u8>, k: int) -> Seq<u8> {
    b.subrange(field_start(b, k), field_end(b, k))
}

/// Why `b` is turned away, if it is: for the number of its fields, then for
/// its session, then for its exit status, then for the length of its last
/// field.
pub open spec fn datagram_fault(b: Seq<u8>) -> Option<DatagramError> {
    if nul_positions(b).len() != 4 {
        Some(DatagramError::FieldCount)
    } else if decimal_i32(field(b, 0)) is None {
        Some(DatagramError::Session)
    } else if decimal_i32(field(b, 2)) is None {
        Some(DatagramError::ExitStatus)
    } else if field(b, 4).len() < 7 {
        Some(DatagramError::ArgvTooShort)
    } else {
        None
    }
}

/// The record that a well-formed datagram `b` becomes at the time `now`:
/// session, host, exit status and directory from its first four fields, the
/// command line from the fifth without its first seven bytes.
pub open spec fn message_of(b: Seq<u8>, now: u64) -> MessageView {
    MessageView {
        host: text_of_bytes(field(b, 1)),
        session: decimal_i32(field(b, 0)).unwrap(),
        exit_status: decimal_i32(field(b, 2)).unwrap(),
        dir: text_of_bytes(field(b, 3)),
        argv: text_of_bytes(field(b, 4).skip(7)),
        time: now,
    }
}

/// The positions of the NUL bytes of a prefix are the first of the
/// positions of the whole, and every position points at a NUL byte.
pub proof fn lemma_nul_positions(b: Seq<u8>)
    ensures
        nul_positions(b).len() <= b.len(),
        forall|k: int|
            0 <= k < nul_positions(b).len() ==> 0 <= (#[trigger] nul_positions(b)[k]) < b.len()
                && b[nul_positions(b)[k]] == 0,
        forall|j: int, k: int|
            0 <= j < k < nul_positions(b).len() ==> nul_positions(b)[j] < nul_positions(b)[k],
        forall|i: int|
            0 <= i < b.len() && b[i] == 0 ==> exists|k: int|
                0 <= k < nul_positions(b).len() && nul_positions(b)[k] == i,
    decreases b.len(),
{
    if b.len() > 0 {
        let front = b.drop_last();
        lemma_nul_positions(front);
        let p = nul_positions(b);
        let q = nul_positions(front);
        assert forall|k: int| 0 <= k < p.len() implies 0 <= (#[trigger] p[k]) < b.len() && b[p[k]]
            == 0 by {
            if k < q.len() {
                assert(p[k] == q[k]);
                assert(front[q[k]] == b[q[k]]);
            }
        }
        assert forall|j: int, k: int| 0 <= j < k < p.len() implies p[j] < p[k] by {
            assert(p[j] == q[j]);
            if k < q.len() {
                assert(p[k] == q[k]);
            }
        }
        assert forall|i: int| 0 <= i < b.len() && b[i] == 0 implies exists|k: int|
            0 <= k < p.len() && p[k] == i by {
            if i < front.len() {
                assert(front[i] == b[i]);
                let k = choose|k: int| 0 <= k < q.len() && q[k] == i;
                assert(p[k] == i);
            } else {
                assert(p[p.len() - 1] == i);
            }
        }
    }
}

/// Whether a field holds no NUL byte.
pub open spec fn has_no_nul(f: Seq<u8>) -> bool {
    forall|i: int| 0 <= i < f.len() ==> f[i] != 0
}

/// The datagram that a shell sends: five fields with a NUL byte between one
/// and the next.
pub open spec fn datagram_of(
    session: Seq<u8>,
    host: Seq<u8>,
    status: Seq<u8>,
    dir: Seq<u8>,
    line: Seq<u8>,
) -> Seq<u8> {
    session + seq![0u8] + host + seq![0u8] + status + seq![0u8] + dir + seq![0u8] + line
}

/// Bytes without a NUL add no position.
pub proof fn lemma_nuls_of_clean_bytes(a: Seq<u8>, f: Seq<u8>)
    requires
        has_no_nul(f),
    ensures
        nul_positions(a + f) == nul_positions(a),
    decreases f.len(),
{
    if f.len() == 0 {
        assert(a + f =~= a);
    } else {
        let front = f.drop_last();
        assert((a + f).drop_last() =~= a + front);
        assert((a + f).last() == f.last());
        lemma_nuls_of_clean_bytes(a, front);
    }
}

/// A NUL byte at the end adds its own position.
pub proof fn lemma_nuls_of_one_more(a: Seq<u8>)
    ensures
        nul_positions(a + seq![0u8]) == nul_positions(a).push(a.len() as int),
{
    assert((a + seq![0u8]).drop_last() =~= a);
}

/// What a shell sends is read back field by field: five fields without a
/// NUL byte, joined by NUL bytes, make a datagram of five fields, and each
/// field of the datagram is the field that went in.
pub proof fn lemma_datagram_fields(
    session: Seq<u8>,
    host: Seq<u8>,
    status: Seq<u8>,
    dir: Seq<u8>,
    line: Seq<u8>,
)
    requires
        has_no_nul(session),
        has_no_nul(host),
        has_no_nul(status),
        has_no_nul(dir),
        has_no_nul(line),
    ensures
        nul_positions(datagram_of(session, host, status, dir, line)).len() == 4,
        field(datagram_of(session, host, status, dir, line), 0) == session,
        field(datagram_of(session, host, status, dir, line), 1) == host,
        field(datagram_of(session, host, status, dir, line), 2) == status,
        field(datagram_of(session, host, status, dir, line), 3) == dir,
        field(datagram_of(session, host, status, dir, line), 4) == line,
{
    let empty = Seq::<u8>::empty();
    let d0 = session;
    let d1 = d0 + seq![0u8];
    let d2 = d1 + host;
    let d3 = d2 + seq![0u8];
    let d4 = d3 + status;
    let d5 = d4 + seq![0u8];
    let d6 = d5 + dir;
    let d7 = d6 + seq![0u8];
    let d8 = d7 + line;
    assert(empty + session =~= session);
    lemma_nuls_of_clean_bytes(empty, session);
    lemma_nuls_of_one_more(d0);
    lemma_nuls_of_clean_bytes(d1, host);
    lemma_nuls_of_one_more(d2);
    lemma_nuls_of_clean_bytes(d3, status);
    lemma_nuls_of_one_more(d4);
    lemma_nuls_of_clean_bytes(d5, dir);
    lemma_nuls_of_one_more(d6);
    lemma_nuls_of_clean_bytes(d7, line);
    let p = nul_positions(d8);
    assert(p =~= seq![d0.len() as int, d2.len() as int, d4.len() as int, d6.len() as int]);
    assert(d8 == datagram_of(session, host, status, dir, line));
    assert(field(d8, 0) =~= session);
    assert(field(d8, 1) =~= host);
    assert(field(d8, 2) =~= status);
    assert(field(d8, 3) =~= dir);
    assert(field(d8, 4) =~= line);
}

/// What a shell sends is recorded as sent: a datagram made of a session and
/// an exit status that are decimal integers, a host and a directory, and a
/// line number of seven bytes before the command line, none of them with a
/// NUL byte and the texts in UTF-8, is accepted, and the record holds the
/// two numbers and the three texts.
pub proof fn lemma_datagram_record(
    session: Seq<u8>,
    host: Seq<char>,
    status: Seq<u8>,
    dir: Seq<char>,
    number: Seq<u8>,
    argv: Seq<char>,
    now: u64,
)
    requires
        decimal_i32(session) is Some,
        decimal_i32(status) is Some,
        number.len() == 7,
        has_no_nul(session),
        has_no_nul(vstd::utf8::encode_utf8(host)),
        has_no_nul(status),
        has_no_nul(vstd::utf8::encode_utf8(dir)),
        has_no_nul(number),
        has_no_nul(vstd::utf8::encode_utf8(argv)),
    ensures
        ({
            let b = datagram_of(
                session,
                vstd::utf8::encode_utf8(host),
                status,
                vstd::utf8::encode_utf8(dir),
                number + vstd::utf8::encode_utf8(argv),
            );
            &&& datagram_fault(b) is None
            &&& message_of(b, now) == (MessageView {
                host,
                session: decimal_i32(session).unwrap(),
                exit_status: decimal_i32(status).unwrap(),
                dir,
                argv,
                time: now,
            })
        }),
{
    broadcast use vstd::utf8::encode_utf8_valid_utf8, vstd::utf8::encode_utf8_decode_utf8;

    let host_bytes = vstd::utf8::encode_utf8(host);
    let dir_bytes = vstd::utf8::encode_utf8(dir);
    let argv_bytes = vstd::utf8::encode_utf8(argv);
    let line = number + argv_bytes;
    assert(has_no_nul(line)) by {
        assert forall|i: int| 0 <= i < line.len() implies line[i] != 0 by {
            if i < 7 {
                assert(line[i] == number[i]);
            } else {
                assert(line[i] == argv_bytes[i - 7]);
            }
        }
    }
    lemma_datagram_fields(session, host_bytes, status, dir_bytes, line);
    assert(line.skip(7) =~= argv_bytes);
    assert(vstd::utf8::valid_utf8(host_bytes));
    assert(vstd::utf8::decode_utf8(host_bytes) == host);
    assert(vstd::utf8::valid_utf8(dir_bytes));
    assert(vstd::utf8::decode_utf8(dir_bytes) == dir);
    assert(vstd::utf8::valid_utf8(argv_bytes));
    assert(vstd::utf8::decode_utf8(argv_bytes) == argv);
}

/// Finds the NUL bytes of `b`, up to `limit` of them.
fn find_nuls(b: &[u8], limit: usize) -> (found: Vec<usize>)
    ensures
        found@.len() == if nul_positions(b@).len() <= limit {
            nul_positions(b@).len()
        } else {
            limit as nat
        },
        forall|k: int| 0 <= k < found@.len() ==> found@[k] == nul_positions(b@)[k],
{
    let mut found: Vec<usize> = Vec::new();
    let mut i: usize = 0;
    let ghost mut seen: Seq<int> = Seq::empty();
    while i < b.len()
        invariant
            i <= b.len(),
            seen == nul_positions(b@.take(i as int)),
            found@.len() == if seen.len() <= limit {
                seen.len()
            } else {
                limit as nat
            },
            forall|k: int| 0 <= k < found@.len() ==> found@[k] == seen[k],
        decreases b.len() - i,
    {
        proof {
            assert(b@.take(i + 1).drop_last() =~= b@.take(i as int));
        }
        if b[i] == 0 {
            if found.len() < limit {
                found.push(i);
            }
            proof {
                seen = seen.push(i as int);
            }
        }
        i += 1;
    }
    assert(b@.take(b@.len() as int) =~= b@);
    found
}

/// Reads a datagram at the time `now`: five fields parted by NUL bytes, the
/// first and the third decimal integers, the fifth with a line number of
/// seven bytes before the command line.
pub fn parse_datagram(buf: &[u8], now: u64) -> (r: Result<RpcMessage, DatagramError>)
    ensures
        match r {
            Ok(msg) => datagram_fault(buf@) is None && msg@ == message_of(buf@, now),
            Err(e) => datagram_fault(buf@) == Some(e),
        },
{
    let nuls = find_nuls(buf, 5);
    if nuls.len() != 4 {
        return Err(DatagramError::FieldCount);
    }
    proof {
        lemma_nul_positions(buf@);
    }
    let first = nuls[0];
    let second = nuls[1];
    let third = nuls[2];
    let fourth = nuls[3];
    let session = match parse_i32(slice_subrange(buf, 0, first)) {
        Some(v) => v,
        None => {
            return Err(DatagramError::Session);
        },
    };
    let host = lossy_text(slice_subrange(buf, first + 1, second));
    let exit_status = match parse_i32(slice_subrange(buf, second + 1, third)) {
        Some(v) => v,
        None => {
            return Err(DatagramError::ExitStatus);
        },
    };
    let dir = lossy_text(slice_subrange(buf, third + 1, fourth));
    let n = buf.len();
    assert(fourth < n);
    let last = slice_subrange(buf, fourth + 1, n);
    if last.len() < LINE_NUMBER_WIDTH {
        return Err(DatagramError::ArgvTooShort);
    }
    let line = slice_subrange(last, LINE_NUMBER_WIDTH, last.len());
    assert(line@ =~= field(buf@, 4).skip(7));
    let argv = lossy_text(line);
    Ok(RpcMessage { host, session, exit_status, dir, argv, time: now })
}

/// Reads a datagram as it comes from the socket, stamped with the server's
/// clock. The clock is read only for a datagram that is well formed.
pub fn deserialize(buf: &[u8]) -> (r: Result<RpcMessage, DatagramError>)
    ensures
        match r {
            Ok(msg) => datagram_fault(buf@) is None && msg@ == message_of(buf@, msg.time),
            Err(e) => datagram_fault(buf@) == Some(e) || (datagram_fault(buf@) is None && e
                == DatagramError::Clock),
        },
{
    match parse_datagram(buf, 0) {
        Err(e) => Err(e),
        Ok(msg) => match unix_seconds() {
            None => Err(DatagramError::Clock),
            Some(now) => Ok(RpcMessage { time: now, ..msg }),
        },
    }
}

/// The statement that records a command line.
pub const INSERT_COMMAND: &'static str = "insert into commands (argv) values (?)";

/// The statement that finds a command line that is there already.
pub const SELECT_COMMAND: &'static str = "select id from commands where argv = ?";

/// The statement that records a place.
pub const INSERT_PLACE: &'static str = "insert into places (host, dir) values (?, ?)";

/// The statement that finds a place that is there already.
pub const SELECT_PLACE: &'static str = "select id from places where host = ? AND dir = ?";

/// The statement that records an event.
pub const INSERT_HISTORY: &'static str =
    "insert into history (session, command_id, place_id, exit_status, end_time) values (?, ?, ?, ?, ?)";

/// The value bound for a command: its line.
pub fn command_params(msg: &RpcMessage) -> (params: Vec<SqlType>)
    ensures
        values_of(params@) == seq![SqlValue::Text(msg@.argv)],
{
    let mut params: Vec<SqlType> = Vec::new();
    params.push(SqlType::String(msg.argv.clone()));
    assert(values_of(params@) =~= seq![SqlValue::Text(msg@.argv)]);
    params
}

/// The values bound for a place: host, then directory.
pub fn place_params(msg: &RpcMessage) -> (params: Vec<SqlType>)
    ensures
        values_of(params@) == seq![SqlValue::Text(msg@.host), SqlValue::Text(msg@.dir)],
{
    let mut params: Vec<SqlType> = Vec::new();
    params.push(SqlType::String(msg.host.clone()));
    params.push(SqlType::String(msg.dir.clone()));
    assert(values_of(params@) =~= seq![SqlValue::Text(msg@.host), SqlValue::Text(msg@.dir)]);
    params
}

/// The values bound for an event: session, command, place, exit status and
/// end time; nothing where the end time does not fit the store's integers.
pub fn history_params(msg: &RpcMessage, command_id: i64, place_id: i64) -> (params: Option<
    Vec<SqlType>,
>)
    ensures
        msg.time > i64::MAX ==> params is None,
        msg.time <= i64::MAX ==> params is Some && values_of(params.unwrap()@) == history_values(
            msg@,
            command_id,
            place_id,
        ),
{
    if msg.time > i64::MAX as u64 {
        return None;
    }
    let mut params: Vec<SqlType> = Vec::new();
    params.push(SqlType::Int(msg.session as i64));
    params.push(SqlType::Int(command_id));
    params.push(SqlType::Int(place_id));
    params.push(SqlType::Int(msg.exit_status as i64));
    params.push(SqlType::Int(msg.time as i64));
    assert(values_of(params@) =~= history_values(msg@, command_id, place_id));
    Some(params)
}

/// The statement that records the command line of an event.
pub fn command_insert(msg: &RpcMessage) -> (st: SqlStatement)
    ensures
        st@ == (SqlStatementView { sql: INSERT_COMMAND@, params: seq![SqlValue::Text(msg@.argv)] }),
{
    SqlStatement { sql: String::from_str(INSERT_COMMAND), params: command_params(msg) }
}

/// The statement that finds the command line of an event.
pub fn command_lookup(msg: &RpcMessage) -> (st: SqlStatement)
    ensures
        st@ == (SqlStatementView { sql: SELECT_COMMAND@, params: seq![SqlValue::Text(msg@.argv)] }),
{
    SqlStatement { sql: String::from_str(SELECT_COMMAND), params: command_params(msg) }
}

/// The statement that records the place of an event.
pub fn place_insert(msg: &RpcMessage) -> (st: SqlStatement)
    ensures
        st@ == (SqlStatementView {
            sql: INSERT_PLACE@,
            params: seq![SqlValue::Text(msg@.host), SqlValue::Text(msg@.dir)],
        }),
{
    SqlStatement { sql: String::from_str(INSERT_PLACE), params: place_params(msg) }
}

/// The statement that finds the place of an event.
pub fn place_lookup(msg: &RpcMessage) -> (st: SqlStatement)
    ensures
        st@ == (SqlStatementView {
            sql: SELECT_PLACE@,
            params: seq![SqlValue::Text(msg@.host), SqlValue::Text(msg@.dir)],
        }),
{
    SqlStatement { sql: String::from_str(SELECT_PLACE), params: place_params(msg) }
}

/// The values of an event's row: session, command, place, exit status and
/// end time.
pub open spec fn history_values(msg: MessageView, command_id: i64, place_id: i64) -> Seq<
    SqlValue,
> {
    seq![
        SqlValue::Int(msg.session as i64),
        SqlValue::Int(command_id),
        SqlValue::Int(place_id),
        SqlValue::Int(msg.exit_status as i64),
        SqlValue::Int(msg.time as i64),
    ]
}

/// The statement that records an event with the ids of its command and its
/// place; nothing where the end time does not fit the store's integers.
pub fn history_statement(msg: &RpcMessage, command_id: i64, place_id: i64) -> (st: Option<
    SqlStatement,
>)
    ensures
        match st {
            Some(s) => msg.time <= i64::MAX && s@ == (SqlStatementView {
                sql: INSERT_HISTORY@,
                params: history_values(msg@, command_id, place_id),
            }),
            None => msg.time > i64::MAX,
        },
{
    match history_params(msg, command_id, place_id) {
        Some(params) => Some(SqlStatement { sql: String::from_str(INSERT_HISTORY), params }),
        None => None,
    }
}

/// What follows an insertion into a table whose rows occur once.
#[derive(Clone, Copy, Debug, PartialEq, Eq, Structural)]
pub enum Upsert {
    /// The row is new and has this id.
    Done(i64),
    /// The insertion changed nothing or failed: the row that is there is
    /// looked up.
    LookUp,
}

/// Decides what follows an insertion: a new row's id stands, and after
/// anything else the row is looked up.
pub fn after_insertion(inserted: &Result<i64, rusqlite::Error>) -> (next: Upsert)
    ensures
        next == (match *inserted {
            Ok(id) => Upsert::Done(id),
            Err(_) => Upsert::LookUp,
        }),
{
    match inserted {
        Ok(id) => Upsert::Done(*id),
        Err(_) => Upsert::LookUp,
    }
}

/// Inserts a row and gives its id, or where the insertion changes nothing,
/// as for a row that is there already, looks the row up and gives the id it
/// has.
fn upsert(con: &rusqlite::Connection, insertion: &SqlStatement, lookup: &SqlStatement) -> (r:
    Result<i64, rusqlite::Error>) {
    let mut stmt = match prepare(con, insertion.sql.as_str()) {
        Ok(stmt) => stmt,
        Err(e) => {
            return Err(e);
        },
    };
    let inserted = statement_insert(&mut stmt, &to_values(&insertion.params));
    match after_insertion(&inserted) {
        Upsert::Done(id) => Ok(id),
        Upsert::LookUp => {
            let mut found = match prepare(con, lookup.sql.as_str()) {
                Ok(found) => found,
                Err(e) => {
                    return Err(e);
                },
            };
            statement_first_id(&mut found, &to_values(&lookup.params))
        },
    }
}

/// What is told of an event whose end time does not fit the store's
/// integers.
pub const TIME_OUT_OF_RANGE: &'static str = "end time out of range for the store";

/// Whether an error says that an end time does not fit the store's
/// integers.
pub open spec fn beyond_store(e: RpcError) -> bool {
    match e {
        RpcError::SqlError { msg } => msg@ == TIME_OUT_OF_RANGE@,
        _ => false,
    }
}

/// Records one event: the command and the place are inserted or found, then
/// the event is inserted with their ids. What the database answers is the
/// database's own, so success is never owed. A failure of the database
/// comes back with the message of its error; an end time beyond the store's
/// integers fails after the command and the place, with a message of its
/// own, and with no error but these.
pub fn insert(con: &rusqlite::Connection, msg: &RpcMessage) -> (r: Result<(), RpcError>)
    ensures
        r matches Err(e) ==> e.reported() || (msg.time > i64::MAX && beyond_store(e)),
        msg.time > i64::MAX ==> r is Err,
{
    let command_id = match upsert(con, &command_insert(msg), &command_lookup(msg)) {
        Ok(id) => id,
        Err(e) => {
            return Err(RpcError::from_sql(&e));
        },
    };
    let place_id = match upsert(con, &place_insert(msg), &place_lookup(msg)) {
        Ok(id) => id,
        Err(e) => {
            return Err(RpcError::from_sql(&e));
        },
    };
    let st = match history_statement(msg, command_id, place_id) {
        Some(st) => st,
        None => {
            return Err(RpcError::SqlError { msg: String::from_str(TIME_OUT_OF_RANGE) });
        },
    };
    let mut stmt = match prepare(con, st.sql.as_str()) {
        Ok(stmt) => stmt,
        Err(e) => {
            return Err(RpcError::from_sql(&e));
        },
    };
    match statement_execute(&mut stmt, &to_values(&st.params)) {
        Ok(_) => Ok(()),
        Err(e) => Err(RpcError::from_sql(&e)),
    }
}

/// Why a datagram was not recorded.
#[derive(Clone, Debug, PartialEq, Eq)]
pub enum IngestError {
    /// The datagram was turned away.
    Datagram(DatagramError),
    /// The store failed.
    Store(RpcError),
}

impl IngestError {
    /// What to tell of the error.
    pub fn describe(&self) -> (text: String)
        ensures
            text@ == match *self {
                IngestError::Datagram(e) => "Failure to parse UDP datagram: "@ + e.describe_text(),
                IngestError::Store(e) => "Inserting into history database: "@ + e.message_text(),
            },
    {
        match self {
            IngestError::Datagram(e) => String::from_str("Failure to parse UDP datagram: ").concat(
                e.describe().as_str(),
            ),
            IngestError::Store(e) => String::from_str("Inserting into history database: ").concat(
                e.message().as_str(),
            ),
        }
    }
}

/// Takes one datagram in: reads it, stamps it with the server's clock, and
/// records it. A datagram that is not well formed is turned away before the
/// store is touched; no error ends the listener.
pub fn ingest(con: &rusqlite::Connection, buf: &[u8]) -> (r: Result<(), IngestError>)
    ensures
        datagram_fault(buf@) matches Some(fault) ==> r == Err::<(), IngestError>(
            IngestError::Datagram(fault),
        ),
        r matches Err(IngestError::Datagram(e)) ==> datagram_fault(buf@) == Some(e) || e
            == DatagramError::Clock,
        r matches Err(IngestError::Store(e)) ==> e.reported() || beyond_store(e),
{
    match deserialize(buf) {
        Err(e) => Err(IngestError::Datagram(e)),
        Ok(msg) => match insert(con, &msg) {
            Ok(()) => Ok(()),
            Err(e) => Err(IngestError::Store(e)),
        },
    }
}

} // verus!
