//! The query client: from the options of the command line to the request,
//! and from the answer to the cells of the table.

use vstd::prelude::*;
use vstd::string::*;
use crate::tcp::Query;
use crate::tcp::QueryResultRow;
use crate::tcp::QueryView;
use crate::tcp::text_of;
use crate::text::ends_with;
use crate::text::to_chars;

verus! {

/// The grapheme clusters of a text, in order, as
/// `unicode_segmentation::UnicodeSegmentation::graphemes` finds them with the
/// extended rules.
pub uninterp spec fn grapheme_clusters(s: Seq<char>) -> Seq<Seq<char>>;

/// The number of columns that a text takes on a terminal, as
/// `unicode_width::UnicodeWidthStr::width` counts them.
pub uninterp spec fn display_width(s: Seq<char>) -> usize;

/// `unicode_segmentation::UnicodeSegmentation::graphemes` with the extended
/// rules: cuts `s` into its grapheme clusters. The result is a function of
/// the text alone.
#[verifier::external_body]
fn graphemes(s: &str) -> (clusters: Vec<String>)
    ensures
        clusters@.len() == grapheme_clusters(s@).len(),
        forall|i: int|
            0 <= i < clusters@.len() ==> (#[trigger] clusters@[i])@ == grapheme_clusters(s@)[i],
{
    unicode_segmentation::UnicodeSegmentation::graphemes(s, true).map(|g| g.to_string()).collect()
}

/// `unicode_width::UnicodeWidthStr::width`: counts the columns of `s`. The
/// result is a function of the text alone.
#[verifier::external_body]
fn width(s: &str) -> (columns: usize)
    ensures
        columns == display_width(s@),
{
    unicode_width::UnicodeWidthStr::width(s)
}

/// The pattern for a time of today: hour, minutes, and half of the day.
pub const CLOCK_PATTERN: &'static str = "%-I:%M%p";

/// The pattern for a time of another day: month and day.
pub const DAY_PATTERN: &'static str = "%m/%d";

/// The first second that the calendar of `chrono` holds: the beginning of
/// the year -262143 in universal time.
pub const FIRST_TIME: i64 = -8_334_601_228_800;

/// The last second that the calendar of `chrono` holds: the end of the year
/// 262142 in universal time.
pub const LAST_TIME: i64 = 8_210_266_876_799;

/// Whether a time can be written as a date.
pub open spec fn in_calendar(time: i64) -> bool {
    FIRST_TIME <= time <= LAST_TIME
}

/// Whether a number of seconds can be a zone's distance from universal
/// time: less than a day either way.
pub open spec fn is_offset(offset: i32) -> bool {
    -86_400 < offset < 86_400
}

/// Whether a time can be written as a date in a zone: the zone's distance
/// is less than a day, and the time lies within the calendar.
pub open spec fn can_be_written(time: i64, offset: i32) -> bool {
    is_offset(offset) && in_calendar(time)
}

/// A time written after a pattern in the zone that lies `offset` seconds
/// east of universal time, as `chrono::DateTime::format` writes it.
pub uninterp spec fn written_time(time: i64, offset: i32, pattern: Seq<char>) -> Seq<char>;

/// `chrono::FixedOffset::east_opt`, `chrono::DateTime::from_timestamp`,
/// `with_timezone` and `format`: the time written after `pattern` in the
/// zone that lies `offset` seconds east of universal time. There is a text
/// where the offset is less than a day and the time lies between the first
/// day of `chrono::NaiveDate` and its last, and nowhere else. The text is a
/// function of the three arguments alone.
#[verifier::external_body]
fn zone_time_text(time: i64, offset: i32, pattern: &str) -> (text: Option<String>)
    requires
        pattern@ == CLOCK_PATTERN@ || pattern@ == DAY_PATTERN@,
    ensures
        text is Some <==> can_be_written(time, offset),
        text is Some ==> text.unwrap()@ == written_time(time, offset, pattern@),
{
    let zone = chrono::FixedOffset::east_opt(offset)?;
    let utc = chrono::DateTime::from_timestamp(time, 0)?;
    Some(utc.with_timezone(&zone).format(pattern).to_string())
}

/// The options of the query client.
#[derive(Clone, Debug, PartialEq, Eq)]
pub struct QueryClientOptions {
    /// Show only so many rows.
    pub limit: i32,
    /// Show only one session: the given one, or where none is given, this one.
    pub session: Option<Option<i32>>,
    /// Show only entries since this time.
    pub since: Option<String>,
    /// Show only entries until this time.
    pub until: Option<String>,
    /// Show only entries with this exit status; where none is given, the
    /// failed ones.
    pub status: Option<Option<String>>,
    /// Latest first.
    pub desc: bool,
    /// Show only entries from this directory or below; where none is given,
    /// the current one.
    pub indir: Option<Option<String>>,
    /// Show only entries from this directory; where none is given, the
    /// current one.
    pub at: Option<Option<String>>,
    /// Absent: this host only. Without a name: every host. With a name: that
    /// host only.
    pub host: Option<Option<String>>,
    /// Match the command line as a whole.
    pub exact: bool,
    /// Print no header.
    pub nh: bool,
    /// Print the shell's start-up fragment for this server address.
    pub eval: Option<String>,
    /// The fragment to look for.
    pub command: Option<String>,
}

/// The characters of a text that may be absent, or present without a value.
pub open spec fn text_of2(s: Option<Option<String>>) -> Option<Option<Seq<char>>> {
    match s {
        Some(t) => Some(text_of(t)),
        None => None,
    }
}

/// `QueryClientOptions` with its texts as character sequences.
pub ghost struct OptionsView {
    pub limit: i32,
    pub session: Option<Option<i32>>,
    pub since: Option<Seq<char>>,
    pub until: Option<Seq<char>>,
    pub status: Option<Option<Seq<char>>>,
    pub desc: bool,
    pub indir: Option<Option<Seq<char>>>,
    pub at: Option<Option<Seq<char>>>,
    pub host: Option<Option<Seq<char>>>,
    pub exact: bool,
    pub nh: bool,
    pub eval: Option<Seq<char>>,
    pub command: Option<Seq<char>>,
}

impl View for QueryClientOptions {
    type V = OptionsView;

    open spec fn view(&self) -> OptionsView {
        OptionsView {
            limit: self.limit,
            session: self.session,
            since: text_of(self.since),
            until: text_of(self.until),
            status: text_of2(self.status),
            desc: self.desc,
            indir: text_of2(self.indir),
            at: text_of2(self.at),
            host: text_of2(self.host),
            exact: self.exact,
            nh: self.nh,
            eval: text_of(self.eval),
            command: text_of(self.command),
        }
    }
}

/// An option that stands for `fallback` where it is given without a value.
pub open spec fn or_default(o: Option<Option<Seq<char>>>, fallback: Seq<char>) -> Option<
    Seq<char>,
> {
    match o {
        None => None,
        Some(None) => Some(fallback),
        Some(Some(t)) => Some(t),
    }
}

/// The request that the options stand for, on the host `hostname`, in the
/// directory `cwd` and the session `session`, with the two times already
/// read: without `--host` this host only; `--in` and `--at` without a
/// directory mean the current one, `--tty` without a number this session,
/// `--status` without a value the failed commands.
pub open spec fn query_of(
    o: OptionsView,
    hostname: Seq<char>,
    cwd: Seq<char>,
    session: i32,
    since: Option<i64>,
    until: Option<i64>,
) -> QueryView {
    QueryView {
        host: match o.host {
            None => Some(hostname),
            Some(None) => None,
            Some(Some(h)) => Some(h),
        },
        command: o.command,
        exact: o.exact,
        indir: or_default(o.indir, cwd),
        atdir: or_default(o.at, cwd),
        session: match o.session {
            None => None,
            Some(None) => Some(session),
            Some(Some(t)) => Some(t),
        },
        status: or_default(o.status, "error"@),
        since,
        until,
        desc: o.desc,
        limit: o.limit,
    }
}

/// A copy of an optional text.
fn copy_text(s: &Option<String>) -> (out: Option<String>)
    ensures
        text_of(out) == text_of(*s),
{
    match s {
        Some(t) => Some(t.clone()),
        None => None,
    }
}

/// A copy of an option's text, or `fallback` where it is given without one.
fn copy_or_default(o: &Option<Option<String>>, fallback: &str) -> (out: Option<String>)
    ensures
        text_of(out) == or_default(text_of2(*o), fallback@),
{
    match o {
        None => None,
        Some(None) => Some(String::from_str(fallback)),
        Some(Some(t)) => Some(t.clone()),
    }
}

/// Which columns the table has besides the time and the command.
#[derive(Clone, Copy, Debug, PartialEq, Eq, Structural)]
pub struct Columns {
    pub host: bool,
    pub tty: bool,
    pub dir: bool,
}

/// The cell of a table: a text or a number.
#[derive(Clone, Debug, PartialEq, Eq)]
pub enum Cell {
    Text(String),
    Int(i32),
}

/// A cell with its text as a character sequence.
pub ghost enum CellView {
    Text(Seq<char>),
    Int(i32),
}

impl View for Cell {
    type V = CellView;

    open spec fn view(&self) -> CellView {
        match *self {
            Cell::Text(t) => CellView::Text(t@),
            Cell::Int(i) => CellView::Int(i),
        }
    }
}

/// The cells behind a row of the table.
pub open spec fn cells_of(cells: Seq<Cell>) -> Seq<CellView>
    decreases cells.len(),
{
    if cells.len() == 0 {
        Seq::<CellView>::empty()
    } else {
        cells_of(cells.drop_last()).push(cells.last()@)
    }
}

/// The texts behind a list of strings.
pub open spec fn texts_of(texts: Seq<String>) -> Seq<Seq<char>>
    decreases texts.len(),
{
    if texts.len() == 0 {
        Seq::<Seq<char>>::empty()
    } else {
        texts_of(texts.drop_last()).push(texts.last()@)
    }
}

/// The clusters that take at least one column, put together: each cluster
/// goes with the width at its position.
pub open spec fn kept(clusters: Seq<Seq<char>>, widths: Seq<usize>) -> Seq<char>
    decreases clusters.len(),
{
    if clusters.len() == 0 || widths.len() != clusters.len() {
        Seq::<char>::empty()
    } else if widths.last() == 0 {
        kept(clusters.drop_last(), widths.drop_last())
    } else {
        kept(clusters.drop_last(), widths.drop_last()) + clusters.last()
    }
}

/// The width of each cluster.
pub open spec fn widths_of(clusters: Seq<Seq<char>>) -> Seq<usize>
    decreases clusters.len(),
{
    if clusters.len() == 0 {
        Seq::<usize>::empty()
    } else {
        widths_of(clusters.drop_last()).push(display_width(clusters.last()))
    }
}

/// A text without the grapheme clusters that take no column.
pub open spec fn without_zero_width(s: Seq<char>) -> Seq<char> {
    kept(grapheme_clusters(s), widths_of(grapheme_clusters(s)))
}

/// The seconds of a day.
pub const DAY_SECONDS: i64 = 86_400;

/// The day that a time falls on, counted from the first of January 1970 in
/// universal time.
pub open spec fn utc_day(t: i64) -> int {
    t as int / 86_400
}

/// The headers for a choice of columns.
pub open spec fn header_texts(c: Columns) -> Seq<Seq<char>> {
    seq!["time"@] + (if c.host {
        seq!["host"@]
    } else {
        Seq::<Seq<char>>::empty()
    }) + (if c.tty {
        seq!["tty"@]
    } else {
        Seq::<Seq<char>>::empty()
    }) + (if c.dir {
        seq!["dir"@]
    } else {
        Seq::<Seq<char>>::empty()
    }) + seq!["cmd"@]
}

/// The cells of one row for a choice of columns: the date as given, then
/// host, session and directory as far as chosen, then the command line, the
/// texts without what takes no column.
pub open spec fn row_cells_of(row: QueryResultRow, c: Columns, date: Seq<char>) -> Seq<CellView> {
    seq![CellView::Text(date)] + (if c.host {
        seq![CellView::Text(without_zero_width(row.host@))]
    } else {
        Seq::<CellView>::empty()
    }) + (if c.tty {
        seq![CellView::Int(row.session)]
    } else {
        Seq::<CellView>::empty()
    }) + (if c.dir {
        seq![CellView::Text(without_zero_width(row.dir@))]
    } else {
        Seq::<CellView>::empty()
    }) + seq![CellView::Text(without_zero_width(row.argv@))]
}

/// Whether the start-up fragment can be made for this shell: its name ends
/// in `bash`.
pub fn supports_shell(shell: &str) -> (bash: bool)
    ensures
        bash == "bash"@.is_suffix_of(shell@),
{
    ends_with(&to_chars(shell), &to_chars("bash"))
}

/// Puts together the clusters whose width is not zero; nothing where there
/// is not one width for each cluster.
pub fn keep_wide(clusters: &Vec<String>, widths: &Vec<usize>) -> (out: String)
    ensures
        out@ == kept(texts_of(clusters@), widths@),
{
    let mut out = String::new();
    let mut i: usize = 0;
    proof {
        lemma_texts_len(clusters@);
    }
    if clusters.len() != widths.len() {
        return out;
    }
    assert(clusters@.take(0) =~= Seq::<String>::empty());
    assert(widths@.take(0) =~= Seq::<usize>::empty());
    while i < clusters.len()
        invariant
            i <= clusters.len(),
            clusters@.len() == widths@.len(),
            out@ == kept(texts_of(clusters@.take(i as int)), widths@.take(i as int)),
        decreases clusters.len() - i,
    {
        proof {
            let cs = clusters@.take(i + 1);
            assert(cs.drop_last() =~= clusters@.take(i as int));
            assert(widths@.take(i + 1).drop_last() =~= widths@.take(i as int));
            lemma_texts_len(cs);
            lemma_texts_len(clusters@.take(i as int));
            assert(texts_of(cs).drop_last() =~= texts_of(clusters@.take(i as int)));
        }
        if widths[i] != 0 {
            out.append(clusters[i].as_str());
        }
        i += 1;
    }
    assert(clusters@.take(clusters@.len() as int) =~= clusters@);
    assert(widths@.take(widths@.len() as int) =~= widths@);
    out
}

/// A list of texts is as long as the list of strings behind it.
pub proof fn lemma_texts_len(texts: Seq<String>)
    ensures
        texts_of(texts).len() == texts.len(),
        forall|i: int| 0 <= i < texts.len() ==> texts_of(texts)[i] == (#[trigger] texts[i])@,
    decreases texts.len(),
{
    if texts.len() > 0 {
        let front = texts.drop_last();
        lemma_texts_len(front);
        assert forall|i: int| 0 <= i < texts.len() implies texts_of(texts)[i] == (
        #[trigger] texts[i])@ by {
            if i < front.len() {
                assert(front[i] == texts[i]);
            }
        }
    }
}

/// Takes the grapheme clusters that take no column out of `s`.
pub fn remove_zero_width_graphemes(s: &str) -> (out: String)
    ensures
        out@ == without_zero_width(s@),
{
    let clusters = graphemes(s);
    let mut widths: Vec<usize> = Vec::new();
    let mut i: usize = 0;
    proof {
        lemma_texts_len(clusters@);
        assert forall|j: int| 0 <= j < clusters@.len() implies texts_of(clusters@)[j]
            == grapheme_clusters(s@)[j] by {
            assert(texts_of(clusters@)[j] == clusters@[j]@);
        }
        assert(texts_of(clusters@) =~= grapheme_clusters(s@));
    }
    while i < clusters.len()
        invariant
            i <= clusters.len(),
            widths@ == widths_of(texts_of(clusters@).take(i as int)),
            texts_of(clusters@).len() == clusters@.len(),
            forall|j: int|
                0 <= j < clusters@.len() ==> texts_of(clusters@)[j] == (#[trigger] clusters@[j])@,
        decreases clusters.len() - i,
    {
        let w = width(clusters[i].as_str());
        proof {
            let ts = texts_of(clusters@);
            assert(ts.take(i + 1).drop_last() =~= ts.take(i as int));
            assert(ts.take(i + 1).last() == clusters@[i as int]@);
        }
        widths.push(w);
        i += 1;
    }
    proof {
        let ts = texts_of(clusters@);
        assert(ts.take(ts.len() as int) =~= ts);
        lemma_widths_len(ts);
    }
    keep_wide(&clusters, &widths)
}

/// There is one width for each cluster.
pub proof fn lemma_widths_len(clusters: Seq<Seq<char>>)
    ensures
        widths_of(clusters).len() == clusters.len(),
    decreases clusters.len(),
{
    if clusters.len() > 0 {
        lemma_widths_len(clusters.drop_last());
    }
}

/// Why a client cannot reach the server.
#[derive(Clone, Copy, Debug, PartialEq, Eq, Structural)]
pub enum ClientError {
    /// The shell was not told where the server is.
    NotConfigured,
}

/// What to tell a user whose shell was not told where the server is.
pub const NOT_CONFIGURED: &'static str =
    "Unable to access environment variable '__history_server'. Did you forget to 'eval \"$(history --eval <server-name>)\"' in your .bashrc?";

/// Where a client connects to: the server's address as the shell was told
/// it, a colon, and the service port. Without an address the client is not
/// configured.
pub fn server_target(server: Option<&str>, port: u16) -> (r: Result<String, ClientError>)
    ensures
        match server {
            Some(addr) => r matches Ok(target) && target@ == addr@ + ":"@ + crate::util::decimal_text(
                port as nat,
            ),
            None => r == Err::<String, ClientError>(ClientError::NotConfigured),
        },
{
    match server {
        Some(addr) => Ok(crate::util::probe_target(addr, port)),
        None => Err(ClientError::NotConfigured),
    }
}

/// The day that `t` falls on in universal time.
pub fn day_of(t: i64) -> (day: i64)
    ensures
        day == utc_day(t),
{
    if t >= 0 {
        t / DAY_SECONDS
    } else {
        let back: i64 = -(t + 1);
        let whole: i64 = back / DAY_SECONDS;
        assert(t as int / 86_400 == -(whole as int) - 1) by (nonlinear_arith)
            requires
                t < 0,
                back == -(t + 1),
                whole == back as int / 86_400,
        ;
        -whole - 1
    }
}

/// Whether two times fall on the same day in universal time.
pub fn same_utc_day(t: i64, now: i64) -> (same: bool)
    ensures
        same == (utc_day(t) == utc_day(now)),
{
    day_of(t) == day_of(now)
}

/// The pattern that a row's time is written after: the time of day for a
/// row of today, month and day for any other.
pub fn date_pattern(time: i64, now: i64) -> (pattern: &'static str)
    ensures
        pattern@ == pattern_of(time, now),
{
    if same_utc_day(time, now) {
        CLOCK_PATTERN
    } else {
        DAY_PATTERN
    }
}

/// The pattern that a row's time is written after.
pub open spec fn pattern_of(time: i64, now: i64) -> Seq<char> {
    if utc_day(time) == utc_day(now) {
        CLOCK_PATTERN@
    } else {
        DAY_PATTERN@
    }
}

/// The date cell of a row that ended at `time`, seen at `now` in a zone
/// that lies `offset` seconds east of universal time: the time of day for a
/// row of today, month and day for any other, both as the zone's clocks
/// show them. There is a cell where the offset is less than a day and the
/// time lies within the calendar, and nowhere else.
pub fn date_text(time: i64, now: i64, offset: i32) -> (text: Option<String>)
    ensures
        text is Some <==> can_be_written(time, offset),
        text is Some ==> text.unwrap()@ == written_time(time, offset, pattern_of(time, now)),
{
    zone_time_text(time, offset, date_pattern(time, now))
}

impl QueryClientOptions {
    /// The request that the options stand for.
    pub fn to_query(
        &self,
        hostname: &str,
        cwd: &str,
        session: i32,
        since: Option<i64>,
        until: Option<i64>,
    ) -> (q: Query)
        ensures
            q@ == query_of(self@, hostname@, cwd@, session, since, until),
    {
        Query {
            host: match &self.host {
                None => Some(String::from_str(hostname)),
                Some(None) => None,
                Some(Some(h)) => Some(h.clone()),
            },
            command: copy_text(&self.command),
            exact: self.exact,
            indir: copy_or_default(&self.indir, cwd),
            atdir: copy_or_default(&self.at, cwd),
            session: match self.session {
                None => None,
                Some(None) => Some(session),
                Some(Some(t)) => Some(t),
            },
            status: copy_or_default(&self.status, "error"),
            since,
            until,
            desc: self.desc,
            limit: self.limit,
        }
    }

    /// Whether the request needs the number of this session.
    pub fn needs_session(&self) -> (needed: bool)
        ensures
            needed == (self.session == Some(None::<i32>)),
    {
        match self.session {
            Some(None) => true,
            _ => false,
        }
    }

    /// The columns of the table: the host where every host was asked for,
    /// the session unless one was asked for, the directory unless `--at`
    /// fixes it.
    pub fn columns(&self) -> (c: Columns)
        ensures
            c == Columns::of(self@),
    {
        Columns {
            host: match &self.host {
                Some(None) => true,
                _ => false,
            },
            tty: self.session.is_none(),
            dir: self.at.is_none(),
        }
    }

    /// The headers of the table, unless the options say to print none.
    pub fn headers(&self) -> (keys: Option<Vec<String>>)
        ensures
            self.nh ==> keys is None,
            !self.nh ==> keys is Some && texts_of(keys.unwrap()@) == header_texts(
                Columns::of(self@),
            ),
    {
        if self.nh {
            None
        } else {
            Some(header_keys(self.columns()))
        }
    }
}

impl Columns {
    /// The columns that the options ask for: the host where every host was
    /// asked for, the session unless one was asked for, the directory unless
    /// `--at` fixes it.
    pub open spec fn of(o: OptionsView) -> Columns {
        Columns { host: o.host == Some(None::<Seq<char>>), tty: o.session is None, dir: o.at is None }
    }
}

/// The headers for a choice of columns: `time`, then `host`, `tty` and `dir`
/// as far as chosen, then `cmd`.
pub fn header_keys(c: Columns) -> (keys: Vec<String>)
    ensures
        texts_of(keys@) == header_texts(c),
{
    let mut keys: Vec<String> = Vec::new();
    keys.push(String::from_str("time"));
    proof {
        lemma_texts_push(Seq::<String>::empty(), keys@[0]);
        assert(keys@ =~= Seq::<String>::empty().push(keys@[0]));
        assert(texts_of(keys@) =~= seq!["time"@]);
    }
    if c.host {
        let ghost before = keys@;
        keys.push(String::from_str("host"));
        proof {
            lemma_texts_push(before, keys@.last());
        }
    }
    assert(texts_of(keys@) =~= seq!["time"@] + (if c.host {
        seq!["host"@]
    } else {
        Seq::<Seq<char>>::empty()
    }));
    if c.tty {
        let ghost before = keys@;
        keys.push(String::from_str("tty"));
        proof {
            lemma_texts_push(before, keys@.last());
        }
    }
    assert(texts_of(keys@) =~= seq!["time"@] + (if c.host {
        seq!["host"@]
    } else {
        Seq::<Seq<char>>::empty()
    }) + (if c.tty {
        seq!["tty"@]
    } else {
        Seq::<Seq<char>>::empty()
    }));
    if c.dir {
        let ghost before = keys@;
        keys.push(String::from_str("dir"));
        proof {
            lemma_texts_push(before, keys@.last());
        }
    }
    let ghost before = keys@;
    keys.push(String::from_str("cmd"));
    proof {
        lemma_texts_push(before, keys@.last());
        assert(texts_of(keys@) =~= header_texts(c));
    }
    keys
}

/// The texts behind a list with one more string.
pub proof fn lemma_texts_push(texts: Seq<String>, more: String)
    ensures
        texts_of(texts.push(more)) == texts_of(texts).push(more@),
{
    assert(texts.push(more).drop_last() =~= texts);
}

/// The cells behind a row with one more cell.
pub proof fn lemma_cells_push(cells: Seq<Cell>, more: Cell)
    ensures
        cells_of(cells.push(more)) == cells_of(cells).push(more@),
{
    assert(cells.push(more).drop_last() =~= cells);
}

/// The cells of one row of the table for a choice of columns.
pub fn row_cells(row: &QueryResultRow, c: Columns, date: String) -> (cells: Vec<Cell>)
    ensures
        cells_of(cells@) == row_cells_of(*row, c, date@),
{
    let mut cells: Vec<Cell> = Vec::new();
    cells.push(Cell::Text(date));
    proof {
        lemma_cells_push(Seq::<Cell>::empty(), cells@[0]);
        assert(cells@ =~= Seq::<Cell>::empty().push(cells@[0]));
        assert(cells_of(cells@) =~= seq![CellView::Text(date@)]);
    }
    if c.host {
        let ghost before = cells@;
        cells.push(Cell::Text(remove_zero_width_graphemes(row.host.as_str())));
        proof {
            lemma_cells_push(before, cells@.last());
        }
    }
    let ghost one = seq![CellView::Text(date@)] + (if c.host {
        seq![CellView::Text(without_zero_width(row.host@))]
    } else {
        Seq::<CellView>::empty()
    });
    assert(cells_of(cells@) =~= one);
    if c.tty {
        let ghost before = cells@;
        cells.push(Cell::Int(row.session));
        proof {
            lemma_cells_push(before, cells@.last());
        }
    }
    let ghost two = one + (if c.tty {
        seq![CellView::Int(row.session)]
    } else {
        Seq::<CellView>::empty()
    });
    assert(cells_of(cells@) =~= two);
    if c.dir {
        let ghost before = cells@;
        cells.push(Cell::Text(remove_zero_width_graphemes(row.dir.as_str())));
        proof {
            lemma_cells_push(before, cells@.last());
        }
    }
    let ghost three = two + (if c.dir {
        seq![CellView::Text(without_zero_width(row.dir@))]
    } else {
        Seq::<CellView>::empty()
    });
    assert(cells_of(cells@) =~= three);
    let ghost before = cells@;
    cells.push(Cell::Text(remove_zero_width_graphemes(row.argv.as_str())));
    proof {
        lemma_cells_push(before, cells@.last());
        assert(cells_of(cells@) =~= row_cells_of(*row, c, date@));
    }
    cells
}

} // verus!
