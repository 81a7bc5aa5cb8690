//! The incremental reverse search: what each key does to the search, which
//! request goes to the server, and what the terminal shows afterwards.

use vstd::prelude::*;
use vstd::string::*;
use crate::tcp::IsearchQuery;
use crate::tcp::IsearchQueryView;
use crate::tcp::text_of;
use crate::text::replace;
use crate::text::replace_all;

verus! {

/// `std::string::String::pop` takes the last character off, where there is one.
pub assume_specification[ std::string::String::pop ](s: &mut std::string::String) -> (r: Option<
    char,
>)
    ensures
        old(s)@.len() == 0 ==> r is None && final(s)@ == old(s)@,
        old(s)@.len() > 0 ==> r == Some(old(s)@.last()) && final(s)@ == old(s)@.drop_last(),
;

/// The text that `crossterm::style::Attribute::Reverse` displays: the
/// sequence that turns reverse video on. Which characters it holds depends on
/// the platform, so nothing is claimed of it.
#[verifier::external_body]
fn reverse_on() -> (code: String) {
    format!("{}", crossterm::style::Attribute::Reverse)
}

/// The text that `crossterm::style::Attribute::Reset` displays: the sequence
/// that turns every attribute off. Which characters it holds depends on the
/// platform, so nothing is claimed of it.
#[verifier::external_body]
fn attributes_off() -> (code: String) {
    format!("{}", crossterm::style::Attribute::Reset)
}

/// The prompt while the search finds something.
pub const PROMPT: &'static str = "(reverse-i-search)";

/// The prompt while the search finds nothing.
pub const FAILED_PROMPT: &'static str = "(failed reverse-i-search)";

/// A key of the keyboard, as far as the search tells keys apart.
#[derive(Clone, Copy, Debug, PartialEq, Eq)]
pub enum Press {
    Enter,
    Tab,
    Up,
    Down,
    Backspace,
    Char(char),
    Other,
}

/// What was held down with a key.
#[derive(Clone, Copy, Debug, PartialEq, Eq)]
pub enum Held {
    Nothing,
    Shift,
    Control,
    Other,
}

/// What the terminal reports.
#[derive(Clone, Copy, Debug, PartialEq, Eq)]
pub enum TermEvent {
    Key(Press, Held),
    Resize(u16, u16),
    Other,
}

/// What the search does after an event.
#[derive(Clone, Copy, Debug, PartialEq, Eq)]
pub enum Outcome {
    /// Clear what was printed, hand the last match to the shell behind this
    /// code, and stop: `n` runs it, `a` puts the cursor at its start, `_` at
    /// its end.
    Accept(char),
    /// Clear the line and stop.
    Cancel,
    /// Ask the server again and show what it finds.
    Search,
}

/// The search between two events.
#[derive(Debug, PartialEq, Eq)]
pub struct SearchState {
    pub query: String,
    pub last_match: Option<String>,
    pub offset_from_end: u32,
    pub term_dimensions: (u16, u16),
    pub last_n_term_chars_printed: u16,
}

/// A `SearchState` with its texts as character sequences.
pub ghost struct SearchView {
    pub query: Seq<char>,
    pub last_match: Option<Seq<char>>,
    pub offset_from_end: u32,
    pub term_dimensions: (u16, u16),
    pub last_n_term_chars_printed: u16,
}

impl View for SearchState {
    type V = SearchView;

    open spec fn view(&self) -> SearchView {
        SearchView {
            query: self.query@,
            last_match: text_of(self.last_match),
            offset_from_end: self.offset_from_end,
            term_dimensions: self.term_dimensions,
            last_n_term_chars_printed: self.last_n_term_chars_printed,
        }
    }
}

/// What the terminal is to show: go up so many lines, to the start of the
/// line, clear from there down, and print the text.
#[derive(Clone, Debug, PartialEq, Eq)]
pub struct Screen {
    pub rows_up: u16,
    pub text: String,
}

/// What the search does after `ev`.
pub open spec fn outcome_of(ev: TermEvent) -> Outcome {
    match ev {
        TermEvent::Key(Press::Enter, Held::Nothing) => Outcome::Accept('n'),
        TermEvent::Key(Press::Char('a'), Held::Control) => Outcome::Accept('a'),
        TermEvent::Key(Press::Tab, Held::Nothing) => Outcome::Accept('_'),
        TermEvent::Key(Press::Char('e'), Held::Control) => Outcome::Accept('_'),
        TermEvent::Key(Press::Char('c'), Held::Control) => Outcome::Cancel,
        TermEvent::Key(Press::Char('d'), Held::Control) => Outcome::Cancel,
        _ => Outcome::Search,
    }
}

/// The search after `ev`: the arrow up and control-R go one match further
/// back, the arrow down, control-F and control-S one match forward; a
/// character joins the query and backspace takes the last one off, both
/// starting again at the latest match; a resize is noted; every other event
/// changes nothing.
pub open spec fn after_event(s: SearchView, ev: TermEvent) -> SearchView {
    match ev {
        TermEvent::Key(Press::Up, Held::Nothing) | TermEvent::Key(
            Press::Char('r'),
            Held::Control,
        ) => SearchView {
            offset_from_end: if s.offset_from_end < u32::MAX {
                (s.offset_from_end + 1) as u32
            } else {
                s.offset_from_end
            },
            ..s
        },
        TermEvent::Key(Press::Down, Held::Nothing) | TermEvent::Key(
            Press::Char('f'),
            Held::Control,
        ) | TermEvent::Key(Press::Char('s'), Held::Control) => SearchView {
            offset_from_end: if s.offset_from_end > 0 {
                (s.offset_from_end - 1) as u32
            } else {
                0
            },
            ..s
        },
        TermEvent::Key(Press::Backspace, Held::Nothing) => SearchView {
            offset_from_end: 0,
            query: if s.query.len() > 0 {
                s.query.drop_last()
            } else {
                s.query
            },
            ..s
        },
        TermEvent::Key(Press::Char(c), Held::Nothing) | TermEvent::Key(
            Press::Char(c),
            Held::Shift,
        ) => SearchView { offset_from_end: 0, query: s.query.push(c), ..s },
        TermEvent::Resize(x, y) => SearchView { term_dimensions: (x, y), ..s },
        _ => s,
    }
}

/// The number of bytes that a text takes in UTF-8.
pub open spec fn byte_len(s: Seq<char>) -> nat {
    vstd::utf8::encode_utf8(s).len()
}

/// How many characters a line is counted as: the bytes of the prompt, of the
/// query and of what is shown, and four for the marks between them, kept to
/// sixteen bits.
pub open spec fn printed_width(prompt: Seq<char>, query: Seq<char>, shown: Seq<char>) -> u16 {
    ((byte_len(prompt) + byte_len(query) + 4 + byte_len(shown)) % 0x1_0000) as u16
}

/// How many lines lie above the cursor's line, going by what was printed
/// last and the width of the terminal.
pub open spec fn rows_above(s: SearchView) -> u16 {
    (s.last_n_term_chars_printed as int / (s.term_dimensions.0 as int + 1)) as u16
}

/// `result` with every occurrence of `query` between the marks `on` and `off`.
pub open spec fn highlighted(
    result: Seq<char>,
    query: Seq<char>,
    on: Seq<char>,
    off: Seq<char>,
) -> Seq<char> {
    replace_all(result, query, on + query + off)
}

/// The line for a search: the prompt, the query between a backquote and a
/// quote, a colon, and what is shown.
pub open spec fn line_of(prompt: Seq<char>, query: Seq<char>, shown: Seq<char>) -> Seq<char> {
    prompt + "`"@ + query + "': "@ + shown
}

/// What is shown for an answer: the match with the query highlighted; where
/// nothing was found, the last match so, or nothing.
pub open spec fn shown_text(
    s: SearchView,
    found: Option<Seq<char>>,
    on: Seq<char>,
    off: Seq<char>,
) -> Seq<char> {
    match found {
        Some(c) => highlighted(c, s.query, on, off),
        None => match s.last_match {
            Some(m) => highlighted(m, s.query, on, off),
            None => Seq::<char>::empty(),
        },
    }
}

/// The line printed for an answer.
pub open spec fn answer_line(
    s: SearchView,
    found: Option<Seq<char>>,
    on: Seq<char>,
    off: Seq<char>,
) -> Seq<char> {
    line_of(
        if found is Some {
            PROMPT@
        } else {
            FAILED_PROMPT@
        },
        s.query,
        shown_text(s, found, on, off),
    )
}

/// The search after an answer: a match becomes the last match, and the width
/// of the line is counted from the prompt, the query and the match (without
/// the highlighting).
pub open spec fn after_answer(s: SearchView, found: Option<Seq<char>>) -> SearchView {
    match found {
        Some(c) => SearchView {
            last_match: Some(c),
            last_n_term_chars_printed: printed_width(PROMPT@, s.query, c),
            ..s
        },
        None => SearchView {
            last_n_term_chars_printed: printed_width(
                FAILED_PROMPT@,
                s.query,
                match s.last_match {
                    Some(m) => m,
                    None => Seq::<char>::empty(),
                },
            ),
            ..s
        },
    }
}

/// Counts a line's width from the byte lengths of its three texts.
fn count_width(prompt: usize, query: usize, shown: usize) -> (n: u16)
    ensures
        n == ((prompt + query + 4 + shown) % 0x1_0000) as u16,
{
    let total: u128 = prompt as u128 + query as u128 + 4 + shown as u128;
    (total % 0x1_0000) as u16
}

/// Puts every occurrence of `query` in `result` between the marks `on` and
/// `off`.
pub fn highlight_with(result: &str, query: &str, on: &str, off: &str) -> (out: String)
    ensures
        out@ == highlighted(result@, query@, on@, off@),
{
    let mut marked = String::from_str(on);
    marked.append(query);
    marked.append(off);
    replace(result, query, marked.as_str())
}

/// Puts every occurrence of `query` in `result` in reverse video.
pub fn highlight(result: &str, query: &str) -> (out: String)
    ensures
        exists|on: Seq<char>, off: Seq<char>| out@ == highlighted(result@, query@, on, off),
{
    let on = reverse_on();
    let off = attributes_off();
    let out = highlight_with(result, query, on.as_str(), off.as_str());
    assert(out@ == highlighted(result@, query@, on@, off@));
    out
}

/// What is printed before the first key: the prompt with an empty query.
pub fn initial_prompt() -> (text: String)
    ensures
        text@ == PROMPT@ + "`': "@,
{
    String::from_str(PROMPT).concat("`': ")
}

impl SearchState {
    /// A search with an empty query on a terminal of the given width and
    /// height, before anything was found or printed.
    pub fn new(term_dimensions: (u16, u16)) -> (s: SearchState)
        ensures
            s@ == (SearchView {
                query: Seq::<char>::empty(),
                last_match: None,
                offset_from_end: 0,
                term_dimensions,
                last_n_term_chars_printed: 0,
            }),
    {
        SearchState {
            query: String::new(),
            last_match: None,
            offset_from_end: 0,
            term_dimensions,
            last_n_term_chars_printed: 0,
        }
    }

    /// How many lines to go up before clearing what was printed last.
    pub fn rows_up(&self) -> (n: u16)
        ensures
            n == rows_above(self@),
    {
        let width: u32 = self.term_dimensions.0 as u32 + 1;
        (self.last_n_term_chars_printed as u32 / width) as u16
    }

    /// Takes an event in: changes the search as the event says, and tells
    /// what to do next.
    pub fn on_event(&mut self, ev: TermEvent) -> (outcome: Outcome)
        ensures
            outcome == outcome_of(ev),
            final(self)@ == after_event(old(self)@, ev),
    {
        match ev {
            TermEvent::Key(Press::Enter, Held::Nothing) => Outcome::Accept('n'),
            TermEvent::Key(Press::Char('a'), Held::Control) => Outcome::Accept('a'),
            TermEvent::Key(Press::Tab, Held::Nothing) => Outcome::Accept('_'),
            TermEvent::Key(Press::Char('e'), Held::Control) => Outcome::Accept('_'),
            TermEvent::Key(Press::Char('c'), Held::Control) => Outcome::Cancel,
            TermEvent::Key(Press::Char('d'), Held::Control) => Outcome::Cancel,
            TermEvent::Key(Press::Up, Held::Nothing) | TermEvent::Key(
                Press::Char('r'),
                Held::Control,
            ) => {
                if self.offset_from_end < u32::MAX {
                    self.offset_from_end = self.offset_from_end + 1;
                }
                Outcome::Search
            },
            TermEvent::Key(Press::Down, Held::Nothing) | TermEvent::Key(
                Press::Char('f'),
                Held::Control,
            ) | TermEvent::Key(Press::Char('s'), Held::Control) => {
                if self.offset_from_end > 0 {
                    self.offset_from_end = self.offset_from_end - 1;
                }
                Outcome::Search
            },
            TermEvent::Key(Press::Backspace, Held::Nothing) => {
                self.offset_from_end = 0;
                let _ = self.query.pop();
                Outcome::Search
            },
            TermEvent::Key(Press::Char(c), Held::Nothing) | TermEvent::Key(
                Press::Char(c),
                Held::Shift,
            ) => {
                self.offset_from_end = 0;
                self.query.push(c);
                Outcome::Search
            },
            TermEvent::Resize(x, y) => {
                self.term_dimensions = (x, y);
                Outcome::Search
            },
            _ => Outcome::Search,
        }
    }

    /// The request for the server: the query as it stands, the offset, one
    /// row, and the directory that the shell is in.
    pub fn request(&self, cwd: &str) -> (q: IsearchQuery)
        ensures
            q@ == (IsearchQueryView {
                command: self@.query,
                dir: cwd@,
                limit: 1,
                offset: self@.offset_from_end,
            }),
    {
        IsearchQuery {
            command: self.query.clone(),
            limit: 1,
            dir: String::from_str(cwd),
            offset: self.offset_from_end,
        }
    }

    /// What goes to the shell when the search is accepted: the code, a
    /// space, and the last match, or nothing where there is none.
    pub fn selection(&self, code: char) -> (text: String)
        ensures
            text@ == seq![code, ' '] + match self@.last_match {
                Some(m) => m,
                None => Seq::<char>::empty(),
            },
    {
        let mut text = String::new();
        text.push(code);
        text.push(' ');
        assert(text@ =~= seq![code, ' ']);
        match &self.last_match {
            Some(m) => {
                text.append(m.as_str());
            },
            None => {
                assert(text@ =~= seq![code, ' '] + Seq::<char>::empty());
            },
        }
        text
    }

    /// Takes the server's answer in, with the marks `on` and `off` for the
    /// highlighting: says what the terminal is to show, and remembers the
    /// match and the width of the line.
    pub fn on_result_with(&mut self, found: Option<String>, on: &str, off: &str) -> (screen: Screen)
        ensures
            screen.rows_up == rows_above(old(self)@),
            screen.text@ == answer_line(old(self)@, text_of(found), on@, off@),
            final(self)@ == after_answer(old(self)@, text_of(found)),
    {
        let rows_up = self.rows_up();
        let query_len = self.query.as_str().as_bytes().len();
        match found {
            Some(c) => {
                let shown = highlight_with(c.as_str(), self.query.as_str(), on, off);
                let mut text = String::from_str(PROMPT);
                text.append("`");
                text.append(self.query.as_str());
                text.append("': ");
                text.append(shown.as_str());
                self.last_n_term_chars_printed = count_width(
                    PROMPT.as_bytes().len(),
                    query_len,
                    c.as_str().as_bytes().len(),
                );
                self.last_match = Some(c);
                Screen { rows_up, text }
            },
            None => {
                let mut text = String::from_str(FAILED_PROMPT);
                text.append("`");
                text.append(self.query.as_str());
                text.append("': ");
                let shown_len = match &self.last_match {
                    Some(m) => {
                        let shown = highlight_with(m.as_str(), self.query.as_str(), on, off);
                        text.append(shown.as_str());
                        m.as_str().as_bytes().len()
                    },
                    None => {
                        assert(text@ =~= text@ + Seq::<char>::empty());
                        assert(byte_len(Seq::<char>::empty()) == 0) by {
                            reveal_with_fuel(vstd::utf8::encode_utf8, 1);
                        }
                        0
                    },
                };
                self.last_n_term_chars_printed = count_width(
                    FAILED_PROMPT.as_bytes().len(),
                    query_len,
                    shown_len,
                );
                Screen { rows_up, text }
            },
        }
    }

    /// Takes the server's answer in: says what the terminal is to show, with
    /// the query in reverse video, and remembers the match and the width of
    /// the line.
    pub fn on_result(&mut self, found: Option<String>) -> (screen: Screen)
        ensures
            screen.rows_up == rows_above(old(self)@),
            exists|on: Seq<char>, off: Seq<char>|
                screen.text@ == answer_line(old(self)@, text_of(found), on, off),
            final(self)@ == after_answer(old(self)@, text_of(found)),
    {
        let on = reverse_on();
        let off = attributes_off();
        let ghost before = self@;
        let screen = self.on_result_with(found, on.as_str(), off.as_str());
        assert(screen.text@ == answer_line(before, text_of(found), on@, off@));
        screen
    }
}

} // verus!
