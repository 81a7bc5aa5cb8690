//! The controlling terminal of a process: how its device number is read from
//! the kernel's status line, and how the device's path is picked from the
//! terminals that exist.

use vstd::prelude::*;
use vstd::string::*;
use crate::text::decimal_i32_text;
use crate::text::parse_i32_text;
use crate::text::to_chars;

verus! {

/// Why the controlling terminal is not known.
#[derive(Clone, Debug, PartialEq, Eq)]
pub enum CttyError {
    /// No terminal has the device number looked for.
    NotFound,
    /// The status line is not made as expected.
    SystemDataParseFailure,
    /// The system could not be asked; the text says why.
    IOError(String),
}

impl CttyError {
    /// What to tell of the error.
    pub fn message(&self) -> (text: String)
        ensures
            text@ == match *self {
                CttyError::NotFound => "Controlling TTY for this process not found"@,
                CttyError::SystemDataParseFailure => "System returned invalid data when looking up CTTY"@,
                CttyError::IOError(msg) => msg@,
            },
    {
        match self {
            CttyError::NotFound => String::from_str("Controlling TTY for this process not found"),
            CttyError::SystemDataParseFailure => String::from_str(
                "System returned invalid data when looking up CTTY",
            ),
            CttyError::IOError(msg) => msg.clone(),
        }
    }
}

/// Whether a character parts words: the characters that Unicode calls white
/// space.
pub open spec fn is_space(c: char) -> bool {
    let v = c as u32;
    ||| 0x09 <= v <= 0x0d
    ||| v == 0x20
    ||| v == 0x85
    ||| v == 0xa0
    ||| v == 0x1680
    ||| 0x2000 <= v <= 0x200a
    ||| v == 0x2028
    ||| v == 0x2029
    ||| v == 0x202f
    ||| v == 0x205f
    ||| v == 0x3000
}

/// How many characters of `s` come before the first white space.
pub open spec fn word_len(s: Seq<char>) -> nat
    decreases s.len(),
{
    if s.len() == 0 || is_space(s[0]) {
        0
    } else {
        1 + word_len(s.skip(1))
    }
}

/// How many characters of white space `s` begins with.
pub open spec fn spaces_len(s: Seq<char>) -> nat
    decreases s.len(),
{
    if s.len() == 0 || !is_space(s[0]) {
        0
    } else {
        1 + spaces_len(s.skip(1))
    }
}

/// Word `n` of `s`, counted from zero, where words are what stands between
/// white space; nothing where `s` has no such word.
pub open spec fn nth_word(s: Seq<char>, n: nat) -> Option<Seq<char>>
    decreases n,
{
    let t = s.skip(spaces_len(s) as int);
    if t.len() == 0 {
        None
    } else if n == 0 {
        Some(t.take(word_len(t) as int))
    } else {
        nth_word(t.skip(word_len(t) as int), (n - 1) as nat)
    }
}

/// The position of the last `)` in `s`; nothing where there is none.
pub open spec fn last_paren(s: Seq<char>) -> Option<int>
    decreases s.len(),
{
    if s.len() == 0 {
        None
    } else if s.last() == ')' {
        Some(s.len() - 1)
    } else {
        last_paren(s.drop_last())
    }
}

/// A number of 32 bits read as one of 64 bits without a sign, as a cast
/// does: a negative number wraps round.
pub open spec fn widened(v: i32) -> u64 {
    if v >= 0 {
        v as u64
    } else {
        (0x1_0000_0000_0000_0000 + v) as u64
    }
}

/// The device number of the controlling terminal in the status line of a
/// process. The line names the process between parentheses, which may hold
/// spaces, so the fields are counted from behind the last `)`: one
/// character is passed over, and the fifth word after it is the number.
/// Nothing where the line holds no `)` behind its first character, ends at
/// the `)`, goes on behind it with a character that is not ASCII, has fewer
/// than five words there, or the fifth is no decimal integer of 32 bits.
pub open spec fn ctty_dev_of(stat: Seq<char>) -> Option<u64> {
    match last_paren(stat) {
        None => None,
        Some(at) => if at == 0 || at + 1 >= stat.len() || stat[at + 1] as u32 >= 0x80 {
            None
        } else {
            match nth_word(stat.skip(at + 2), 4) {
                None => None,
                Some(word) => match decimal_i32_text(word) {
                    Some(v) => Some(widened(v)),
                    None => None,
                },
            }
        },
    }
}

/// Tests whether a character parts words.
fn space(c: char) -> (yes: bool)
    ensures
        yes == is_space(c),
{
    let v = c as u32;
    (0x09 <= v && v <= 0x0d) || v == 0x20 || v == 0x85 || v == 0xa0 || v == 0x1680 || (0x2000 <= v
        && v <= 0x200a) || v == 0x2028 || v == 0x2029 || v == 0x202f || v == 0x205f || v
        == 0x3000
}

/// Finds the last `)` of `s`.
fn find_last_paren(s: &Vec<char>) -> (at: Option<usize>)
    ensures
        match at {
            Some(i) => last_paren(s@) == Some(i as int) && i < s@.len(),
            None => last_paren(s@) is None,
        },
{
    let mut i: usize = s.len();
    assert(s@.take(s@.len() as int) =~= s@);
    while i > 0
        invariant
            i <= s.len(),
            last_paren(s@) == last_paren(s@.take(i as int)),
        decreases i,
    {
        proof {
            assert(s@.take(i as int).drop_last() =~= s@.take(i - 1));
        }
        if s[i - 1] == ')' {
            return Some(i - 1);
        }
        i -= 1;
    }
    None
}

/// Finds word `n` of what follows position `from` in `s`.
fn find_word(s: &Vec<char>, from: usize, n: usize) -> (word: Option<Vec<char>>)
    requires
        from <= s@.len(),
    ensures
        match word {
            Some(w) => nth_word(s@.skip(from as int), n as nat) == Some(w@),
            None => nth_word(s@.skip(from as int), n as nat) is None,
        },
{
    let mut at: usize = from;
    let mut left: usize = n;
    loop
        invariant
            at <= s@.len(),
            left <= n,
            nth_word(s@.skip(from as int), n as nat) == nth_word(s@.skip(at as int), left as nat),
        decreases s@.len() - at, left,
    {
        let ghost here = s@.skip(at as int);
        let start = at;
        // The white space before the word.
        while at < s.len() && space(s[at])
            invariant
                start <= at <= s@.len(),
                here == s@.skip(start as int),
                spaces_len(here) == (at - start) + spaces_len(s@.skip(at as int)),
            decreases s@.len() - at,
        {
            proof {
                assert(s@.skip(at as int).skip(1) =~= s@.skip(at + 1));
            }
            at += 1;
        }
        proof {
            assert(here.skip(spaces_len(here) as int) =~= s@.skip(at as int));
        }
        if at == s.len() {
            return None;
        }
        let ghost t = s@.skip(at as int);
        let begin = at;
        let mut word: Vec<char> = Vec::new();
        while at < s.len() && !space(s[at])
            invariant
                begin <= at <= s@.len(),
                t == s@.skip(begin as int),
                word_len(t) == (at - begin) + word_len(s@.skip(at as int)),
                word@ == s@.subrange(begin as int, at as int),
            decreases s@.len() - at,
        {
            proof {
                assert(s@.skip(at as int).skip(1) =~= s@.skip(at + 1));
            }
            word.push(s[at]);
            at += 1;
            proof {
                assert(word@ =~= s@.subrange(begin as int, at as int));
            }
        }
        proof {
            assert(t.take(word_len(t) as int) =~= s@.subrange(begin as int, at as int));
            assert(t.skip(word_len(t) as int) =~= s@.skip(at as int));
            assert(at > begin);
        }
        if left == 0 {
            return Some(word);
        }
        left -= 1;
    }
}

/// Reads the device number of the controlling terminal from the status line
/// of a process.
pub fn parse_ctty_dev(stat: &str) -> (r: Result<u64, CttyError>)
    ensures
        match r {
            Ok(dev) => ctty_dev_of(stat@) == Some(dev),
            Err(e) => ctty_dev_of(stat@) is None && e is SystemDataParseFailure,
        },
{
    let chars = to_chars(stat);
    let at = match find_last_paren(&chars) {
        Some(at) => at,
        None => {
            return Err(CttyError::SystemDataParseFailure);
        },
    };
    let n = chars.len();
    if at == 0 || at + 1 >= n || chars[at + 1] as u32 >= 0x80 {
        return Err(CttyError::SystemDataParseFailure);
    }
    let word = match find_word(&chars, at + 2, 4) {
        Some(word) => word,
        None => {
            return Err(CttyError::SystemDataParseFailure);
        },
    };
    match parse_i32_text(&word) {
        Some(v) => Ok(
            if v >= 0 {
                v as u64
            } else {
                u64::MAX - ((-(v as i64) - 1) as u64)
            },
        ),
        None => Err(CttyError::SystemDataParseFailure),
    }
}

/// A terminal that exists: its path and its device number.
#[derive(Clone, Debug, PartialEq, Eq)]
pub struct Terminal {
    pub path: String,
    pub rdev: u64,
}

/// The position of the first terminal with the device number `dev`; nothing
/// where there is none.
pub open spec fn first_with_dev(found: Seq<Terminal>, dev: u64) -> Option<int>
    decreases found.len(),
{
    if found.len() == 0 {
        None
    } else if found[0].rdev == dev {
        Some(0)
    } else {
        match first_with_dev(found.skip(1), dev) {
            Some(i) => Some(i + 1),
            None => None,
        }
    }
}

/// Picks the path of the first terminal with the device number `dev`.
pub fn find_path_for_dev(dev: u64, found: &Vec<Terminal>) -> (r: Result<String, CttyError>)
    ensures
        match r {
            Ok(path) => first_with_dev(found@, dev) is Some && path@ == found@[first_with_dev(
                found@,
                dev,
            ).unwrap()].path@,
            Err(e) => first_with_dev(found@, dev) is None && e is NotFound,
        },
{
    let mut i: usize = 0;
    assert(found@.skip(0) =~= found@);
    while i < found.len()
        invariant
            i <= found.len(),
            first_with_dev(found@, dev) == match first_with_dev(found@.skip(i as int), dev) {
                Some(k) => Some(k + i),
                None => None,
            },
        decreases found.len() - i,
    {
        proof {
            assert(found@.skip(i as int).skip(1) =~= found@.skip(i + 1));
        }
        if found[i].rdev == dev {
            return Ok(found[i].path.clone());
        }
        i += 1;
    }
    Err(CttyError::NotFound)
}

} // verus!
