//! The mathematical model of the template scanner.
//!
//! A template is a sequence of characters, and every position in this module
//! is a character index into it. The scanner is a state machine that reads
//! one character at a time; a placeholder is complete when the second closing
//! brace is read.

use vstd::prelude::*;

verus! {

/// The scanner's state before it reads a character.
pub enum Scan {
    /// Plain SQL text.
    Sql,
    /// One `{` has been read, at `start`.
    CurlOpen { start: int },
    /// Two `{` have been read, the first at `start`; the name accumulates.
    KeyName { start: int },
    /// The name that began at `start` is followed by one `}`.
    CurlClose { start: int },
    /// Inside a single-quoted literal.
    StringSingle { escape: bool },
    /// A single-quoted literal has seen its closing quote.
    StringSingleClosing,
    /// Inside a double-quoted literal.
    StringDouble { escape: bool },
    /// A double-quoted literal has seen its closing quote.
    StringDoubleClosing,
}

/// The characters a placeholder name is made of: ASCII letters, digits,
/// underscore and hyphen.
pub open spec fn is_key_char(c: char) -> bool {
    ||| 'a' <= c <= 'z'
    ||| 'A' <= c <= 'Z'
    ||| '0' <= c <= '9'
    ||| c == '_'
    ||| c == '-'
}

/// What plain SQL text makes of the character `c` read at `pos`.
pub open spec fn plain_step(c: char, pos: int) -> Scan {
    if c == '\'' {
        Scan::StringSingle { escape: false }
    } else if c == '"' {
        Scan::StringDouble { escape: false }
    } else if c == '{' {
        Scan::CurlOpen { start: pos }
    } else {
        Scan::Sql
    }
}

/// True when reading `c` in `state` completes a placeholder.
pub open spec fn completes(state: Scan, c: char) -> bool {
    state is CurlClose && c == '}'
}

/// The state after reading the character `c` at `pos` in `state`.
///
/// A character that cannot continue a placeholder, or that follows a closing
/// quote, is read as plain SQL text would read it, with two exceptions: a
/// third `{` in a row reverts to plain text, and the other kind of quote
/// right after a closing quote is absorbed. After a completed placeholder
/// the scanner is back in plain text.
pub open spec fn scan_step(state: Scan, c: char, pos: int) -> Scan {
    match state {
        Scan::Sql => plain_step(c, pos),
        Scan::CurlOpen { start } => if c == '{' {
            Scan::KeyName { start }
        } else {
            plain_step(c, pos)
        },
        Scan::KeyName { start } => if is_key_char(c) {
            Scan::KeyName { start }
        } else if c == '}' {
            Scan::CurlClose { start }
        } else if c == '{' && pos == start + 2 {
            Scan::Sql
        } else {
            plain_step(c, pos)
        },
        Scan::CurlClose { start } => if c == '}' {
            Scan::Sql
        } else {
            plain_step(c, pos)
        },
        Scan::StringSingle { escape } => if c == '\\' {
            Scan::StringSingle { escape: !escape }
        } else if c == '\'' {
            if escape {
                Scan::StringSingle { escape: false }
            } else {
                Scan::StringSingleClosing
            }
        } else {
            state
        },
        Scan::StringSingleClosing => if c == '\'' {
            Scan::StringSingle { escape: false }
        } else if c == '"' {
            Scan::Sql
        } else {
            plain_step(c, pos)
        },
        Scan::StringDouble { escape } => if c == '\\' {
            Scan::StringDouble { escape: !escape }
        } else if c == '"' {
            if escape {
                Scan::StringDouble { escape: false }
            } else {
                Scan::StringDoubleClosing
            }
        } else {
            state
        },
        Scan::StringDoubleClosing => if c == '"' {
            Scan::StringDouble { escape: false }
        } else if c == '\'' {
            Scan::Sql
        } else {
            plain_step(c, pos)
        },
    }
}

/// The first placeholder completed when the scanner reads `sql` from `pos`
/// on, starting in `state`: the positions of its first `{` and last `}`.
pub open spec fn first_key_arg(sql: Seq<char>, pos: int, state: Scan) -> Option<(int, int)>
    decreases sql.len() - pos,
{
    if pos < 0 || pos >= sql.len() {
        None
    } else if completes(state, sql[pos]) {
        Some((state->CurlClose_start, pos))
    } else {
        first_key_arg(sql, pos + 1, scan_step(state, sql[pos], pos))
    }
}

/// All placeholders of `sql` from `pos` on, in order of appearance, the
/// scanner starting in plain text at `pos` and again after each placeholder.
pub open spec fn key_args_from(sql: Seq<char>, pos: int) -> Seq<(int, int)>
    decreases sql.len() - pos,
{
    match first_key_arg(sql, pos, Scan::Sql) {
        Some((start, end)) => if pos <= end < sql.len() {
            seq![(start, end)] + key_args_from(sql, end + 1)
        } else {
            Seq::empty()
        },
        None => Seq::empty(),
    }
}

/// True when the spans lie inside a text of `len` characters, each with its
/// start not after its end, in ascending order and without overlap.
pub open spec fn spans_ordered(spans: Seq<(int, int)>, len: int) -> bool {
    &&& forall|i: int|
        0 <= i < spans.len() ==> 0 <= (#[trigger] spans[i]).0 <= spans[i].1 < len
    &&& forall|i: int, j: int|
        0 <= i < j < spans.len() ==> (#[trigger] spans[i]).1 < (#[trigger] spans[j]).0
}

/// True when `span` has the shape of a placeholder in `sql`: two opening
/// braces, name characters only, two closing braces.
pub open spec fn is_placeholder(sql: Seq<char>, span: (int, int)) -> bool {
    &&& 0 <= span.0
    &&& span.0 + 3 <= span.1 < sql.len()
    &&& sql[span.0] == '{'
    &&& sql[span.0 + 1] == '{'
    &&& sql[span.1 - 1] == '}'
    &&& sql[span.1] == '}'
    &&& forall|k: int| span.0 + 2 <= k < span.1 - 1 ==> is_key_char(#[trigger] sql[k])
}

/// What a state that is reading a placeholder knows of the text before
/// `pos`: the placeholder began at or after `floor`, and the characters read
/// since are those its state stands for.
pub open spec fn tracks(sql: Seq<char>, state: Scan, floor: int, pos: int) -> bool {
    match state {
        Scan::CurlOpen { start } => {
            &&& floor <= start
            &&& start + 1 == pos
            &&& sql[start] == '{'
        },
        Scan::KeyName { start } => {
            &&& floor <= start
            &&& start + 2 <= pos
            &&& sql[start] == '{'
            &&& sql[start + 1] == '{'
            &&& forall|k: int| start + 2 <= k < pos ==> is_key_char(#[trigger] sql[k])
        },
        Scan::CurlClose { start } => {
            &&& floor <= start
            &&& start + 3 <= pos
            &&& sql[start] == '{'
            &&& sql[start + 1] == '{'
            &&& sql[pos - 1] == '}'
            &&& forall|k: int| start + 2 <= k < pos - 1 ==> is_key_char(#[trigger] sql[k])
        },
        _ => true,
    }
}

/// One step of the scanner keeps what its state knows of the text.
pub proof fn lemma_step_tracks(sql: Seq<char>, state: Scan, floor: int, pos: int)
    requires
        0 <= floor <= pos < sql.len(),
        tracks(sql, state, floor, pos),
    ensures
        tracks(sql, scan_step(state, sql[pos], pos), floor, pos + 1),
        completes(state, sql[pos]) ==> is_placeholder(sql, (state->CurlClose_start, pos)),
{
}

/// The first placeholder found from `pos` on has the shape of a placeholder,
/// begins at or after `floor` and ends at or after `pos`.
pub proof fn lemma_first_key_arg_shape(sql: Seq<char>, pos: int, state: Scan, floor: int)
    requires
        0 <= floor <= pos,
        tracks(sql, state, floor, pos),
    ensures
        match first_key_arg(sql, pos, state) {
            Some(span) => floor <= span.0 && pos <= span.1 && is_placeholder(sql, span),
            None => true,
        },
    decreases sql.len() - pos,
{
    if pos < sql.len() {
        lemma_step_tracks(sql, state, floor, pos);
        if !completes(state, sql[pos]) {
            lemma_first_key_arg_shape(sql, pos + 1, scan_step(state, sql[pos], pos), floor);
        }
    }
}

/// The placeholders of a template come in ascending order and do not
/// overlap, and each has the shape of a placeholder.
pub proof fn lemma_key_args_ordered(sql: Seq<char>, pos: int)
    requires
        0 <= pos,
    ensures
        spans_ordered(key_args_from(sql, pos), sql.len() as int),
        forall|i: int|
            0 <= i < key_args_from(sql, pos).len() ==> pos <= (#[trigger] key_args_from(
                sql,
                pos,
            )[i]).0 && is_placeholder(sql, key_args_from(sql, pos)[i]),
    decreases sql.len() - pos,
{
    lemma_first_key_arg_shape(sql, pos, Scan::Sql, pos);
    match first_key_arg(sql, pos, Scan::Sql) {
        Some((start, end)) => {
            lemma_key_args_ordered(sql, end + 1);
            let rest = key_args_from(sql, end + 1);
            let all = key_args_from(sql, pos);
            assert(all == seq![(start, end)] + rest);
            assert forall|i: int| 0 <= i < all.len() implies pos <= (#[trigger] all[i]).0
                && is_placeholder(sql, all[i]) && 0 <= all[i].0 <= all[i].1 < sql.len() by {
                if i > 0 {
                    assert(all[i] == rest[i - 1]);
                }
            }
            assert forall|i: int, j: int| 0 <= i < j < all.len() implies (#[trigger] all[i]).1 < (
            #[trigger] all[j]).0 by {
                assert(all[j] == rest[j - 1]);
                if i > 0 {
                    assert(all[i] == rest[i - 1]);
                }
            }
        },
        None => {},
    }
}

/// All placeholders of the template `sql`.
pub open spec fn key_args(sql: Seq<char>) -> Seq<(int, int)> {
    key_args_from(sql, 0)
}

/// The name of the placeholder that spans `start..=end`: the text strictly
/// between its two opening and two closing braces.
pub open spec fn key_name(sql: Seq<char>, span: (int, int)) -> Seq<char> {
    sql.subrange(span.0 + 2, span.1 - 1)
}

} // verus!
