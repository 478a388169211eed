//! The executable scanner over a template.

use super::scan::{
    first_key_arg, is_key_char, is_placeholder, key_args_from, key_name,
    lemma_first_key_arg_shape, lemma_key_args_ordered, lemma_step_tracks, plain_step, scan_step,
    spans_ordered, tracks, Scan,
};
use crate::text::chars_of;
use std::ops::RangeInclusive;
use vstd::prelude::*;
use vstd::string::*;

verus! {

/// A placeholder as the scanner reports it: its name, borrowed from the
/// template, and the character positions of its first `{` and last `}`.
pub type KeyArgPositionRef<'a> = (&'a str, RangeInclusive<usize>);

/// The scanner's state in executable form.
#[derive(Clone, Copy, Debug)]
enum LexerState {
    Sql,
    CurlOpen(usize),
    KeyName(usize),
    CurlClose(usize),
    StringSingle { escape: bool },
    StringSingleClosing,
    StringDouble { escape: bool },
    StringDoubleClosing,
}

impl LexerState {
    spec fn view(self) -> Scan {
        match self {
            LexerState::Sql => Scan::Sql,
            LexerState::CurlOpen(start) => Scan::CurlOpen { start: start as int },
            LexerState::KeyName(start) => Scan::KeyName { start: start as int },
            LexerState::CurlClose(start) => Scan::CurlClose { start: start as int },
            LexerState::StringSingle { escape } => Scan::StringSingle { escape },
            LexerState::StringSingleClosing => Scan::StringSingleClosing,
            LexerState::StringDouble { escape } => Scan::StringDouble { escape },
            LexerState::StringDoubleClosing => Scan::StringDoubleClosing,
        }
    }
}

fn key_char(c: char) -> (r: bool)
    ensures
        r == is_key_char(c),
{
    ('a' <= c && c <= 'z') || ('A' <= c && c <= 'Z') || ('0' <= c && c <= '9') || c == '_' || c
        == '-'
}

fn plain(c: char, pos: usize) -> (next: LexerState)
    ensures
        next@ == plain_step(c, pos as int),
{
    if c == '\'' {
        LexerState::StringSingle { escape: false }
    } else if c == '"' {
        LexerState::StringDouble { escape: false }
    } else if c == '{' {
        LexerState::CurlOpen(pos)
    } else {
        LexerState::Sql
    }
}

fn step(state: LexerState, c: char, pos: usize) -> (next: LexerState)
    requires
        pos < usize::MAX,
    ensures
        next@ == scan_step(state@, c, pos as int),
{
    match state {
        LexerState::Sql => plain(c, pos),
        LexerState::CurlOpen(start) => if c == '{' {
            LexerState::KeyName(start)
        } else {
            plain(c, pos)
        },
        LexerState::KeyName(start) => if key_char(c) {
            LexerState::KeyName(start)
        } else if c == '}' {
            LexerState::CurlClose(start)
        } else if c == '{' && start < usize::MAX - 1 && pos == start + 2 {
            LexerState::Sql
        } else {
            plain(c, pos)
        },
        LexerState::CurlClose(_) => if c == '}' {
            LexerState::Sql
        } else {
            plain(c, pos)
        },
        LexerState::StringSingle { escape } => if c == '\\' {
            LexerState::StringSingle { escape: !escape }
        } else if c == '\'' {
            if escape {
                LexerState::StringSingle { escape: false }
            } else {
                LexerState::StringSingleClosing
            }
        } else {
            state
        },
        LexerState::StringSingleClosing => if c == '\'' {
            LexerState::StringSingle { escape: false }
        } else if c == '"' {
            LexerState::Sql
        } else {
            plain(c, pos)
        },
        LexerState::StringDouble { escape } => if c == '\\' {
            LexerState::StringDouble { escape: !escape }
        } else if c == '"' {
            if escape {
                LexerState::StringDouble { escape: false }
            } else {
                LexerState::StringDoubleClosing
            }
        } else {
            state
        },
        LexerState::StringDoubleClosing => if c == '"' {
            LexerState::StringDouble { escape: false }
        } else if c == '\'' {
            LexerState::Sql
        } else {
            plain(c, pos)
        },
    }
}

/// True when `key_arg` reports the placeholder of `sql` that spans `span`:
/// its name and both of its positions.
pub open spec fn reports(key_arg: KeyArgPositionRef, sql: Seq<char>, span: (int, int)) -> bool {
    &&& key_arg.0@ == key_name(sql, span)
    &&& key_arg.1@.start == span.0
    &&& key_arg.1@.end == span.1
    &&& !key_arg.1@.exhausted
}

/// True when `found` reports the placeholders `spans` of `sql`, one for one
/// and in the same order.
pub open spec fn reports_all(
    found: Seq<KeyArgPositionRef>,
    sql: Seq<char>,
    spans: Seq<(int, int)>,
) -> bool {
    &&& found.len() == spans.len()
    &&& forall|i: int| 0 <= i < found.len() ==> reports(#[trigger] found[i], sql, spans[i])
}

/// A scanner over one template. It reports the placeholders one at a time,
/// from left to right, and cannot be rewound.
pub struct SqlLexer<'a> {
    sql: &'a str,
    chars: Vec<char>,
    offset: usize,
}

impl<'a> SqlLexer<'a> {
    /// The template that is scanned.
    pub closed spec fn template(&self) -> Seq<char> {
        self.sql@
    }

    /// The position of the next character to read.
    pub closed spec fn position(&self) -> int {
        self.offset as int
    }

    #[verifier::type_invariant]
    spec fn wf(&self) -> bool {
        &&& self.chars@ == self.sql@
        &&& self.offset <= self.chars.len()
    }

    /// A scanner at the beginning of the template `sql`.
    pub fn new(sql: &'a str) -> (lexer: Self)
        ensures
            lexer.template() == sql@,
            lexer.position() == 0,
    {
        SqlLexer { sql, chars: chars_of(sql), offset: 0 }
    }

    /// The placeholders that are left, in order of appearance.
    pub fn into_key_args(self) -> (found: Vec<KeyArgPositionRef<'a>>)
        ensures
            reports_all(found@, self.template(), key_args_from(self.template(), self.position())),
            spans_ordered(
                key_args_from(self.template(), self.position()),
                self.template().len() as int,
            ),
    {
        let mut lexer = self;
        proof {
            use_type_invariant(&lexer);
            lemma_key_args_ordered(lexer.template(), lexer.position());
        }
        let ghost sql = lexer.template();
        let ghost all = key_args_from(sql, lexer.position());
        let ghost done: Seq<(int, int)> = Seq::empty();
        let mut found: Vec<KeyArgPositionRef<'a>> = Vec::new();
        loop
            invariant_except_break
                lexer.template() == sql,
                0 <= lexer.position() <= sql.len(),
                done + key_args_from(sql, lexer.position()) == all,
                reports_all(found@, sql, done),
            ensures
                reports_all(found@, sql, all),
            decreases sql.len() - lexer.position(),
        {
            let ghost pos = lexer.position();
            match lexer.next_key_arg() {
                Some(key_arg) => {
                    proof {
                        let span = first_key_arg(sql, pos, Scan::Sql)->0;
                        assert(key_args_from(sql, pos) == seq![span] + key_args_from(
                            sql,
                            span.1 + 1,
                        ));
                        assert(done.push(span) + key_args_from(sql, span.1 + 1) == all);
                        done = done.push(span);
                    }
                    found.push(key_arg);
                },
                None => {
                    proof {
                        assert(done + Seq::<(int, int)>::empty() == done);
                    }
                    break ;
                },
            }
        }
        found
    }

    /// Scans on to the end of the next placeholder and reports it, or to the
    /// end of the template if there is none.
    pub fn next_key_arg(&mut self) -> (found: Option<KeyArgPositionRef<'a>>)
        ensures
            final(self).template() == old(self).template(),
            final(self).position() <= final(self).template().len(),
            match first_key_arg(old(self).template(), old(self).position(), Scan::Sql) {
                Some(span) => {
                    &&& found matches Some(key_arg)
                    &&& reports(key_arg, old(self).template(), span)
                    &&& final(self).position() == span.1 + 1
                    &&& old(self).position() <= span.0
                    &&& is_placeholder(old(self).template(), span)
                },
                None => found is None && final(self).position() == old(self).template().len(),
            },
    {
        proof {
            use_type_invariant(&*self);
        }
        let ghost sql = self.sql@;
        let ghost floor = self.offset as int;
        proof {
            lemma_first_key_arg_shape(sql, floor, Scan::Sql, floor);
        }
        let mut state = LexerState::Sql;
        while self.offset < self.chars.len()
            invariant
                sql == old(self).template(),
                floor == old(self).position(),
                self.sql@ == sql,
                self.chars@ == sql,
                floor <= self.offset <= sql.len(),
                tracks(sql, state@, floor, self.offset as int),
                first_key_arg(sql, self.offset as int, state@) == first_key_arg(
                    sql,
                    floor,
                    Scan::Sql,
                ),
            decreases sql.len() - self.offset,
        {
            let pos = self.offset;
            let c = self.chars[pos];
            proof {
                lemma_step_tracks(sql, state@, floor, pos as int);
            }
            self.offset = pos + 1;
            if let LexerState::CurlClose(start) = state {
                if c == '}' {
                    let name = self.sql.substring_char(start + 2, pos - 1);
                    return Some((name, RangeInclusive::new(start, pos)));
                }
            }
            state = step(state, c, pos);
        }
        None
    }
}

} // verus!
