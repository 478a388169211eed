//! What holds of every template: placeholders never reach into quoted
//! literals, and a rewritten template has no placeholders left.

use super::query::{rewrite, rewrite_from};
use super::scan::{
    completes, first_key_arg, is_key_char, key_args, key_args_from, lemma_first_key_arg_shape,
    lemma_step_tracks, scan_step, tracks, Scan,
};
use vstd::prelude::*;

verus! {

/// The scanner's state before it reads the character at `pos`, the template
/// being scanned from its beginning.
pub open spec fn scan_state(sql: Seq<char>, pos: int) -> Scan
    decreases pos,
{
    if pos <= 0 || pos > sql.len() {
        Scan::Sql
    } else {
        scan_step(scan_state(sql, pos - 1), sql[pos - 1], pos - 1)
    }
}

/// True when the character at `pos` lies inside a single- or double-quoted
/// literal, whatever escapes the literal holds.
pub open spec fn in_literal(sql: Seq<char>, pos: int) -> bool {
    scan_state(sql, pos) is StringSingle || scan_state(sql, pos) is StringDouble
}

/// The position at which the placeholder that `state` is reading began.
spec fn curl_start(state: Scan) -> Option<int> {
    match state {
        Scan::CurlOpen { start } => Some(start),
        Scan::KeyName { start } => Some(start),
        Scan::CurlClose { start } => Some(start),
        _ => None,
    }
}

/// Nothing of the placeholder that `state` is reading lies in a literal.
spec fn outside_literals(sql: Seq<char>, state: Scan, pos: int) -> bool {
    match curl_start(state) {
        Some(start) => forall|k: int| start <= k < pos ==> !in_literal(sql, k),
        None => true,
    }
}

proof fn lemma_first_key_arg_outside_literals(sql: Seq<char>, pos: int, state: Scan)
    requires
        0 <= pos <= sql.len(),
        state == scan_state(sql, pos),
        outside_literals(sql, state, pos),
    ensures
        match first_key_arg(sql, pos, state) {
            Some(span) => {
                &&& forall|k: int| span.0 <= k <= span.1 ==> !in_literal(sql, k)
                &&& scan_state(sql, span.1 + 1) == Scan::Sql
                &&& span.1 < sql.len()
            },
            None => true,
        },
    decreases sql.len() - pos,
{
    if pos < sql.len() {
        let next = scan_step(state, sql[pos], pos);
        assert(scan_state(sql, pos + 1) == next);
        if !completes(state, sql[pos]) {
            lemma_first_key_arg_outside_literals(sql, pos + 1, next);
        }
    }
}

proof fn lemma_key_args_outside_literals(sql: Seq<char>, pos: int)
    requires
        0 <= pos <= sql.len(),
        scan_state(sql, pos) == Scan::Sql,
    ensures
        forall|i: int, k: int|
            0 <= i < key_args_from(sql, pos).len() && (#[trigger] key_args_from(sql, pos)[i]).0
                <= k <= key_args_from(sql, pos)[i].1 ==> !#[trigger] in_literal(sql, k),
    decreases sql.len() - pos,
{
    lemma_first_key_arg_outside_literals(sql, pos, Scan::Sql);
    lemma_first_key_arg_shape(sql, pos, Scan::Sql, pos);
    match first_key_arg(sql, pos, Scan::Sql) {
        Some((start, end)) => {
            lemma_key_args_outside_literals(sql, end + 1);
            let rest = key_args_from(sql, end + 1);
            let all = key_args_from(sql, pos);
            assert(all == seq![(start, end)] + rest);
            assert forall|i: int, k: int|
                0 <= i < all.len() && (#[trigger] all[i]).0 <= k <= all[i].1 implies !#[trigger] in_literal(
                sql,
                k,
            ) by {
                if i > 0 {
                    assert(all[i] == rest[i - 1]);
                }
            }
        },
        None => {},
    }
}

/// No character of a placeholder lies inside a quoted literal: text of the
/// shape `{{name}}` that stands in a single- or double-quoted literal, with
/// or without backslash or doubled-quote escapes, is never reported.
pub proof fn lemma_no_key_arg_in_literal(sql: Seq<char>, i: int, pos: int)
    requires
        0 <= i < key_args(sql).len(),
        key_args(sql)[i].0 <= pos <= key_args(sql)[i].1,
    ensures
        !in_literal(sql, pos),
{
    lemma_key_args_outside_literals(sql, 0);
}

/// A literal that has begun goes on over every character that is neither
/// its quote nor a backslash: braces and names do not end it.
pub proof fn lemma_literal_goes_on(sql: Seq<char>, pos: int)
    requires
        0 <= pos < sql.len(),
        in_literal(sql, pos),
        sql[pos] != '\'',
        sql[pos] != '"',
        sql[pos] != '\\',
    ensures
        in_literal(sql, pos + 1),
{
}

/// True when `token` can stand for a placeholder without being read as part
/// of one: it is not empty, its first character is no quote, no brace and no
/// name character, and none of the others is a quote or an opening brace.
pub open spec fn is_inert_token(token: Seq<char>) -> bool {
    &&& token.len() > 0
    &&& !is_key_char(token[0])
    &&& token[0] != '}'
    &&& forall|k: int|
        0 <= k < token.len() ==> (#[trigger] token[k]) != '{' && token[k] != '\'' && token[k]
            != '"'
}

/// The state `state` as it is when every position is moved by `by`.
spec fn shifted(state: Scan, by: int) -> Scan {
    match state {
        Scan::CurlOpen { start } => Scan::CurlOpen { start: start + by },
        Scan::KeyName { start } => Scan::KeyName { start: start + by },
        Scan::CurlClose { start } => Scan::CurlClose { start: start + by },
        _ => state,
    }
}

/// What is left of the rewritten template when the scanner of the template
/// stands at `pos` in `state`, before the next placeholder.
spec fn rewritten_rest(sql: Seq<char>, token: Seq<char>, pos: int, state: Scan) -> Seq<char> {
    match first_key_arg(sql, pos, state) {
        Some((start, end)) => sql.subrange(pos, start) + token + rewrite_from(
            sql,
            key_args_from(sql, end + 1),
            token,
            end + 1,
        ),
        None => sql.subrange(pos, sql.len() as int),
    }
}

proof fn lemma_rewritten_rest_restart(sql: Seq<char>, token: Seq<char>, pos: int)
    requires
        0 <= pos,
    ensures
        rewrite_from(sql, key_args_from(sql, pos), token, pos) == rewritten_rest(
            sql,
            token,
            pos,
            Scan::Sql,
        ),
{
    lemma_first_key_arg_shape(sql, pos, Scan::Sql, pos);
    match first_key_arg(sql, pos, Scan::Sql) {
        Some((start, end)) => {
            let all = key_args_from(sql, pos);
            assert(all == seq![(start, end)] + key_args_from(sql, end + 1));
            assert(all.drop_first() == key_args_from(sql, end + 1));
        },
        None => {},
    }
}

/// The scanner reads a token that follows plain text without leaving plain
/// text.
proof fn lemma_token_rest_is_plain(out: Seq<char>, token: Seq<char>, at: int, read: int)
    requires
        is_inert_token(token),
        0 <= at,
        1 <= read <= token.len(),
        at + token.len() <= out.len(),
        forall|k: int| 0 <= k < token.len() ==> out[at + k] == token[k],
    ensures
        first_key_arg(out, at + read, Scan::Sql) == first_key_arg(
            out,
            at + token.len(),
            Scan::Sql,
        ),
    decreases token.len() - read,
{
    if read < token.len() {
        assert(out[at + read] == token[read]);
        assert(scan_step(Scan::Sql, out[at + read], at + read) == Scan::Sql);
        lemma_token_rest_is_plain(out, token, at, read + 1);
    }
}

proof fn lemma_rewritten_has_no_key_arg(
    sql: Seq<char>,
    token: Seq<char>,
    pos: int,
    state: Scan,
    floor: int,
    out: Seq<char>,
    at: int,
)
    requires
        is_inert_token(token),
        0 <= floor <= pos <= sql.len(),
        tracks(sql, state, floor, pos),
        first_key_arg(sql, pos, state) matches Some(span) ==> pos <= span.0,
        0 <= at <= out.len(),
        out.skip(at) == rewritten_rest(sql, token, pos, state),
    ensures
        first_key_arg(out, at, shifted(state, at - pos)) is None,
    decreases sql.len() - pos,
{
    let rest = rewritten_rest(sql, token, pos, state);
    lemma_first_key_arg_shape(sql, pos, state, floor);
    let found = first_key_arg(sql, pos, state);
    if found matches Some(span) && span.0 == pos {
        let (start, end) = found->0;
        // The placeholder begins here: the rewritten text holds the token.
        let after = rewrite_from(sql, key_args_from(sql, end + 1), token, end + 1);
        assert(sql.subrange(pos, start) == Seq::<char>::empty());
        assert(rest == token + after);
        assert(out.len() - at == rest.len());
        assert forall|k: int| 0 <= k < token.len() implies out[at + k] == token[k] by {
            assert(out.skip(at)[k] == rest[k]);
        }
        // In the template the opening brace is read as plain text would.
        lemma_step_tracks(sql, state, floor, pos);
        let opened = scan_step(state, sql[pos], pos);
        lemma_start_is_fresh(sql, pos + 1, opened, floor, pos);
        assert(opened == Scan::CurlOpen { start: pos });
        assert(scan_step(shifted(state, at - pos), token[0], at) == Scan::Sql);
        lemma_token_rest_is_plain(out, token, at, 1);
        lemma_rewritten_rest_restart(sql, token, end + 1);
        assert(out.skip(at + token.len()) == after) by {
            assert(out.skip(at + token.len()) == out.skip(at).skip(token.len() as int));
            assert((token + after).skip(token.len() as int) == after);
        }
        lemma_first_key_arg_shape(sql, end + 1, Scan::Sql, end + 1);
        lemma_rewritten_has_no_key_arg(
            sql,
            token,
            end + 1,
            Scan::Sql,
            end + 1,
            out,
            at + token.len(),
        );
    } else if pos < sql.len() {
        let c = sql[pos];
        lemma_step_tracks(sql, state, floor, pos);
        let next = scan_step(state, c, pos);
        let upto = match found {
            Some(span) => span.0,
            None => sql.len() as int,
        };
        assert(sql.subrange(pos, upto) == seq![c] + sql.subrange(pos + 1, upto));
        assert(rest == seq![c] + rewritten_rest(sql, token, pos + 1, next));
        assert(out.len() - at == rest.len());
        assert(out[at] == c) by {
            assert(out.skip(at)[0] == rest[0]);
        }
        assert(out.skip(at + 1) == rewritten_rest(sql, token, pos + 1, next)) by {
            assert(out.skip(at + 1) == out.skip(at).skip(1));
            assert((seq![c] + rewritten_rest(sql, token, pos + 1, next)).skip(1)
                == rewritten_rest(sql, token, pos + 1, next));
        }
        assert(scan_step(shifted(state, at - pos), c, at) == shifted(next, at - pos));
        lemma_rewritten_has_no_key_arg(sql, token, pos + 1, next, floor, out, at + 1);
    } else {
        assert(rest == Seq::<char>::empty());
        assert(out.len() - at == rest.len());
    }
}

/// A placeholder that is found to begin before `pos` is the one that the
/// state is reading.
proof fn lemma_start_is_fresh(sql: Seq<char>, pos: int, state: Scan, floor: int, start: int)
    requires
        0 <= floor <= pos,
        tracks(sql, state, floor, pos),
        first_key_arg(sql, pos, state) matches Some(span) && span.0 == start,
        start < pos,
    ensures
        curl_start(state) == Some(start),
    decreases sql.len() - pos,
{
    if pos < sql.len() && !completes(state, sql[pos]) {
        lemma_step_tracks(sql, state, floor, pos);
        let next = scan_step(state, sql[pos], pos);
        lemma_start_is_fresh(sql, pos + 1, next, floor, start);
    }
}

/// Scanning a rewritten template again finds no placeholder, whenever the
/// token that replaced them is inert.
pub proof fn lemma_rewritten_has_no_key_args(sql: Seq<char>, token: Seq<char>)
    requires
        is_inert_token(token),
    ensures
        key_args(rewrite(sql, key_args(sql), token)) == Seq::<(int, int)>::empty(),
{
    let out = rewrite(sql, key_args(sql), token);
    lemma_rewritten_rest_restart(sql, token, 0);
    lemma_first_key_arg_shape(sql, 0, Scan::Sql, 0);
    assert(out.skip(0) == out);
    lemma_rewritten_has_no_key_arg(sql, token, 0, Scan::Sql, 0, out, 0);
}

} // verus!
