//! The builder that rewrites a template into a positional query.

use super::lexer::{reports, reports_all, KeyArgPositionRef, SqlLexer};
use super::scan::{key_args, key_name, lemma_key_args_ordered, spans_ordered};
use std::borrow::Cow;
use std::ops::RangeInclusive;
use vstd::prelude::*;
use vstd::string::*;

verus! {

/// `std::ops::RangeInclusive::start`: returns the lower bound the range was
/// made with.
pub assume_specification<Idx>[ RangeInclusive::<Idx>::start ](
    range: &RangeInclusive<Idx>,
) -> (start: &Idx)
    ensures
        *start == range@.start,
;

/// `std::ops::RangeInclusive::end`: returns the upper bound the range was
/// made with.
pub assume_specification<Idx>[ RangeInclusive::<Idx>::end ](range: &RangeInclusive<Idx>) -> (end:
    &Idx)
    ensures
        *end == range@.end,
;

/// The template `sql` from `cursor` on, with each of `spans` replaced by
/// `token` and the text between and around them kept as it is.
pub open spec fn rewrite_from(
    sql: Seq<char>,
    spans: Seq<(int, int)>,
    token: Seq<char>,
    cursor: int,
) -> Seq<char>
    decreases spans.len(),
{
    if spans.len() == 0 {
        sql.subrange(cursor, sql.len() as int)
    } else {
        sql.subrange(cursor, spans[0].0) + token + rewrite_from(
            sql,
            spans.drop_first(),
            token,
            spans[0].1 + 1,
        )
    }
}

/// The template `sql` with each of `spans` replaced by `token`.
pub open spec fn rewrite(sql: Seq<char>, spans: Seq<(int, int)>, token: Seq<char>) -> Seq<char> {
    rewrite_from(sql, spans, token, 0)
}

/// The spans that the ranges stand for.
pub open spec fn range_spans(ranges: Seq<RangeInclusive<usize>>) -> Seq<(int, int)> {
    Seq::new(ranges.len(), |i: int| (ranges[i]@.start as int, ranges[i]@.end as int))
}

/// The spans of the reported placeholders.
pub open spec fn key_arg_spans(key_args: Seq<KeyArgPositionRef>) -> Seq<(int, int)> {
    Seq::new(key_args.len(), |i: int| (key_args[i].1@.start as int, key_args[i].1@.end as int))
}

/// A template without placeholders is rewritten to itself.
pub proof fn lemma_rewrite_nothing(sql: Seq<char>, token: Seq<char>)
    ensures
        rewrite(sql, Seq::empty(), token) == sql,
{
    assert(sql.subrange(0, sql.len() as int) == sql);
}

/// Rewriting from `cursor` with the spans from the `done`-th on continues
/// what the spans before it have produced.
proof fn lemma_rewrite_next(
    sql: Seq<char>,
    spans: Seq<(int, int)>,
    token: Seq<char>,
    done: int,
    cursor: int,
)
    requires
        0 <= done < spans.len(),
    ensures
        rewrite_from(sql, spans.skip(done), token, cursor) == sql.subrange(cursor, spans[done].0)
            + token + rewrite_from(sql, spans.skip(done + 1), token, spans[done].1 + 1),
{
    assert(spans.skip(done).drop_first() == spans.skip(done + 1));
}

/// Replaces each of `ranges` in `query` by `pos_arg` and copies the text
/// between and around them.
pub fn build_pos_query(query: &str, ranges: &[RangeInclusive<usize>], pos_arg: &str) -> (built:
    String)
    requires
        spans_ordered(range_spans(ranges@), query@.len() as int),
    ensures
        built@ == rewrite(query@, range_spans(ranges@), pos_arg@),
{
    let ghost sql = query@;
    let ghost spans = range_spans(ranges@);
    let len = query.unicode_len();
    let mut built = String::new();
    let mut cursor: usize = 0;
    let mut done: usize = 0;
    proof {
        assert(spans.skip(0) == spans);
    }
    while done < ranges.len()
        invariant
            sql == query@,
            spans == range_spans(ranges@),
            spans_ordered(spans, sql.len() as int),
            len == sql.len(),
            0 <= done <= ranges.len(),
            cursor <= len,
            done < ranges.len() ==> cursor <= spans[done as int].0,
            built@ + rewrite_from(sql, spans.skip(done as int), pos_arg@, cursor as int)
                == rewrite(sql, spans, pos_arg@),
        decreases ranges.len() - done,
    {
        let start = *ranges[done].start();
        let end = *ranges[done].end();
        proof {
            assert(spans[done as int] == (start as int, end as int));
            lemma_rewrite_next(sql, spans, pos_arg@, done as int, cursor as int);
            if done + 1 < ranges.len() {
                assert(spans[done as int].1 < spans[done + 1].0);
            }
        }
        built.append(query.substring_char(cursor, start));
        built.append(pos_arg);
        cursor = end + 1;
        done = done + 1;
    }
    proof {
        assert(spans.skip(done as int).len() == 0);
    }
    built.append(query.substring_char(cursor, len));
    built
}

/// Replaces each of `key_args` in `query` by `pos_arg` and copies the text
/// between and around them.
pub fn query_to_pos_args(query: &str, pos_arg: &str, key_args: &[KeyArgPositionRef]) -> (built:
    String)
    requires
        spans_ordered(key_arg_spans(key_args@), query@.len() as int),
    ensures
        built@ == rewrite(query@, key_arg_spans(key_args@), pos_arg@),
{
    let mut ranges: Vec<RangeInclusive<usize>> = Vec::new();
    let mut i: usize = 0;
    while i < key_args.len()
        invariant
            0 <= i <= key_args.len(),
            ranges.len() == i,
            forall|k: int|
                0 <= k < i ==> (#[trigger] ranges[k])@.start == key_args[k].1@.start
                    && ranges[k]@.end == key_args[k].1@.end,
        decreases key_args.len() - i,
    {
        let start = *key_args[i].1.start();
        let end = *key_args[i].1.end();
        ranges.push(RangeInclusive::new(start, end));
        i = i + 1;
    }
    proof {
        assert(range_spans(ranges@) == key_arg_spans(key_args@));
    }
    build_pos_query(query, ranges.as_slice(), pos_arg)
}

/// A template that owns its text, with its placeholders found.
pub struct ParametrizedQuery {
    query: String,
    args: Vec<String>,
    positions: Vec<RangeInclusive<usize>>,
}

impl ParametrizedQuery {
    /// The template.
    pub closed spec fn template(&self) -> Seq<char> {
        self.query@
    }

    #[verifier::type_invariant]
    spec fn wf(&self) -> bool {
        &&& range_spans(self.positions@) == key_args(self.query@)
        &&& self.args.len() == self.positions.len()
        &&& forall|i: int|
            0 <= i < self.args.len() ==> (#[trigger] self.args[i])@ == key_name(
                self.query@,
                key_args(self.query@)[i],
            )
    }

    /// Scans `query` for its placeholders.
    pub fn new(query: String) -> (parsed: Self)
        ensures
            parsed.template() == query@,
    {
        let mut args: Vec<String> = Vec::new();
        let mut positions: Vec<RangeInclusive<usize>> = Vec::new();
        let found = SqlLexer::new(query.as_str()).into_key_args();
        let ghost spans = key_args(query@);
        let mut i: usize = 0;
        while i < found.len()
            invariant
                0 <= i <= found.len(),
                reports_all(found@, query@, spans),
                args.len() == i,
                positions.len() == i,
                forall|k: int| 0 <= k < i ==> (#[trigger] args[k])@ == key_name(query@, spans[k]),
                forall|k: int|
                    0 <= k < i ==> (#[trigger] positions[k])@.start == spans[k].0
                        && positions[k]@.end == spans[k].1,
            decreases found.len() - i,
        {
            assert(reports(found[i as int], query@, spans[i as int]));
            let start = *found[i].1.start();
            let end = *found[i].1.end();
            args.push(String::from_str(found[i].0));
            positions.push(RangeInclusive::new(start, end));
            i = i + 1;
        }
        proof {
            assert(range_spans(positions@) == spans);
        }
        ParametrizedQuery { query, args, positions }
    }

    /// True when the template has at least one placeholder.
    pub fn has_args(&self) -> (has: bool)
        ensures
            has == (key_args(self.template()).len() > 0),
    {
        proof {
            use_type_invariant(self);
        }
        self.args.len() > 0
    }

    /// The names of the placeholders, one per placeholder and in order of
    /// appearance; a name that occurs twice is listed twice.
    pub fn get_args(&self) -> (names: &[String])
        ensures
            names@.len() == key_args(self.template()).len(),
            forall|i: int|
                0 <= i < names@.len() ==> (#[trigger] names@[i])@ == key_name(
                    self.template(),
                    key_args(self.template())[i],
                ),
    {
        proof {
            use_type_invariant(self);
        }
        self.args.as_slice()
    }

    /// The template as it was given.
    pub fn get_query(&self) -> (query: &str)
        ensures
            query@ == self.template(),
    {
        self.query.as_str()
    }

    /// The template with each placeholder replaced by `pos_arg`; a template
    /// without placeholders comes back as it is.
    pub fn build_query(&self, pos_arg: &str) -> (built: String)
        ensures
            built@ == rewrite(self.template(), key_args(self.template()), pos_arg@),
            key_args(self.template()).len() == 0 ==> built@ == self.template(),
    {
        proof {
            use_type_invariant(self);
            lemma_key_args_ordered(self.query@, 0);
            lemma_rewrite_nothing(self.query@, pos_arg@);
            if key_args(self.query@).len() == 0 {
                assert(key_args(self.query@) == Seq::<(int, int)>::empty());
            }
        }
        build_pos_query(self.query.as_str(), self.positions.as_slice(), pos_arg)
    }
}

/// A template that borrows its text, with its placeholders found.
pub struct ParametrizedQueryRef<'a> {
    query: &'a str,
    args: Vec<&'a str>,
    positions: Vec<RangeInclusive<usize>>,
}

impl<'a> ParametrizedQueryRef<'a> {
    /// The template.
    pub closed spec fn template(&self) -> Seq<char> {
        self.query@
    }

    #[verifier::type_invariant]
    spec fn wf(&self) -> bool {
        &&& range_spans(self.positions@) == key_args(self.query@)
        &&& self.args.len() == self.positions.len()
        &&& forall|i: int|
            0 <= i < self.args.len() ==> (#[trigger] self.args[i])@ == key_name(
                self.query@,
                key_args(self.query@)[i],
            )
    }

    /// Scans `query` for its placeholders.
    pub fn new(query: &'a str) -> (parsed: Self)
        ensures
            parsed.template() == query@,
    {
        let mut args: Vec<&'a str> = Vec::new();
        let mut positions: Vec<RangeInclusive<usize>> = Vec::new();
        let found = SqlLexer::new(query).into_key_args();
        let ghost spans = key_args(query@);
        let mut i: usize = 0;
        while i < found.len()
            invariant
                0 <= i <= found.len(),
                reports_all(found@, query@, spans),
                args.len() == i,
                positions.len() == i,
                forall|k: int| 0 <= k < i ==> (#[trigger] args[k])@ == key_name(query@, spans[k]),
                forall|k: int|
                    0 <= k < i ==> (#[trigger] positions[k])@.start == spans[k].0
                        && positions[k]@.end == spans[k].1,
            decreases found.len() - i,
        {
            assert(reports(found[i as int], query@, spans[i as int]));
            let start = *found[i].1.start();
            let end = *found[i].1.end();
            args.push(found[i].0);
            positions.push(RangeInclusive::new(start, end));
            i = i + 1;
        }
        proof {
            assert(range_spans(positions@) == spans);
        }
        ParametrizedQueryRef { query, args, positions }
    }

    /// True when the template has at least one placeholder.
    pub fn has_args(&self) -> (has: bool)
        ensures
            has == (key_args(self.template()).len() > 0),
    {
        proof {
            use_type_invariant(self);
        }
        self.args.len() > 0
    }

    /// The names of the placeholders, one per placeholder and in order of
    /// appearance; a name that occurs twice is listed twice.
    pub fn get_args(&self) -> (names: &[&'a str])
        ensures
            names@.len() == key_args(self.template()).len(),
            forall|i: int|
                0 <= i < names@.len() ==> (#[trigger] names@[i])@ == key_name(
                    self.template(),
                    key_args(self.template())[i],
                ),
    {
        proof {
            use_type_invariant(self);
        }
        self.args.as_slice()
    }

    /// The template as it was given.
    pub fn get_query(&self) -> (query: &'a str)
        ensures
            query@ == self.template(),
    {
        self.query
    }

    /// The template with each placeholder replaced by `pos_arg`. A template
    /// without placeholders is handed back borrowed, without a copy.
    pub fn build_query(&self, pos_arg: &str) -> (built: Cow<'a, str>)
        ensures
            built@ == rewrite(self.template(), key_args(self.template()), pos_arg@),
            key_args(self.template()).len() == 0 ==> built is Borrowed && built@
                == self.template(),
            key_args(self.template()).len() > 0 ==> built is Owned,
    {
        proof {
            use_type_invariant(self);
            lemma_key_args_ordered(self.query@, 0);
            lemma_rewrite_nothing(self.query@, pos_arg@);
            if key_args(self.query@).len() == 0 {
                assert(key_args(self.query@) == Seq::<(int, int)>::empty());
            }
        }
        if self.has_args() {
            Cow::Owned(build_pos_query(self.query, self.positions.as_slice(), pos_arg))
        } else {
            Cow::Borrowed(self.query)
        }
    }
}

} // verus!
