//! The arguments of one request, and what a failure is answered with.

use crate::auth::RoleSet;
use crate::error::XepakError;
use crate::float::Float64;
use crate::schema::{
    convert_with_schema, converts, declared_type, is_conversion, is_refusal, schema_verdict,
    validate_with_schema, Schema,
};
use crate::storage::StorageRequestArgs;
use crate::strmap::StrMap;
use crate::text::{join2, nat_text, nat_to_string, same_text};
use crate::types::{ValueView, XepakValue};
use std::sync::Arc;
use vstd::prelude::*;
use vstd::string::*;

verus! {

/// The arguments of one request: those taken from the path, those taken
/// from the query or the body, the schema they are converted by, the
/// computed row limit and offset, and who the caller is once that is known.
#[derive(Debug)]
pub struct RequestArgs {
    schema: Arc<Schema>,
    strict_schema: bool,
    path_args: StrMap<XepakValue>,
    args: StrMap<XepakValue>,
    limit: usize,
    offset: usize,
    auth: Option<(String, RoleSet)>,
}

/// The text values that the pairs from the `at`-th on add to `map`, a name
/// that comes twice keeping its last value.
pub open spec fn with_texts(
    map: Map<Seq<char>, ValueView>,
    pairs: Seq<(String, String)>,
    at: int,
) -> Map<Seq<char>, ValueView>
    decreases pairs.len() - at,
{
    if at < 0 || at >= pairs.len() {
        map
    } else {
        with_texts(map.insert(pairs[at].0@, ValueView::Text(pairs[at].1@)), pairs, at + 1)
    }
}

/// What a map of values says: for each name the value as contracts speak
/// of it.
pub open spec fn values_of(map: Map<Seq<char>, XepakValue>) -> Map<Seq<char>, ValueView> {
    Map::new(|name: Seq<char>| map.contains_key(name), |name: Seq<char>| map[name]@)
}

/// True when `after` is `before` with the argument `name` set to what
/// conversion by the declaration `declared` makes of `value`.
pub open spec fn is_set(
    declared: Option<crate::types::XepakType>,
    value: ValueView,
    as_float: Option<Float64>,
    before: Map<Seq<char>, ValueView>,
    name: Seq<char>,
    after: Map<Seq<char>, ValueView>,
) -> bool {
    &&& after.dom() == before.dom().insert(name)
    &&& is_conversion(declared, value, as_float, after[name])
    &&& forall|other: Seq<char>|
        other != name && before.contains_key(other) ==> after[other] == before[other]
}

/// An argument as it arrives: its name, its value, and, for a value that
/// is a text, what that text is as a float, with `None` for a text that is
/// no float.
#[derive(Debug, Clone)]
pub struct ArgInput {
    pub name: String,
    pub value: XepakValue,
    pub as_float: Option<Float64>,
}

/// True when the schema makes something of the argument.
pub open spec fn arg_converts(
    schema: Map<Seq<char>, crate::schema::ArgSchema>,
    strict: bool,
    arg: ArgInput,
) -> bool {
    converts(declared_type(schema, arg.name@), arg.value@, strict, arg.as_float)
}

/// True when `states` are the arguments from the query or the body as
/// they are before the first and after each of the first `count` of `args`
/// is set, each converted by the schema.
pub open spec fn are_steps(
    schema: Map<Seq<char>, crate::schema::ArgSchema>,
    args: Seq<ArgInput>,
    count: int,
    states: Seq<Map<Seq<char>, ValueView>>,
) -> bool {
    &&& states.len() == count + 1
    &&& forall|k: int|
        0 <= k < count ==> is_set(
            declared_type(schema, args[k].name@),
            args[k].value@,
            args[k].as_float,
            #[trigger] states[k],
            args[k].name@,
            states[k + 1],
        )
}

/// True when `after` is `before` with the first `count` of the arguments
/// set one after the other, each converted by the schema.
pub open spec fn args_set(
    schema: Map<Seq<char>, crate::schema::ArgSchema>,
    args: Seq<ArgInput>,
    count: int,
    before: Map<Seq<char>, ValueView>,
    after: Map<Seq<char>, ValueView>,
) -> bool {
    exists|states: Seq<Map<Seq<char>, ValueView>>| #[trigger]
        are_steps(schema, args, count, states) && states[0] == before && states[count] == after
}

/// The count that a value stands for: a whole number that is not negative
/// and not greater than a count can be.
pub open spec fn count_of(value: Option<ValueView>) -> Option<usize> {
    match value {
        Some(v) => match v.whole() {
            Some(i) => if 0 <= i <= usize::MAX {
                Some(i as usize)
            } else {
                None
            },
            None => None,
        },
        None => None,
    }
}

impl RequestArgs {
    /// The arguments taken from the path.
    pub closed spec fn path_values(&self) -> Map<Seq<char>, ValueView> {
        values_of(self.path_args@)
    }

    /// The arguments taken from the query or the body.
    pub closed spec fn other_values(&self) -> Map<Seq<char>, ValueView> {
        values_of(self.args@)
    }

    /// The schema.
    pub closed spec fn schema(&self) -> Map<Seq<char>, crate::schema::ArgSchema> {
        self.schema@
    }

    /// True when arguments of the request that the schema does not declare
    /// are refused.
    pub closed spec fn strict(&self) -> bool {
        self.strict_schema
    }

    /// The computed row limit.
    pub closed spec fn limit(&self) -> usize {
        self.limit
    }

    /// The computed row offset.
    pub closed spec fn offset(&self) -> usize {
        self.offset
    }

    /// The caller's identity and roles, once the caller is authenticated.
    pub closed spec fn caller(&self) -> Option<(Seq<char>, Set<Seq<char>>)> {
        match self.auth {
            Some((id, roles)) => Some((id@, roles@)),
            None => None,
        }
    }

    /// The arguments taken from the path, in the order in which their
    /// names first came.
    pub closed spec fn path_entries(&self) -> Seq<(Seq<char>, XepakValue)> {
        self.path_args.entries()
    }

    /// The arguments taken from the query or the body, in the order in
    /// which their names first came.
    pub closed spec fn other_entries(&self) -> Seq<(Seq<char>, XepakValue)> {
        self.args.entries()
    }

    /// What the schema says of the arguments, those from the path first:
    /// nothing if all pass, else the first message that refuses one.
    pub open spec fn verdict(&self) -> Option<Seq<char>> {
        match schema_verdict(self.schema(), self.path_entries(), 0) {
            Some(detail) => Some(detail),
            None => schema_verdict(self.schema(), self.other_entries(), 0),
        }
    }

    /// True when `after` is this store with nothing changed but the
    /// arguments from the query or the body.
    pub open spec fn unchanged_but_args(&self, after: &RequestArgs) -> bool {
        &&& after.path_values() == self.path_values()
        &&& after.path_entries() == self.path_entries()
        &&& after.schema() == self.schema()
        &&& after.strict() == self.strict()
        &&& after.limit() == self.limit()
        &&& after.offset() == self.offset()
        &&& after.caller() == self.caller()
    }

    /// True when `after` is this store with nothing changed but the
    /// caller.
    pub open spec fn unchanged_but_caller(&self, after: &RequestArgs) -> bool {
        &&& after.path_values() == self.path_values()
        &&& after.path_entries() == self.path_entries()
        &&& after.other_values() == self.other_values()
        &&& after.other_entries() == self.other_entries()
        &&& after.schema() == self.schema()
        &&& after.strict() == self.strict()
        &&& after.limit() == self.limit()
        &&& after.offset() == self.offset()
    }

    /// True when `after` and `done` are what setting the arguments `args`
    /// makes of this store: the arguments are set one after the other, each
    /// converted by the schema, up to the first that the schema makes
    /// nothing of, with whose refusal the setting fails.
    pub open spec fn is_put(
        &self,
        args: Seq<ArgInput>,
        from_request: bool,
        after: &RequestArgs,
        done: Result<(), XepakError>,
    ) -> bool {
        &&& self.unchanged_but_args(after)
        &&& done is Ok <==> forall|k: int|
            0 <= k < args.len() ==> arg_converts(
                self.schema(),
                self.strict() && from_request,
                #[trigger] args[k],
            )
        &&& done is Ok ==> args_set(
            self.schema(),
            args,
            args.len() as int,
            self.other_values(),
            after.other_values(),
        )
        &&& done matches Err(err) ==> exists|failed: int|
            0 <= failed < args.len() && !arg_converts(
                self.schema(),
                self.strict() && from_request,
                #[trigger] args[failed],
            ) && (forall|k: int|
                0 <= k < failed ==> arg_converts(
                    self.schema(),
                    self.strict() && from_request,
                    #[trigger] args[k],
                )) && args_set(
                self.schema(),
                args,
                failed,
                self.other_values(),
                after.other_values(),
            ) && is_refusal(
                declared_type(self.schema(), args[failed].name@),
                args[failed].name@,
                args[failed].value@,
                err,
            )
    }

    /// The value of the argument `name`: the one from the path if there is
    /// one, else the one from the query or the body.
    pub open spec fn value(&self, name: Seq<char>) -> Option<ValueView> {
        if self.path_values().contains_key(name) {
            Some(self.path_values()[name])
        } else if self.other_values().contains_key(name) {
            Some(self.other_values()[name])
        } else {
            None
        }
    }

    /// The arguments of a request whose path gave `path_args`, each of them
    /// a text. The schema is shared with the endpoint that it belongs to.
    pub fn new(schema: Arc<Schema>, strict_schema: bool, path_args: Vec<(String, String)>) -> (made:
        Self)
        ensures
            made.schema() == schema@,
            made.strict() == strict_schema,
            made.path_values() == with_texts(Map::empty(), path_args@, 0),
            made.other_values() == Map::<Seq<char>, ValueView>::empty(),
            made.limit() == 0,
            made.offset() == 0,
            made.caller() is None,
    {
        let mut from_path: StrMap<XepakValue> = StrMap::new();
        let mut i: usize = 0;
        proof {
            assert(values_of(from_path@) =~= Map::<Seq<char>, ValueView>::empty());
        }
        while i < path_args.len()
            invariant
                0 <= i <= path_args.len(),
                with_texts(values_of(from_path@), path_args@, i as int) == with_texts(
                    Map::empty(),
                    path_args@,
                    0,
                ),
            decreases path_args.len() - i,
        {
            let ghost before = from_path@;
            let name = path_args[i].0.clone();
            let value = XepakValue::Text(path_args[i].1.clone());
            from_path.insert(name, value);
            proof {
                assert(values_of(from_path@) =~= values_of(before).insert(
                    path_args[i as int].0@,
                    ValueView::Text(path_args[i as int].1@),
                ));
            }
            i = i + 1;
        }
        let made = RequestArgs {
            schema,
            strict_schema,
            path_args: from_path,
            args: StrMap::new(),
            limit: 0,
            offset: 0,
            auth: None,
        };
        proof {
            assert(values_of(made.args@) =~= Map::<Seq<char>, ValueView>::empty());
        }
        made
    }

    /// The arguments that a script hands to a query, with no schema.
    pub fn new_in_script(args: StrMap<XepakValue>, limit: usize, offset: usize) -> (made: Self)
        ensures
            made.schema() == Map::<Seq<char>, crate::schema::ArgSchema>::empty(),
            !made.strict(),
            made.path_values() == Map::<Seq<char>, ValueView>::empty(),
            made.other_values() == values_of(args@),
            made.limit() == limit,
            made.offset() == offset,
            made.caller() is None,
    {
        let made = RequestArgs {
            schema: Arc::new(StrMap::new()),
            strict_schema: false,
            path_args: StrMap::new(),
            args,
            limit,
            offset,
            auth: None,
        };
        proof {
            assert(values_of(made.path_args@) =~= Map::<Seq<char>, ValueView>::empty());
        }
        made
    }

    /// True when the argument `arg_name` has a value.
    pub fn has_any_arg(&self, arg_name: &str) -> (has: bool)
        ensures
            has == self.value(arg_name@) is Some,
    {
        if self.path_args.contains_key(arg_name) {
            return true;
        }
        self.args.contains_key(arg_name)
    }

    /// The value of the argument `argument`; one from the path comes before
    /// one from the query or the body.
    pub fn get_arg_value(&self, argument: &str) -> (found: Option<&XepakValue>)
        ensures
            match self.value(argument@) {
                Some(value) => found matches Some(v) && v@ == value,
                None => found is None,
            },
    {
        match self.path_args.get(argument) {
            Some(value) => Some(value),
            None => self.args.get(argument),
        }
    }

    /// The computed row limit.
    pub fn get_limit(&self) -> (limit: usize)
        ensures
            limit == self.limit(),
    {
        self.limit
    }

    /// The computed row offset.
    pub fn get_offset(&self) -> (offset: usize)
        ensures
            offset == self.offset(),
    {
        self.offset
    }

    /// The count that the argument `arg_name` stands for, if it has a value
    /// that is a whole number which a count can be.
    fn parse_usize_from(&self, arg_name: &str) -> (count: Option<usize>)
        ensures
            count == count_of(self.value(arg_name@)),
    {
        let value = match self.get_arg_value(arg_name) {
            Some(value) => value,
            None => {
                return None;
            },
        };
        let ivalue = match value.as_int() {
            Ok(i) => i,
            Err(_) => {
                return None;
            },
        };
        if ivalue < 0 || ivalue > usize::MAX as i128 {
            return None;
        }
        Some(ivalue as usize)
    }

    /// Computes the row limit and the row offset from the arguments of
    /// these names. An empty name leaves its number as it is. A limit that
    /// is missing or is no count becomes `limit_max`; an offset that is
    /// missing or is no count becomes zero.
    pub fn parse_offset_limit(&mut self, offset_arg: &str, limit_arg: &str, limit_max: usize)
        ensures
            final(self).limit() == (if limit_arg@.len() == 0 {
                old(self).limit()
            } else {
                match count_of(old(self).value(limit_arg@)) {
                    Some(count) => count,
                    None => limit_max,
                }
            }),
            final(self).offset() == (if offset_arg@.len() == 0 {
                old(self).offset()
            } else {
                match count_of(old(self).value(offset_arg@)) {
                    Some(count) => count,
                    None => 0,
                }
            }),
            final(self).path_values() == old(self).path_values(),
            final(self).other_values() == old(self).other_values(),
            final(self).schema() == old(self).schema(),
            final(self).strict() == old(self).strict(),
            final(self).caller() == old(self).caller(),
    {
        if !limit_arg.is_empty() {
            self.limit = match self.parse_usize_from(limit_arg) {
                Some(count) => count,
                None => limit_max,
            };
        }
        if !offset_arg.is_empty() {
            self.offset = match self.parse_usize_from(offset_arg) {
                Some(count) => count,
                None => 0,
            };
        }
    }

    /// Converts `value` by the schema and sets it as the value of the
    /// argument `name` from the query or the body. An argument that the
    /// schema does not declare is refused only if the schema is strict and
    /// the argument comes from the request. What a text is as a float the
    /// caller says in `as_float`. On a failure nothing is set.
    pub fn set_arg_with_schema(
        &mut self,
        name: String,
        value: XepakValue,
        from_request: bool,
        as_float: Option<Float64>,
    ) -> (set: Result<(), XepakError>)
        ensures
            set is Ok <==> converts(
                declared_type(old(self).schema(), name@),
                value@,
                old(self).strict() && from_request,
                as_float,
            ),
            set is Ok ==> is_set(
                declared_type(old(self).schema(), name@),
                value@,
                as_float,
                old(self).other_values(),
                name@,
                final(self).other_values(),
            ),
            set matches Err(err) ==> final(self).other_values() == old(self).other_values()
                && is_refusal(declared_type(old(self).schema(), name@), name@, value@, err),
            old(self).unchanged_but_args(final(self)),
    {
        let converted = convert_with_schema(
            &self.schema,
            name.as_str(),
            value,
            self.strict_schema && from_request,
            as_float,
        );
        match converted {
            Ok(made) => {
                let ghost before = self.args@;
                self.args.insert(name, made);
                proof {
                    assert(values_of(self.args@).dom() =~= values_of(before).dom().insert(name@));
                }
                Ok(())
            },
            Err(err) => Err(err),
        }
    }

    /// Sets the arguments one after the other, each converted by the
    /// schema, and stops at the first that the schema makes nothing of.
    pub fn set_args(&mut self, args: &[ArgInput], from_request: bool) -> (set: Result<
        (),
        XepakError,
    >)
        ensures
            old(self).is_put(args@, from_request, final(self), set),
    {
        let mut i: usize = 0;
        let ghost mut states: Seq<Map<Seq<char>, ValueView>> = seq![self.other_values()];
        while i < args.len()
            invariant
                0 <= i <= args.len(),
                forall|k: int|
                    0 <= k < i ==> arg_converts(
                        old(self).schema(),
                        old(self).strict() && from_request,
                        #[trigger] args@[k],
                    ),
                are_steps(old(self).schema(), args@, i as int, states),
                states[0] == old(self).other_values(),
                states[i as int] == self.other_values(),
                old(self).unchanged_but_args(&*self),
            decreases args.len() - i,
        {
            let arg = &args[i];
            let as_float = match &arg.as_float {
                Some(float) => Some(float.copy()),
                None => None,
            };
            match self.set_arg_with_schema(
                arg.name.clone(),
                arg.value.copy(),
                from_request,
                as_float,
            ) {
                Ok(_) => {
                    proof {
                        let before = states;
                        states = states.push(self.other_values());
                        assert forall|k: int| 0 <= k < i + 1 implies is_set(
                            declared_type(old(self).schema(), args@[k].name@),
                            args@[k].value@,
                            args@[k].as_float,
                            #[trigger] states[k],
                            args@[k].name@,
                            states[k + 1],
                        ) by {
                            if k < i {
                                assert(states[k] == before[k]);
                                assert(states[k + 1] == before[k + 1]);
                            }
                        }
                    }
                },
                Err(err) => {
                    proof {
                        assert(are_steps(old(self).schema(), args@, i as int, states));
                    }
                    return Err(err);
                },
            }
            i = i + 1;
        }
        proof {
            assert(are_steps(old(self).schema(), args@, i as int, states));
        }
        Ok(())
    }

    /// Holds the arguments to the validators of the schema, those from the
    /// path first, and fails with the first refusal.
    pub fn validate(&self) -> (checked: Result<(), XepakError>)
        ensures
            match self.verdict() {
                None => checked is Ok,
                Some(detail) => checked matches Err(err) && err is Input && err.detail()
                    == detail,
            },
    {
        match validate_with_schema(&self.schema, &self.path_args) {
            Ok(_) => validate_with_schema(&self.schema, &self.args),
            Err(err) => Err(err),
        }
    }

    /// True when the caller is authenticated.
    pub fn is_authenticated(&self) -> (is: bool)
        ensures
            is == self.caller() is Some,
    {
        self.auth.is_some()
    }

    /// Binds the caller's identity and roles to the request.
    pub fn set_auth(&mut self, id: String, roles: RoleSet)
        ensures
            final(self).caller() == Some((id@, roles@)),
            old(self).unchanged_but_caller(final(self)),
    {
        self.auth = Some((id, roles));
    }

    /// The caller's identity and roles, once the caller is authenticated.
    pub fn get_auth(&self) -> (auth: Option<(&str, &RoleSet)>)
        ensures
            match self.caller() {
                Some((id, roles)) => auth matches Some(found) && found.0@ == id && found.1@
                    == roles,
                None => auth is None,
            },
    {
        match &self.auth {
            Some((id, roles)) => Some((id.as_str(), roles)),
            None => None,
        }
    }
}

impl StorageRequestArgs for RequestArgs {
    fn get_rows_limit(&self) -> (limit: usize)
        ensures
            limit == self.limit(),
    {
        self.get_limit()
    }

    fn get_rows_offset(&self) -> (offset: usize)
        ensures
            offset == self.offset(),
    {
        self.get_offset()
    }
}

/// The status that a failure is answered with.
pub open spec fn error_status(err: XepakError) -> u16 {
    match err {
        XepakError::NotFound(_) => 404,
        XepakError::Input(_) | XepakError::ConvertValue(_, _, _) | XepakError::Convert(_) => 400,
        XepakError::Decode(_) | XepakError::WeScrewed(_) => 500,
        XepakError::Forbidden(_) => 403,
        _ => 520,
    }
}

/// The short name that a failure is answered with.
pub open spec fn error_code(err: XepakError) -> Seq<char> {
    match err {
        XepakError::NotFound(_) => "not_found"@,
        XepakError::Input(_) | XepakError::ConvertValue(_, _, _) | XepakError::Convert(_) => "bad_request"@,
        XepakError::Decode(_) | XepakError::WeScrewed(_) => "internal_error"@,
        XepakError::Forbidden(_) => "forbidden"@,
        _ => "unknown_error"@,
    }
}

/// The words that a failure is answered with, if it is answered in words:
/// the detail of the failure, and for a failed conversion the failure in
/// full.
pub open spec fn error_message(err: XepakError) -> Option<Seq<char>> {
    match err {
        XepakError::NotFound(_)
        | XepakError::Input(_)
        | XepakError::Decode(_)
        | XepakError::WeScrewed(_)
        | XepakError::Forbidden(_) => Some(err.detail()),
        XepakError::ConvertValue(_, _, _) | XepakError::Convert(_) => Some(
            err.prefix() + err.detail(),
        ),
        _ => None,
    }
}

/// What a failure is answered with: the status, and an object that holds
/// the short name of the failure under `code` and, where the failure is
/// answered in words, those words under `message`.
pub fn to_error_object(err: XepakError) -> (answer: (u16, StrMap<XepakValue>))
    ensures
        answer.0 == error_status(err),
        answer.1@.contains_key("code"@),
        answer.1@["code"@]@ == ValueView::Text(error_code(err)),
        match error_message(err) {
            Some(message) => answer.1@.dom() == set!["code"@, "message"@]
                && answer.1@["message"@]@ == ValueView::Text(message),
            None => answer.1@.dom() == set!["code"@],
        },
{
    let (status, code, message): (u16, &str, Option<String>) = match &err {
        XepakError::NotFound(msg) => (404, "not_found", Some(msg.clone())),
        XepakError::Input(msg) => (400, "bad_request", Some(msg.clone())),
        XepakError::ConvertValue(_, _, _) => (400, "bad_request", Some(err.to_string())),
        XepakError::Convert(_) => (400, "bad_request", Some(err.to_string())),
        XepakError::Decode(msg) => (500, "internal_error", Some(msg.clone())),
        XepakError::WeScrewed(msg) => (500, "internal_error", Some(msg.clone())),
        XepakError::Forbidden(msg) => (403, "forbidden", Some(msg.clone())),
        _ => (520, "unknown_error", None),
    };
    let mut object: StrMap<XepakValue> = StrMap::new();
    object.insert(String::from_str("code"), XepakValue::from_str(code));
    proof {
        reveal_strlit("code");
        reveal_strlit("message");
        assert("code"@ != "message"@) by {
            assert("code"@.len() != "message"@.len());
        }
        assert(object@.dom() =~= set!["code"@]);
    }
    match message {
        Some(text) => {
            object.insert(String::from_str("message"), XepakValue::Text(text));
            proof {
                assert(object@.dom() =~= set!["code"@, "message"@]);
            }
        },
        None => {},
    }
    (status, object)
}

/// What a request is answered with when it succeeds.
#[derive(Debug)]
pub enum ResponseData {
    /// One record.
    One(StrMap<XepakValue>),
    /// All the records.
    Many(Vec<StrMap<XepakValue>>),
}

/// Picks what a request is answered with: where a single record is asked
/// for, the first of the records, and a failure if there is none; else all
/// the records.
pub fn pick_response(single_record: bool, data: Vec<StrMap<XepakValue>>, uri: &str) -> (picked:
    Result<ResponseData, XepakError>)
    ensures
        if !single_record {
            picked matches Ok(ResponseData::Many(records)) && records@ == data@
        } else if data@.len() > 0 {
            picked matches Ok(ResponseData::One(record)) && record == data@[0]
        } else {
            picked matches Err(err) && err is NotFound && err.detail()
                == "Record not found at URI: "@ + uri@
        },
{
    if single_record {
        let mut data = data;
        if data.len() == 0 {
            return Err(XepakError::NotFound(join2("Record not found at URI: ", uri)));
        }
        Ok(ResponseData::One(data.swap_remove(0)))
    } else {
        Ok(ResponseData::Many(data))
    }
}

/// The name of the header that tells the row limit.
pub const LIMIT_HEADER: &'static str = "X-Limit";

/// The name of the header that tells the row offset.
pub const OFFSET_HEADER: &'static str = "X-Offset";

/// The content type of a binary answer.
pub const CONTENT_TYPE_CBOR: &'static str = "application/cbor";

/// The content type of a textual answer.
pub const CONTENT_TYPE_JSON: &'static str = "application/json";

/// The headers that tell of the pagination: the limit if it is not zero,
/// then the offset if it is not zero, each in decimal digits.
pub open spec fn pagination(limit: usize, offset: usize) -> Seq<(Seq<char>, Seq<char>)> {
    (if limit > 0 {
        seq![("X-Limit"@, nat_text(limit as nat))]
    } else {
        Seq::empty()
    }) + (if offset > 0 {
        seq![("X-Offset"@, nat_text(offset as nat))]
    } else {
        Seq::empty()
    })
}

/// The headers that tell of the pagination.
pub fn pagination_headers(limit: usize, offset: usize) -> (headers: Vec<(&'static str, String)>)
    ensures
        headers@.len() == pagination(limit, offset).len(),
        forall|i: int|
            0 <= i < headers@.len() ==> (#[trigger] headers@[i]).0@ == pagination(limit, offset)[i].0
                && headers@[i].1@ == pagination(limit, offset)[i].1,
{
    let mut headers: Vec<(&'static str, String)> = Vec::new();
    if limit > 0 {
        headers.push((LIMIT_HEADER, nat_to_string(limit as u128)));
    }
    if offset > 0 {
        headers.push((OFFSET_HEADER, nat_to_string(offset as u128)));
    }
    headers
}

/// True when the answer is to be binary: when the request accepts exactly
/// the binary content type.
pub fn wants_cbor(accept: Option<&str>) -> (cbor: bool)
    ensures
        cbor == (accept matches Some(value) && value@ == "application/cbor"@),
{
    match accept {
        Some(value) => same_text(value, CONTENT_TYPE_CBOR),
        None => false,
    }
}

} // verus!
