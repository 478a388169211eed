//! The steps that a request goes through before its resource is handled.

use crate::auth::{
    is_policy_of, AuthorizeProcessor, CheckAuthConf, SimpleAuthRegistry,
    SimpleAuthenticationProcessor,
};
use crate::error::XepakError;
use crate::schema::{declared_type, is_refusal, lemma_refusal_kind};
use crate::server::{ArgInput, RequestArgs};
use crate::strmap::StrMap;
use crate::text::same_text;
use vstd::prelude::*;
use vstd::string::*;

verus! {

/// A step that an endpoint asks for.
#[derive(Debug)]
pub enum PreProcessor {
    /// Take arguments from the body.
    ParseBodyArgs,
    /// Authenticate the caller and hold it to one of these checks.
    CheckAuth { allow: Vec<CheckAuthConf> },
}

/// The names and values that a query string in the form
/// `application/x-www-form-urlencoded` holds, in its order, or nothing if
/// the string does not decode.
pub uninterp spec fn urlencoded_pairs(query: Seq<char>) -> Option<Seq<(Seq<char>, Seq<char>)>>;

/// The texts of the pairs.
pub open spec fn pair_texts(pairs: Seq<(String, String)>) -> Seq<(Seq<char>, Seq<char>)> {
    Seq::new(pairs.len(), |i: int| (pairs[i].0@, pairs[i].1@))
}

/// `serde_urlencoded::from_str`, for a list of pairs of strings: decodes a
/// query string into its names and values, in their order.
#[verifier::external_body]
fn decode_query(query: &str) -> (decoded: Option<Vec<(String, String)>>)
    ensures
        match urlencoded_pairs(query@) {
            Some(pairs) => decoded matches Some(found) && pair_texts(found@) == pairs,
            None => decoded is None,
        },
{
    serde_urlencoded::from_str::<Vec<(String, String)>>(query).ok()
}

/// The names and values of a query string, in its order; one that does
/// not decode holds none.
pub open spec fn pairs_of(query: Seq<char>) -> Seq<(Seq<char>, Seq<char>)> {
    match urlencoded_pairs(query) {
        Some(found) => found,
        None => Seq::empty(),
    }
}

/// The names and values of a query string; one that does not decode holds
/// none.
pub fn query_pairs(query: &str) -> (pairs: Vec<(String, String)>)
    ensures
        pair_texts(pairs@) == pairs_of(query@),
{
    match decode_query(query) {
        Some(pairs) => pairs,
        None => {
            let pairs: Vec<(String, String)> = Vec::new();
            assert(pair_texts(pairs@) =~= Seq::empty());
            pairs
        },
    }
}

/// The values by name that the first `count` of the pairs make: each name
/// with the last of its values.
pub open spec fn last_values(pairs: Seq<(Seq<char>, Seq<char>)>, count: int) -> Map<
    Seq<char>,
    Seq<char>,
>
    decreases count,
{
    if count <= 0 {
        Map::empty()
    } else {
        last_values(pairs, count - 1).insert(pairs[count - 1].0, pairs[count - 1].1)
    }
}

/// The texts that a map holds, by name.
pub open spec fn held_texts(map: Map<Seq<char>, String>) -> Map<Seq<char>, Seq<char>> {
    Map::new(|name: Seq<char>| map.contains_key(name), |name: Seq<char>| map[name]@)
}

/// The values of a query string by name: a name that comes more than once
/// has the last of its values. A string that does not decode holds none.
pub fn query_values(query: &str) -> (values: StrMap<String>)
    ensures
        held_texts(values@) == last_values(pairs_of(query@), pairs_of(query@).len() as int),
{
    let pairs = query_pairs(query);
    let ghost texts = pair_texts(pairs@);
    let mut values: StrMap<String> = StrMap::new();
    let mut i: usize = 0;
    proof {
        assert(held_texts(values@) =~= Map::empty());
    }
    while i < pairs.len()
        invariant
            0 <= i <= pairs.len(),
            texts == pair_texts(pairs@),
            held_texts(values@) == last_values(texts, i as int),
        decreases pairs.len() - i,
    {
        let ghost before = values@;
        values.insert(pairs[i].0.clone(), pairs[i].1.clone());
        proof {
            assert(texts[i as int] == (pairs@[i as int].0@, pairs@[i as int].1@));
            assert(held_texts(values@) =~= held_texts(before).insert(
                texts[i as int].0,
                texts[i as int].1,
            ));
        }
        i = i + 1;
    }
    values
}

/// Takes the arguments of the query string, unless the request has a body.
#[derive(Debug, Clone)]
pub struct QueryArgsProcessor {}

impl QueryArgsProcessor {
    /// True when a request with this method carries its arguments in a
    /// body: when the method is `PUT` or `POST`.
    pub open spec fn carries_body(method: Seq<char>) -> bool {
        method == "PUT"@ || method == "POST"@
    }

    /// True when `after` and `done` are what this step makes of the
    /// request `before`: nothing if the method is one that carries a body,
    /// else the arguments of the query string set one after the other.
    pub open spec fn handled(
        method: Seq<char>,
        query_args: Seq<ArgInput>,
        before: RequestArgs,
        after: RequestArgs,
        done: Result<(), XepakError>,
    ) -> bool {
        if Self::carries_body(method) {
            done is Ok && after == before
        } else {
            before.is_put(query_args, true, &after, done)
        }
    }

    /// Sets the arguments `query_args` of the query string, or nothing if
    /// the method of the request is one that carries a body.
    pub fn handle(&self, method: &str, query_args: &[ArgInput], input: &mut RequestArgs) -> (done:
        Result<(), XepakError>)
        ensures
            Self::handled(method@, query_args@, *old(input), *final(input), done),
            done matches Err(err) ==> err is Input || err is ConvertValue || err is Decode,
    {
        if same_text(method, "PUT") || same_text(method, "POST") {
            return Ok(());
        }
        let done = input.set_args(query_args, true);
        proof {
            if done is Err {
                let failed = choose|failed: int|
                    0 <= failed < query_args@.len() && is_refusal(
                        declared_type(old(input).schema(), (#[trigger] query_args@[failed]).name@),
                        query_args@[failed].name@,
                        query_args@[failed].value@,
                        done->Err_0,
                    );
                lemma_refusal_kind(
                    declared_type(old(input).schema(), query_args@[failed].name@),
                    query_args@[failed].name@,
                    query_args@[failed].value@,
                    done->Err_0,
                );
            }
        }
        done
    }
}

/// Takes the arguments of the body.
#[derive(Debug, Clone)]
pub struct BodyToArgsProcessor {}

impl BodyToArgsProcessor {
    /// Sets the arguments `body_args` that the members of the body make,
    /// one after the other.
    pub fn handle(&self, body_args: &[ArgInput], input: &mut RequestArgs) -> (done: Result<
        (),
        XepakError,
    >)
        ensures
            old(input).is_put(body_args@, true, final(input), done),
            done matches Err(err) ==> err is Input || err is ConvertValue || err is Decode,
    {
        let done = input.set_args(body_args, true);
        proof {
            if done is Err {
                let failed = choose|failed: int|
                    0 <= failed < body_args@.len() && is_refusal(
                        declared_type(old(input).schema(), (#[trigger] body_args@[failed]).name@),
                        body_args@[failed].name@,
                        body_args@[failed].value@,
                        done->Err_0,
                    );
                lemma_refusal_kind(
                    declared_type(old(input).schema(), body_args@[failed].name@),
                    body_args@[failed].name@,
                    body_args@[failed].value@,
                    done->Err_0,
                );
            }
        }
        done
    }
}

/// Holds the arguments to the validators of the schema.
#[derive(Debug, Clone)]
pub struct InputArgsValidator {}

impl InputArgsValidator {
    /// True when `done` is what this step makes of the request: the first
    /// refusal of an argument by a validator, if there is one.
    pub open spec fn handled(input: RequestArgs, done: Result<(), XepakError>) -> bool {
        match input.verdict() {
            None => done is Ok,
            Some(detail) => done matches Err(err) && err is Input && err.detail() == detail,
        }
    }

    /// Fails with the first refusal of an argument by a validator.
    pub fn handle(&self, input: &RequestArgs) -> (done: Result<(), XepakError>)
        ensures
            Self::handled(*input, done),
    {
        input.validate()
    }
}

/// A step of a request, made ready.
#[derive(Debug)]
pub enum Step {
    /// Take the arguments of the query string.
    QueryArgs(QueryArgsProcessor),
    /// Take the arguments of the body.
    BodyArgs(BodyToArgsProcessor),
    /// Hold the arguments to the validators of the schema.
    Validate(InputArgsValidator),
    /// Authenticate the caller and hold it to the policy.
    CheckAuth(SimpleAuthenticationProcessor, AuthorizeProcessor),
}

/// The number of the configured steps of the first `count` that take
/// arguments from the body.
pub open spec fn body_steps(processors: Seq<PreProcessor>, count: int) -> int
    decreases count,
{
    if count <= 0 {
        0
    } else {
        body_steps(processors, count - 1) + (if processors[count - 1] is ParseBodyArgs {
            1int
        } else {
            0int
        })
    }
}

/// The steps that a request goes through, made of the configured ones: the
/// arguments of the query string are taken first, then those of the body,
/// once for each time that is asked for; then the arguments are held to the
/// schema; then the caller is authenticated and held to each configured
/// policy.
pub fn steps_of(processors: &[PreProcessor]) -> (steps: Vec<Step>)
    ensures
        steps@.len() == processors@.len() + 2,
        steps@[0] is QueryArgs,
        forall|i: int|
            1 <= i <= body_steps(processors@, processors@.len() as int) ==> (#[trigger] steps@[i])
                is BodyArgs,
        steps@[1 + body_steps(processors@, processors@.len() as int)] is Validate,
        forall|i: int|
            1 + body_steps(processors@, processors@.len() as int) < i < steps@.len() ==> (
            #[trigger] steps@[i]) is CheckAuth,
        forall|k: int|
            0 <= k < processors@.len() && (#[trigger] processors@[k]) is CheckAuth ==> exists|
                i: int,
            |
                0 <= i < steps@.len() && (#[trigger] steps@[i]) is CheckAuth && is_policy_of(
                    processors@[k]->allow@,
                    steps@[i]->CheckAuth_1.policy(),
                ),
{
    let mut steps: Vec<Step> = Vec::new();
    steps.push(Step::QueryArgs(QueryArgsProcessor {  }));
    let mut k: usize = 0;
    while k < processors.len()
        invariant
            0 <= k <= processors.len(),
            steps@.len() == 1 + body_steps(processors@, k as int),
            0 <= body_steps(processors@, k as int) <= k,
            steps@[0] is QueryArgs,
            forall|i: int| 1 <= i < steps@.len() ==> (#[trigger] steps@[i]) is BodyArgs,
        decreases processors.len() - k,
    {
        match &processors[k] {
            PreProcessor::ParseBodyArgs => {
                steps.push(Step::BodyArgs(BodyToArgsProcessor {  }));
            },
            PreProcessor::CheckAuth { .. } => {},
        }
        k = k + 1;
    }
    steps.push(Step::Validate(InputArgsValidator {  }));
    let ghost bodies = body_steps(processors@, processors@.len() as int);
    let mut k: usize = 0;
    while k < processors.len()
        invariant
            0 <= k <= processors.len(),
            bodies == body_steps(processors@, processors@.len() as int),
            0 <= bodies,
            steps@.len() == 2 + bodies + (k - body_steps(processors@, k as int)),
            0 <= body_steps(processors@, k as int) <= k,
            steps@[0] is QueryArgs,
            forall|i: int| 1 <= i <= bodies ==> (#[trigger] steps@[i]) is BodyArgs,
            steps@[1 + bodies] is Validate,
            forall|i: int| 1 + bodies < i < steps@.len() ==> (#[trigger] steps@[i]) is CheckAuth,
            forall|j: int|
                0 <= j < k && (#[trigger] processors@[j]) is CheckAuth ==> exists|i: int|
                    0 <= i < steps@.len() && (#[trigger] steps@[i]) is CheckAuth && is_policy_of(
                        processors@[j]->allow@,
                        steps@[i]->CheckAuth_1.policy(),
                    ),
        decreases processors.len() - k,
    {
        match &processors[k] {
            PreProcessor::CheckAuth { allow } => {
                let ghost before = steps@;
                let authorize = AuthorizeProcessor::new(allow.as_slice());
                steps.push(
                    Step::CheckAuth(SimpleAuthenticationProcessor::new(false), authorize),
                );
                proof {
                    let last = steps@.len() - 1;
                    assert(steps@[last] is CheckAuth);
                    assert forall|j: int|
                        0 <= j < k + 1 && (#[trigger] processors@[j]) is CheckAuth implies exists|
                        i: int,
                    |
                        0 <= i < steps@.len() && (#[trigger] steps@[i]) is CheckAuth
                            && is_policy_of(
                            processors@[j]->allow@,
                            steps@[i]->CheckAuth_1.policy(),
                        ) by {
                        if j < k {
                            let i = choose|i: int|
                                0 <= i < before.len() && (#[trigger] before[i]) is CheckAuth
                                    && is_policy_of(
                                    processors@[j]->allow@,
                                    before[i]->CheckAuth_1.policy(),
                                );
                            assert(steps@[i] == before[i]);
                        } else {
                            assert(steps@[last] is CheckAuth);
                        }
                    }
                }
            },
            PreProcessor::ParseBodyArgs => {},
        }
        k = k + 1;
    }
    steps
}

/// True when the caller `caller` has passed the step: for a step that
/// checks the caller, when the caller is known and the policy of the step,
/// if it has one, allows it.
pub open spec fn is_admitted(step: Step, caller: Option<(Seq<char>, Set<Seq<char>>)>) -> bool {
    match step {
        Step::CheckAuth(_, authorize) => match caller {
            Some((id, roles)) => match authorize.policy() {
                Some(policy) => policy.allows(id, roles),
                None => true,
            },
            None => false,
        },
        _ => true,
    }
}

/// True when `after` and `done` are what the step makes of the request
/// `before`: what the step's own handling makes of it. A step that takes
/// the arguments of the body fails with the failure to read them, if there
/// is one; a step that checks the caller authenticates it and then, if that
/// lets the request through, holds it to the policy.
pub open spec fn is_step(
    step: Step,
    registry: SimpleAuthRegistry,
    method: Seq<char>,
    api_key: Option<&str>,
    query_args: Seq<ArgInput>,
    body_args: Result<Vec<ArgInput>, XepakError>,
    before: RequestArgs,
    after: RequestArgs,
    done: Result<(), XepakError>,
) -> bool {
    match step {
        Step::QueryArgs(_) => QueryArgsProcessor::handled(method, query_args, before, after, done),
        Step::BodyArgs(_) => match body_args {
            Ok(args) => before.is_put(args@, true, &after, done),
            Err(unread) => {
                &&& done matches Err(err)
                &&& unread.same_as(&err)
                &&& after == before
            },
        },
        Step::Validate(_) => after == before && InputArgsValidator::handled(before, done),
        Step::CheckAuth(_, authorize) => if SimpleAuthenticationProcessor::lets_through(
            registry,
            api_key,
            before,
        ) {
            SimpleAuthenticationProcessor::handled(
                registry,
                api_key,
                before,
                after,
                Ok::<(), XepakError>(()),
            ) && authorize.handled(after, done)
        } else {
            SimpleAuthenticationProcessor::handled(registry, api_key, before, after, done)
        },
    }
}

/// True when `states` are the request as it is before the first step and
/// after each step that is taken, and `done` is how the steps end: each
/// step is taken on the request as the steps before it have left it; if
/// all of them succeed, all are taken; else the first that fails is the
/// last that is taken, and its failure is the end.
pub open spec fn is_trace(
    steps: Seq<Step>,
    registry: SimpleAuthRegistry,
    method: Seq<char>,
    api_key: Option<&str>,
    query_args: Seq<ArgInput>,
    body_args: Result<Vec<ArgInput>, XepakError>,
    states: Seq<RequestArgs>,
    done: Result<(), XepakError>,
) -> bool {
    let taken = states.len() - 1;
    let passed = if done is Ok {
        taken
    } else {
        taken - 1
    };
    &&& 0 <= passed <= taken <= steps.len()
    &&& done is Ok ==> taken == steps.len()
    &&& forall|k: int|
        0 <= k < passed ==> is_step(
            steps[k],
            registry,
            method,
            api_key,
            query_args,
            body_args,
            #[trigger] states[k],
            states[k + 1],
            Ok::<(), XepakError>(()),
        )
    &&& done is Err ==> is_step(
        steps[passed],
        registry,
        method,
        api_key,
        query_args,
        body_args,
        states[passed],
        states[passed + 1],
        done,
    )
}

/// Takes a request through its steps, in their order, and stops at the
/// first that fails. `api_key` is the value of the credential header, if
/// the request has one; `query_args` are the arguments of the query
/// string; `body_args` are those of the body, or the failure to read them,
/// with which the first step that takes them fails. A request that comes
/// through has passed every step that checks the caller.
pub fn pre_process_request(
    steps: &[Step],
    registry: &SimpleAuthRegistry,
    method: &str,
    api_key: Option<&str>,
    query_args: &[ArgInput],
    body_args: &Result<Vec<ArgInput>, XepakError>,
    input: &mut RequestArgs,
) -> (done: Result<(), XepakError>)
    ensures
        exists|states: Seq<RequestArgs>| #[trigger]
            is_trace(
                steps@,
                *registry,
                method@,
                api_key,
                query_args@,
                *body_args,
                states,
                done,
            ) && states[0] == *old(input) && states[states.len() - 1] == *final(input),
        done is Ok ==> forall|i: int|
            0 <= i < steps@.len() ==> is_admitted(#[trigger] steps@[i], final(input).caller()),
        done matches Err(err) ==> err is Input || err is ConvertValue || err is Decode
            || err is Forbidden || (body_args matches Err(unread) && unread.same_as(&err)),
        old(input).caller() is Some ==> final(input).caller() == old(input).caller(),
        final(input).path_values() == old(input).path_values(),
        final(input).schema() == old(input).schema(),
        final(input).strict() == old(input).strict(),
        final(input).limit() == old(input).limit(),
        final(input).offset() == old(input).offset(),
{
    let mut i: usize = 0;
    let ghost mut states: Seq<RequestArgs> = seq![*input];
    while i < steps.len()
        invariant
            0 <= i <= steps.len(),
            states.len() == i + 1,
            states[0] == *old(input),
            states[i as int] == *input,
            forall|k: int|
                0 <= k < i ==> is_step(
                    steps@[k],
                    *registry,
                    method@,
                    api_key,
                    query_args@,
                    *body_args,
                    #[trigger] states[k],
                    states[k + 1],
                    Ok::<(), XepakError>(()),
                ),
            forall|k: int| 0 <= k < i ==> is_admitted(#[trigger] steps@[k], input.caller()),
            old(input).caller() is Some ==> input.caller() == old(input).caller(),
            input.path_values() == old(input).path_values(),
            input.schema() == old(input).schema(),
            input.strict() == old(input).strict(),
            input.limit() == old(input).limit(),
            input.offset() == old(input).offset(),
        decreases steps.len() - i,
    {
        let ghost before = *input;
        let done = match &steps[i] {
            Step::QueryArgs(step) => step.handle(method, query_args, input),
            Step::BodyArgs(step) => match body_args {
                Ok(args) => step.handle(args.as_slice(), input),
                Err(unread) => Err(unread.copy()),
            },
            Step::Validate(step) => step.handle(input),
            Step::CheckAuth(authenticate, authorize) => {
                match authenticate.handle(registry, api_key, input) {
                    Ok(_) => authorize.handle(input),
                    Err(err) => Err(err),
                }
            },
        };
        proof {
            assert(is_step(
                steps@[i as int],
                *registry,
                method@,
                api_key,
                query_args@,
                *body_args,
                before,
                *input,
                done,
            ));
            let earlier = states;
            states = states.push(*input);
            assert forall|k: int| 0 <= k < i implies is_step(
                steps@[k],
                *registry,
                method@,
                api_key,
                query_args@,
                *body_args,
                #[trigger] states[k],
                states[k + 1],
                Ok::<(), XepakError>(()),
            ) by {
                assert(states[k] == earlier[k]);
                assert(states[k + 1] == earlier[k + 1]);
            }
            assert(states[i as int] == before);
        }
        match done {
            Ok(_) => {
                proof {
                    assert forall|k: int| 0 <= k < i + 1 implies is_admitted(
                        #[trigger] steps@[k],
                        input.caller(),
                    ) by {
                        if k < i {
                            if steps@[k] is CheckAuth {
                                assert(is_admitted(steps@[k], before.caller()));
                                assert(input.caller() == before.caller());
                            }
                        }
                    }
                }
            },
            Err(err) => {
                proof {
                    assert(is_trace(
                        steps@,
                        *registry,
                        method@,
                        api_key,
                        query_args@,
                        *body_args,
                        states,
                        done,
                    ));
                }
                return Err(err);
            },
        }
        i = i + 1;
    }
    proof {
        assert(is_trace(
            steps@,
            *registry,
            method@,
            api_key,
            query_args@,
            *body_args,
            states,
            Ok::<(), XepakError>(()),
        ));
    }
    Ok(())
}

} // verus!
