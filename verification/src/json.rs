//! Values and arguments from JSON.

use crate::error::XepakError;
use crate::float::Float64;
use crate::text::join3;
use crate::types::{ValueView, XepakValue};
use vstd::prelude::*;
use vstd::string::*;

verus! {

/// `serde_json::Value`: a JSON value.
#[verifier::external_type_specification]
#[verifier::external_body]
pub struct ExJsonValue(serde_json::Value);

/// What is read of a JSON number: whether it is a float, what float it is
/// if it can be had as one, and what whole number if it can be had as one.
#[derive(Debug, Clone)]
pub struct JsonNumber {
    pub is_float: bool,
    pub as_float: Option<Float64>,
    pub as_int: Option<i128>,
}

/// What is read of a JSON value: a scalar with what it holds, or that it
/// is an array or an object.
#[derive(Debug, Clone)]
pub enum JsonScalar {
    Null,
    Bool(bool),
    Number(JsonNumber),
    String(String),
    Array,
    Object,
}

/// `serde_json::Number`: a JSON number.
#[verifier::external_type_specification]
#[verifier::external_body]
pub struct ExJsonNumber(serde_json::Number);

/// What kind of JSON value a value is, with what a truth value and a
/// string hold.
#[derive(Debug, Clone)]
pub enum JsonKind {
    Null,
    Bool(bool),
    Number,
    String(String),
    Array,
    Object,
}

/// The kind of a JSON value, as contracts speak of it.
pub enum JsonKindRead {
    Null,
    Bool(bool),
    Number,
    String(Seq<char>),
    Array,
    Object,
}

impl View for JsonKind {
    type V = JsonKindRead;

    open spec fn view(&self) -> JsonKindRead {
        match self {
            JsonKind::Null => JsonKindRead::Null,
            JsonKind::Bool(b) => JsonKindRead::Bool(*b),
            JsonKind::Number => JsonKindRead::Number,
            JsonKind::String(s) => JsonKindRead::String(s@),
            JsonKind::Array => JsonKindRead::Array,
            JsonKind::Object => JsonKindRead::Object,
        }
    }
}

/// The kind of a JSON value: which variant it is, with what a truth value
/// and a string hold.
pub uninterp spec fn json_kind_of(value: serde_json::Value) -> JsonKindRead;

/// `serde_json::Value`, by its variants: tells what kind of JSON value a
/// value is.
#[verifier::external_body]
fn json_kind(value: &serde_json::Value) -> (kind: JsonKind)
    ensures
        kind@ == json_kind_of(*value),
{
    match value {
        serde_json::Value::Null => JsonKind::Null,
        serde_json::Value::Bool(b) => JsonKind::Bool(*b),
        serde_json::Value::Number(_) => JsonKind::Number,
        serde_json::Value::String(s) => JsonKind::String(s.clone()),
        serde_json::Value::Array(_) => JsonKind::Array,
        serde_json::Value::Object(_) => JsonKind::Object,
    }
}

/// The number that a JSON value is, if it is one.
pub uninterp spec fn json_number_of(value: serde_json::Value) -> Option<serde_json::Number>;

/// `serde_json::Value::as_number`: the number that a JSON value is, and
/// nothing for a value that is no number.
#[verifier::external_body]
fn json_number(value: &serde_json::Value) -> (number: Option<serde_json::Number>)
    ensures
        number == json_number_of(*value),
{
    value.as_number().cloned()
}

/// True when a JSON number is held as a float.
pub uninterp spec fn number_is_float_of(number: serde_json::Number) -> bool;

/// `serde_json::Number::is_f64`: true when the number is held as a float.
#[verifier::external_body]
fn number_is_float(number: &serde_json::Number) -> (is: bool)
    ensures
        is == number_is_float_of(*number),
{
    number.is_f64()
}

/// The float that a JSON number can be had as, by its bit pattern and its
/// text.
pub uninterp spec fn number_float_of(number: serde_json::Number) -> Option<(u64, Seq<char>)>;

/// `serde_json::Number::as_f64`: the number as a float, if it can be had
/// as one, with its bit pattern and its text.
#[verifier::external_body]
fn number_as_float(number: &serde_json::Number) -> (float: Option<Float64>)
    ensures
        match number_float_of(*number) {
            Some((bits, text)) => float matches Some(f) && f.spec_bits() == bits && f.spec_text()
                == text,
            None => float is None,
        },
{
    number.as_f64().map(|f| Float64::new(f.to_bits(), f.to_string()))
}

/// The whole number that a JSON number can be had as.
pub uninterp spec fn number_int_of(number: serde_json::Number) -> Option<int>;

/// `serde_json::Number::as_i128`: the number as a whole number, if it is
/// one.
#[verifier::external_body]
fn number_as_int(number: &serde_json::Number) -> (whole: Option<i128>)
    ensures
        match number_int_of(*number) {
            Some(i) => whole == Some(i as i128) && whole->0 == i,
            None => whole is None,
        },
{
    number.as_i128()
}

/// What is read of a JSON value, as contracts speak of it.
pub enum JsonRead {
    Null,
    Bool(bool),
    /// A number: whether it is a float, the bit pattern and the text of the
    /// float that it can be had as, and the whole number that it can be had
    /// as.
    Number { is_float: bool, as_float: Option<(u64, Seq<char>)>, as_int: Option<int> },
    String(Seq<char>),
    Array,
    Object,
}

impl View for JsonScalar {
    type V = JsonRead;

    open spec fn view(&self) -> JsonRead {
        match self {
            JsonScalar::Null => JsonRead::Null,
            JsonScalar::Bool(b) => JsonRead::Bool(*b),
            JsonScalar::Number(n) => JsonRead::Number {
                is_float: n.is_float,
                as_float: match n.as_float {
                    Some(f) => Some((f.spec_bits(), f.spec_text())),
                    None => None,
                },
                as_int: match n.as_int {
                    Some(i) => Some(i as int),
                    None => None,
                },
            },
            JsonScalar::String(s) => JsonRead::String(s@),
            JsonScalar::Array => JsonRead::Array,
            JsonScalar::Object => JsonRead::Object,
        }
    }
}

/// The value that what is read of a JSON value stands for, if that is a
/// scalar: a number that says it is a float is that float, or zero if it
/// cannot be had as one; any other number is the whole number it can be
/// had as, or zero.
pub open spec fn read(scalar: JsonRead) -> Option<ValueView> {
    match scalar {
        JsonRead::Null => Some(ValueView::Null),
        JsonRead::Bool(b) => Some(ValueView::Boolean(b)),
        JsonRead::Number { is_float, as_float, as_int } => Some(
            if is_float {
                match as_float {
                    Some((bits, text)) => ValueView::Float { bits, text },
                    None => ValueView::Float { bits: 0, text: "0"@ },
                }
            } else {
                match as_int {
                    Some(i) => ValueView::Integer(i),
                    None => ValueView::Integer(0),
                }
            },
        ),
        JsonRead::String(s) => Some(ValueView::Text(s)),
        JsonRead::Array => None,
        JsonRead::Object => None,
    }
}

/// The value that a JSON scalar stands for, if it is one.
pub open spec fn read_json(scalar: JsonScalar) -> Option<ValueView> {
    read(scalar@)
}

/// What is read of a JSON value: its kind, and for a number what it says
/// it is and what it can be had as.
pub open spec fn json_read(value: serde_json::Value) -> JsonRead {
    match json_kind_of(value) {
        JsonKindRead::Null => JsonRead::Null,
        JsonKindRead::Bool(b) => JsonRead::Bool(b),
        JsonKindRead::Number => match json_number_of(value) {
            Some(number) => JsonRead::Number {
                is_float: number_is_float_of(number),
                as_float: number_float_of(number),
                as_int: number_int_of(number),
            },
            None => JsonRead::Number { is_float: false, as_float: None, as_int: None },
        },
        JsonKindRead::String(s) => JsonRead::String(s),
        JsonKindRead::Array => JsonRead::Array,
        JsonKindRead::Object => JsonRead::Object,
    }
}

/// Reads a JSON value: what kind it is and what it holds.
fn json_scalar(value: &serde_json::Value) -> (scalar: JsonScalar)
    ensures
        scalar@ == json_read(*value),
{
    match json_kind(value) {
        JsonKind::Null => JsonScalar::Null,
        JsonKind::Bool(b) => JsonScalar::Bool(b),
        JsonKind::Number => match json_number(value) {
            Some(number) => JsonScalar::Number(
                JsonNumber {
                    is_float: number_is_float(&number),
                    as_float: number_as_float(&number),
                    as_int: number_as_int(&number),
                },
            ),
            None => JsonScalar::Number(JsonNumber { is_float: false, as_float: None, as_int: None }),
        },
        JsonKind::String(s) => JsonScalar::String(s),
        JsonKind::Array => JsonScalar::Array,
        JsonKind::Object => JsonScalar::Object,
    }
}

/// The value that a JSON scalar stands for; arrays and objects are
/// refused.
pub fn from_json_scalar(scalar: &JsonScalar) -> (value: Result<XepakValue, XepakError>)
    ensures
        match read_json(*scalar) {
            Some(read) => value matches Ok(made) && made@ == read,
            None => value matches Err(err) && err is Decode && err.detail() == (if scalar
                is Array {
                "Cant decode from JSON array"@
            } else {
                "Cant decode from JSON object"@
            }),
        },
{
    match scalar {
        JsonScalar::Null => Ok(XepakValue::Null),
        JsonScalar::Bool(b) => Ok(XepakValue::Boolean(*b)),
        JsonScalar::Number(n) => Ok(
            if n.is_float {
                match &n.as_float {
                    Some(f) => XepakValue::Float(f.copy()),
                    None => XepakValue::Float(Float64::new(0, String::from_str("0"))),
                }
            } else {
                match n.as_int {
                    Some(i) => XepakValue::Integer(i),
                    None => XepakValue::Integer(0),
                }
            },
        ),
        JsonScalar::String(s) => Ok(XepakValue::Text(s.clone())),
        JsonScalar::Array => Err(
            XepakError::Decode(String::from_str("Cant decode from JSON array")),
        ),
        JsonScalar::Object => Err(
            XepakError::Decode(String::from_str("Cant decode from JSON object")),
        ),
    }
}

/// The value that a JSON value stands for; arrays and objects are refused.
pub fn try_from_json(value: &serde_json::Value) -> (made: Result<XepakValue, XepakError>)
    ensures
        match read(json_read(*value)) {
            Some(stood) => made matches Ok(v) && v@ == stood,
            None => made matches Err(err) && err is Decode && err.detail() == (if json_read(
                *value,
            ) is Array {
                "Cant decode from JSON array"@
            } else {
                "Cant decode from JSON object"@
            }),
        },
{
    let scalar = json_scalar(value);
    from_json_scalar(&scalar)
}

/// The message that refuses a member that is an array or an object.
pub open spec fn nested_detail(key: Seq<char>) -> Seq<char> {
    "Root JSON must NOT have any nested arrays or objects. See \""@ + key + "\" property."@
}

/// The names of the members, each with what is read of the member.
pub open spec fn member_reads(members: Seq<(String, JsonScalar)>) -> Seq<(Seq<char>, JsonRead)> {
    Seq::new(members.len(), |i: int| (members[i].0@, members[i].1@))
}

/// True when the first `count` of the members are scalars.
pub open spec fn all_scalars(members: Seq<(Seq<char>, JsonRead)>, count: int) -> bool {
    forall|i: int| 0 <= i < count ==> read((#[trigger] members[i]).1) is Some
}

/// True when `args` is what the members of a JSON object make: if all of
/// them are scalars, the values that they stand for, each under its name
/// and in their order; else the refusal of the first member that is an
/// array or an object, by its name.
pub open spec fn is_args_of(
    members: Seq<(Seq<char>, JsonRead)>,
    args: Result<Vec<(String, XepakValue)>, XepakError>,
) -> bool {
    if all_scalars(members, members.len() as int) {
        &&& args matches Ok(made)
        &&& made@.len() == members.len()
        &&& forall|i: int|
            0 <= i < made@.len() ==> (#[trigger] made@[i]).0@ == members[i].0 && Some(made@[i].1@)
                == read(members[i].1)
    } else {
        &&& args matches Err(err)
        &&& err is Input
        &&& exists|i: int|
            0 <= i < members.len() && all_scalars(members, i) && read(
                (#[trigger] members[i]).1,
            ) is None && err.detail() == nested_detail(members[i].0)
    }
}

/// The message that refuses bytes that are no JSON text.
pub open spec fn unparsed_detail(why: Seq<char>) -> Seq<char> {
    "Wrong JSON format: "@ + why
}

/// The message that refuses a JSON text that is no object.
pub open spec fn no_object_detail() -> Seq<char> {
    "JSON request body only allowed to be an object"@
}

/// The arguments that the members of a JSON object make, each a scalar
/// under its name; fails at the first member that is an array or an
/// object, naming it.
pub fn member_args(members: &Vec<(String, JsonScalar)>) -> (args: Result<
    Vec<(String, XepakValue)>,
    XepakError,
>)
    ensures
        is_args_of(member_reads(members@), args),
{
    let ghost reads = member_reads(members@);
    let mut made: Vec<(String, XepakValue)> = Vec::new();
    let mut i: usize = 0;
    while i < members.len()
        invariant
            0 <= i <= members.len(),
            reads == member_reads(members@),
            made@.len() == i,
            all_scalars(reads, i as int),
            forall|k: int|
                0 <= k < i ==> (#[trigger] made@[k]).0@ == reads[k].0 && Some(made@[k].1@) == read(
                    reads[k].1,
                ),
        decreases members.len() - i,
    {
        proof {
            assert(reads[i as int] == (members@[i as int].0@, members@[i as int].1@));
        }
        match from_json_scalar(&members[i].1) {
            Ok(value) => {
                made.push((members[i].0.clone(), value));
            },
            Err(_) => {
                let refused = Err(
                    XepakError::Input(
                        join3(
                            "Root JSON must NOT have any nested arrays or objects. See \"",
                            members[i].0.as_str(),
                            "\" property.",
                        ),
                    ),
                );
                proof {
                    assert(read(reads[i as int].1) is None);
                    assert(!all_scalars(reads, reads.len() as int));
                }
                return refused;
            },
        }
        i = i + 1;
    }
    Ok(made)
}

/// The JSON value that the bytes are the text of, or the words in which
/// the parser refuses them.
pub uninterp spec fn json_parsed(body: Seq<u8>) -> Result<serde_json::Value, Seq<char>>;

/// `serde_json::from_slice`, for a JSON value: parses the bytes, or says in
/// words why they are no JSON text.
#[verifier::external_body]
fn parse_json(body: &[u8]) -> (parsed: Result<serde_json::Value, String>)
    ensures
        match json_parsed(body@) {
            Ok(value) => parsed matches Ok(found) && found == value,
            Err(why) => parsed matches Err(said) && said@ == why,
        },
{
    serde_json::from_slice::<serde_json::Value>(body).map_err(|e| e.to_string())
}

/// The members of a JSON object, each with its name, in the order in which
/// the object holds them; nothing for a value that is no object.
pub uninterp spec fn json_members_of(value: serde_json::Value) -> Option<
    Seq<(Seq<char>, serde_json::Value)>,
>;

/// `serde_json::Value::as_object`: the members of a JSON object, each with
/// its name, and nothing for a value that is no object.
#[verifier::external_body]
fn json_members(value: &serde_json::Value) -> (members: Option<Vec<(String, serde_json::Value)>>)
    ensures
        match json_members_of(*value) {
            Some(held) => members matches Some(found) && found@.len() == held.len() && forall|
                i: int,
            |
                0 <= i < held.len() ==> (#[trigger] found@[i]).0@ == held[i].0 && found@[i].1
                    == held[i].1,
            None => members is None,
        },
{
    value.as_object().map(|map| map.iter().map(|(k, v)| (k.clone(), v.clone())).collect())
}

/// What the bytes hold as JSON: the members of an object, each with what
/// is read of it; nothing for a JSON text that is no object; or the words
/// in which the parser refuses bytes that are no JSON text.
pub open spec fn json_body(body: Seq<u8>) -> Result<Option<Seq<(Seq<char>, JsonRead)>>, Seq<char>> {
    match json_parsed(body) {
        Ok(value) => match json_members_of(value) {
            Some(held) => Ok(
                Some(Seq::new(held.len(), |i: int| (held[i].0, json_read(held[i].1)))),
            ),
            None => Ok(None),
        },
        Err(why) => Err(why),
    }
}

/// The arguments that a JSON body makes: the body has to be an object, and
/// each of its members a scalar.
pub fn json_body_args(body: &[u8]) -> (args: Result<Vec<(String, XepakValue)>, XepakError>)
    ensures
        match json_body(body@) {
            Ok(Some(members)) => is_args_of(members, args),
            Ok(None) => args matches Err(err) && err is Input && err.detail()
                == no_object_detail(),
            Err(why) => args matches Err(err) && err is Input && err.detail() == unparsed_detail(
                why,
            ),
        },
{
    let parsed = match parse_json(body) {
        Ok(parsed) => parsed,
        Err(why) => {
            let mut detail = String::from_str("Wrong JSON format: ");
            detail.append(why.as_str());
            return Err(XepakError::Input(detail));
        },
    };
    let members = match json_members(&parsed) {
        Some(members) => members,
        None => {
            return Err(
                XepakError::Input(
                    String::from_str("JSON request body only allowed to be an object"),
                ),
            );
        },
    };
    let ghost held = json_members_of(parsed)->0;
    let mut scalars: Vec<(String, JsonScalar)> = Vec::new();
    let mut i: usize = 0;
    while i < members.len()
        invariant
            0 <= i <= members.len(),
            members@.len() == held.len(),
            forall|k: int|
                0 <= k < held.len() ==> (#[trigger] members@[k]).0@ == held[k].0 && members@[k].1
                    == held[k].1,
            scalars@.len() == i,
            forall|k: int|
                0 <= k < i ==> (#[trigger] scalars@[k]).0@ == held[k].0 && scalars@[k].1@
                    == json_read(held[k].1),
        decreases members.len() - i,
    {
        scalars.push((members[i].0.clone(), json_scalar(&members[i].1)));
        i = i + 1;
    }
    proof {
        assert(member_reads(scalars@) =~= Seq::new(
            held.len(),
            |i: int| (held[i].0, json_read(held[i].1)),
        ));
    }
    member_args(&scalars)
}

} // verus!
