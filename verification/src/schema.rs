//! The declarations of arguments: their types and the validators that
//! their values have to pass.

use crate::error::XepakError;
use crate::float::{
    float_lt, is_within, less, nearest_bits, nearest_float, within, Float64,
};
use crate::strmap::StrMap;
use crate::text::{int_text, int_to_string, join3, nat_text, nat_to_string};
use crate::types::{
    is_float_failure, is_truth_failure, is_whole_failure, ValueView, XepakType, XepakValue,
};
use vstd::prelude::*;
use vstd::string::*;

verus! {

/// Where a declaration applies.
#[derive(Debug, Clone, Copy, PartialEq, Eq, Structural)]
pub enum ArgSchemaScope {
    All,
    Input,
    Output,
}

impl Default for ArgSchemaScope {
    fn default() -> (scope: Self)
        ensures
            scope == ArgSchemaScope::All,
    {
        ArgSchemaScope::All
    }
}

/// A node of the validator tree.
#[derive(Debug)]
pub enum ArgSchemaValidator {
    /// The length of a text, or a number, lies within `from..=to`.
    Range { from: usize, to: usize },
    /// The length of a text, or a number, lies within `from..=to`.
    RangeFloat { from: Float64, to: Float64 },
    /// All of the nested validators pass.
    And { nested: Vec<ArgSchemaValidator> },
    /// The value is not null.
    NotNull,
    /// At least one of the nested validators passes, or there is none.
    Or { nested: Vec<ArgSchemaValidator> },
}

/// The declaration of one argument.
#[derive(Debug)]
pub struct ArgSchema {
    /// The type that the argument's value is converted to.
    pub ty: XepakType,
    pub scope: ArgSchemaScope,
    /// True when the argument must be given.
    pub required: bool,
    /// The validators that the value has to pass, all of them.
    pub validate: Vec<ArgSchemaValidator>,
}

/// The declarations, by the name of the argument.
pub type Schema = StrMap<ArgSchema>;

/// The number of bytes that the text takes in UTF-8.
pub open spec fn byte_len(text: Seq<char>) -> usize {
    vstd::utf8::encode_utf8(text).len() as usize
}

/// What a value is written as in a message that refuses it.
pub open spec fn shown(value: ValueView) -> Seq<char> {
    match value {
        ValueView::Null => "Null"@,
        ValueView::Boolean(b) => if b {
            "Boolean(true)"@
        } else {
            "Boolean(false)"@
        },
        other => other.text(),
    }
}

/// The message that refuses a length or a number outside a range.
pub open spec fn outside_detail(
    name: Seq<char>,
    what: Seq<char>,
    amount: Seq<char>,
    from: Seq<char>,
    to: Seq<char>,
) -> Seq<char> {
    "Argument \""@ + name + "\" "@ + what + " "@ + amount + " is not within a range "@ + from
        + "..="@ + to
}

/// The message that refuses a value that is neither a text nor a number.
pub open spec fn unfit_detail(name: Seq<char>, value: ValueView) -> Seq<char> {
    "Argument \""@ + name + "\" must be a text, but got "@ + shown(value)
}

/// The message that refuses null.
pub open spec fn null_detail(name: Seq<char>) -> Seq<char> {
    "Argument \""@ + name + "\" must not be null/undefined"@
}

/// What a range of counts says of a value: nothing if it passes, else the
/// message that refuses it. The length of a text, a whole number and a
/// float pass when they are not less than `from` and not greater than `to`,
/// as numbers; a float that is no number does not pass.
pub open spec fn range_verdict(from: usize, to: usize, name: Seq<char>, value: ValueView) -> Option<
    Seq<char>,
> {
    let bounds = (nat_text(from as nat), nat_text(to as nat));
    match value {
        ValueView::Text(text) => if byte_len(text) < from || byte_len(text) > to {
            Some(
                outside_detail(
                    name,
                    "length"@,
                    nat_text(byte_len(text) as nat),
                    bounds.0,
                    bounds.1,
                ),
            )
        } else {
            None
        },
        ValueView::Integer(i) => if i < from || i > to {
            Some(outside_detail(name, "value"@, int_text(i), bounds.0, bounds.1))
        } else {
            None
        },
        ValueView::Float { bits, text } => if !is_within(bits, from, to) {
            Some(outside_detail(name, "value"@, text, bounds.0, bounds.1))
        } else {
            None
        },
        _ => Some(unfit_detail(name, value)),
    }
}

/// What a range of floats says of a value: nothing if it passes, else the
/// message that refuses it. A length and a whole number are held to the
/// range as the floats nearest to them. "Not a number" lies outside no
/// range, and no value lies outside a range whose bounds are "not a
/// number".
pub open spec fn range_float_verdict(
    from: Float64,
    to: Float64,
    name: Seq<char>,
    value: ValueView,
) -> Option<Seq<char>> {
    let bounds = (from.spec_text(), to.spec_text());
    match value {
        ValueView::Text(text) => if float_lt(
            nearest_float(byte_len(text) as int),
            from.spec_bits(),
        ) || float_lt(to.spec_bits(), nearest_float(byte_len(text) as int)) {
            Some(
                outside_detail(
                    name,
                    "length"@,
                    nat_text(byte_len(text) as nat),
                    bounds.0,
                    bounds.1,
                ),
            )
        } else {
            None
        },
        ValueView::Integer(i) => if float_lt(nearest_float(i), from.spec_bits()) || float_lt(
            to.spec_bits(),
            nearest_float(i),
        ) {
            Some(outside_detail(name, "value"@, int_text(i), bounds.0, bounds.1))
        } else {
            None
        },
        ValueView::Float { bits, text } => if float_lt(bits, from.spec_bits()) || float_lt(
            to.spec_bits(),
            bits,
        ) {
            Some(outside_detail(name, "value"@, text, bounds.0, bounds.1))
        } else {
            None
        },
        _ => Some(unfit_detail(name, value)),
    }
}

impl ArgSchemaValidator {
    /// What the validator says of the value of the argument `name`: nothing
    /// if the value passes, else the message that refuses it.
    pub open spec fn verdict(&self, name: Seq<char>, value: ValueView) -> Option<Seq<char>>
        decreases self, 0nat,
    {
        match self {
            ArgSchemaValidator::NotNull => if value is Null {
                Some(null_detail(name))
            } else {
                None
            },
            ArgSchemaValidator::Range { from, to } => range_verdict(*from, *to, name, value),
            ArgSchemaValidator::RangeFloat { from, to } => range_float_verdict(
                *from,
                *to,
                name,
                value,
            ),
            ArgSchemaValidator::And { nested } => all_verdict(nested, name, value, 0),
            ArgSchemaValidator::Or { nested } => any_verdict(nested, name, value, 0, None),
        }
    }
}

/// What the validators from the `at`-th on say together when all of them
/// have to pass: the first message that refuses the value.
pub open spec fn all_verdict(
    nested: &Vec<ArgSchemaValidator>,
    name: Seq<char>,
    value: ValueView,
    at: int,
) -> Option<Seq<char>>
    decreases nested, nested.len() - at,
{
    if at < 0 || at >= nested.len() {
        None
    } else {
        match nested[at].verdict(name, value) {
            Some(detail) => Some(detail),
            None => all_verdict(nested, name, value, at + 1),
        }
    }
}

/// What the validators from the `at`-th on say together when one of them
/// has to pass: nothing if one passes, else the last message that refuses
/// the value, `last` being the last one before them.
pub open spec fn any_verdict(
    nested: &Vec<ArgSchemaValidator>,
    name: Seq<char>,
    value: ValueView,
    at: int,
    last: Option<Seq<char>>,
) -> Option<Seq<char>>
    decreases nested, nested.len() - at,
{
    if at < 0 || at >= nested.len() {
        last
    } else {
        match nested[at].verdict(name, value) {
            Some(detail) => any_verdict(nested, name, value, at + 1, Some(detail)),
            None => None,
        }
    }
}

fn outside(name: &str, what: &str, amount: &str, from: &str, to: &str) -> (err: XepakError)
    ensures
        err is Input,
        err.detail() == outside_detail(name@, what@, amount@, from@, to@),
{
    let mut detail = String::from_str("Argument \"");
    detail.append(name);
    detail.append("\" ");
    detail.append(what);
    detail.append(" ");
    detail.append(amount);
    detail.append(" is not within a range ");
    detail.append(from);
    detail.append("..=");
    detail.append(to);
    XepakError::Input(detail)
}

fn unfit(name: &str, value: &XepakValue) -> (err: XepakError)
    requires
        value@ is Null || value@ is Boolean,
    ensures
        err is Input,
        err.detail() == unfit_detail(name@, value@),
{
    let mut detail = String::from_str("Argument \"");
    detail.append(name);
    detail.append("\" must be a text, but got ");
    match value {
        XepakValue::Boolean(b) => if *b {
            detail.append("Boolean(true)");
        } else {
            detail.append("Boolean(false)");
        },
        _ => {
            detail.append("Null");
        },
    }
    XepakError::Input(detail)
}

fn check_range(from: usize, to: usize, name: &str, value: &XepakValue) -> (checked: Result<
    (),
    XepakError,
>)
    ensures
        match range_verdict(from, to, name@, value@) {
            None => checked is Ok,
            Some(detail) => checked matches Err(err) && err is Input && err.detail() == detail,
        },
{
    match value {
        XepakValue::Text(text) => {
            let len = text.as_str().len();
            if len < from || len > to {
                return Err(
                    outside(
                        name,
                        "length",
                        nat_to_string(len as u128).as_str(),
                        nat_to_string(from as u128).as_str(),
                        nat_to_string(to as u128).as_str(),
                    ),
                );
            }
        },
        XepakValue::Integer(i) => {
            if *i < from as i128 || *i > to as i128 {
                return Err(
                    outside(
                        name,
                        "value",
                        int_to_string(*i).as_str(),
                        nat_to_string(from as u128).as_str(),
                        nat_to_string(to as u128).as_str(),
                    ),
                );
            }
        },
        XepakValue::Float(f) => {
            if !within(f.bits(), from, to) {
                return Err(
                    outside(
                        name,
                        "value",
                        f.text(),
                        nat_to_string(from as u128).as_str(),
                        nat_to_string(to as u128).as_str(),
                    ),
                );
            }
        },
        _ => {
            return Err(unfit(name, value));
        },
    }
    Ok(())
}

fn check_range_float(from: &Float64, to: &Float64, name: &str, value: &XepakValue) -> (checked:
    Result<(), XepakError>)
    ensures
        match range_float_verdict(*from, *to, name@, value@) {
            None => checked is Ok,
            Some(detail) => checked matches Err(err) && err is Input && err.detail() == detail,
        },
{
    match value {
        XepakValue::Text(text) => {
            let len = text.as_str().len();
            let size = nearest_bits(len as i128).0;
            if less(size, from.bits()) || less(to.bits(), size) {
                return Err(
                    outside(
                        name,
                        "length",
                        nat_to_string(len as u128).as_str(),
                        from.text(),
                        to.text(),
                    ),
                );
            }
        },
        XepakValue::Integer(i) => {
            let number = nearest_bits(*i).0;
            if less(number, from.bits()) || less(to.bits(), number) {
                return Err(
                    outside(name, "value", int_to_string(*i).as_str(), from.text(), to.text()),
                );
            }
        },
        XepakValue::Float(f) => {
            if less(f.bits(), from.bits()) || less(to.bits(), f.bits()) {
                return Err(outside(name, "value", f.text(), from.text(), to.text()));
            }
        },
        _ => {
            return Err(unfit(name, value));
        },
    }
    Ok(())
}

/// Holds the value of the argument `name` to the validator: a range is
/// applied to the length of a text or to a number and refuses anything
/// else; `And` fails with its first nested failure; `Or` passes with its
/// first nested success or with nothing nested, else fails with its last
/// nested failure.
#[verifier::loop_isolation(false)]
pub fn apply_validator(validator: &ArgSchemaValidator, name: &str, value: &XepakValue) -> (checked:
    Result<(), XepakError>)
    ensures
        match validator.verdict(name@, value@) {
            None => checked is Ok,
            Some(detail) => checked matches Err(err) && err is Input && err.detail() == detail,
        },
    decreases validator,
{
    match validator {
        ArgSchemaValidator::NotNull => {
            if value.is_null() {
                return Err(
                    XepakError::Input(join3("Argument \"", name, "\" must not be null/undefined")),
                );
            }
            Ok(())
        },
        ArgSchemaValidator::Range { from, to } => check_range(*from, *to, name, value),
        ArgSchemaValidator::RangeFloat { from, to } => check_range_float(from, to, name, value),
        ArgSchemaValidator::And { nested } => {
            let mut i: usize = 0;
            while i < nested.len()
                invariant
                    0 <= i <= nested.len(),
                    all_verdict(nested, name@, value@, i as int) == validator.verdict(
                        name@,
                        value@,
                    ),
                decreases nested.len() - i,
            {
                match apply_validator(&nested[i], name, value) {
                    Ok(_) => {},
                    Err(err) => {
                        return Err(err);
                    },
                }
                i = i + 1;
            }
            Ok(())
        },
        ArgSchemaValidator::Or { nested } => {
            let mut last: Option<XepakError> = None;
            let mut i: usize = 0;
            let ghost mut last_detail: Option<Seq<char>> = None;
            while i < nested.len()
                invariant
                    0 <= i <= nested.len(),
                    any_verdict(nested, name@, value@, i as int, last_detail) == validator.verdict(
                        name@,
                        value@,
                    ),
                    match last_detail {
                        None => last is None,
                        Some(detail) => last matches Some(err) && err is Input && err.detail()
                            == detail,
                    },
                decreases nested.len() - i,
            {
                match apply_validator(&nested[i], name, value) {
                    Ok(_) => {
                        return Ok(());
                    },
                    Err(err) => {
                        proof {
                            last_detail = Some(err.detail());
                        }
                        last = Some(err);
                    },
                }
                i = i + 1;
            }
            match last {
                Some(err) => Err(err),
                None => Ok(()),
            }
        },
    }
}

/// The message that refuses an argument that is not declared.
pub open spec fn unexpected_detail(name: Seq<char>) -> Seq<char> {
    "Input argument \""@ + name + "\" not allowed in this context!"@
}

/// The message that refuses a conversion to the type of null.
pub open spec fn to_null_detail(name: Seq<char>) -> Seq<char> {
    "Can't convert argument \""@ + name + "\" to Null type! Why are you doing this?"@
}

/// True when `converted` is what conversion by the declaration `declared`
/// makes of `value`: an undeclared argument and null are handed on as they
/// are, every other value becomes one of the declared type.
pub open spec fn is_conversion(
    declared: Option<XepakType>,
    value: ValueView,
    as_float: Option<Float64>,
    converted: ValueView,
) -> bool {
    match declared {
        None => converted == value,
        Some(ty) => if value is Null {
            converted is Null
        } else {
            match ty {
                XepakType::Null => false,
                XepakType::Text => converted == ValueView::Text(value.text()),
                XepakType::Boolean => value.truth() matches Some(b) && converted
                    == ValueView::Boolean(b),
                XepakType::Int => value.whole() matches Some(i) && converted == ValueView::Integer(i),
                XepakType::Float => converted matches ValueView::Float { bits, text }
                    && value.is_float(as_float, bits, text),
            }
        },
    }
}

/// True when conversion by the declaration `declared` makes something of
/// `value`. It fails for an undeclared argument under a strict schema, for
/// a declaration of the type of null, and where the value cannot be had as
/// the declared type; null is never refused.
pub open spec fn converts(
    declared: Option<XepakType>,
    value: ValueView,
    strict: bool,
    as_float: Option<Float64>,
) -> bool {
    match declared {
        None => !strict,
        Some(ty) => value is Null || match ty {
            XepakType::Null => false,
            XepakType::Text => true,
            XepakType::Boolean => value.truth() is Some,
            XepakType::Int => value.whole() is Some,
            XepakType::Float => value.has_float(as_float),
        },
    }
}

/// True when `err` is the failure of conversion by the declaration
/// `declared` to make something of the value of the argument `name`.
pub open spec fn is_refusal(
    declared: Option<XepakType>,
    name: Seq<char>,
    value: ValueView,
    err: XepakError,
) -> bool {
    match declared {
        None => err is Input && err.detail() == unexpected_detail(name),
        Some(XepakType::Null) => err is Input && err.detail() == to_null_detail(name),
        Some(XepakType::Text) => false,
        Some(XepakType::Boolean) => is_truth_failure(value, err),
        Some(XepakType::Int) => is_whole_failure(value, err),
        Some(XepakType::Float) => is_float_failure(value, err),
    }
}

/// A refusal by the schema is the caller's fault, a failed conversion or a
/// failed reading.
pub proof fn lemma_refusal_kind(
    declared: Option<XepakType>,
    name: Seq<char>,
    value: ValueView,
    err: XepakError,
)
    requires
        is_refusal(declared, name, value, err),
    ensures
        err is Input || err is ConvertValue || err is Decode,
{
}

/// The type that the schema declares for the argument, if it declares it.
pub open spec fn declared_type(schema: Map<Seq<char>, ArgSchema>, name: Seq<char>) -> Option<
    XepakType,
> {
    if schema.contains_key(name) {
        Some(schema[name].ty)
    } else {
        None
    }
}

/// Converts the value of the argument `arg_name` to the type that the
/// schema declares for it. Null is handed on as it is, whatever is
/// declared. An argument that the schema does not declare is refused if
/// `strict` is set and handed on as it is if not. What a text is as a float
/// the caller says in `as_float`, with `None` for a text that is no float.
pub fn convert_with_schema(
    schema: &Schema,
    arg_name: &str,
    value: XepakValue,
    strict: bool,
    as_float: Option<Float64>,
) -> (converted: Result<XepakValue, XepakError>)
    ensures
        converted is Ok <==> converts(
            declared_type(schema@, arg_name@),
            value@,
            strict,
            as_float,
        ),
        converted matches Ok(made) ==> is_conversion(
            declared_type(schema@, arg_name@),
            value@,
            as_float,
            made@,
        ),
        converted matches Err(err) ==> is_refusal(
            declared_type(schema@, arg_name@),
            arg_name@,
            value@,
            err,
        ),
{
    let declared = match schema.get(arg_name) {
        Some(declaration) => declaration.ty,
        None => {
            if strict {
                return Err(
                    XepakError::Input(
                        join3("Input argument \"", arg_name, "\" not allowed in this context!"),
                    ),
                );
            } else {
                return Ok(value);
            }
        },
    };
    if value.is_null() {
        return Ok(value);
    }
    match declared {
        XepakType::Null => Err(
            XepakError::Input(
                join3(
                    "Can't convert argument \"",
                    arg_name,
                    "\" to Null type! Why are you doing this?",
                ),
            ),
        ),
        XepakType::Text => match value.as_string() {
            Ok(text) => Ok(XepakValue::Text(text)),
            Err(err) => Err(err),
        },
        XepakType::Boolean => match value.as_bool() {
            Ok(b) => Ok(XepakValue::Boolean(b)),
            Err(err) => Err(err),
        },
        XepakType::Int => match value.as_int() {
            Ok(i) => Ok(XepakValue::Integer(i)),
            Err(err) => Err(err),
        },
        XepakType::Float => match value.as_float(as_float) {
            Ok(float) => Ok(XepakValue::Float(float)),
            Err(err) => Err(err),
        },
    }
}

/// What the schema says of the values from the `at`-th entry on: nothing
/// if each value that has a declaration passes all validators of it, else
/// the first message that refuses one. Values without a declaration pass.
pub open spec fn schema_verdict(
    schema: Map<Seq<char>, ArgSchema>,
    entries: Seq<(Seq<char>, XepakValue)>,
    at: int,
) -> Option<Seq<char>>
    decreases entries.len() - at,
{
    if at < 0 || at >= entries.len() {
        None
    } else {
        let (name, value) = entries[at];
        let here = if schema.contains_key(name) {
            all_verdict(&schema[name].validate, name, value@, 0)
        } else {
            None
        };
        match here {
            Some(detail) => Some(detail),
            None => schema_verdict(schema, entries, at + 1),
        }
    }
}

/// Holds each value that the schema has a declaration for to every
/// validator of that declaration, the values in their order, and fails
/// with the first refusal.
#[verifier::loop_isolation(false)]
pub fn validate_with_schema(schema: &Schema, values: &StrMap<XepakValue>) -> (checked: Result<
    (),
    XepakError,
>)
    ensures
        match schema_verdict(schema@, values.entries(), 0) {
            None => checked is Ok,
            Some(detail) => checked matches Err(err) && err is Input && err.detail() == detail,
        },
{
    let mut i: usize = 0;
    while i < values.len()
        invariant
            0 <= i <= values.entries().len(),
            schema_verdict(schema@, values.entries(), i as int) == schema_verdict(
                schema@,
                values.entries(),
                0,
            ),
        decreases values.entries().len() - i,
    {
        let name = values.key_at(i);
        let value = values.value_at(i);
        match schema.get(name) {
            Some(declaration) => {
                let validators = &declaration.validate;
                let mut k: usize = 0;
                while k < validators.len()
                    invariant
                        0 <= k <= validators.len(),
                        all_verdict(validators, name@, value@, k as int) == all_verdict(
                            validators,
                            name@,
                            value@,
                            0,
                        ),
                    decreases validators.len() - k,
                {
                    match apply_validator(&validators[k], name, value) {
                        Ok(_) => {},
                        Err(err) => {
                            return Err(err);
                        },
                    }
                    k = k + 1;
                }
            },
            None => {},
        }
        i = i + 1;
    }
    Ok(())
}

} // verus!
