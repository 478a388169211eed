//! The closed set of value types and values that arguments and records are
//! made of, and the conversions between them.

use vstd::prelude::*;
use crate::error::XepakError;
use crate::float::{
    int_reading, is_one, is_zero, nearest_float, to_int, whole_text, Float64, FloatToInt,
    ONE_BITS, SIGN_BIT,
};
use crate::text::{
    int_text, int_to_string, join2, join3, parse_bool, parse_bool_text, parse_int,
    parse_int_text, same_text,
};
use vstd::string::*;

verus! {

/// The type of a value.
#[derive(Clone, Copy, Debug, PartialEq, Eq, Structural)]
pub enum XepakType {
    /// Text: what every input is until a schema says otherwise.
    Text,
    /// The type of the value that is known to be null.
    Null,
    Boolean,
    Int,
    Float,
}

impl Default for XepakType {
    fn default() -> (ty: Self)
        ensures
            ty == XepakType::Text,
    {
        XepakType::Text
    }
}

impl XepakType {
    /// The name of the type, as it is written in messages.
    pub open spec fn name(self) -> Seq<char> {
        match self {
            XepakType::Text => "Text"@,
            XepakType::Null => "Null"@,
            XepakType::Boolean => "Boolean"@,
            XepakType::Int => "Int"@,
            XepakType::Float => "Float"@,
        }
    }

    /// The name of the type.
    pub fn as_str(self) -> (name: &'static str)
        ensures
            name@ == self.name(),
    {
        match self {
            XepakType::Text => "Text",
            XepakType::Null => "Null",
            XepakType::Boolean => "Boolean",
            XepakType::Int => "Int",
            XepakType::Float => "Float",
        }
    }

    /// The type that values of a database column of the named type have. The
    /// names are matched letter for letter, and an unknown one is text.
    pub open spec fn of_column(column_type: Seq<char>) -> XepakType {
        if column_type == "NULL"@ {
            XepakType::Null
        } else if column_type == "INTEGER"@ || column_type == "INT"@ || column_type == "BIGINT"@ {
            XepakType::Int
        } else if column_type == "REAL"@ || column_type == "DOUBLE"@ {
            XepakType::Float
        } else {
            XepakType::Text
        }
    }

    /// The type that values of a database column of the named type have.
    pub fn from_column_type(column_type: &str) -> (ty: Self)
        ensures
            ty == Self::of_column(column_type@),
    {
        if same_text(column_type, "NULL") {
            XepakType::Null
        } else if same_text(column_type, "INTEGER") || same_text(column_type, "INT") || same_text(
            column_type,
            "BIGINT",
        ) {
            XepakType::Int
        } else if same_text(column_type, "REAL") || same_text(column_type, "DOUBLE") {
            XepakType::Float
        } else {
            XepakType::Text
        }
    }
}

/// A value, as contracts speak of it.
pub enum ValueView {
    Null,
    Boolean(bool),
    Integer(int),
    /// A float: its bit pattern and the text that it is written as.
    Float { bits: u64, text: Seq<char> },
    Text(Seq<char>),
}

impl ValueView {
    /// The type of the value.
    pub open spec fn ty(self) -> XepakType {
        match self {
            ValueView::Null => XepakType::Null,
            ValueView::Boolean(_) => XepakType::Boolean,
            ValueView::Integer(_) => XepakType::Int,
            ValueView::Float { .. } => XepakType::Float,
            ValueView::Text(_) => XepakType::Text,
        }
    }

    /// The value as text: nothing for null, the word for a truth value, the
    /// decimal digits of a whole number, and a float as it is written.
    pub open spec fn text(self) -> Seq<char> {
        match self {
            ValueView::Null => ""@,
            ValueView::Boolean(b) => if b {
                "true"@
            } else {
                "false"@
            },
            ValueView::Integer(i) => int_text(i),
            ValueView::Float { text, .. } => text,
            ValueView::Text(text) => text,
        }
    }

    /// The value as a whole number, if it is one: a truth value counts as
    /// one or zero, a float must be whole and within the 64-bit signed
    /// range, a text must be the digits of a whole number.
    pub open spec fn whole(self) -> Option<int> {
        match self {
            ValueView::Null => None,
            ValueView::Boolean(b) => Some(
                if b {
                    1
                } else {
                    0
                },
            ),
            ValueView::Integer(i) => Some(i),
            ValueView::Float { bits, .. } => match int_reading(bits) {
                FloatToInt::Whole(i) => Some(i as int),
                _ => None,
            },
            ValueView::Text(text) => parse_int_text(text),
        }
    }

    /// True when the value can be had as a float: null cannot, and a text
    /// can if `as_float` says what float it is.
    pub open spec fn has_float(self, as_float: Option<Float64>) -> bool {
        match self {
            ValueView::Null => false,
            ValueView::Text(_) => as_float is Some,
            _ => true,
        }
    }

    /// True when the value, had as a float, is the one with the bit pattern
    /// `bits` that is written as `text`.
    pub open spec fn is_float(self, as_float: Option<Float64>, bits: u64, text: Seq<char>) -> bool {
        match self {
            ValueView::Null => false,
            ValueView::Boolean(b) => bits == (if b {
                ONE_BITS
            } else {
                0
            }) && text == (if b {
                "1"@
            } else {
                "0"@
            }),
            ValueView::Integer(i) => bits == nearest_float(i) && text == whole_text(bits),
            ValueView::Float { bits: own, text: written } => bits == own && text == written,
            ValueView::Text(_) => as_float matches Some(float) && bits == float.spec_bits() && text
                == float.spec_text(),
        }
    }

    /// The value as a truth value, if it is one: of the numbers only zero
    /// and one are, and of the texts only `true` and `false`.
    pub open spec fn truth(self) -> Option<bool> {
        match self {
            ValueView::Null => None,
            ValueView::Boolean(b) => Some(b),
            ValueView::Integer(i) => if i == 0 {
                Some(false)
            } else if i == 1 {
                Some(true)
            } else {
                None
            },
            ValueView::Float { bits, .. } => if is_zero(bits) {
                Some(false)
            } else if is_one(bits) {
                Some(true)
            } else {
                None
            },
            ValueView::Text(text) => parse_bool_text(text),
        }
    }
}

/// A value of an argument or of a record's field.
#[derive(Debug, Clone)]
pub enum XepakValue {
    /// Nothing: the value that has no type of its own.
    Null,
    Boolean(bool),
    /// Any whole number.
    Integer(i128),
    /// Any floating-point number.
    Float(Float64),
    /// Any text; what unknown data is read as.
    Text(String),
}

impl View for XepakValue {
    type V = ValueView;

    open spec fn view(&self) -> ValueView {
        match self {
            XepakValue::Null => ValueView::Null,
            XepakValue::Boolean(b) => ValueView::Boolean(*b),
            XepakValue::Integer(i) => ValueView::Integer(*i as int),
            XepakValue::Float(f) => ValueView::Float { bits: f.spec_bits(), text: f.spec_text() },
            XepakValue::Text(text) => ValueView::Text(text@),
        }
    }
}

impl From<String> for XepakValue {
    fn from(value: String) -> (made: Self) {
        XepakValue::Text(value)
    }
}

impl vstd::std_specs::convert::FromSpecImpl<String> for XepakValue {
    open spec fn obeys_from_spec() -> bool {
        true
    }

    open spec fn from_spec(value: String) -> Self {
        XepakValue::Text(value)
    }
}

impl From<i128> for XepakValue {
    fn from(value: i128) -> (made: Self) {
        XepakValue::Integer(value)
    }
}

impl vstd::std_specs::convert::FromSpecImpl<i128> for XepakValue {
    open spec fn obeys_from_spec() -> bool {
        true
    }

    open spec fn from_spec(value: i128) -> Self {
        XepakValue::Integer(value)
    }
}

impl From<Float64> for XepakValue {
    fn from(value: Float64) -> (made: Self) {
        XepakValue::Float(value)
    }
}

impl vstd::std_specs::convert::FromSpecImpl<Float64> for XepakValue {
    open spec fn obeys_from_spec() -> bool {
        true
    }

    open spec fn from_spec(value: Float64) -> Self {
        XepakValue::Float(value)
    }
}

/// The failure to convert a value of the type `from` to the type `to`.
pub open spec fn is_convert_failure(
    err: XepakError,
    from: XepakType,
    to: XepakType,
    detail: Seq<char>,
) -> bool {
    &&& err matches XepakError::ConvertValue(f, t, _)
    &&& f == from
    &&& t == to
    &&& err.detail() == detail
}

/// The message that refuses a text that is no truth value.
pub open spec fn no_truth_detail() -> Seq<char> {
    "provided string was not `true` or `false`"@
}

/// The message that refuses a text that is no whole number.
pub open spec fn no_whole_detail() -> Seq<char> {
    "invalid whole number"@
}

/// The message that refuses a text that is no float.
pub open spec fn no_float_detail() -> Seq<char> {
    "invalid float literal"@
}

/// True when `err` is the failure to have `value` as a whole number.
pub open spec fn is_whole_failure(value: ValueView, err: XepakError) -> bool {
    match value {
        ValueView::Null => is_convert_failure(
            err,
            XepakType::Null,
            XepakType::Int,
            "Not possible"@,
        ),
        ValueView::Float { bits, text } => if int_reading(bits) is Fractional {
            is_convert_failure(
                err,
                XepakType::Float,
                XepakType::Int,
                "Has fractional part "@ + text,
            )
        } else {
            is_convert_failure(err, XepakType::Float, XepakType::Int, "Out of range "@ + text)
        },
        _ => err is Decode && err.detail() == no_whole_detail(),
    }
}

/// True when `err` is the failure to have `value` as a truth value.
pub open spec fn is_truth_failure(value: ValueView, err: XepakError) -> bool {
    match value {
        ValueView::Null => is_convert_failure(
            err,
            XepakType::Null,
            XepakType::Boolean,
            "Not possible"@,
        ),
        ValueView::Integer(i) => is_convert_failure(
            err,
            XepakType::Int,
            XepakType::Boolean,
            "Integer value "@ + int_text(i) + " can't be a boolean"@,
        ),
        ValueView::Float { bits, text } => is_convert_failure(
            err,
            XepakType::Float,
            XepakType::Boolean,
            "Float value "@ + text + " can't be a boolean"@,
        ),
        _ => err is Decode && err.detail() == no_truth_detail(),
    }
}

/// True when `err` is the failure to have `value` as a float.
pub open spec fn is_float_failure(value: ValueView, err: XepakError) -> bool {
    match value {
        ValueView::Null => is_convert_failure(
            err,
            XepakType::Null,
            XepakType::Float,
            "Not possible"@,
        ),
        _ => err is Decode && err.detail() == no_float_detail(),
    }
}

fn convert_failure(from: XepakType, to: XepakType, detail: String) -> (err: XepakError)
    ensures
        is_convert_failure(err, from, to, detail@),
{
    XepakError::ConvertValue(from, to, detail)
}

impl XepakValue {
    /// The type of the value.
    pub fn get_type(&self) -> (ty: XepakType)
        ensures
            ty == self@.ty(),
    {
        match self {
            XepakValue::Null => XepakType::Null,
            XepakValue::Boolean(_) => XepakType::Boolean,
            XepakValue::Integer(_) => XepakType::Int,
            XepakValue::Float(_) => XepakType::Float,
            XepakValue::Text(_) => XepakType::Text,
        }
    }

    /// True when the value is null.
    pub fn is_null(&self) -> (null: bool)
        ensures
            null == (self@ is Null),
    {
        match self {
            XepakValue::Null => true,
            _ => false,
        }
    }

    /// A copy of the value.
    pub fn copy(&self) -> (value: Self)
        ensures
            value@ == self@,
    {
        match self {
            XepakValue::Null => XepakValue::Null,
            XepakValue::Boolean(b) => XepakValue::Boolean(*b),
            XepakValue::Integer(i) => XepakValue::Integer(*i),
            XepakValue::Float(f) => XepakValue::Float(f.copy()),
            XepakValue::Text(text) => XepakValue::Text(text.clone()),
        }
    }

    /// A text value.
    pub fn from_str(text: &str) -> (value: Self)
        ensures
            value@ == ValueView::Text(text@),
    {
        XepakValue::Text(String::from_str(text))
    }

    /// Reads `text` as a value of the type `parse_as`. The reading is
    /// strict: a truth value is `true` or `false`, a whole number is its
    /// digits with an optional sign. What the text is as a float the caller
    /// says in `as_float`, with `None` for a text that is no float.
    pub fn from_str_as(text: &str, parse_as: XepakType, as_float: Option<Float64>) -> (parsed: Result<
        Self,
        XepakError,
    >)
        ensures
            match parse_as {
                XepakType::Null => parsed matches Ok(value) && value@ == ValueView::Null,
                XepakType::Text => parsed matches Ok(value) && value@ == ValueView::Text(text@),
                XepakType::Boolean => match parse_bool_text(text@) {
                    Some(b) => parsed matches Ok(value) && value@ == ValueView::Boolean(b),
                    None => parsed matches Err(err) && err is Decode && err.detail()
                        == no_truth_detail(),
                },
                XepakType::Int => match parse_int_text(text@) {
                    Some(i) => parsed matches Ok(value) && value@ == ValueView::Integer(i),
                    None => parsed matches Err(err) && err is Decode && err.detail()
                        == no_whole_detail(),
                },
                XepakType::Float => match as_float {
                    Some(float) => parsed matches Ok(value) && value@ == (ValueView::Float {
                        bits: float.spec_bits(),
                        text: float.spec_text(),
                    }),
                    None => parsed matches Err(err) && err is Decode && err.detail()
                        == no_float_detail(),
                },
            },
    {
        match parse_as {
            XepakType::Null => Ok(XepakValue::Null),
            XepakType::Boolean => match parse_bool(text) {
                Some(b) => Ok(XepakValue::Boolean(b)),
                None => Err(
                    XepakError::Decode(
                        String::from_str("provided string was not `true` or `false`"),
                    ),
                ),
            },
            XepakType::Int => match parse_int(text) {
                Some(i) => Ok(XepakValue::Integer(i)),
                None => Err(XepakError::Decode(String::from_str("invalid whole number"))),
            },
            XepakType::Float => match as_float {
                Some(float) => Ok(XepakValue::Float(float)),
                None => Err(XepakError::Decode(String::from_str("invalid float literal"))),
            },
            XepakType::Text => Ok(XepakValue::Text(String::from_str(text))),
        }
    }

    /// The value as a whole number. Null is none; a truth value is one or
    /// zero; a float must have no fractional part beyond the machine
    /// epsilon and lie within the 64-bit signed range, and loses what
    /// fraction it has; a text must be the digits of a whole number.
    pub fn as_int(&self) -> (converted: Result<i128, XepakError>)
        ensures
            match self@.whole() {
                Some(i) => converted == Ok::<i128, XepakError>(i as i128) && i == converted->Ok_0,
                None => converted matches Err(err) && is_whole_failure(self@, err),
            },
    {
        match self {
            XepakValue::Null => Err(
                convert_failure(XepakType::Null, XepakType::Int, String::from_str("Not possible")),
            ),
            XepakValue::Boolean(b) => Ok(
                if *b {
                    1
                } else {
                    0
                },
            ),
            XepakValue::Integer(i) => Ok(*i),
            XepakValue::Float(f) => match to_int(f.bits()) {
                FloatToInt::Whole(i) => Ok(i),
                FloatToInt::Fractional => Err(
                    convert_failure(
                        XepakType::Float,
                        XepakType::Int,
                        join2("Has fractional part ", f.text()),
                    ),
                ),
                FloatToInt::OutOfRange => Err(
                    convert_failure(
                        XepakType::Float,
                        XepakType::Int,
                        join2("Out of range ", f.text()),
                    ),
                ),
            },
            XepakValue::Text(text) => match parse_int(text.as_str()) {
                Some(i) => Ok(i),
                None => Err(XepakError::Decode(String::from_str("invalid whole number"))),
            },
        }
    }

    /// The value as text. Every value has one.
    pub fn as_string(&self) -> (converted: Result<String, XepakError>)
        ensures
            converted matches Ok(text) && text@ == self@.text(),
    {
        Ok(
            match self {
                XepakValue::Null => String::from_str(""),
                XepakValue::Boolean(b) => if *b {
                    String::from_str("true")
                } else {
                    String::from_str("false")
                },
                XepakValue::Integer(i) => int_to_string(*i),
                XepakValue::Float(f) => String::from_str(f.text()),
                XepakValue::Text(text) => text.clone(),
            },
        )
    }

    /// The value as a truth value. Null is none; of the numbers only zero
    /// and one are truth values; a text must be `true` or `false`.
    pub fn as_bool(&self) -> (converted: Result<bool, XepakError>)
        ensures
            match self@.truth() {
                Some(b) => converted == Ok::<bool, XepakError>(b),
                None => converted matches Err(err) && is_truth_failure(self@, err),
            },
    {
        match self {
            XepakValue::Null => Err(
                convert_failure(XepakType::Null, XepakType::Boolean, String::from_str("Not possible")),
            ),
            XepakValue::Boolean(b) => Ok(*b),
            XepakValue::Integer(i) => {
                if *i == 0 {
                    Ok(false)
                } else if *i == 1 {
                    Ok(true)
                } else {
                    Err(
                        convert_failure(
                            XepakType::Int,
                            XepakType::Boolean,
                            join3("Integer value ", int_to_string(*i).as_str(), " can't be a boolean"),
                        ),
                    )
                }
            },
            XepakValue::Float(f) => {
                let bits = f.bits();
                if bits == 0 || bits == SIGN_BIT {
                    Ok(false)
                } else if bits == ONE_BITS {
                    Ok(true)
                } else {
                    Err(
                        convert_failure(
                            XepakType::Float,
                            XepakType::Boolean,
                            join3("Float value ", f.text(), " can't be a boolean"),
                        ),
                    )
                }
            },
            XepakValue::Text(text) => match parse_bool(text.as_str()) {
                Some(b) => Ok(b),
                None => Err(
                    XepakError::Decode(
                        String::from_str("provided string was not `true` or `false`"),
                    ),
                ),
            },
        }
    }

    /// The value as a float. Null is none; a truth value is one or zero; a
    /// whole number is the float nearest to it; a float is itself. What a text is as a float the caller says in `as_float`, with
    /// `None` for a text that is no float.
    pub fn as_float(&self, as_float: Option<Float64>) -> (converted: Result<Float64, XepakError>)
        ensures
            converted is Ok <==> self@.has_float(as_float),
            converted matches Ok(float) ==> self@.is_float(
                as_float,
                float.spec_bits(),
                float.spec_text(),
            ),
            converted matches Err(err) ==> is_float_failure(self@, err),
    {
        match self {
            XepakValue::Null => Err(
                convert_failure(XepakType::Null, XepakType::Float, String::from_str("Not possible")),
            ),
            XepakValue::Boolean(b) => Ok(
                if *b {
                    Float64::new(ONE_BITS, String::from_str("1"))
                } else {
                    Float64::new(0, String::from_str("0"))
                },
            ),
            XepakValue::Integer(i) => Ok(Float64::from_int(*i)),
            XepakValue::Float(f) => Ok(f.copy()),
            XepakValue::Text(_) => match as_float {
                Some(parsed) => Ok(parsed),
                None => Err(XepakError::Decode(String::from_str("invalid float literal"))),
            },
        }
    }
}

} // verus!
