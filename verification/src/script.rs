//! What scripts work with: the arguments of the request, a builder for the
//! text of a query, and values in the form that the scripting runtime has
//! them.

use crate::error::XepakError;
use crate::float::Float64;
use crate::server::RequestArgs;
use crate::text::join2;
use crate::types::{ValueView, XepakValue};
use vstd::prelude::*;
use vstd::string::*;

verus! {

/// The texts one after the other, with `separator` between each two.
pub open spec fn joined(parts: Seq<Seq<char>>, separator: Seq<char>) -> Seq<char>
    decreases parts.len(),
{
    if parts.len() == 0 {
        Seq::empty()
    } else if parts.len() == 1 {
        parts[0]
    } else {
        joined(parts.drop_last(), separator) + separator + parts.last()
    }
}

/// The texts of the strings.
pub open spec fn texts(parts: Seq<String>) -> Seq<Seq<char>> {
    Seq::new(parts.len(), |i: int| parts[i]@)
}

/// The strings one after the other, with `separator` between each two.
pub fn join(parts: &Vec<String>, separator: &str) -> (text: String)
    ensures
        text@ == joined(texts(parts@), separator@),
{
    let mut text = String::new();
    let mut i: usize = 0;
    let ghost all = texts(parts@);
    proof {
        assert(all.take(0) == Seq::<Seq<char>>::empty());
    }
    while i < parts.len()
        invariant
            0 <= i <= parts.len(),
            all == texts(parts@),
            text@ == joined(all.take(i as int), separator@),
        decreases parts.len() - i,
    {
        proof {
            assert(all.take(i + 1).drop_last() == all.take(i as int));
            assert(all.take(i + 1).last() == parts@[i as int]@);
            if i == 0 {
                assert(Seq::<char>::empty() + parts@[0]@ == parts@[0]@);
            }
        }
        if i > 0 {
            text.append(separator);
        }
        text.append(parts[i].as_str());
        i = i + 1;
    }
    proof {
        assert(all.take(i as int) == all);
    }
    text
}

/// A builder that collects the parts of a query.
#[derive(Debug, Clone)]
pub struct RhaiQueryBuilder {
    query: Vec<String>,
}

impl Default for RhaiQueryBuilder {
    fn default() -> (builder: Self)
        ensures
            builder.parts() == Seq::<Seq<char>>::empty(),
    {
        Self::new()
    }
}

impl RhaiQueryBuilder {
    /// The parts collected so far.
    pub closed spec fn parts(&self) -> Seq<Seq<char>> {
        texts(self.query@)
    }

    /// A builder without parts.
    pub fn new() -> (builder: Self)
        ensures
            builder.parts() == Seq::<Seq<char>>::empty(),
    {
        let builder = RhaiQueryBuilder { query: Vec::new() };
        assert(builder.parts() =~= Seq::<Seq<char>>::empty());
        builder
    }

    /// A builder with one part.
    pub fn new_str(q: String) -> (builder: Self)
        ensures
            builder.parts() == seq![q@],
    {
        let mut query = Vec::new();
        query.push(q);
        let builder = RhaiQueryBuilder { query };
        assert(builder.parts() =~= seq![q@]);
        builder
    }

    /// Adds a part.
    pub fn add(&mut self, part: String)
        ensures
            final(self).parts() == old(self).parts().push(part@),
    {
        self.query.push(part);
        assert(self.parts() =~= old(self).parts().push(part@));
    }

    /// What `add_joined_parts` adds: nothing if there are no parts to
    /// join; else the prefix if it is not empty, the parts joined by the
    /// separator with a space on either side, and the suffix if it is not
    /// empty.
    pub open spec fn joined_parts(
        prefix: Seq<char>,
        parts: Seq<Seq<char>>,
        separator: Seq<char>,
        suffix: Seq<char>,
    ) -> Seq<Seq<char>> {
        if parts.len() == 0 {
            Seq::empty()
        } else {
            (if prefix.len() > 0 {
                seq![prefix]
            } else {
                Seq::empty()
            }) + seq![joined(parts, " "@ + separator + " "@)] + (if suffix.len() > 0 {
                seq![suffix]
            } else {
                Seq::empty()
            })
        }
    }

    /// Adds the parts joined by the separator, between the prefix and the
    /// suffix; adds nothing if there are no parts.
    pub fn add_joined_parts(
        &mut self,
        prefix: String,
        parts: Vec<String>,
        separator: String,
        suffix: String,
    )
        ensures
            final(self).parts() == old(self).parts() + Self::joined_parts(
                prefix@,
                texts(parts@),
                separator@,
                suffix@,
            ),
    {
        if parts.len() == 0 {
            assert(self.parts() =~= old(self).parts() + Seq::<Seq<char>>::empty());
            return ;
        }
        if !prefix.as_str().is_empty() {
            self.query.push(prefix);
        }
        let mut between = String::from_str(" ");
        between.append(separator.as_str());
        between.append(" ");
        self.query.push(join(&parts, between.as_str()));
        if !suffix.as_str().is_empty() {
            self.query.push(suffix);
        }
        assert(self.parts() =~= old(self).parts() + Self::joined_parts(
            prefix@,
            texts(parts@),
            separator@,
            suffix@,
        ));
    }

    /// The query: the parts with a space between each two.
    pub fn build(&mut self) -> (query: String)
        ensures
            query@ == joined(old(self).parts(), " "@),
            final(self).parts() == old(self).parts(),
    {
        join(&self.query, " ")
    }
}

/// What is read of a value of the scripting runtime: which kind it says it
/// is, what it hands out as each kind, its text, and the name of its type.
#[derive(Debug, Clone)]
pub struct DynamicFacts {
    pub is_unit: bool,
    pub is_bool: bool,
    pub is_char: bool,
    pub is_string: bool,
    pub is_int: bool,
    pub is_float: bool,
    pub as_bool: Option<bool>,
    pub as_int: Option<i64>,
    pub as_float: Option<Float64>,
    pub text: String,
    pub kind: String,
}

/// The value that a value of the scripting runtime stands for, if it has
/// one of the kinds that values have.
pub open spec fn read_dynamic(facts: DynamicFacts) -> Option<ValueView> {
    if facts.is_unit {
        Some(ValueView::Null)
    } else if facts.is_bool {
        match facts.as_bool {
            Some(b) => Some(ValueView::Boolean(b)),
            None => None,
        }
    } else if facts.is_char || facts.is_string {
        Some(ValueView::Text(facts.text@))
    } else if facts.is_int {
        match facts.as_int {
            Some(i) => Some(ValueView::Integer(i as int)),
            None => None,
        }
    } else if facts.is_float {
        match facts.as_float {
            Some(f) => Some(ValueView::Float { bits: f.spec_bits(), text: f.spec_text() }),
            None => None,
        }
    } else {
        None
    }
}

/// True when the value says it is of a kind that values have.
pub open spec fn is_compatible(facts: DynamicFacts) -> bool {
    facts.is_unit || facts.is_bool || facts.is_char || facts.is_string || facts.is_int
        || facts.is_float
}

/// The value that a value of the scripting runtime stands for: nothing is
/// null, a character and a string are text. A value of another kind is
/// refused by the name of its type; one that does not hand out what it says
/// it is cannot be.
pub fn dynamic_to_xepak(v: &DynamicFacts) -> (value: Result<XepakValue, XepakError>)
    ensures
        match read_dynamic(*v) {
            Some(read) => value matches Ok(made) && made@ == read,
            None => value matches Err(err) && if is_compatible(*v) {
                err is Unexpected && err.detail() == (if v.is_bool {
                    "not a truth value"@
                } else if v.is_int {
                    "not a whole number"@
                } else {
                    "not a float"@
                })
            } else {
                err is Decode && err.detail() == v.kind@ + " not compatible with XepakValue"@
            },
        },
{
    if v.is_unit {
        Ok(XepakValue::Null)
    } else if v.is_bool {
        match v.as_bool {
            Some(b) => Ok(XepakValue::Boolean(b)),
            None => Err(XepakError::Unexpected(String::from_str("not a truth value"))),
        }
    } else if v.is_char || v.is_string {
        Ok(XepakValue::Text(v.text.clone()))
    } else if v.is_int {
        match v.as_int {
            Some(i) => Ok(XepakValue::Integer(i as i128)),
            None => Err(XepakError::Unexpected(String::from_str("not a whole number"))),
        }
    } else if v.is_float {
        match &v.as_float {
            Some(f) => Ok(XepakValue::Float(f.copy())),
            None => Err(XepakError::Unexpected(String::from_str("not a float"))),
        }
    } else {
        Err(XepakError::Decode(join2(v.kind.as_str(), " not compatible with XepakValue")))
    }
}

/// The template that a script has made: its result, which has to be a
/// string.
pub fn script_template(result: &DynamicFacts) -> (template: Result<String, XepakError>)
    ensures
        if result.is_string {
            template matches Ok(text) && text@ == result.text@
        } else {
            template matches Err(err) && err is Unexpected && err.detail()
                == "Rhai script must return string instead: "@ + result.text@
        },
{
    if result.is_string {
        Ok(result.text.clone())
    } else {
        Err(
            XepakError::Unexpected(
                join2("Rhai script must return string instead: ", result.text.as_str()),
            ),
        )
    }
}

/// A value in the form that the scripting runtime has it.
#[derive(Debug, Clone)]
pub enum ScriptValue {
    /// Nothing.
    Unit,
    Bool(bool),
    /// A 64-bit signed whole number.
    Int(i64),
    Float(Float64),
    Text(String),
}

/// A script value, as contracts speak of it.
pub enum Scripted {
    Unit,
    Bool(bool),
    Int(i64),
    Float { bits: u64, text: Seq<char> },
    Text(Seq<char>),
}

impl View for ScriptValue {
    type V = Scripted;

    open spec fn view(&self) -> Scripted {
        match self {
            ScriptValue::Unit => Scripted::Unit,
            ScriptValue::Bool(b) => Scripted::Bool(*b),
            ScriptValue::Int(i) => Scripted::Int(*i),
            ScriptValue::Float(f) => Scripted::Float { bits: f.spec_bits(), text: f.spec_text() },
            ScriptValue::Text(text) => Scripted::Text(text@),
        }
    }
}

/// The form that the scripting runtime has a value in: null is nothing, a
/// whole number is its lowest 64 bits.
pub open spec fn scripted(value: ValueView) -> Scripted {
    match value {
        ValueView::Null => Scripted::Unit,
        ValueView::Boolean(b) => Scripted::Bool(b),
        ValueView::Integer(i) => Scripted::Int(i as i64),
        ValueView::Float { bits, text } => Scripted::Float { bits, text },
        ValueView::Text(text) => Scripted::Text(text),
    }
}

/// The value in the form that the scripting runtime has it.
pub fn xepak_to_dynamic(value: &XepakValue) -> (made: ScriptValue)
    ensures
        made@ == scripted(value@),
{
    match value {
        XepakValue::Null => ScriptValue::Unit,
        XepakValue::Boolean(b) => ScriptValue::Bool(*b),
        XepakValue::Integer(i) => ScriptValue::Int(
            #[verifier::truncate]
            (*i as i64),
        ),
        XepakValue::Float(f) => ScriptValue::Float(f.copy()),
        XepakValue::Text(text) => ScriptValue::Text(text.clone()),
    }
}

/// The arguments of the request, as a script sees them.
#[derive(Debug)]
pub struct RhaiRequestContext {
    args: RequestArgs,
}

impl RhaiRequestContext {
    /// The arguments.
    pub closed spec fn args(&self) -> RequestArgs {
        self.args
    }

    /// The arguments `args`, as a script sees them.
    pub fn from(args: RequestArgs) -> (context: Self)
        ensures
            context.args() == args,
    {
        RhaiRequestContext { args }
    }

    /// True when the argument `arg_name` has a value.
    pub fn has_arg(&mut self, arg_name: &str) -> (has: bool)
        ensures
            has == old(self).args().value(arg_name@) is Some,
            final(self).args() == old(self).args(),
    {
        self.args.has_any_arg(arg_name)
    }

    /// The value of the argument `arg_name` in the form that the scripting
    /// runtime has it, and nothing if it has none.
    pub fn get_arg(&mut self, arg_name: &str) -> (made: ScriptValue)
        ensures
            made@ == (match old(self).args().value(arg_name@) {
                Some(value) => scripted(value),
                None => Scripted::Unit,
            }),
            final(self).args() == old(self).args(),
    {
        match self.args.get_arg_value(arg_name) {
            Some(value) => xepak_to_dynamic(value),
            None => ScriptValue::Unit,
        }
    }
}

} // verus!
