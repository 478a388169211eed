//! What a query is handed to the database with.

use crate::error::XepakError;
use crate::float::Float64;
use crate::server::RequestArgs;
use crate::sql_key_args::query::{rewrite, ParametrizedQueryRef};
use crate::sql_key_args::scan::{key_args, key_name};
use crate::strmap::StrMap;
use crate::text::{join3, nat_text, nat_to_string, same_text};
use crate::types::{ValueView, XepakValue};
use vstd::prelude::*;
use vstd::string::*;

verus! {

/// The name of the placeholder that stands for the computed row limit.
pub const LIMIT_KEY: &'static str = "-limit-";

/// The name of the placeholder that stands for the computed row offset.
pub const OFFSET_KEY: &'static str = "-offset-";

/// The connection settings of one storage.
#[derive(Debug, Clone)]
pub enum StorageSettings {
    Sqlite { id: String, file: String, wal: bool },
}

impl StorageSettings {
    /// The settings as contracts speak of them: the name of the storage.
    pub open spec fn id(&self) -> Seq<char> {
        match self {
            StorageSettings::Sqlite { id, .. } => id@,
        }
    }

    /// The name under which the storage is known.
    pub fn get_id(&self) -> (id: &str)
        ensures
            id@ == self.id(),
    {
        match self {
            StorageSettings::Sqlite { id, .. } => id.as_str(),
        }
    }
}

/// What a storage asks of the arguments of a request.
pub trait StorageRequestArgs {
    /// The greatest number of rows to fetch.
    fn get_rows_limit(&self) -> usize;

    /// The number of rows to skip.
    fn get_rows_offset(&self) -> usize;
}

/// A record of a storage: the values of its fields by name.
pub type Record = StrMap<XepakValue>;

/// A query with the arguments of the request that it is made for.
pub struct ResourceRequest<'a, RA: StorageRequestArgs> {
    pub args: &'a RA,
    pub query: &'a str,
}

impl<'a, RA: StorageRequestArgs> ResourceRequest<'a, RA> {
    /// The query `query` for the request with the arguments `args`.
    pub fn new(query: &'a str, args: &'a RA) -> (request: Self)
        ensures
            request.query@ == query@,
            request.args == args,
    {
        ResourceRequest { args, query }
    }
}

/// The schema of a resource.
#[derive(Debug, Clone)]
pub struct ResourceShema {}

/// A resource, by its query.
#[derive(Debug, Clone)]
pub struct Resource {
    pub sql: String,
}

/// A value in the form in which it is bound to a query.
#[derive(Debug, Clone)]
pub enum BindValue {
    Null,
    Boolean(bool),
    /// A 64-bit signed whole number.
    BigInt(i64),
    Double(Float64),
    Text(String),
}

/// A bound value, as contracts speak of it.
pub enum Bound {
    Null,
    Boolean(bool),
    BigInt(i64),
    Double { bits: u64, text: Seq<char> },
    Text(Seq<char>),
}

impl View for BindValue {
    type V = Bound;

    open spec fn view(&self) -> Bound {
        match self {
            BindValue::Null => Bound::Null,
            BindValue::Boolean(b) => Bound::Boolean(*b),
            BindValue::BigInt(i) => Bound::BigInt(*i),
            BindValue::Double(f) => Bound::Double { bits: f.spec_bits(), text: f.spec_text() },
            BindValue::Text(text) => Bound::Text(text@),
        }
    }
}

/// The form in which a value is bound: a whole number by its lowest 64
/// bits, every other value as it is.
pub open spec fn bound_of(value: ValueView) -> Bound {
    match value {
        ValueView::Null => Bound::Null,
        ValueView::Boolean(b) => Bound::Boolean(b),
        ValueView::Integer(i) => Bound::BigInt(i as i64),
        ValueView::Float { bits, text } => Bound::Double { bits, text },
        ValueView::Text(text) => Bound::Text(text),
    }
}

/// The form in which the value is bound.
pub fn to_bind(value: &XepakValue) -> (bound: BindValue)
    ensures
        bound@ == bound_of(value@),
{
    match value {
        XepakValue::Null => BindValue::Null,
        XepakValue::Boolean(b) => BindValue::Boolean(*b),
        XepakValue::Integer(i) => BindValue::BigInt(
            #[verifier::truncate]
            (*i as i64),
        ),
        XepakValue::Float(f) => BindValue::Double(f.copy()),
        XepakValue::Text(text) => BindValue::Text(text.clone()),
    }
}

/// The message that refuses a placeholder without a value.
pub open spec fn unbound_detail(name: Seq<char>) -> Seq<char> {
    "Can't bind argument '"@ + name + "' - does not exists in request."@
}

/// What is bound for the placeholder `name`: the computed row limit or row
/// offset for the two reserved names, else the value of the argument of
/// that name, if it has one.
pub open spec fn binding(args: RequestArgs, name: Seq<char>) -> Option<Bound> {
    if name == "-limit-"@ {
        Some(Bound::BigInt(args.limit() as i64))
    } else if name == "-offset-"@ {
        Some(Bound::BigInt(args.offset() as i64))
    } else {
        match args.value(name) {
            Some(value) => Some(bound_of(value)),
            None => None,
        }
    }
}

/// Resolves the placeholder `name` to what is bound for it.
pub fn bind_arg(args: &RequestArgs, name: &str) -> (bound: Result<BindValue, XepakError>)
    ensures
        match binding(*args, name@) {
            Some(value) => bound matches Ok(made) && made@ == value,
            None => bound matches Err(err) && err is Input && err.detail() == unbound_detail(
                name@,
            ),
        },
{
    if same_text(name, LIMIT_KEY) {
        Ok(
            BindValue::BigInt(
                #[verifier::truncate]
                (args.get_limit() as i64),
            ),
        )
    } else if same_text(name, OFFSET_KEY) {
        Ok(
            BindValue::BigInt(
                #[verifier::truncate]
                (args.get_offset() as i64),
            ),
        )
    } else {
        match args.get_arg_value(name) {
            Some(value) => Ok(to_bind(value)),
            None => Err(
                XepakError::Input(
                    join3("Can't bind argument '", name, "' - does not exists in request."),
                ),
            ),
        }
    }
}

/// True when all of the names have something bound for them.
pub open spec fn all_bound(args: RequestArgs, names: Seq<Seq<char>>) -> bool {
    forall|i: int| 0 <= i < names.len() ==> binding(args, #[trigger] names[i]) is Some
}

/// The names of the placeholders of a template, in order of appearance.
pub open spec fn key_names(sql: Seq<char>) -> Seq<Seq<char>> {
    Seq::new(key_args(sql).len(), |i: int| key_name(sql, key_args(sql)[i]))
}

/// A query that is ready to be run: its text with positional markers, and
/// the values to bind to them, in order.
#[derive(Debug, Clone)]
pub struct PreparedQuery {
    pub sql: String,
    pub values: Vec<BindValue>,
}

/// Makes the template `query` ready to be run for the request: each
/// placeholder becomes the marker `?`, and what is bound for its name
/// becomes the value for that marker. Fails at the first placeholder that
/// has nothing bound for it.
pub fn prepare_query(query: &str, args: &RequestArgs) -> (prepared: Result<
    PreparedQuery,
    XepakError,
>)
    ensures
        prepared is Ok <==> all_bound(*args, key_names(query@)),
        prepared matches Ok(ready) ==> {
            &&& ready.sql@ == rewrite(query@, key_args(query@), "?"@)
            &&& ready.values@.len() == key_names(query@).len()
            &&& forall|i: int|
                0 <= i < ready.values@.len() ==> Some((#[trigger] ready.values@[i])@) == binding(
                    *args,
                    key_names(query@)[i],
                )
        },
        prepared matches Err(err) ==> err is Input && exists|i: int|
            0 <= i < key_names(query@).len() && binding(*args, #[trigger] key_names(query@)[i])
                is None && err.detail() == unbound_detail(key_names(query@)[i]),
{
    let parsed = ParametrizedQueryRef::new(query);
    let built = parsed.build_query("?");
    let names = parsed.get_args();
    let ghost wanted = key_names(query@);
    let mut values: Vec<BindValue> = Vec::new();
    let mut i: usize = 0;
    while i < names.len()
        invariant
            0 <= i <= names@.len(),
            wanted == key_names(query@),
            names@.len() == wanted.len(),
            forall|k: int| 0 <= k < names@.len() ==> (#[trigger] names@[k])@ == wanted[k],
            values@.len() == i,
            forall|k: int|
                0 <= k < i ==> Some((#[trigger] values@[k])@) == binding(*args, wanted[k]),
        decreases names@.len() - i,
    {
        match bind_arg(args, names[i]) {
            Ok(value) => {
                values.push(value);
            },
            Err(err) => {
                proof {
                    assert(binding(*args, key_names(query@)[i as int]) is None);
                }
                return Err(err);
            },
        }
        i = i + 1;
    }
    proof {
        assert forall|k: int| 0 <= k < wanted.len() implies binding(
            *args,
            #[trigger] wanted[k],
        ) is Some by {
            assert(Some(values@[k]@) == binding(*args, wanted[k]));
        }
    }
    let sql = match built {
        std::borrow::Cow::Borrowed(text) => String::from_str(text),
        std::borrow::Cow::Owned(text) => text,
    };
    Ok(PreparedQuery { sql, values })
}

/// The value of a query that is to give one row with one column: the
/// value of that column. A missing row and a row with more than one column
/// contradict what is expected; a row without a column cannot be.
pub fn single_value(row: Option<Record>) -> (value: Result<XepakValue, XepakError>)
    ensures
        match row {
            None => value matches Err(err) && err is NotConsistent && err.detail()
                == "Expect to have non empty response from DB"@,
            Some(record) => if record.entries().len() > 1 {
                value matches Err(err) && err is NotConsistent && err.detail()
                    == "Expect to have only single column in response not "@ + nat_text(
                    record.entries().len(),
                )
            } else if record.entries().len() == 1 {
                value matches Ok(found) && found@ == record.entries()[0].1@
            } else {
                value matches Err(err) && err is Unexpected && err.detail()
                    == "It is impossible! Row must have at least one column"@
            },
        },
{
    let record = match row {
        Some(record) => record,
        None => {
            return Err(
                XepakError::NotConsistent(
                    String::from_str("Expect to have non empty response from DB"),
                ),
            );
        },
    };
    if record.len() > 1 {
        let mut detail = String::from_str("Expect to have only single column in response not ");
        detail.append(nat_to_string(record.len() as u128).as_str());
        return Err(XepakError::NotConsistent(detail));
    }
    if record.len() == 1 {
        Ok(record.value_at(0).copy())
    } else {
        Err(
            XepakError::Unexpected(
                String::from_str("It is impossible! Row must have at least one column"),
            ),
        )
    }
}

} // verus!
