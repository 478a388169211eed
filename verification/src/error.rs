//! The failures that the library reports.

use crate::types::XepakType;
use vstd::prelude::*;
use vstd::string::*;

verus! {

/// A failure: exactly one kind, with a descriptive detail.
#[derive(Debug, Clone)]
pub enum XepakError {
    /// The configuration is wrong.
    Cfg(String),
    /// Reading or writing failed.
    Io(String),
    /// The caller's data is malformed or not allowed.
    Input(String),
    /// No record matches.
    NotFound(String),
    /// The caller is not authenticated or not authorized.
    Forbidden(String),
    /// A server-side failure whose message is shown to the caller.
    WeScrewed(String),
    /// A value of the first type cannot become one of the second.
    ConvertValue(XepakType, XepakType, String),
    /// A value cannot be converted.
    Convert(String),
    /// A textual or binary encoding is malformed.
    Decode(String),
    /// A script does not parse.
    ScriptParse(String),
    /// A script failed while it ran.
    Script(String),
    /// The data contradicts what the design expects of it.
    NotConsistent(String),
    /// A state that the design declares impossible.
    Unexpected(String),
    /// Any other failure.
    Other(String),
}

impl XepakError {
    /// The descriptive detail of the failure.
    pub open spec fn detail(&self) -> Seq<char> {
        match self {
            XepakError::Cfg(m) => m@,
            XepakError::Io(m) => m@,
            XepakError::Input(m) => m@,
            XepakError::NotFound(m) => m@,
            XepakError::Forbidden(m) => m@,
            XepakError::WeScrewed(m) => m@,
            XepakError::ConvertValue(_, _, m) => m@,
            XepakError::Convert(m) => m@,
            XepakError::Decode(m) => m@,
            XepakError::ScriptParse(m) => m@,
            XepakError::Script(m) => m@,
            XepakError::NotConsistent(m) => m@,
            XepakError::Unexpected(m) => m@,
            XepakError::Other(m) => m@,
        }
    }

    /// What the text of the failure begins with, before its detail.
    pub open spec fn prefix(&self) -> Seq<char> {
        match self {
            XepakError::Cfg(_) => "Config error: "@,
            XepakError::Io(_) => "IO error: "@,
            XepakError::Input(_) => "Input error: "@,
            XepakError::NotFound(_) => "Record not found: "@,
            XepakError::Forbidden(_) => ""@,
            XepakError::WeScrewed(_) => ""@,
            XepakError::ConvertValue(from, to, _) => "Can't covert type from "@ + from.name()
                + " to "@ + to.name() + ": "@,
            XepakError::Convert(_) => "Can't covert: "@,
            XepakError::Decode(_) => "Decode error: "@,
            XepakError::ScriptParse(_) => "Script parse error: "@,
            XepakError::Script(_) => "Script execution error: "@,
            XepakError::NotConsistent(_) => "Inconsistency found: "@,
            XepakError::Unexpected(_) => "Unexpected: "@,
            XepakError::Other(_) => "Other error: "@,
        }
    }

    /// Wraps the text of a failure that has no kind of its own.
    pub fn other(message: String) -> (err: Self)
        ensures
            err is Other,
            err.detail() == message@,
    {
        XepakError::Other(message)
    }

    /// True for the failures that are part of normal operation and are
    /// answered to the caller in words: malformed input, a missing record, a
    /// malformed encoding, a server failure meant for the caller, and a
    /// refused caller.
    pub fn is_expectable(&self) -> (expectable: bool)
        ensures
            expectable == (self is Input || self is NotFound || self is Decode
                || self is WeScrewed || self is Forbidden),
    {
        match self {
            XepakError::Input(_)
            | XepakError::NotFound(_)
            | XepakError::Decode(_)
            | XepakError::WeScrewed(_)
            | XepakError::Forbidden(_) => true,
            _ => false,
        }
    }

    /// True when `other` is a failure of the same kind with the same
    /// detail.
    pub open spec fn same_as(&self, other: &XepakError) -> bool {
        &&& self.detail() == other.detail()
        &&& self.prefix() == other.prefix()
        &&& match (self, other) {
            (XepakError::Cfg(_), XepakError::Cfg(_)) => true,
            (XepakError::Io(_), XepakError::Io(_)) => true,
            (XepakError::Input(_), XepakError::Input(_)) => true,
            (XepakError::NotFound(_), XepakError::NotFound(_)) => true,
            (XepakError::Forbidden(_), XepakError::Forbidden(_)) => true,
            (XepakError::WeScrewed(_), XepakError::WeScrewed(_)) => true,
            (XepakError::ConvertValue(a, b, _), XepakError::ConvertValue(c, d, _)) => a == c && b
                == d,
            (XepakError::Convert(_), XepakError::Convert(_)) => true,
            (XepakError::Decode(_), XepakError::Decode(_)) => true,
            (XepakError::ScriptParse(_), XepakError::ScriptParse(_)) => true,
            (XepakError::Script(_), XepakError::Script(_)) => true,
            (XepakError::NotConsistent(_), XepakError::NotConsistent(_)) => true,
            (XepakError::Unexpected(_), XepakError::Unexpected(_)) => true,
            (XepakError::Other(_), XepakError::Other(_)) => true,
            _ => false,
        }
    }

    /// A copy of the failure.
    pub fn copy(&self) -> (made: Self)
        ensures
            self.same_as(&made),
    {
        match self {
            XepakError::Cfg(m) => XepakError::Cfg(m.clone()),
            XepakError::Io(m) => XepakError::Io(m.clone()),
            XepakError::Input(m) => XepakError::Input(m.clone()),
            XepakError::NotFound(m) => XepakError::NotFound(m.clone()),
            XepakError::Forbidden(m) => XepakError::Forbidden(m.clone()),
            XepakError::WeScrewed(m) => XepakError::WeScrewed(m.clone()),
            XepakError::ConvertValue(from, to, m) => XepakError::ConvertValue(
                *from,
                *to,
                m.clone(),
            ),
            XepakError::Convert(m) => XepakError::Convert(m.clone()),
            XepakError::Decode(m) => XepakError::Decode(m.clone()),
            XepakError::ScriptParse(m) => XepakError::ScriptParse(m.clone()),
            XepakError::Script(m) => XepakError::Script(m.clone()),
            XepakError::NotConsistent(m) => XepakError::NotConsistent(m.clone()),
            XepakError::Unexpected(m) => XepakError::Unexpected(m.clone()),
            XepakError::Other(m) => XepakError::Other(m.clone()),
        }
    }

    /// The failure in words: what its kind begins with, then its detail.
    pub fn to_string(&self) -> (text: String)
        ensures
            text@ == self.prefix() + self.detail(),
    {
        let (mut text, detail) = match self {
            XepakError::Cfg(m) => (String::from_str("Config error: "), m),
            XepakError::Io(m) => (String::from_str("IO error: "), m),
            XepakError::Input(m) => (String::from_str("Input error: "), m),
            XepakError::NotFound(m) => (String::from_str("Record not found: "), m),
            XepakError::Forbidden(m) => (String::from_str(""), m),
            XepakError::WeScrewed(m) => (String::from_str(""), m),
            XepakError::ConvertValue(from, to, m) => {
                let mut head = String::from_str("Can't covert type from ");
                head.append(from.as_str());
                head.append(" to ");
                head.append(to.as_str());
                head.append(": ");
                (head, m)
            },
            XepakError::Convert(m) => (String::from_str("Can't covert: "), m),
            XepakError::Decode(m) => (String::from_str("Decode error: "), m),
            XepakError::ScriptParse(m) => (String::from_str("Script parse error: "), m),
            XepakError::Script(m) => (String::from_str("Script execution error: "), m),
            XepakError::NotConsistent(m) => (String::from_str("Inconsistency found: "), m),
            XepakError::Unexpected(m) => (String::from_str("Unexpected: "), m),
            XepakError::Other(m) => (String::from_str("Other error: "), m),
        };
        text.append(detail.as_str());
        text
    }
}

/// A data source, as the configuration names it.
#[derive(Clone, Debug, Default)]
pub struct DataSource {}

} // verus!
