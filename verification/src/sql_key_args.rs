//! Placeholders of the form `{{name}}` in SQL templates: the scanner that
//! finds them and the builder that rewrites a template into a positional
//! query.

pub mod laws;
pub mod lexer;
pub mod query;
pub mod scan;

pub use lexer::KeyArgPositionRef;
pub use lexer::SqlLexer;
pub use query::build_pos_query;
pub use query::query_to_pos_args;
pub use query::ParametrizedQuery;
pub use query::ParametrizedQueryRef;
