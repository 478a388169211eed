pub mod auth;
pub mod cfg;
pub mod error;
pub mod float;
pub mod json;
pub mod processor;
pub mod schema;
pub mod script;
pub mod server;
pub mod sql_key_args;
pub mod storage;
pub mod strmap;
pub mod text;
pub mod types;

pub use error::DataSource;
pub use error::XepakError;
