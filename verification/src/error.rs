//! The errors the bot meets.

use vstd::prelude::*;

verus! {

/// An error met while loading data, talking to the database or
/// downloading pictures. The variants that come from another library
/// carry that library's description of what went wrong.
#[derive(Debug, Clone)]
pub enum Error {
    /// A YAML document could not be read.
    SerdeYaml(String),
    /// A file could not be opened, read or written.
    IOError(String),
    /// An HTTP request failed.
    Reqwest(String),
    /// The database refused a query or a value could not be converted.
    Postgres(String),
    /// A row did not hold the columns that were asked for.
    DatabaseParse,
    /// A query that had to return a row returned none.
    EmptyQuery,
}

} // verus!
