//! Where the SQL of a command comes from.

use vstd::prelude::*;

verus! {

/// The source of a command's SQL.
#[derive(Debug)]
pub enum SqlSource {
    /// SQL given on the command line.
    Inline(String),
    /// A file to read the SQL from, by path.
    File(String),
    /// Standard input.
    Stdin,
}

/// The source of a command's SQL: the SQL given on the command line when
/// there is some, else the file given, else standard input.
pub fn sql_source(sql: Option<String>, file: Option<String>) -> (r: SqlSource)
    ensures
        (match sql {
            Some(s) => r == SqlSource::Inline(s),
            None => match file {
                Some(f) => r == SqlSource::File(f),
                None => r == SqlSource::Stdin,
            },
        }),
{
    match sql {
        Some(s) => SqlSource::Inline(s),
        None => match file {
            Some(f) => SqlSource::File(f),
            None => SqlSource::Stdin,
        },
    }
}

} // verus!
