//! Parsing SQL text into statements with `sqlparser`, and printing the
//! statements back as normalised SQL.

use vstd::prelude::*;
use sqlparser::ast::Statement;
use sqlparser::dialect::{
    AnsiDialect, BigQueryDialect, ClickHouseDialect, DuckDbDialect, GenericDialect, HiveDialect,
    MsSqlDialect, MySqlDialect, PostgreSqlDialect, RedshiftSqlDialect, SQLiteDialect,
    SnowflakeDialect,
};
use sqlparser::parser::{Parser, ParserError};
use crate::dialect::Dialect;

verus! {

/// A parsed SQL statement of `sqlparser`.
#[verifier::external_type_specification]
#[verifier::external_body]
pub struct ExStatement(Statement);

/// The error type of `sqlparser`'s parser.
#[verifier::external_type_specification]
#[verifier::external_body]
pub struct ExParserError(ParserError);

/// Why a piece of SQL did not parse, as `sqlparser` reports it.
#[derive(Clone, PartialEq, Eq, Debug)]
pub enum ParseFailure {
    /// The tokenizer rejected the text.
    Tokenizer(String),
    /// The parser rejected the token stream.
    Parser(String),
    /// The statement nests deeper than the parser allows.
    RecursionLimit,
}

/// The message of a parse failure: `sql parser error: ` followed by the
/// tokenizer's or parser's text, or by `recursion limit exceeded`.
pub open spec fn failure_message(f: ParseFailure) -> Seq<char> {
    "sql parser error: "@ + match f {
        ParseFailure::Tokenizer(s) => s@,
        ParseFailure::Parser(s) => s@,
        ParseFailure::RecursionLimit => "recursion limit exceeded"@,
    }
}

impl ParseFailure {
    /// The message that `sqlparser` shows for this failure.
    pub fn message(&self) -> (r: String)
        ensures
            r@ == failure_message(*self),
    {
        let mut out = String::from_str("sql parser error: ");
        match self {
            ParseFailure::Tokenizer(s) => out.append(s.as_str()),
            ParseFailure::Parser(s) => out.append(s.as_str()),
            ParseFailure::RecursionLimit => out.append("recursion limit exceeded"),
        }
        out
    }
}

/// What `Parser::parse_sql` returns for `sql` in the given dialect.
pub uninterp spec fn sql_parse(dialect: Dialect, sql: Seq<char>) -> Result<
    Seq<Statement>,
    ParserError,
>;

/// The variant and text of a `ParserError`.
pub uninterp spec fn failure_of(e: ParserError) -> ParseFailure;

/// The SQL that `Statement`'s `Display` writes.
pub uninterp spec fn statement_text(s: Statement) -> Seq<char>;

/// Whether a `Result` of the parser carries exactly the named outcome.
pub open spec fn parsed_as(
    r: Result<Vec<Statement>, ParserError>,
    outcome: Result<Seq<Statement>, ParserError>,
) -> bool {
    match r {
        Ok(v) => outcome == Ok::<Seq<Statement>, ParserError>(v@),
        Err(e) => outcome == Err::<Seq<Statement>, ParserError>(e),
    }
}

/// `ParserError`, taken apart: each variant becomes the `ParseFailure`
/// variant of the same name, with its text.
#[verifier::external_body]
fn parse_failure(e: ParserError) -> (r: ParseFailure)
    ensures
        r == failure_of(e),
{
    match e {
        ParserError::TokenizerError(s) => ParseFailure::Tokenizer(s),
        ParserError::ParserError(s) => ParseFailure::Parser(s),
        ParserError::RecursionLimitExceeded => ParseFailure::RecursionLimit,
    }
}

/// `Statement`'s `Display`: the statement as normalised SQL, named
/// `statement_text`.
#[verifier::external_body]
fn statement_sql(s: &Statement) -> (r: String)
    ensures
        r@ == statement_text(*s),
{
    s.to_string()
}

/// `Parser::parse_sql` with `GenericDialect`: the statements or the error it returns
/// are the named outcome `sql_parse` for this dialect and text.
#[verifier::external_body]
fn parse_generic(sql: &str) -> (r: Result<Vec<Statement>, ParserError>)
    ensures
        parsed_as(r, sql_parse(Dialect::Generic, sql@)),
{
    Parser::parse_sql(&GenericDialect {}, sql)
}

/// `Parser::parse_sql` with `AnsiDialect`: the statements or the error it returns
/// are the named outcome `sql_parse` for this dialect and text.
#[verifier::external_body]
fn parse_ansi(sql: &str) -> (r: Result<Vec<Statement>, ParserError>)
    ensures
        parsed_as(r, sql_parse(Dialect::Ansi, sql@)),
{
    Parser::parse_sql(&AnsiDialect {}, sql)
}

/// `Parser::parse_sql` with `BigQueryDialect`: the statements or the error it returns
/// are the named outcome `sql_parse` for this dialect and text.
#[verifier::external_body]
fn parse_bigquery(sql: &str) -> (r: Result<Vec<Statement>, ParserError>)
    ensures
        parsed_as(r, sql_parse(Dialect::BigQuery, sql@)),
{
    Parser::parse_sql(&BigQueryDialect {}, sql)
}

/// `Parser::parse_sql` with `ClickHouseDialect`: the statements or the error it returns
/// are the named outcome `sql_parse` for this dialect and text.
#[verifier::external_body]
fn parse_clickhouse(sql: &str) -> (r: Result<Vec<Statement>, ParserError>)
    ensures
        parsed_as(r, sql_parse(Dialect::ClickHouse, sql@)),
{
    Parser::parse_sql(&ClickHouseDialect {}, sql)
}

/// `Parser::parse_sql` with `HiveDialect`: the statements or the error it returns
/// are the named outcome `sql_parse` for this dialect and text.
#[verifier::external_body]
fn parse_hive(sql: &str) -> (r: Result<Vec<Statement>, ParserError>)
    ensures
        parsed_as(r, sql_parse(Dialect::Hive, sql@)),
{
    Parser::parse_sql(&HiveDialect {}, sql)
}

/// `Parser::parse_sql` with `MsSqlDialect`: the statements or the error it returns
/// are the named outcome `sql_parse` for this dialect and text.
#[verifier::external_body]
fn parse_mssql(sql: &str) -> (r: Result<Vec<Statement>, ParserError>)
    ensures
        parsed_as(r, sql_parse(Dialect::MsSql, sql@)),
{
    Parser::parse_sql(&MsSqlDialect {}, sql)
}

/// `Parser::parse_sql` with `MySqlDialect`: the statements or the error it returns
/// are the named outcome `sql_parse` for this dialect and text.
#[verifier::external_body]
fn parse_mysql(sql: &str) -> (r: Result<Vec<Statement>, ParserError>)
    ensures
        parsed_as(r, sql_parse(Dialect::MySql, sql@)),
{
    Parser::parse_sql(&MySqlDialect {}, sql)
}

/// `Parser::parse_sql` with `PostgreSqlDialect`: the statements or the error it returns
/// are the named outcome `sql_parse` for this dialect and text.
#[verifier::external_body]
fn parse_postgresql(sql: &str) -> (r: Result<Vec<Statement>, ParserError>)
    ensures
        parsed_as(r, sql_parse(Dialect::PostgreSql, sql@)),
{
    Parser::parse_sql(&PostgreSqlDialect {}, sql)
}

/// `Parser::parse_sql` with `RedshiftSqlDialect`: the statements or the error it returns
/// are the named outcome `sql_parse` for this dialect and text.
#[verifier::external_body]
fn parse_redshift(sql: &str) -> (r: Result<Vec<Statement>, ParserError>)
    ensures
        parsed_as(r, sql_parse(Dialect::Redshift, sql@)),
{
    Parser::parse_sql(&RedshiftSqlDialect {}, sql)
}

/// `Parser::parse_sql` with `SnowflakeDialect`: the statements or the error it returns
/// are the named outcome `sql_parse` for this dialect and text.
#[verifier::external_body]
fn parse_snowflake(sql: &str) -> (r: Result<Vec<Statement>, ParserError>)
    ensures
        parsed_as(r, sql_parse(Dialect::Snowflake, sql@)),
{
    Parser::parse_sql(&SnowflakeDialect {}, sql)
}

/// `Parser::parse_sql` with `SQLiteDialect`: the statements or the error it returns
/// are the named outcome `sql_parse` for this dialect and text.
#[verifier::external_body]
fn parse_sqlite(sql: &str) -> (r: Result<Vec<Statement>, ParserError>)
    ensures
        parsed_as(r, sql_parse(Dialect::Sqlite, sql@)),
{
    Parser::parse_sql(&SQLiteDialect {}, sql)
}

/// `Parser::parse_sql` with `DuckDbDialect`: the statements or the error it returns
/// are the named outcome `sql_parse` for this dialect and text.
#[verifier::external_body]
fn parse_duckdb(sql: &str) -> (r: Result<Vec<Statement>, ParserError>)
    ensures
        parsed_as(r, sql_parse(Dialect::DuckDb, sql@)),
{
    Parser::parse_sql(&DuckDbDialect {}, sql)
}

/// The outcome of parsing `sql` in `dialect`: the statements, or the
/// message of the failure.
pub open spec fn parse_outcome(sql: Seq<char>, dialect: Dialect) -> Result<
    Seq<Statement>,
    Seq<char>,
> {
    match sql_parse(dialect, sql) {
        Ok(s) => Ok(s),
        Err(e) => Err(failure_message(failure_of(e))),
    }
}

/// Parses one or more `;`-separated statements in the given dialect; a
/// failure is reported by its message.
pub fn parse(sql: &str, dialect: &Dialect) -> (r: Result<Vec<Statement>, String>)
    ensures
        (match parse_outcome(sql@, *dialect) {
            Ok(s) => r is Ok && r->Ok_0@ == s,
            Err(m) => r is Err && r->Err_0@ == m,
        }),
{
    let res = match dialect {
        Dialect::Generic => parse_generic(sql),
        Dialect::Ansi => parse_ansi(sql),
        Dialect::BigQuery => parse_bigquery(sql),
        Dialect::ClickHouse => parse_clickhouse(sql),
        Dialect::Hive => parse_hive(sql),
        Dialect::MsSql => parse_mssql(sql),
        Dialect::MySql => parse_mysql(sql),
        Dialect::PostgreSql => parse_postgresql(sql),
        Dialect::Redshift => parse_redshift(sql),
        Dialect::Snowflake => parse_snowflake(sql),
        Dialect::Sqlite => parse_sqlite(sql),
        Dialect::DuckDb => parse_duckdb(sql),
    };
    match res {
        Ok(stmts) => Ok(stmts),
        Err(e) => Err(parse_failure(e).message()),
    }
}

/// The normalised SQL of each statement, in order.
pub open spec fn statement_texts(stmts: Seq<Statement>) -> Seq<Seq<char>> {
    stmts.map_values(|s: Statement| statement_text(s))
}

/// Each statement printed back as normalised SQL.
pub fn format_statements(stmts: &Vec<Statement>) -> (r: Vec<String>)
    ensures
        crate::text::strings_view(r@) == statement_texts(stmts@),
{
    let mut out: Vec<String> = Vec::new();
    let mut i: usize = 0;
    while i < stmts.len()
        invariant
            i <= stmts.len(),
            crate::text::strings_view(out@) == statement_texts(stmts@.subrange(0, i as int)),
        decreases stmts.len() - i,
    {
        let t = statement_sql(&stmts[i]);
        let ghost before = crate::text::strings_view(out@);
        out.push(t);
        proof {
            assert(crate::text::strings_view(out@) =~= before.push(t@));
            assert(statement_texts(stmts@.subrange(0, (i + 1) as int)) =~= statement_texts(
                stmts@.subrange(0, i as int),
            ).push(statement_text(stmts@[i as int])));
        }
        i = i + 1;
    }
    proof {
        assert(stmts@.subrange(0, stmts@.len() as int) =~= stmts@);
    }
    out
}

} // verus!
