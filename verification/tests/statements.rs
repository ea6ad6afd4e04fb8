use sql_cli::dialect::Dialect;
use sql_cli::sql::{format_statements, parse, ParseFailure};
use sqlparser::dialect::{GenericDialect, MySqlDialect};
use sqlparser::parser::Parser;

#[test]
fn parse_gives_the_statements_of_sqlparser() {
    let stmts = parse("select a from t; select 2", &Dialect::Generic).unwrap();
    assert_eq!(stmts.len(), 2);
    let direct = Parser::parse_sql(&GenericDialect {}, "select a from t; select 2").unwrap();
    assert_eq!(stmts, direct);
}

#[test]
fn parse_reports_the_parser_message() {
    let err = parse("SELEC 1", &Dialect::Generic).unwrap_err();
    let direct = Parser::parse_sql(&GenericDialect {}, "SELEC 1").unwrap_err().to_string();
    assert_eq!(err, direct);
    assert!(err.starts_with("sql parser error: "));
}

#[test]
fn parse_uses_the_chosen_dialect() {
    let sql = "SELECT `a` FROM t";
    let mine = parse(sql, &Dialect::MySql).unwrap();
    let direct = Parser::parse_sql(&MySqlDialect {}, sql).unwrap();
    assert_eq!(mine, direct);
}

#[test]
fn every_dialect_parses_a_simple_query() {
    for d in [
        Dialect::Generic,
        Dialect::Ansi,
        Dialect::BigQuery,
        Dialect::ClickHouse,
        Dialect::Hive,
        Dialect::MsSql,
        Dialect::MySql,
        Dialect::PostgreSql,
        Dialect::Redshift,
        Dialect::Snowflake,
        Dialect::Sqlite,
        Dialect::DuckDb,
    ] {
        assert_eq!(parse("SELECT 1", &d).unwrap().len(), 1);
    }
}

#[test]
fn statements_print_back_normalised() {
    let stmts = parse("select   a ,b from   t where x=1", &Dialect::Generic).unwrap();
    assert_eq!(format_statements(&stmts), vec!["SELECT a, b FROM t WHERE x = 1".to_string()]);
}

#[test]
fn failure_messages() {
    assert_eq!(
        ParseFailure::Tokenizer("bad".to_string()).message(),
        "sql parser error: bad"
    );
    assert_eq!(
        ParseFailure::Parser("Expected x".to_string()).message(),
        "sql parser error: Expected x"
    );
    assert_eq!(
        ParseFailure::RecursionLimit.message(),
        "sql parser error: recursion limit exceeded"
    );
}

#[test]
fn tokenizer_errors_are_reported() {
    let err = parse("SELECT 'abc", &Dialect::Generic).unwrap_err();
    let direct = Parser::parse_sql(&GenericDialect {}, "SELECT 'abc").unwrap_err();
    assert!(matches!(direct, sqlparser::parser::ParserError::TokenizerError(_)));
    assert_eq!(err, direct.to_string());
}

#[test]
fn deep_nesting_hits_the_recursion_limit() {
    let sql = format!("SELECT {}1{}", "(".repeat(200), ")".repeat(200));
    let err = parse(&sql, &Dialect::Generic).unwrap_err();
    assert_eq!(err, "sql parser error: recursion limit exceeded");
}
