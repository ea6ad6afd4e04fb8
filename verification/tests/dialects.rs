use sql_cli::dialect::{dialect_from_lowercase, parse_dialect_str, Dialect};

const ALL: [Dialect; 12] = [
    Dialect::Generic,
    Dialect::Ansi,
    Dialect::BigQuery,
    Dialect::ClickHouse,
    Dialect::Hive,
    Dialect::MsSql,
    Dialect::MySql,
    Dialect::PostgreSql,
    Dialect::Redshift,
    Dialect::Snowflake,
    Dialect::Sqlite,
    Dialect::DuckDb,
];

#[test]
fn every_name_parses_back_to_its_dialect() {
    for d in ALL {
        assert_eq!(parse_dialect_str(d.name()), Some(d));
        assert_eq!(parse_dialect_str(&d.name().to_uppercase()), Some(d));
        assert_eq!(dialect_from_lowercase(d.name()), Some(d));
    }
}

#[test]
fn dialect_names_are_case_insensitive() {
    assert_eq!(parse_dialect_str("PostgreSQL"), Some(Dialect::PostgreSql));
    assert_eq!(parse_dialect_str("MYSQL"), Some(Dialect::MySql));
    assert_eq!(parse_dialect_str("DuckDB"), Some(Dialect::DuckDb));
    assert_eq!(dialect_from_lowercase("MYSQL"), None);
}

#[test]
fn postgres_is_an_alias() {
    assert_eq!(parse_dialect_str("postgres"), Some(Dialect::PostgreSql));
    assert_eq!(Dialect::PostgreSql.name(), "postgresql");
}

#[test]
fn unknown_names_are_rejected() {
    assert_eq!(parse_dialect_str("oracle"), None);
    assert_eq!(parse_dialect_str(""), None);
    assert_eq!(parse_dialect_str(" mysql"), None);
}

#[test]
fn names_are_distinct() {
    for a in ALL {
        for b in ALL {
            assert_eq!(a == b, a.name() == b.name());
        }
    }
}
