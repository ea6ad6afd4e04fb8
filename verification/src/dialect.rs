//! SQL dialects: their names, the parse of a dialect name typed by a user,
//! and the law that ties the two together.

use vstd::prelude::*;
use crate::text::str_eq;

verus! {

/// The SQL dialects that statements can be parsed in.
#[derive(Clone, Copy, PartialEq, Eq, Debug, Structural)]
pub enum Dialect {
    Generic,
    Ansi,
    BigQuery,
    ClickHouse,
    Hive,
    MsSql,
    MySql,
    PostgreSql,
    Redshift,
    Snowflake,
    Sqlite,
    DuckDb,
}

/// The canonical (lower-case) name of each dialect.
pub open spec fn dialect_name(d: Dialect) -> Seq<char> {
    match d {
        Dialect::Generic => "generic"@,
        Dialect::Ansi => "ansi"@,
        Dialect::BigQuery => "bigquery"@,
        Dialect::ClickHouse => "clickhouse"@,
        Dialect::Hive => "hive"@,
        Dialect::MsSql => "mssql"@,
        Dialect::MySql => "mysql"@,
        Dialect::PostgreSql => "postgresql"@,
        Dialect::Redshift => "redshift"@,
        Dialect::Snowflake => "snowflake"@,
        Dialect::Sqlite => "sqlite"@,
        Dialect::DuckDb => "duckdb"@,
    }
}

/// The dialect that an already lower-cased name denotes: its canonical
/// name, or `postgres` for PostgreSQL.
pub open spec fn dialect_named(s: Seq<char>) -> Option<Dialect> {
    if s == "generic"@ {
        Some(Dialect::Generic)
    } else if s == "ansi"@ {
        Some(Dialect::Ansi)
    } else if s == "bigquery"@ {
        Some(Dialect::BigQuery)
    } else if s == "clickhouse"@ {
        Some(Dialect::ClickHouse)
    } else if s == "hive"@ {
        Some(Dialect::Hive)
    } else if s == "mssql"@ {
        Some(Dialect::MsSql)
    } else if s == "mysql"@ {
        Some(Dialect::MySql)
    } else if s == "postgresql"@ || s == "postgres"@ {
        Some(Dialect::PostgreSql)
    } else if s == "redshift"@ {
        Some(Dialect::Redshift)
    } else if s == "snowflake"@ {
        Some(Dialect::Snowflake)
    } else if s == "sqlite"@ {
        Some(Dialect::Sqlite)
    } else if s == "duckdb"@ {
        Some(Dialect::DuckDb)
    } else {
        None
    }
}

/// Whether every character of `s` is an ASCII lower-case letter.
pub open spec fn is_lower_ascii_word(s: Seq<char>) -> bool {
    forall|i: int| 0 <= i < s.len() ==> 'a' <= #[trigger] s[i] <= 'z'
}

/// What `str::to_lowercase` makes of a string.
pub uninterp spec fn lowercase(s: Seq<char>) -> Seq<char>;

/// Whether every character of `s` is ASCII.
pub open spec fn is_ascii_text(s: Seq<char>) -> bool {
    forall|i: int| 0 <= i < s.len() ==> (#[trigger] s[i]) as u32 <= 0x7f
}

/// The ASCII lower case of a character: `A` to `Z` become `a` to `z`,
/// every other character stays.
pub open spec fn ascii_lower_char(c: char) -> char {
    if 'A' <= c <= 'Z' {
        ((c as u32) + 32) as char
    } else {
        c
    }
}

/// The ASCII upper case of a character: `a` to `z` become `A` to `Z`,
/// every other character stays.
pub open spec fn ascii_upper_char(c: char) -> char {
    if 'a' <= c <= 'z' {
        ((c as u32) - 32) as char
    } else {
        c
    }
}

/// The ASCII lower case of a string, character by character.
pub open spec fn ascii_lower(s: Seq<char>) -> Seq<char> {
    s.map_values(|c: char| ascii_lower_char(c))
}

/// The ASCII upper case of a string, character by character.
pub open spec fn ascii_upper(s: Seq<char>) -> Seq<char> {
    s.map_values(|c: char| ascii_upper_char(c))
}

/// `str::to_lowercase`: the Unicode lower-case mapping of the string,
/// named `lowercase`. On ASCII text it maps `A` to `Z` to `a` to `z` and
/// keeps every other character.
#[verifier::external_body]
fn to_lowercase(s: &str) -> (r: String)
    ensures
        r@ == lowercase(s@),
        is_ascii_text(s@) ==> r@ == ascii_lower(s@),
{
    s.to_lowercase()
}

impl Dialect {
    /// The canonical name of the dialect.
    pub fn name(&self) -> (r: &'static str)
        ensures
            r@ == dialect_name(*self),
            *self == Dialect::Generic ==> r@ == "generic"@,
            *self == Dialect::Ansi ==> r@ == "ansi"@,
            *self == Dialect::BigQuery ==> r@ == "bigquery"@,
            *self == Dialect::ClickHouse ==> r@ == "clickhouse"@,
            *self == Dialect::Hive ==> r@ == "hive"@,
            *self == Dialect::MsSql ==> r@ == "mssql"@,
            *self == Dialect::MySql ==> r@ == "mysql"@,
            *self == Dialect::PostgreSql ==> r@ == "postgresql"@,
            *self == Dialect::Redshift ==> r@ == "redshift"@,
            *self == Dialect::Snowflake ==> r@ == "snowflake"@,
            *self == Dialect::Sqlite ==> r@ == "sqlite"@,
            *self == Dialect::DuckDb ==> r@ == "duckdb"@,
    {
        match self {
            Dialect::Generic => "generic",
            Dialect::Ansi => "ansi",
            Dialect::BigQuery => "bigquery",
            Dialect::ClickHouse => "clickhouse",
            Dialect::Hive => "hive",
            Dialect::MsSql => "mssql",
            Dialect::MySql => "mysql",
            Dialect::PostgreSql => "postgresql",
            Dialect::Redshift => "redshift",
            Dialect::Snowflake => "snowflake",
            Dialect::Sqlite => "sqlite",
            Dialect::DuckDb => "duckdb",
        }
    }
}

/// The dialect that a lower-cased name denotes, if any.
pub fn dialect_from_lowercase(s: &str) -> (r: Option<Dialect>)
    ensures
        r == dialect_named(s@),
{
    if str_eq(s, "generic") {
        Some(Dialect::Generic)
    } else if str_eq(s, "ansi") {
        Some(Dialect::Ansi)
    } else if str_eq(s, "bigquery") {
        Some(Dialect::BigQuery)
    } else if str_eq(s, "clickhouse") {
        Some(Dialect::ClickHouse)
    } else if str_eq(s, "hive") {
        Some(Dialect::Hive)
    } else if str_eq(s, "mssql") {
        Some(Dialect::MsSql)
    } else if str_eq(s, "mysql") {
        Some(Dialect::MySql)
    } else if str_eq(s, "postgresql") || str_eq(s, "postgres") {
        Some(Dialect::PostgreSql)
    } else if str_eq(s, "redshift") {
        Some(Dialect::Redshift)
    } else if str_eq(s, "snowflake") {
        Some(Dialect::Snowflake)
    } else if str_eq(s, "sqlite") {
        Some(Dialect::Sqlite)
    } else if str_eq(s, "duckdb") {
        Some(Dialect::DuckDb)
    } else {
        None
    }
}

/// The dialect named by `s`, case-insensitively: `s` is lower-cased and
/// then looked up; `postgres` is accepted for PostgreSQL.
pub fn parse_dialect_str(s: &str) -> (r: Option<Dialect>)
    ensures
        r == dialect_named(lowercase(s@)),
        is_ascii_text(s@) ==> r == dialect_named(ascii_lower(s@)),
{
    let lowered = to_lowercase(s);
    dialect_from_lowercase(lowered.as_str())
}

/// Every dialect's name is a lower-case ASCII word that names that dialect
/// again, so that `parse_dialect_str(d.name())` gives back `d`.
pub proof fn lemma_name_round_trip(d: Dialect)
    ensures
        is_lower_ascii_word(dialect_name(d)),
        dialect_named(dialect_name(d)) == Some(d),
{
    reveal_strlit("generic");
    reveal_strlit("ansi");
    reveal_strlit("bigquery");
    reveal_strlit("clickhouse");
    reveal_strlit("hive");
    reveal_strlit("mssql");
    reveal_strlit("mysql");
    reveal_strlit("postgresql");
    reveal_strlit("postgres");
    reveal_strlit("redshift");
    reveal_strlit("snowflake");
    reveal_strlit("sqlite");
    reveal_strlit("duckdb");
    assert("generic"@ =~= seq!['g', 'e', 'n', 'e', 'r', 'i', 'c']);
    assert("ansi"@ =~= seq!['a', 'n', 's', 'i']);
    assert("bigquery"@ =~= seq!['b', 'i', 'g', 'q', 'u', 'e', 'r', 'y']);
    assert("clickhouse"@ =~= seq!['c', 'l', 'i', 'c', 'k', 'h', 'o', 'u', 's', 'e']);
    assert("hive"@ =~= seq!['h', 'i', 'v', 'e']);
    assert("mssql"@ =~= seq!['m', 's', 's', 'q', 'l']);
    assert("mysql"@ =~= seq!['m', 'y', 's', 'q', 'l']);
    assert("postgresql"@ =~= seq!['p', 'o', 's', 't', 'g', 'r', 'e', 's', 'q', 'l']);
    assert("postgres"@ =~= seq!['p', 'o', 's', 't', 'g', 'r', 'e', 's']);
    assert("redshift"@ =~= seq!['r', 'e', 'd', 's', 'h', 'i', 'f', 't']);
    assert("snowflake"@ =~= seq!['s', 'n', 'o', 'w', 'f', 'l', 'a', 'k', 'e']);
    assert("sqlite"@ =~= seq!['s', 'q', 'l', 'i', 't', 'e']);
    assert("duckdb"@ =~= seq!['d', 'u', 'c', 'k', 'd', 'b']);
}

/// Dialect names are case-insensitive: the name of a dialect written in
/// upper case is ASCII text whose ASCII lower case names that dialect again,
/// so that `parse_dialect_str` on it gives back the dialect; and so does
/// the name as it is.
pub proof fn lemma_names_case_insensitive(d: Dialect)
    ensures
        is_ascii_text(ascii_upper(dialect_name(d))),
        dialect_named(ascii_lower(ascii_upper(dialect_name(d)))) == Some(d),
        is_ascii_text(dialect_name(d)),
        dialect_named(ascii_lower(dialect_name(d))) == Some(d),
{
    lemma_name_round_trip(d);
    let n = dialect_name(d);
    assert forall|i: int| 0 <= i < n.len() implies ascii_lower_char(ascii_upper_char(#[trigger] n[i]))
        == n[i] && ascii_lower_char(n[i]) == n[i] && (ascii_upper_char(n[i]) as u32) <= 0x7f by {
        assert('a' <= n[i] <= 'z');
    }
    assert(ascii_lower(ascii_upper(n)) =~= n);
    assert(ascii_lower(n) =~= n);
}

/// The table of dialect names: each name, and `postgres`, selects its
/// dialect, and each dialect is named by its own name.
pub proof fn lemma_dialect_name_table()
    ensures
        dialect_named("generic"@) == Some(Dialect::Generic),
        dialect_named("ansi"@) == Some(Dialect::Ansi),
        dialect_named("bigquery"@) == Some(Dialect::BigQuery),
        dialect_named("clickhouse"@) == Some(Dialect::ClickHouse),
        dialect_named("hive"@) == Some(Dialect::Hive),
        dialect_named("mssql"@) == Some(Dialect::MsSql),
        dialect_named("mysql"@) == Some(Dialect::MySql),
        dialect_named("postgresql"@) == Some(Dialect::PostgreSql),
        dialect_named("redshift"@) == Some(Dialect::Redshift),
        dialect_named("snowflake"@) == Some(Dialect::Snowflake),
        dialect_named("sqlite"@) == Some(Dialect::Sqlite),
        dialect_named("duckdb"@) == Some(Dialect::DuckDb),
        dialect_named("postgres"@) == Some(Dialect::PostgreSql),
        dialect_name(Dialect::Generic) == "generic"@,
        dialect_name(Dialect::Ansi) == "ansi"@,
        dialect_name(Dialect::BigQuery) == "bigquery"@,
        dialect_name(Dialect::ClickHouse) == "clickhouse"@,
        dialect_name(Dialect::Hive) == "hive"@,
        dialect_name(Dialect::MsSql) == "mssql"@,
        dialect_name(Dialect::MySql) == "mysql"@,
        dialect_name(Dialect::PostgreSql) == "postgresql"@,
        dialect_name(Dialect::Redshift) == "redshift"@,
        dialect_name(Dialect::Snowflake) == "snowflake"@,
        dialect_name(Dialect::Sqlite) == "sqlite"@,
        dialect_name(Dialect::DuckDb) == "duckdb"@,
{
    reveal_strlit("generic");
    reveal_strlit("ansi");
    reveal_strlit("bigquery");
    reveal_strlit("clickhouse");
    reveal_strlit("hive");
    reveal_strlit("mssql");
    reveal_strlit("mysql");
    reveal_strlit("postgresql");
    reveal_strlit("redshift");
    reveal_strlit("snowflake");
    reveal_strlit("sqlite");
    reveal_strlit("duckdb");
    reveal_strlit("postgres");
    assert("generic"@ =~= seq!['g', 'e', 'n', 'e', 'r', 'i', 'c']);
    assert("ansi"@ =~= seq!['a', 'n', 's', 'i']);
    assert("bigquery"@ =~= seq!['b', 'i', 'g', 'q', 'u', 'e', 'r', 'y']);
    assert("clickhouse"@ =~= seq!['c', 'l', 'i', 'c', 'k', 'h', 'o', 'u', 's', 'e']);
    assert("hive"@ =~= seq!['h', 'i', 'v', 'e']);
    assert("mssql"@ =~= seq!['m', 's', 's', 'q', 'l']);
    assert("mysql"@ =~= seq!['m', 'y', 's', 'q', 'l']);
    assert("postgresql"@ =~= seq!['p', 'o', 's', 't', 'g', 'r', 'e', 's', 'q', 'l']);
    assert("redshift"@ =~= seq!['r', 'e', 'd', 's', 'h', 'i', 'f', 't']);
    assert("snowflake"@ =~= seq!['s', 'n', 'o', 'w', 'f', 'l', 'a', 'k', 'e']);
    assert("sqlite"@ =~= seq!['s', 'q', 'l', 'i', 't', 'e']);
    assert("duckdb"@ =~= seq!['d', 'u', 'c', 'k', 'd', 'b']);
    assert("postgres"@ =~= seq!['p', 'o', 's', 't', 'g', 'r', 'e', 's']);
}

/// Distinct dialects have distinct names.
pub proof fn lemma_names_distinct(a: Dialect, b: Dialect)
    ensures
        dialect_name(a) == dialect_name(b) ==> a == b,
{
    lemma_name_round_trip(a);
    lemma_name_round_trip(b);
}

} // verus!
