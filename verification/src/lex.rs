//! Cutting SQL text into statements where the dialect's tokenizer finds a
//! `;` token, so that a `;` inside a string, a quoted identifier or a
//! comment does not end a statement.

use vstd::prelude::*;
use sqlparser::dialect::{
    AnsiDialect, BigQueryDialect, ClickHouseDialect, DuckDbDialect, GenericDialect, HiveDialect,
    MsSqlDialect, MySqlDialect, PostgreSqlDialect, RedshiftSqlDialect, SQLiteDialect,
    SnowflakeDialect,
};
use sqlparser::tokenizer::{Token, Tokenizer};
use crate::dialect::Dialect;
use crate::text::{chars_of, join_spec, strs_view};

verus! {

/// A token of the SQL tokenizer: whether it is a `;`, and the line and
/// column (both counted from 1, in characters) where it starts.
#[derive(Debug)]
pub struct TokenAt {
    pub semicolon: bool,
    pub line: u64,
    pub column: u64,
}

/// A token as a triple of plain values.
pub open spec fn token_view(t: TokenAt) -> (bool, u64, u64) {
    (t.semicolon, t.line, t.column)
}

/// The views of a sequence of tokens.
pub open spec fn tokens_view(v: Seq<TokenAt>) -> Seq<(bool, u64, u64)> {
    v.map_values(|t: TokenAt| token_view(t))
}

/// The tokens that `sqlparser`'s tokenizer finds in `sql` in a dialect
/// (each as whether it is a `;`, its line and its column), or nothing when
/// it rejects the text.
pub uninterp spec fn sql_tokens(dialect: Dialect, sql: Seq<char>) -> Option<Seq<(bool, u64, u64)>>;

/// Whether the tokenizer's result carries exactly the named outcome.
pub open spec fn tokenized_as(r: Option<Vec<TokenAt>>, outcome: Option<Seq<(bool, u64, u64)>>) -> bool {
    match r {
        Some(v) => outcome == Some(tokens_view(v@)),
        None => outcome is None,
    }
}

/// `Tokenizer::tokenize_with_location` with `GenericDialect`: each token, told
/// apart only as a `;` or another token, with the line and column where it
/// starts; no list when the tokenizer fails. Named `sql_tokens`.
#[verifier::external_body]
fn tokens_generic(sql: &str) -> (r: Option<Vec<TokenAt>>)
    ensures
        tokenized_as(r, sql_tokens(Dialect::Generic, sql@)),
{
    Tokenizer::new(&GenericDialect {}, sql).tokenize_with_location().ok().map(|ts| {
        ts.into_iter()
            .map(|t| TokenAt {
                semicolon: matches!(t.token, Token::SemiColon),
                line: t.span.start.line,
                column: t.span.start.column,
            })
            .collect()
    })
}

/// `Tokenizer::tokenize_with_location` with `AnsiDialect`: each token, told
/// apart only as a `;` or another token, with the line and column where it
/// starts; no list when the tokenizer fails. Named `sql_tokens`.
#[verifier::external_body]
fn tokens_ansi(sql: &str) -> (r: Option<Vec<TokenAt>>)
    ensures
        tokenized_as(r, sql_tokens(Dialect::Ansi, sql@)),
{
    Tokenizer::new(&AnsiDialect {}, sql).tokenize_with_location().ok().map(|ts| {
        ts.into_iter()
            .map(|t| TokenAt {
                semicolon: matches!(t.token, Token::SemiColon),
                line: t.span.start.line,
                column: t.span.start.column,
            })
            .collect()
    })
}

/// `Tokenizer::tokenize_with_location` with `BigQueryDialect`: each token, told
/// apart only as a `;` or another token, with the line and column where it
/// starts; no list when the tokenizer fails. Named `sql_tokens`.
#[verifier::external_body]
fn tokens_bigquery(sql: &str) -> (r: Option<Vec<TokenAt>>)
    ensures
        tokenized_as(r, sql_tokens(Dialect::BigQuery, sql@)),
{
    Tokenizer::new(&BigQueryDialect {}, sql).tokenize_with_location().ok().map(|ts| {
        ts.into_iter()
            .map(|t| TokenAt {
                semicolon: matches!(t.token, Token::SemiColon),
                line: t.span.start.line,
                column: t.span.start.column,
            })
            .collect()
    })
}

/// `Tokenizer::tokenize_with_location` with `ClickHouseDialect`: each token, told
/// apart only as a `;` or another token, with the line and column where it
/// starts; no list when the tokenizer fails. Named `sql_tokens`.
#[verifier::external_body]
fn tokens_clickhouse(sql: &str) -> (r: Option<Vec<TokenAt>>)
    ensures
        tokenized_as(r, sql_tokens(Dialect::ClickHouse, sql@)),
{
    Tokenizer::new(&ClickHouseDialect {}, sql).tokenize_with_location().ok().map(|ts| {
        ts.into_iter()
            .map(|t| TokenAt {
                semicolon: matches!(t.token, Token::SemiColon),
                line: t.span.start.line,
                column: t.span.start.column,
            })
            .collect()
    })
}

/// `Tokenizer::tokenize_with_location` with `HiveDialect`: each token, told
/// apart only as a `;` or another token, with the line and column where it
/// starts; no list when the tokenizer fails. Named `sql_tokens`.
#[verifier::external_body]
fn tokens_hive(sql: &str) -> (r: Option<Vec<TokenAt>>)
    ensures
        tokenized_as(r, sql_tokens(Dialect::Hive, sql@)),
{
    Tokenizer::new(&HiveDialect {}, sql).tokenize_with_location().ok().map(|ts| {
        ts.into_iter()
            .map(|t| TokenAt {
                semicolon: matches!(t.token, Token::SemiColon),
                line: t.span.start.line,
                column: t.span.start.column,
            })
            .collect()
    })
}

/// `Tokenizer::tokenize_with_location` with `MsSqlDialect`: each token, told
/// apart only as a `;` or another token, with the line and column where it
/// starts; no list when the tokenizer fails. Named `sql_tokens`.
#[verifier::external_body]
fn tokens_mssql(sql: &str) -> (r: Option<Vec<TokenAt>>)
    ensures
        tokenized_as(r, sql_tokens(Dialect::MsSql, sql@)),
{
    Tokenizer::new(&MsSqlDialect {}, sql).tokenize_with_location().ok().map(|ts| {
        ts.into_iter()
            .map(|t| TokenAt {
                semicolon: matches!(t.token, Token::SemiColon),
                line: t.span.start.line,
                column: t.span.start.column,
            })
            .collect()
    })
}

/// `Tokenizer::tokenize_with_location` with `MySqlDialect`: each token, told
/// apart only as a `;` or another token, with the line and column where it
/// starts; no list when the tokenizer fails. Named `sql_tokens`.
#[verifier::external_body]
fn tokens_mysql(sql: &str) -> (r: Option<Vec<TokenAt>>)
    ensures
        tokenized_as(r, sql_tokens(Dialect::MySql, sql@)),
{
    Tokenizer::new(&MySqlDialect {}, sql).tokenize_with_location().ok().map(|ts| {
        ts.into_iter()
            .map(|t| TokenAt {
                semicolon: matches!(t.token, Token::SemiColon),
                line: t.span.start.line,
                column: t.span.start.column,
            })
            .collect()
    })
}

/// `Tokenizer::tokenize_with_location` with `PostgreSqlDialect`: each token, told
/// apart only as a `;` or another token, with the line and column where it
/// starts; no list when the tokenizer fails. Named `sql_tokens`.
#[verifier::external_body]
fn tokens_postgresql(sql: &str) -> (r: Option<Vec<TokenAt>>)
    ensures
        tokenized_as(r, sql_tokens(Dialect::PostgreSql, sql@)),
{
    Tokenizer::new(&PostgreSqlDialect {}, sql).tokenize_with_location().ok().map(|ts| {
        ts.into_iter()
            .map(|t| TokenAt {
                semicolon: matches!(t.token, Token::SemiColon),
                line: t.span.start.line,
                column: t.span.start.column,
            })
            .collect()
    })
}

/// `Tokenizer::tokenize_with_location` with `RedshiftSqlDialect`: each token, told
/// apart only as a `;` or another token, with the line and column where it
/// starts; no list when the tokenizer fails. Named `sql_tokens`.
#[verifier::external_body]
fn tokens_redshift(sql: &str) -> (r: Option<Vec<TokenAt>>)
    ensures
        tokenized_as(r, sql_tokens(Dialect::Redshift, sql@)),
{
    Tokenizer::new(&RedshiftSqlDialect {}, sql).tokenize_with_location().ok().map(|ts| {
        ts.into_iter()
            .map(|t| TokenAt {
                semicolon: matches!(t.token, Token::SemiColon),
                line: t.span.start.line,
                column: t.span.start.column,
            })
            .collect()
    })
}

/// `Tokenizer::tokenize_with_location` with `SnowflakeDialect`: each token, told
/// apart only as a `;` or another token, with the line and column where it
/// starts; no list when the tokenizer fails. Named `sql_tokens`.
#[verifier::external_body]
fn tokens_snowflake(sql: &str) -> (r: Option<Vec<TokenAt>>)
    ensures
        tokenized_as(r, sql_tokens(Dialect::Snowflake, sql@)),
{
    Tokenizer::new(&SnowflakeDialect {}, sql).tokenize_with_location().ok().map(|ts| {
        ts.into_iter()
            .map(|t| TokenAt {
                semicolon: matches!(t.token, Token::SemiColon),
                line: t.span.start.line,
                column: t.span.start.column,
            })
            .collect()
    })
}

/// `Tokenizer::tokenize_with_location` with `SQLiteDialect`: each token, told
/// apart only as a `;` or another token, with the line and column where it
/// starts; no list when the tokenizer fails. Named `sql_tokens`.
#[verifier::external_body]
fn tokens_sqlite(sql: &str) -> (r: Option<Vec<TokenAt>>)
    ensures
        tokenized_as(r, sql_tokens(Dialect::Sqlite, sql@)),
{
    Tokenizer::new(&SQLiteDialect {}, sql).tokenize_with_location().ok().map(|ts| {
        ts.into_iter()
            .map(|t| TokenAt {
                semicolon: matches!(t.token, Token::SemiColon),
                line: t.span.start.line,
                column: t.span.start.column,
            })
            .collect()
    })
}

/// `Tokenizer::tokenize_with_location` with `DuckDbDialect`: each token, told
/// apart only as a `;` or another token, with the line and column where it
/// starts; no list when the tokenizer fails. Named `sql_tokens`.
#[verifier::external_body]
fn tokens_duckdb(sql: &str) -> (r: Option<Vec<TokenAt>>)
    ensures
        tokenized_as(r, sql_tokens(Dialect::DuckDb, sql@)),
{
    Tokenizer::new(&DuckDbDialect {}, sql).tokenize_with_location().ok().map(|ts| {
        ts.into_iter()
            .map(|t| TokenAt {
                semicolon: matches!(t.token, Token::SemiColon),
                line: t.span.start.line,
                column: t.span.start.column,
            })
            .collect()
    })
}

/// The tokens of `sql` in a dialect.
fn tokens(sql: &str, dialect: &Dialect) -> (r: Option<Vec<TokenAt>>)
    ensures
        tokenized_as(r, sql_tokens(*dialect, sql@)),
{
    match dialect {
        Dialect::Generic => tokens_generic(sql),
        Dialect::Ansi => tokens_ansi(sql),
        Dialect::BigQuery => tokens_bigquery(sql),
        Dialect::ClickHouse => tokens_clickhouse(sql),
        Dialect::Hive => tokens_hive(sql),
        Dialect::MsSql => tokens_mssql(sql),
        Dialect::MySql => tokens_mysql(sql),
        Dialect::PostgreSql => tokens_postgresql(sql),
        Dialect::Redshift => tokens_redshift(sql),
        Dialect::Snowflake => tokens_snowflake(sql),
        Dialect::Sqlite => tokens_sqlite(sql),
        Dialect::DuckDb => tokens_duckdb(sql),
    }
}

/// The positions where the lines of `s` begin: 0, and the position after
/// each `\n`.
pub open spec fn line_starts(s: Seq<char>) -> Seq<int>
    decreases s.len(),
{
    if s.len() == 0 {
        seq![0int]
    } else {
        let p = line_starts(s.drop_last());
        if s.last() == '\n' {
            p.push(s.len() as int)
        } else {
            p
        }
    }
}

/// The position in `s` of a line and column (counted from 1), or -1 when
/// there is no such line or the column is 0.
pub open spec fn token_offset(s: Seq<char>, line: u64, column: u64) -> int {
    if 1 <= line <= line_starts(s).len() && column >= 1 {
        line_starts(s)[line - 1] + column - 1
    } else {
        -1
    }
}

/// Whether position `i` of `sql` is a `;` that ends a statement: one where
/// the tokenizer found a `;` token, or, when the tokenizer rejects the
/// text, any `;`.
pub open spec fn is_cut(dialect: Dialect, sql: Seq<char>, i: int) -> bool {
    &&& 0 <= i < sql.len()
    &&& sql[i] == ';'
    &&& match sql_tokens(dialect, sql) {
        Some(ts) => exists|k: int|
            0 <= k < ts.len() && (#[trigger] ts[k]).0 && token_offset(sql, ts[k].1, ts[k].2) == i,
        None => true,
    }
}

/// The pieces of `s` between the positions where `cut` holds (the
/// characters at those positions left out).
pub open spec fn split_where(s: Seq<char>, cut: spec_fn(int) -> bool) -> Seq<Seq<char>>
    decreases s.len(),
{
    if s.len() == 0 {
        seq![Seq::<char>::empty()]
    } else {
        let p = split_where(s.drop_last(), cut);
        if cut(s.len() - 1) {
            p.push(Seq::<char>::empty())
        } else {
            p.update(p.len() - 1, p.last().push(s.last()))
        }
    }
}

/// The positions of `s` that hold `c`.
pub open spec fn at_char(s: Seq<char>, c: char) -> spec_fn(int) -> bool {
    |i: int| 0 <= i < s.len() && s[i] == c
}

/// The positions of `sql` that end statements in a dialect.
pub open spec fn cuts(dialect: Dialect, sql: Seq<char>) -> spec_fn(int) -> bool {
    |i: int| is_cut(dialect, sql, i)
}

/// The pieces of `s` between occurrences of `c`, as `str::split` with a
/// character pattern gives them.
pub open spec fn split_spec(s: Seq<char>, c: char) -> Seq<Seq<char>> {
    split_where(s, at_char(s, c))
}

/// The statement pieces of `sql` in a dialect: the text between the `;`s
/// that end statements.
pub open spec fn statement_pieces(dialect: Dialect, sql: Seq<char>) -> Seq<Seq<char>> {
    split_where(sql, cuts(dialect, sql))
}

/// A split always yields at least one piece.
pub proof fn lemma_split_where_nonempty(s: Seq<char>, cut: spec_fn(int) -> bool)
    ensures
        split_where(s, cut).len() >= 1,
    decreases s.len(),
{
    if s.len() > 0 {
        lemma_split_where_nonempty(s.drop_last(), cut);
    }
}

/// Two cut predicates that agree on the positions of `s` split it alike.
pub proof fn lemma_split_where_agree(s: Seq<char>, a: spec_fn(int) -> bool, b: spec_fn(int) -> bool)
    requires
        forall|i: int| 0 <= i < s.len() ==> #[trigger] a(i) == b(i),
    ensures
        split_where(s, a) == split_where(s, b),
    decreases s.len(),
{
    if s.len() > 0 {
        lemma_split_where_agree(s.drop_last(), a, b);
    }
}

/// Cutting only at `c`, and joining the pieces with `c`, gives back the
/// text.
pub proof fn lemma_split_where_join(s: Seq<char>, cut: spec_fn(int) -> bool, c: char)
    requires
        forall|i: int| 0 <= i < s.len() && #[trigger] cut(i) ==> s[i] == c,
    ensures
        join_spec(split_where(s, cut), seq![c]) == s,
    decreases s.len(),
{
    if s.len() == 0 {
        assert(join_spec(split_where(s, cut), seq![c]) =~= s);
    } else {
        let t = s.drop_last();
        let x = s.last();
        let p = split_where(t, cut);
        assert forall|i: int| 0 <= i < t.len() && #[trigger] cut(i) implies t[i] == c by {
            assert(t[i] == s[i]);
        }
        lemma_split_where_join(t, cut, c);
        lemma_split_where_nonempty(t, cut);
        assert(s =~= t.push(x));
        if cut(s.len() - 1) {
            let q = p.push(Seq::<char>::empty());
            assert(q.drop_last() =~= p);
            assert(join_spec(q, seq![c]) =~= s);
        } else {
            let q = p.update(p.len() - 1, p.last().push(x));
            if p.len() == 1 {
                assert(join_spec(q, seq![c]) =~= s);
            } else {
                assert(q.drop_last() =~= p.drop_last());
                assert(q.last() == p.last().push(x));
                assert(join_spec(q, seq![c]) =~= s);
            }
        }
    }
}

/// The statement pieces joined with `;` give back the text: a statement
/// ends only at a `;`, and no other character is lost.
pub proof fn lemma_statement_pieces_join(dialect: Dialect, sql: Seq<char>)
    ensures
        join_spec(statement_pieces(dialect, sql), seq![';']) == sql,
{
    lemma_split_where_join(sql, cuts(dialect, sql), ';');
}

/// When every `;` of the text ends a statement (none stands inside a
/// string, a quoted identifier or a comment), the statement pieces are the
/// pieces between all the `;`s, as `split(';')` gives them.
pub proof fn lemma_plain_semicolons(dialect: Dialect, sql: Seq<char>)
    requires
        forall|i: int| 0 <= i < sql.len() && sql[i] == ';' ==> is_cut(dialect, sql, i),
    ensures
        statement_pieces(dialect, sql) == split_spec(sql, ';'),
{
    assert forall|i: int| 0 <= i < sql.len() implies #[trigger] cuts(dialect, sql)(i) == at_char(
        sql,
        ';',
    )(i) by {
        if sql[i] == ';' {
            assert(is_cut(dialect, sql, i));
        }
    }
    lemma_split_where_agree(sql, cuts(dialect, sql), at_char(sql, ';'));
}

/// The positions where the lines of the text begin.
fn line_starts_of(v: &Vec<char>) -> (r: Vec<usize>)
    ensures
        r@.len() == line_starts(v@).len(),
        forall|k: int| 0 <= k < r@.len() ==> r@[k] as int == line_starts(v@)[k],
        forall|k: int| 0 <= k < r@.len() ==> r@[k] <= v@.len(),
{
    let mut r: Vec<usize> = Vec::new();
    r.push(0);
    let mut i: usize = 0;
    while i < v.len()
        invariant
            i <= v.len(),
            r@.len() == line_starts(v@.take(i as int)).len(),
            forall|k: int| 0 <= k < r@.len() ==> r@[k] as int == line_starts(v@.take(i as int))[k],
            forall|k: int| 0 <= k < r@.len() ==> r@[k] <= i,
        decreases v.len() - i,
    {
        proof {
            let t = v@.take(i + 1);
            assert(t.drop_last() =~= v@.take(i as int));
            assert(t.last() == v@[i as int]);
        }
        if v[i] == '\n' {
            r.push(i + 1);
        }
        i = i + 1;
    }
    proof {
        assert(v@.take(v@.len() as int) =~= v@);
    }
    r
}

/// The position of a line and column in a text of `n` characters whose
/// lines begin at `starts`, when it lies within the text.
fn offset_of(starts: &Vec<usize>, n: usize, line: u64, column: u64, Ghost(s): Ghost<Seq<char>>) -> (r: Option<usize>)
    requires
        n == s.len(),
        starts@.len() == line_starts(s).len(),
        forall|k: int| 0 <= k < starts@.len() ==> starts@[k] as int == line_starts(s)[k],
        forall|k: int| 0 <= k < starts@.len() ==> starts@[k] <= n,
    ensures
        (match r {
            Some(o) => o as int == token_offset(s, line, column) && o < n,
            None => !(0 <= token_offset(s, line, column) < n),
        }),
{
    if line < 1 || column < 1 || line > starts.len() as u64 {
        return None;
    }
    let base = starts[(line - 1) as usize];
    if column - 1 >= (n - base) as u64 {
        return None;
    }
    Some(base + (column - 1) as usize)
}

/// The text cut into statement pieces: at each `;` where the dialect's
/// tokenizer finds a `;` token, or at every `;` when it rejects the text.
pub fn split_statements<'a>(s: &'a str, dialect: &Dialect) -> (r: Vec<&'a str>)
    ensures
        strs_view(r@) == statement_pieces(*dialect, s@),
{
    let v = chars_of(s);
    let n = v.len();
    let ghost cut = cuts(*dialect, s@);
    let mut marks: Vec<bool> = Vec::new();
    let mut i: usize = 0;
    while i < n
        invariant
            v@ == s@,
            n == v.len(),
            i <= n,
            marks@.len() == i,
            forall|j: int| 0 <= j < i ==> marks@[j] == false,
        decreases n - i,
    {
        marks.push(false);
        i = i + 1;
    }
    match tokens(s, dialect) {
        None => {
            let mut i: usize = 0;
            while i < n
                invariant
                    v@ == s@,
                    n == v.len(),
                    i <= n,
                    marks@.len() == n,
                    sql_tokens(*dialect, s@) is None,
                    forall|j: int| 0 <= j < i ==> marks@[j] == is_cut(*dialect, s@, j),
                decreases n - i,
            {
                marks.set(i, v[i] == ';');
                i = i + 1;
            }
        },
        Some(ts) => {
            let starts = line_starts_of(&v);
            let ghost tv = tokens_view(ts@);
            let mut k: usize = 0;
            while k < ts.len()
                invariant
                    v@ == s@,
                    n == v.len(),
                    marks@.len() == n,
                    k <= ts.len(),
                    tv == tokens_view(ts@),
                    sql_tokens(*dialect, s@) == Some(tv),
                    starts@.len() == line_starts(s@).len(),
                    forall|q: int| 0 <= q < starts@.len() ==> starts@[q] as int == line_starts(s@)[q],
                    forall|q: int| 0 <= q < starts@.len() ==> starts@[q] <= n,
                    forall|j: int|
                        0 <= j < n ==> marks@[j] == (s@[j] == ';' && exists|q: int|
                            0 <= q < k && (#[trigger] tv[q]).0 && token_offset(s@, tv[q].1, tv[q].2)
                                == j),
                decreases ts.len() - k,
            {
                let t = &ts[k];
                proof {
                    assert(tv[k as int] == token_view(ts@[k as int]));
                }
                if t.semicolon {
                    match offset_of(&starts, n, t.line, t.column, Ghost(s@)) {
                        Some(o) => {
                            if v[o] == ';' {
                                marks.set(o, true);
                            }
                        },
                        None => {},
                    }
                }
                proof {
                    assert forall|j: int| 0 <= j < n implies marks@[j] == (s@[j] == ';' && exists|q: int|
                        0 <= q < k + 1 && (#[trigger] tv[q]).0 && token_offset(s@, tv[q].1, tv[q].2)
                            == j) by {
                        if s@[j] == ';' && tv[k as int].0 && token_offset(s@, tv[k as int].1, tv[k as int].2) == j {
                            assert(marks@[j]);
                        }
                    }
                }
                k = k + 1;
            }
            proof {
                assert forall|j: int| 0 <= j < n implies marks@[j] == is_cut(*dialect, s@, j) by {
                    assert(tv.len() == ts@.len());
                    let found = exists|q: int|
                        0 <= q < tv.len() && (#[trigger] tv[q]).0 && token_offset(s@, tv[q].1, tv[q].2)
                            == j;
                    assert(sql_tokens(*dialect, s@) == Some(tv));
                    if found && s@[j] == ';' {
                        let q = choose|q: int|
                            0 <= q < tv.len() && (#[trigger] tv[q]).0 && token_offset(
                                s@,
                                tv[q].1,
                                tv[q].2,
                            ) == j;
                        assert(sql_tokens(*dialect, s@)->Some_0[q] == tv[q]);
                        assert(is_cut(*dialect, s@, j));
                    }
                    if is_cut(*dialect, s@, j) {
                        let ts2 = sql_tokens(*dialect, s@)->Some_0;
                        let q = choose|q: int|
                            0 <= q < ts2.len() && (#[trigger] ts2[q]).0 && token_offset(
                                s@,
                                ts2[q].1,
                                ts2[q].2,
                            ) == j;
                        assert(tv[q] == ts2[q]);
                        assert(found);
                    }
                    assert(marks@[j] == (s@[j] == ';' && found));
                }
            }
        },
    }
    let mut pieces: Vec<&'a str> = Vec::new();
    let mut start: usize = 0;
    let mut i: usize = 0;
    proof {
        assert(strs_view(pieces@) =~= Seq::<Seq<char>>::empty());
        assert(s@.subrange(0, 0) =~= Seq::<char>::empty());
        assert(strs_view(pieces@).push(s@.subrange(0, 0)) =~= split_where(s@.subrange(0, 0), cut));
    }
    while i < n
        invariant
            v@ == s@,
            n == v.len(),
            marks@.len() == n,
            cut == cuts(*dialect, s@),
            forall|j: int| 0 <= j < n ==> marks@[j] == is_cut(*dialect, s@, j),
            start <= i <= n,
            strs_view(pieces@).push(s@.subrange(start as int, i as int)) == split_where(
                s@.subrange(0, i as int),
                cut,
            ),
        decreases n - i,
    {
        proof {
            let t = s@.subrange(0, i + 1);
            assert(t.drop_last() =~= s@.subrange(0, i as int));
            assert(t.last() == v@[i as int]);
            assert(cut(i as int) == marks@[i as int]);
        }
        if marks[i] {
            let piece = s.substring_char(start, i);
            let ghost before = strs_view(pieces@);
            pieces.push(piece);
            proof {
                assert(strs_view(pieces@) =~= before.push(piece@));
                assert(s@.subrange((i + 1) as int, (i + 1) as int) =~= Seq::<char>::empty());
            }
            start = i + 1;
        } else {
            proof {
                assert(s@.subrange(start as int, (i + 1) as int) =~= s@.subrange(
                    start as int,
                    i as int,
                ).push(v@[i as int]));
                let p = split_where(s@.subrange(0, i as int), cut);
                assert(p.last() == s@.subrange(start as int, i as int));
                assert(strs_view(pieces@).push(s@.subrange(start as int, (i + 1) as int))
                    =~= p.update(p.len() - 1, p.last().push(v@[i as int])));
            }
        }
        i = i + 1;
    }
    let last = s.substring_char(start, n);
    let ghost before = strs_view(pieces@);
    pieces.push(last);
    proof {
        assert(strs_view(pieces@) =~= before.push(last@));
        assert(s@.subrange(0, n as int) =~= s@);
    }
    pieces
}

} // verus!
