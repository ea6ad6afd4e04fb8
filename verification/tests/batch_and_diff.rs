use sql_cli::batch::{plural_suffix, validate_batch};
use sql_cli::lex::split_statements;
use sql_cli::text::join;
use sql_cli::dialect::Dialect;
use sql_cli::diff::{diff_sql, ChangeKind, DiffOutcome};
use sql_cli::input::{sql_source, SqlSource};

#[test]
fn batch_reports_each_statement() {
    let report = validate_batch("SELECT 1;  SELEC 2 ;\n ;select a from t", &Dialect::Generic);
    assert_eq!(report.total(), 3);
    assert_eq!(report.entries[0].preview, "SELECT 1");
    assert!(report.entries[0].error.is_none());
    assert_eq!(report.entries[1].preview, "SELEC 2");
    assert!(report.entries[1].error.as_ref().unwrap().starts_with("sql parser error: "));
    assert_eq!(report.entries[2].preview, "select a from t");
    assert!(report.entries[2].error.is_none());
    assert_eq!(report.error_count(), 1);
    assert_eq!(report.exit_code(), 1);
}

#[test]
fn batch_of_valid_statements_succeeds() {
    let report = validate_batch("select 1; select 2;", &Dialect::PostgreSql);
    assert_eq!(report.total(), 2);
    assert_eq!(report.error_count(), 0);
    assert_eq!(report.exit_code(), 0);
}

#[test]
fn empty_batch_succeeds() {
    let report = validate_batch(" ; \n;  ", &Dialect::Generic);
    assert_eq!(report.total(), 0);
    assert_eq!(report.exit_code(), 0);
}

#[test]
fn batch_preview_is_cut_at_72_characters() {
    let long = format!("SELECT {} FROM t", "a".repeat(100));
    let report = validate_batch(&long, &Dialect::Generic);
    assert_eq!(report.entries[0].preview.chars().count(), 72);
    assert!(long.starts_with(&report.entries[0].preview));
}

#[test]
fn plural_suffixes() {
    assert_eq!(plural_suffix(1), "");
    assert_eq!(plural_suffix(0), "s");
    assert_eq!(plural_suffix(3), "s");
}

#[test]
fn same_statements_are_identical() {
    let d = diff_sql("select a from t", "SELECT   a FROM t", &Dialect::Generic);
    assert!(matches!(d, DiffOutcome::Identical));
    assert_eq!(d.exit_code(), 0);
}

#[test]
fn different_statements_show_line_changes() {
    let d = diff_sql("select a from t", "select a, b from t", &Dialect::Generic);
    assert_eq!(d.exit_code(), 1);
    match d {
        DiffOutcome::Different { sql, ast } => {
            assert_eq!(sql.len(), 2);
            assert_eq!(sql[0].kind, ChangeKind::Delete);
            assert_eq!(sql[0].value, "SELECT a FROM t");
            assert_eq!(sql[0].text(), "SELECT a FROM t\n");
            assert_eq!(sql[1].kind, ChangeKind::Insert);
            assert_eq!(sql[1].text(), "SELECT a, b FROM t\n");
            let ast = ast.unwrap();
            assert!(!ast.is_empty());
            assert!(ast.iter().all(|c| c.kind != ChangeKind::Equal));
        }
        other => panic!("unexpected {:?}", other),
    }
}

#[test]
fn multi_statement_diff_keeps_common_lines() {
    let d = diff_sql("select 1; select a from t", "select 1; select b from t", &Dialect::Generic);
    match d {
        DiffOutcome::Different { sql, .. } => {
            assert_eq!(sql[0].kind, ChangeKind::Equal);
            assert_eq!(sql[0].value, "SELECT 1;\n");
            assert_eq!(sql[0].text(), "SELECT 1;\n");
            let old: String = sql
                .iter()
                .filter(|c| c.kind != ChangeKind::Insert)
                .map(|c| c.value.as_str())
                .collect();
            let new: String = sql
                .iter()
                .filter(|c| c.kind != ChangeKind::Delete)
                .map(|c| c.value.as_str())
                .collect();
            for c in &sql {
                assert!(!c.value.is_empty());
                assert!(!c.value[..c.value.len() - 1].contains('\n'));
            }
            assert_eq!(old, "SELECT 1;\nSELECT a FROM t");
            assert_eq!(new, "SELECT 1;\nSELECT b FROM t");
        }
        other => panic!("unexpected {:?}", other),
    }
}

#[test]
fn diff_of_unparsable_sql_fails() {
    let d = diff_sql("SELEC", "select 1", &Dialect::Generic);
    assert!(matches!(d, DiffOutcome::FirstInvalid(_)));
    assert_eq!(d.exit_code(), 1);
    let d = diff_sql("select 1", "SELEC", &Dialect::Generic);
    assert!(matches!(d, DiffOutcome::SecondInvalid(ref m) if m.starts_with("sql parser error: ")));
}

#[test]
fn sql_source_prefers_inline_then_file() {
    assert!(matches!(
        sql_source(Some("select 1".to_string()), Some("f.sql".to_string())),
        SqlSource::Inline(ref s) if s == "select 1"
    ));
    assert!(matches!(
        sql_source(None, Some("f.sql".to_string())),
        SqlSource::File(ref f) if f == "f.sql"
    ));
    assert!(matches!(sql_source(None, None), SqlSource::Stdin));
}

#[test]
fn batch_statements_are_trimmed_and_free_of_separators() {
    let report = validate_batch("\t select 1 ;\n\n  select 2\t;  ", &Dialect::Generic);
    let previews: Vec<&str> = report.entries.iter().map(|e| e.preview.as_str()).collect();
    assert_eq!(previews, vec!["select 1", "select 2"]);
    for p in previews {
        assert!(!p.contains(';'));
        assert_eq!(p, p.trim());
    }
}

#[test]
fn statement_pieces_joined_give_back_the_text() {
    for c in ["a;b;;c", ";", "", "x; y ;z;", "select 'a;b'; -- c;d\nselect 2", "select 'open;"] {
        let pieces: Vec<String> =
            split_statements(c, &Dialect::Generic).into_iter().map(String::from).collect();
        assert_eq!(join(&pieces, ";"), c);
    }
}

#[test]
fn statements_split_at_semicolon_tokens() {
    let g = &Dialect::Generic;
    assert_eq!(split_statements("a;b;;c", g), vec!["a", "b", "", "c"]);
    assert_eq!(split_statements("SELECT 'a;b'", g), vec!["SELECT 'a;b'"]);
    assert_eq!(
        split_statements("SELECT \"x;y\" FROM t; SELECT 2", g),
        vec!["SELECT \"x;y\" FROM t", " SELECT 2"]
    );
    assert_eq!(
        split_statements("SELECT 1 -- a;b\n; SELECT /* c;d */ 2", g),
        vec!["SELECT 1 -- a;b\n", " SELECT /* c;d */ 2"]
    );
    assert_eq!(split_statements("SELECT 'it''s;'; x", g), vec!["SELECT 'it''s;'", " x"]);
    assert_eq!(
        split_statements("SELECT 1;\nSELECT 'é;';\n  SELECT 3", g),
        vec!["SELECT 1", "\nSELECT 'é;'", "\n  SELECT 3"]
    );
}

#[test]
fn statements_split_by_the_dialect() {
    assert_eq!(
        split_statements("SELECT [it's]; SELEC 2", &Dialect::MsSql),
        vec!["SELECT [it's]", " SELEC 2"]
    );
    assert_eq!(
        split_statements("SELECT 1 # it's; x\n; SELECT 2", &Dialect::MySql),
        vec!["SELECT 1 # it's; x\n", " SELECT 2"]
    );
    let report = validate_batch("SELECT [it's]; SELEC 2", &Dialect::MsSql);
    assert_eq!(report.total(), 2);
    assert!(report.entries[0].error.is_none());
    assert!(report.entries[1].error.is_some());
}

#[test]
fn text_the_tokenizer_rejects_is_cut_at_every_semicolon() {
    assert_eq!(
        split_statements("SELECT 1; SELECT 'open; x", &Dialect::Generic),
        vec!["SELECT 1", " SELECT 'open", " x"]
    );
}

#[test]
fn a_semicolon_inside_a_string_is_not_a_separator() {
    let report = validate_batch("SELECT 'a;b'", &Dialect::Generic);
    assert_eq!(report.total(), 1);
    assert_eq!(report.entries[0].preview, "SELECT 'a;b'");
    assert!(report.entries[0].error.is_none());
    assert_eq!(report.exit_code(), 0);
}
