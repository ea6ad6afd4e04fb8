use sql_cli::dialect::Dialect;
use sql_cli::repl::{
    dispatch_repl_command, format_sql, multiline_feed, multiline_sql, repl_step, CommandOutcome,
    ReplAction,
};

#[test]
fn blank_lines_do_nothing() {
    let s = repl_step(Dialect::Generic, "   \t");
    assert!(matches!(s.action, ReplAction::Skip));
    assert!(s.history.is_none());
    assert_eq!(s.dialect, Dialect::Generic);
}

#[test]
fn quit_and_help_commands() {
    for q in [":quit", ":q", "  :exit  "] {
        assert!(matches!(repl_step(Dialect::Generic, q).action, ReplAction::Quit));
    }
    for h in [":help", ":h"] {
        assert!(matches!(repl_step(Dialect::Generic, h).action, ReplAction::Help));
    }
    assert_eq!(repl_step(Dialect::Generic, "  :exit  ").history.as_deref(), Some(":exit"));
}

#[test]
fn dialect_command_switches_dialect() {
    let s = repl_step(Dialect::Generic, ":dialect  Postgres ");
    assert_eq!(s.dialect, Dialect::PostgreSql);
    assert!(matches!(s.action, ReplAction::SetDialect(Dialect::PostgreSql, ref n) if n == "Postgres"));
    let s = repl_step(Dialect::MySql, ":dialect nope");
    assert_eq!(s.dialect, Dialect::MySql);
    assert!(matches!(s.action, ReplAction::UnknownDialect(ref n) if n == "nope"));
    let s = repl_step(Dialect::Hive, ":dialect");
    assert_eq!(s.dialect, Dialect::Hive);
    assert!(matches!(s.action, ReplAction::ShowDialect));
}

#[test]
fn meta_commands_with_and_without_sql() {
    let s = repl_step(Dialect::Generic, ":ast   select 1 ");
    assert!(matches!(s.action, ReplAction::Command { ref cmd, ref sql } if cmd == "ast" && sql == "select 1"));
    let s = repl_step(Dialect::Generic, ":fmt");
    assert!(matches!(s.action, ReplAction::CommandNeedsSql { ref cmd } if cmd == "fmt"));
    let s = repl_step(Dialect::Generic, ":");
    assert!(matches!(s.action, ReplAction::CommandNeedsSql { ref cmd } if cmd.is_empty()));
}

#[test]
fn plain_lines_are_sql() {
    let s = repl_step(Dialect::Generic, "  select 1;  ");
    assert!(matches!(s.action, ReplAction::Sql(ref q) if q == "select 1;"));
    assert_eq!(s.history.as_deref(), Some("select 1;"));
}

#[test]
fn plain_sql_without_semicolon_goes_on() {
    let s = repl_step(Dialect::Generic, "  SELECT a  ");
    assert!(matches!(s.action, ReplAction::SqlContinues(ref q) if q == "SELECT a"));
    assert_eq!(s.history.as_deref(), Some("SELECT a"));
    let mut lines = vec!["SELECT a".to_string()];
    assert!(multiline_feed(&mut lines, "FROM t;"));
    let sql = multiline_sql(&lines);
    assert_eq!(sql, "SELECT a FROM t;");
    assert_eq!(format_sql(&sql, &Dialect::Generic).unwrap(), vec!["SELECT a FROM t".to_string()]);
    let mut lines = vec!["SELECT 1".to_string()];
    assert!(multiline_feed(&mut lines, ""));
    assert_eq!(multiline_sql(&lines), "SELECT 1");
}

#[test]
fn continuation_lines_end_at_blank_or_semicolon() {
    let mut lines = Vec::new();
    assert!(!multiline_feed(&mut lines, "select a  "));
    assert!(!multiline_feed(&mut lines, "  from t"));
    assert!(multiline_feed(&mut lines, "where x = 1;  "));
    assert_eq!(multiline_sql(&lines), "select a   from t where x = 1;");
    let mut lines = vec!["select 1".to_string()];
    assert!(multiline_feed(&mut lines, "   "));
    assert_eq!(lines.len(), 1);
    assert_eq!(multiline_sql(&lines), "select 1");
}

#[test]
fn dispatch_runs_commands() {
    match dispatch_repl_command("validate", "select 1; select 2", &Dialect::Generic) {
        CommandOutcome::Valid(n) => assert_eq!(n, 2),
        other => panic!("unexpected {:?}", other),
    }
    assert!(matches!(
        dispatch_repl_command("validate", "selec", &Dialect::Generic),
        CommandOutcome::Invalid(_)
    ));
    match dispatch_repl_command("format", "select  a from t", &Dialect::Generic) {
        CommandOutcome::Formatted(v) => assert_eq!(v, vec!["SELECT a FROM t".to_string()]),
        other => panic!("unexpected {:?}", other),
    }
    assert!(matches!(
        dispatch_repl_command("fmt", "selec", &Dialect::Generic),
        CommandOutcome::ParseError(_)
    ));
    match dispatch_repl_command("ast", "select 1", &Dialect::Generic) {
        CommandOutcome::Rendered(spans) => assert!(spans[0].text.starts_with("[\n")),
        other => panic!("unexpected {:?}", other),
    }
    match dispatch_repl_command("ast-tree", "select 1", &Dialect::Generic) {
        CommandOutcome::Rendered(spans) => assert_eq!(spans[0].text, "└── ["),
        other => panic!("unexpected {:?}", other),
    }
    match dispatch_repl_command("ast-yaml", "select 1", &Dialect::Generic) {
        CommandOutcome::Rendered(spans) => assert!(spans[0].text.contains("Query")),
        other => panic!("unexpected {:?}", other),
    }
    assert!(matches!(
        dispatch_repl_command("bogus", "select 1", &Dialect::Generic),
        CommandOutcome::Unknown(ref c) if c == "bogus"
    ));
}

#[test]
fn format_sql_prints_each_statement() {
    assert_eq!(
        format_sql("select 1; select a from t", &Dialect::Generic).unwrap(),
        vec!["SELECT 1".to_string(), "SELECT a FROM t".to_string()]
    );
    assert!(format_sql("selec", &Dialect::Generic).is_err());
}
