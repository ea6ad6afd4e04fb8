//! The decisions of the interactive session: what a line typed at the
//! prompt asks for, how continuation lines are gathered, and what each
//! meta-command shows.

use vstd::prelude::*;
use crate::dialect::{dialect_named, lowercase, parse_dialect_str, Dialect};
use crate::render::{
    ast_output, json_error_text, json_pretty_text, plain, render_ast, tree_document, yaml_outcome,
    OutputFormat,
};
use crate::sql::{format_statements, parse, parse_outcome, statement_texts};
use crate::text::{
    is_first_index, trim_start_spec,
    join, join_spec, split_once, split_once_spec, str_eq, strings_view, trim, trim_end,
    trim_end_spec, trim_spec,
};
use crate::tree::{spans_view, tree_lines, Span, Style};

verus! {

/// What a line typed at the prompt asks for.
#[derive(Debug)]
pub enum ReplAction {
    /// A blank line: nothing.
    Skip,
    /// `:quit`, `:q` or `:exit`.
    Quit,
    /// `:help` or `:h`.
    Help,
    /// `:dialect <name>` with a known name: the new dialect and the name as
    /// typed.
    SetDialect(Dialect, String),
    /// `:dialect <name>` with an unknown name, as typed.
    UnknownDialect(String),
    /// `:dialect` alone: show the current dialect.
    ShowDialect,
    /// Another meta-command with its SQL on the same line.
    Command { cmd: String, sql: String },
    /// Another meta-command whose SQL follows on the next lines.
    CommandNeedsSql { cmd: String },
    /// Plain SQL ending in `;`, to be parsed and printed back.
    Sql(String),
    /// The first line of plain SQL that goes on over the next lines, until
    /// a line ending in `;` or a blank line.
    SqlContinues(String),
}

/// A `ReplAction` over plain values.
pub enum ReplActionView {
    Skip,
    Quit,
    Help,
    SetDialect(Dialect, Seq<char>),
    UnknownDialect(Seq<char>),
    ShowDialect,
    Command(Seq<char>, Seq<char>),
    CommandNeedsSql(Seq<char>),
    Sql(Seq<char>),
    SqlContinues(Seq<char>),
}

impl View for ReplAction {
    type V = ReplActionView;

    open spec fn view(&self) -> ReplActionView {
        match self {
            ReplAction::Skip => ReplActionView::Skip,
            ReplAction::Quit => ReplActionView::Quit,
            ReplAction::Help => ReplActionView::Help,
            ReplAction::SetDialect(d, n) => ReplActionView::SetDialect(*d, n@),
            ReplAction::UnknownDialect(n) => ReplActionView::UnknownDialect(n@),
            ReplAction::ShowDialect => ReplActionView::ShowDialect,
            ReplAction::Command { cmd, sql } => ReplActionView::Command(cmd@, sql@),
            ReplAction::CommandNeedsSql { cmd } => ReplActionView::CommandNeedsSql(cmd@),
            ReplAction::Sql(s) => ReplActionView::Sql(s@),
            ReplAction::SqlContinues(s) => ReplActionView::SqlContinues(s@),
        }
    }
}

/// One step of the session: the dialect after the line, the entry to keep
/// in the history (the trimmed line, unless it was blank), and the action.
#[derive(Debug)]
pub struct ReplStep {
    pub dialect: Dialect,
    pub history: Option<String>,
    pub action: ReplAction,
}

/// A step over plain values.
pub open spec fn step_view(s: ReplStep) -> (Dialect, Option<Seq<char>>, ReplActionView) {
    (
        s.dialect,
        match s.history {
            Some(h) => Some(h@),
            None => None,
        },
        s.action@,
    )
}

/// What a meta-command (the text after `:`) asks for, in the current
/// dialect. It is cut at its first space into a name and an argument.
pub open spec fn command_spec(current: Dialect, cmd: Seq<char>) -> (Dialect, ReplActionView) {
    let head = split_once_spec(cmd, ' ').0;
    let rest = split_once_spec(cmd, ' ').1;
    if head == "quit"@ || head == "q"@ || head == "exit"@ {
        (current, ReplActionView::Quit)
    } else if head == "help"@ || head == "h"@ {
        (current, ReplActionView::Help)
    } else if head == "dialect"@ {
        match rest {
            Some(d) => {
                let name = trim_spec(d);
                match dialect_named(lowercase(name)) {
                    Some(nd) => (nd, ReplActionView::SetDialect(nd, name)),
                    None => (current, ReplActionView::UnknownDialect(name)),
                }
            },
            None => (current, ReplActionView::ShowDialect),
        }
    } else {
        match rest {
            Some(x) => if trim_spec(x).len() > 0 {
                (current, ReplActionView::Command(head, trim_spec(x)))
            } else {
                (current, ReplActionView::CommandNeedsSql(head))
            },
            None => (current, ReplActionView::CommandNeedsSql(head)),
        }
    }
}

/// What a line typed at the prompt asks for, in the current dialect: a
/// blank line nothing; a line starting with `:` a meta-command; any other
/// line is SQL, complete when it ends in `;` and otherwise the first line
/// of SQL that goes on over the next lines.
pub open spec fn repl_spec(current: Dialect, line: Seq<char>) -> (
    Dialect,
    Option<Seq<char>>,
    ReplActionView,
) {
    let t = trim_spec(line);
    if t.len() == 0 {
        (current, None, ReplActionView::Skip)
    } else if t[0] == ':' {
        let (d, a) = command_spec(current, t.subrange(1, t.len() as int));
        (d, Some(t), a)
    } else if t.last() == ';' {
        (current, Some(t), ReplActionView::Sql(t))
    } else {
        (current, Some(t), ReplActionView::SqlContinues(t))
    }
}

/// A meta-command other than quit, help and dialect, typed as its name and
/// an argument after a space: with a non-blank argument it runs on the
/// argument, trimmed; with none it takes its SQL from the next lines.
pub proof fn lemma_meta_command(current: Dialect, line: Seq<char>, cmd: Seq<char>, rest: Seq<char>)
    requires
        trim_spec(line) == seq![':'] + cmd + rest,
        !cmd.contains(' '),
        cmd != "quit"@ && cmd != "q"@ && cmd != "exit"@ && cmd != "help"@ && cmd != "h"@ && cmd
            != "dialect"@,
        rest.len() == 0 || rest[0] == ' ',
    ensures
        repl_spec(current, line) == (current, Some(trim_spec(line)), if trim_spec(rest).len() > 0 {
            ReplActionView::Command(cmd, trim_spec(rest))
        } else {
            ReplActionView::CommandNeedsSql(cmd)
        }),
{
    let t = trim_spec(line);
    let c = cmd + rest;
    assert(t.subrange(1, t.len() as int) =~= c);
    assert(t[0] == ':');
    if rest.len() == 0 {
        assert(c =~= cmd);
        assert(trim_spec(rest) =~= rest);
    } else {
        let i = cmd.len() as int;
        assert(is_first_index(c, ' ', i)) by {
            assert forall|j: int| 0 <= j < i implies c[j] != ' ' by {
                assert(c[j] == cmd[j]);
            }
        }
        assert(c.contains(' '));
        let k = choose|k: int| is_first_index(c, ' ', k);
        assert(k == i) by {
            if k < i {
                assert(c[k] == cmd[k]);
                assert(cmd.contains(' '));
            } else if k > i {
                assert(c[i] != ' ');
            }
        }
        assert(c.subrange(0, i) =~= cmd);
        assert(c.subrange(i + 1, c.len() as int) =~= rest.drop_first());
        assert(trim_start_spec(rest) == trim_start_spec(rest.drop_first()));
    }
}

fn command_step(current: Dialect, cmd: &str) -> (r: (Dialect, ReplAction))
    ensures
        (r.0, r.1@) == command_spec(current, cmd@),
{
    let (head, rest) = split_once(cmd, ' ');
    if str_eq(head, "quit") || str_eq(head, "q") || str_eq(head, "exit") {
        (current, ReplAction::Quit)
    } else if str_eq(head, "help") || str_eq(head, "h") {
        (current, ReplAction::Help)
    } else if str_eq(head, "dialect") {
        match rest {
            Some(d) => {
                let name = trim(d);
                match parse_dialect_str(name) {
                    Some(nd) => (nd, ReplAction::SetDialect(nd, String::from_str(name))),
                    None => (current, ReplAction::UnknownDialect(String::from_str(name))),
                }
            },
            None => (current, ReplAction::ShowDialect),
        }
    } else {
        match rest {
            Some(x) => {
                let inline = trim(x);
                if inline.unicode_len() > 0 {
                    (
                        current,
                        ReplAction::Command {
                            cmd: String::from_str(head),
                            sql: String::from_str(inline),
                        },
                    )
                } else {
                    (current, ReplAction::CommandNeedsSql { cmd: String::from_str(head) })
                }
            },
            None => (current, ReplAction::CommandNeedsSql { cmd: String::from_str(head) }),
        }
    }
}

/// Decides what a line typed at the prompt asks for.
pub fn repl_step(current: Dialect, line: &str) -> (r: ReplStep)
    ensures
        step_view(r) == repl_spec(current, line@),
{
    let t = trim(line);
    let n = t.unicode_len();
    if n == 0 {
        return ReplStep { dialect: current, history: None, action: ReplAction::Skip };
    }
    if t.get_char(0) == ':' {
        let (d, a) = command_step(current, t.substring_char(1, n));
        ReplStep { dialect: d, history: Some(String::from_str(t)), action: a }
    } else if t.get_char(n - 1) == ';' {
        ReplStep {
            dialect: current,
            history: Some(String::from_str(t)),
            action: ReplAction::Sql(String::from_str(t)),
        }
    } else {
        ReplStep {
            dialect: current,
            history: Some(String::from_str(t)),
            action: ReplAction::SqlContinues(String::from_str(t)),
        }
    }
}

/// Takes one continuation line of multi-line SQL: the line, without its
/// trailing whitespace, is kept unless blank; input ends at a blank line or
/// at a line ending in `;`. Returns whether input has ended.
pub fn multiline_feed(lines: &mut Vec<String>, line: &str) -> (done: bool)
    ensures
        done == (trim_end_spec(line@).len() == 0 || trim_end_spec(line@).last() == ';'),
        strings_view(final(lines)@) == (if trim_end_spec(line@).len() == 0 {
            strings_view(old(lines)@)
        } else {
            strings_view(old(lines)@).push(trim_end_spec(line@))
        }),
{
    let t = trim_end(line);
    let n = t.unicode_len();
    if n == 0 {
        return true;
    }
    let ghost before = strings_view(lines@);
    let done = t.get_char(n - 1) == ';';
    lines.push(String::from_str(t));
    proof {
        assert(strings_view(lines@) =~= before.push(t@));
    }
    done
}

/// The SQL gathered from continuation lines: the lines joined by spaces.
pub fn multiline_sql(lines: &Vec<String>) -> (r: String)
    ensures
        r@ == join_spec(strings_view(lines@), " "@),
{
    join(lines, " ")
}

/// The statements of `sql` printed back as normalised SQL, or the parser's
/// message.
pub fn format_sql(sql: &str, dialect: &Dialect) -> (r: Result<Vec<String>, String>)
    ensures
        (match parse_outcome(sql@, *dialect) {
            Ok(s) => r is Ok && strings_view(r->Ok_0@) == statement_texts(s),
            Err(m) => r is Err && r->Err_0@ == m,
        }),
{
    match parse(sql, dialect) {
        Ok(stmts) => Ok(format_statements(&stmts)),
        Err(e) => Err(e),
    }
}

/// What a meta-command with its SQL shows.
#[derive(Debug)]
pub enum CommandOutcome {
    /// The SQL does not parse; the parser's message.
    ParseError(String),
    /// The rendered AST.
    Rendered(Vec<Span>),
    /// The AST could not be rendered; the message.
    RenderError(String),
    /// Each statement as normalised SQL.
    Formatted(Vec<String>),
    /// `:validate` on SQL that parses: the number of statements.
    Valid(usize),
    /// `:validate` on SQL that does not parse: the parser's message.
    Invalid(String),
    /// A command that does not exist, by name.
    Unknown(String),
}

/// A `CommandOutcome` over plain values.
pub enum CommandView {
    ParseError(Seq<char>),
    Rendered(Seq<(Style, Seq<char>)>),
    RenderError(Seq<char>),
    Formatted(Seq<Seq<char>>),
    Valid(nat),
    Invalid(Seq<char>),
    Unknown(Seq<char>),
}

impl View for CommandOutcome {
    type V = CommandView;

    open spec fn view(&self) -> CommandView {
        match self {
            CommandOutcome::ParseError(m) => CommandView::ParseError(m@),
            CommandOutcome::Rendered(s) => CommandView::Rendered(spans_view(s@)),
            CommandOutcome::RenderError(m) => CommandView::RenderError(m@),
            CommandOutcome::Formatted(v) => CommandView::Formatted(strings_view(v@)),
            CommandOutcome::Valid(n) => CommandView::Valid(*n as nat),
            CommandOutcome::Invalid(m) => CommandView::Invalid(m@),
            CommandOutcome::Unknown(c) => CommandView::Unknown(c@),
        }
    }
}

/// The rendered AST of the statements in a format, or the message.
pub open spec fn rendered_view(stmts: Seq<sqlparser::ast::Statement>, fmt: OutputFormat) -> CommandView {
    match ast_output(stmts, fmt) {
        Ok(o) => CommandView::Rendered(o),
        Err(m) => CommandView::RenderError(m),
    }
}

/// What the meta-command `cmd` shows for `sql` in a dialect: `ast`,
/// `ast-yaml` and `ast-tree` the AST as indented JSON, YAML or a tree;
/// `fmt` and `format` the normalised SQL; `validate` whether the SQL
/// parses and into how many statements; any other name is unknown.
pub open spec fn dispatch_spec(cmd: Seq<char>, sql: Seq<char>, dialect: Dialect) -> CommandView {
    let p = parse_outcome(sql, dialect);
    if cmd == "ast"@ {
        match p {
            Err(m) => CommandView::ParseError(m),
            Ok(s) => rendered_view(s, OutputFormat::JsonPretty),
        }
    } else if cmd == "ast-yaml"@ {
        match p {
            Err(m) => CommandView::ParseError(m),
            Ok(s) => rendered_view(s, OutputFormat::Yaml),
        }
    } else if cmd == "ast-tree"@ {
        match p {
            Err(m) => CommandView::ParseError(m),
            Ok(s) => CommandView::Rendered(tree_lines(tree_document(s), Seq::<char>::empty())),
        }
    } else if cmd == "fmt"@ || cmd == "format"@ {
        match p {
            Err(m) => CommandView::ParseError(m),
            Ok(s) => CommandView::Formatted(statement_texts(s)),
        }
    } else if cmd == "validate"@ {
        match p {
            Err(m) => CommandView::Invalid(m),
            Ok(s) => CommandView::Valid(s.len()),
        }
    } else {
        CommandView::Unknown(cmd)
    }
}

/// What each meta-command shows for SQL that parses, in terms of the
/// renderings: `:ast` the indented JSON of the statements, `:ast-yaml`
/// their YAML, `:ast-tree` their tree, `:fmt` and `:format` their
/// normalised SQL, `:validate` their number; a failed rendering shows its
/// message.
pub proof fn lemma_commands_on_valid_sql(sql: Seq<char>, dialect: Dialect)
    requires
        parse_outcome(sql, dialect) is Ok,
    ensures
        dispatch_spec("ast"@, sql, dialect) == match json_pretty_text(
            parse_outcome(sql, dialect)->Ok_0,
        ) {
            Ok(t) => CommandView::Rendered(plain(t)),
            Err(e) => CommandView::RenderError(json_error_text(e)),
        },
        dispatch_spec("ast-yaml"@, sql, dialect) == match yaml_outcome(
            parse_outcome(sql, dialect)->Ok_0,
        ) {
            Ok(t) => CommandView::Rendered(plain(t)),
            Err(m) => CommandView::RenderError(m),
        },
        dispatch_spec("ast-tree"@, sql, dialect) == CommandView::Rendered(
            tree_lines(tree_document(parse_outcome(sql, dialect)->Ok_0), Seq::<char>::empty()),
        ),
        dispatch_spec("fmt"@, sql, dialect) == CommandView::Formatted(
            statement_texts(parse_outcome(sql, dialect)->Ok_0),
        ),
        dispatch_spec("format"@, sql, dialect) == CommandView::Formatted(
            statement_texts(parse_outcome(sql, dialect)->Ok_0),
        ),
        dispatch_spec("validate"@, sql, dialect) == CommandView::Valid(
            parse_outcome(sql, dialect)->Ok_0.len(),
        ),
{
    reveal_strlit("ast");
    reveal_strlit("ast-yaml");
    reveal_strlit("ast-tree");
    reveal_strlit("fmt");
    reveal_strlit("format");
    reveal_strlit("validate");
    assert("ast"@ =~= seq!['a', 's', 't']);
    assert("ast-yaml"@ =~= seq!['a', 's', 't', '-', 'y', 'a', 'm', 'l']);
    assert("ast-tree"@ =~= seq!['a', 's', 't', '-', 't', 'r', 'e', 'e']);
    assert("fmt"@ =~= seq!['f', 'm', 't']);
    assert("format"@ =~= seq!['f', 'o', 'r', 'm', 'a', 't']);
    assert("validate"@ =~= seq!['v', 'a', 'l', 'i', 'd', 'a', 't', 'e']);
}

/// On SQL that does not parse, every meta-command that takes SQL shows the
/// parser's message (as a failed validation for `:validate`), and an
/// unknown command shows its own name.
pub proof fn lemma_commands_on_invalid_sql(sql: Seq<char>, dialect: Dialect, cmd: Seq<char>)
    requires
        parse_outcome(sql, dialect) is Err,
    ensures
        cmd == "ast"@ || cmd == "ast-yaml"@ || cmd == "ast-tree"@ || cmd == "fmt"@ || cmd
            == "format"@ ==> dispatch_spec(cmd, sql, dialect) == CommandView::ParseError(
            parse_outcome(sql, dialect)->Err_0,
        ),
        cmd == "validate"@ ==> dispatch_spec(cmd, sql, dialect) == CommandView::Invalid(
            parse_outcome(sql, dialect)->Err_0,
        ),
        !(cmd == "ast"@ || cmd == "ast-yaml"@ || cmd == "ast-tree"@ || cmd == "fmt"@ || cmd
            == "format"@ || cmd == "validate"@) ==> dispatch_spec(cmd, sql, dialect)
            == CommandView::Unknown(cmd),
{
    lemma_command_names_distinct();
}

proof fn lemma_command_names_distinct()
    ensures
        "ast"@ != "ast-yaml"@,
        "ast"@ != "ast-tree"@,
        "ast-yaml"@ != "ast-tree"@,
        "fmt"@ != "format"@,
        "validate"@ != "ast"@ && "validate"@ != "ast-yaml"@ && "validate"@ != "ast-tree"@
            && "validate"@ != "fmt"@ && "validate"@ != "format"@,
{
    reveal_strlit("validate");
    reveal_strlit("ast");
    reveal_strlit("ast-yaml");
    reveal_strlit("ast-tree");
    reveal_strlit("fmt");
    reveal_strlit("format");
    assert("ast-yaml"@ =~= seq!['a', 's', 't', '-', 'y', 'a', 'm', 'l']);
    assert("ast-tree"@ =~= seq!['a', 's', 't', '-', 't', 'r', 'e', 'e']);
    assert("validate"@ =~= seq!['v', 'a', 'l', 'i', 'd', 'a', 't', 'e']);
    assert("validate"@[0] != "ast-yaml"@[0]);
    assert("validate"@[0] != "ast-tree"@[0]);
    assert("validate"@.len() != "ast"@.len());
    assert("validate"@.len() != "fmt"@.len());
    assert("validate"@.len() != "format"@.len());
    assert("ast"@.len() != "ast-yaml"@.len());
    assert("ast"@.len() != "ast-tree"@.len());
    assert("ast-yaml"@[4] != "ast-tree"@[4]);
    assert("fmt"@ =~= seq!['f', 'm', 't']);
    assert("fmt"@.len() != "format"@.len());
}

fn render_command(sql: &str, dialect: &Dialect, fmt: OutputFormat) -> (r: CommandOutcome)
    ensures
        r@ == (match parse_outcome(sql@, *dialect) {
            Err(m) => CommandView::ParseError(m),
            Ok(s) => rendered_view(s, fmt),
        }),
{
    match parse(sql, dialect) {
        Err(e) => CommandOutcome::ParseError(e),
        Ok(stmts) => match render_ast(stmts.as_slice(), &fmt) {
            Ok(s) => CommandOutcome::Rendered(s),
            Err(e) => CommandOutcome::RenderError(e),
        },
    }
}

/// Runs a meta-command on its SQL.
pub fn dispatch_repl_command(cmd: &str, sql: &str, dialect: &Dialect) -> (r: CommandOutcome)
    ensures
        r@ == dispatch_spec(cmd@, sql@, *dialect),
{
    if str_eq(cmd, "ast") {
        render_command(sql, dialect, OutputFormat::JsonPretty)
    } else if str_eq(cmd, "ast-yaml") {
        render_command(sql, dialect, OutputFormat::Yaml)
    } else if str_eq(cmd, "ast-tree") {
        render_command(sql, dialect, OutputFormat::Tree)
    } else if str_eq(cmd, "fmt") || str_eq(cmd, "format") {
        match parse(sql, dialect) {
            Err(e) => CommandOutcome::ParseError(e),
            Ok(stmts) => CommandOutcome::Formatted(format_statements(&stmts)),
        }
    } else if str_eq(cmd, "validate") {
        match parse(sql, dialect) {
            Err(e) => CommandOutcome::Invalid(e),
            Ok(stmts) => CommandOutcome::Valid(stmts.len()),
        }
    } else {
        CommandOutcome::Unknown(String::from_str(cmd))
    }
}

} // verus!
