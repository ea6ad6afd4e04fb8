//! Comparing two pieces of SQL: first as normalised SQL text, then, when
//! they differ, line by line and as indented JSON ASTs.

use vstd::prelude::*;
use sqlparser::ast::Statement;
use crate::dialect::Dialect;
use crate::render::{json_pretty_text, to_json_string_pretty};
use crate::sql::{format_statements, parse, parse_outcome, statement_texts};
use crate::text::{join, join_spec, str_eq};

verus! {

/// Whether a line is common to both texts, only in the first, or only in
/// the second.
#[derive(Clone, Copy, PartialEq, Eq, Debug, Structural)]
pub enum ChangeKind {
    Equal,
    Delete,
    Insert,
}

/// One line of a line diff: its kind and the line as it stands in the text
/// (with its line terminator, if it has one).
#[derive(Debug)]
pub struct LineChange {
    pub kind: ChangeKind,
    pub value: String,
}

/// A line change as a pair of its kind and its characters.
pub open spec fn change_view(c: LineChange) -> (ChangeKind, Seq<char>) {
    (c.kind, c.value@)
}

/// The views of a sequence of line changes.
pub open spec fn changes_view(v: Seq<LineChange>) -> Seq<(ChangeKind, Seq<char>)> {
    v.map_values(|c: LineChange| change_view(c))
}

/// Whether a line ends in a line terminator (`\n` or `\r`).
pub open spec fn ends_with_newline(v: Seq<char>) -> bool {
    v.len() > 0 && (v.last() == '\n' || v.last() == '\r')
}

/// How a change's line is shown: as it is, with a newline added when it
/// has no line terminator (the last line of a text may have none).
pub open spec fn change_display(v: Seq<char>) -> Seq<char> {
    if ends_with_newline(v) {
        v
    } else {
        v.push('\n')
    }
}

/// Whether `v` is one line: not empty, with a line terminator (`\n`, `\r`
/// or `\r\n`) only at its end.
pub open spec fn is_one_line(v: Seq<char>) -> bool {
    &&& v.len() > 0
    &&& forall|j: int|
        0 <= j < v.len() - 1 ==> #[trigger] v[j] != '\n' && (v[j] == '\r' ==> j == v.len() - 2
            && v[v.len() - 1] == '\n')
}

/// Whether every change of a diff holds one line.
pub open spec fn all_one_line(cs: Seq<(ChangeKind, Seq<char>)>) -> bool {
    forall|i: int| 0 <= i < cs.len() ==> is_one_line(#[trigger] cs[i].1)
}

/// The text that the unchanged and deleted lines of a diff spell out.
pub open spec fn old_side(cs: Seq<(ChangeKind, Seq<char>)>) -> Seq<char>
    decreases cs.len(),
{
    if cs.len() == 0 {
        Seq::<char>::empty()
    } else {
        old_side(cs.drop_last()) + if cs.last().0 != ChangeKind::Insert {
            cs.last().1
        } else {
            Seq::<char>::empty()
        }
    }
}

/// The text that the unchanged and inserted lines of a diff spell out.
pub open spec fn new_side(cs: Seq<(ChangeKind, Seq<char>)>) -> Seq<char>
    decreases cs.len(),
{
    if cs.len() == 0 {
        Seq::<char>::empty()
    } else {
        new_side(cs.drop_last()) + if cs.last().0 != ChangeKind::Delete {
            cs.last().1
        } else {
            Seq::<char>::empty()
        }
    }
}

/// The line diff that `similar::TextDiff::from_lines` computes from `old`
/// to `new`: each change's kind and line.
pub uninterp spec fn line_diff(old: Seq<char>, new: Seq<char>) -> Seq<(ChangeKind, Seq<char>)>;

/// `similar::TextDiff::from_lines` and `iter_all_changes`: each change's
/// tag and line, in order, named `line_diff`. The lines split both texts
/// completely, so the unchanged and deleted lines spell out `old`, and the
/// unchanged and inserted lines spell out `new`; each change holds one
/// line, which ends at its line terminator, if it has one.
#[verifier::external_body]
fn diff_lines(old: &str, new: &str) -> (r: Vec<LineChange>)
    ensures
        changes_view(r@) == line_diff(old@, new@),
        all_one_line(changes_view(r@)),
        old_side(changes_view(r@)) == old@,
        new_side(changes_view(r@)) == new@,
{
    similar::TextDiff::from_lines(old, new)
        .iter_all_changes()
        .map(|c| LineChange {
            kind: match c.tag() {
                similar::ChangeTag::Equal => ChangeKind::Equal,
                similar::ChangeTag::Delete => ChangeKind::Delete,
                similar::ChangeTag::Insert => ChangeKind::Insert,
            },
            value: c.value().to_string(),
        })
        .collect()
}

impl LineChange {
    /// The line as a diff shows it: with a newline added when it has no
    /// line terminator.
    pub fn text(&self) -> (r: String)
        ensures
            r@ == change_display(self.value@),
    {
        let v = self.value.as_str();
        let n = v.unicode_len();
        let mut out = String::from_str(v);
        if n > 0 && (v.get_char(n - 1) == '\n' || v.get_char(n - 1) == '\r') {
            out
        } else {
            out.append("\n");
            proof {
                reveal_strlit("\n");
            }
            out
        }
    }
}

/// The result of comparing two pieces of SQL.
#[derive(Debug)]
pub enum DiffOutcome {
    /// The first piece does not parse; the parser's message.
    FirstInvalid(String),
    /// The second piece does not parse; the parser's message.
    SecondInvalid(String),
    /// Both normalise to the same SQL.
    Identical,
    /// They differ: the line diff of the normalised SQL, and the changed
    /// lines of the JSON ASTs when those differ too.
    Different { sql: Vec<LineChange>, ast: Option<Vec<LineChange>> },
}

/// What a comparison shows, over plain values.
pub enum DiffView {
    FirstInvalid(Seq<char>),
    SecondInvalid(Seq<char>),
    Identical,
    Different(Seq<(ChangeKind, Seq<char>)>, Option<Seq<(ChangeKind, Seq<char>)>>),
}

impl View for DiffOutcome {
    type V = DiffView;

    open spec fn view(&self) -> DiffView {
        match self {
            DiffOutcome::FirstInvalid(m) => DiffView::FirstInvalid(m@),
            DiffOutcome::SecondInvalid(m) => DiffView::SecondInvalid(m@),
            DiffOutcome::Identical => DiffView::Identical,
            DiffOutcome::Different { sql, ast } => DiffView::Different(
                changes_view(sql@),
                match ast {
                    Some(a) => Some(changes_view(a@)),
                    None => None,
                },
            ),
        }
    }
}

/// The statements as one normalised SQL text, separated by `;` and a
/// newline.
pub open spec fn formatted_sql(stmts: Seq<Statement>) -> Seq<char> {
    join_spec(statement_texts(stmts), ";\n"@)
}

/// The indented JSON of the statements, or nothing when it cannot be had.
pub open spec fn pretty_ast(stmts: Seq<Statement>) -> Seq<char> {
    match json_pretty_text(stmts) {
        Ok(t) => t,
        Err(_) => Seq::<char>::empty(),
    }
}

/// Whether a change is not an unchanged line.
pub open spec fn is_edit(c: (ChangeKind, Seq<char>)) -> bool {
    c.0 != ChangeKind::Equal
}

/// The predicate that keeps the edits of a diff.
pub open spec fn edit_filter() -> spec_fn((ChangeKind, Seq<char>)) -> bool {
    |c: (ChangeKind, Seq<char>)| is_edit(c)
}

/// What comparing `sql1` with `sql2` in a dialect shows.
pub open spec fn diff_spec(sql1: Seq<char>, sql2: Seq<char>, dialect: Dialect) -> DiffView {
    match parse_outcome(sql1, dialect) {
        Err(m) => DiffView::FirstInvalid(m),
        Ok(s1) => match parse_outcome(sql2, dialect) {
            Err(m) => DiffView::SecondInvalid(m),
            Ok(s2) => {
                let f1 = formatted_sql(s1);
                let f2 = formatted_sql(s2);
                if f1 == f2 {
                    DiffView::Identical
                } else {
                    let a1 = pretty_ast(s1);
                    let a2 = pretty_ast(s2);
                    DiffView::Different(
                        line_diff(f1, f2),
                        if a1 == a2 {
                            None
                        } else {
                            Some(line_diff(a1, a2).filter(edit_filter()))
                        },
                    )
                }
            },
        },
    }
}

/// The exit status of a comparison: 0 when the two pieces are the same
/// statements, 1 otherwise.
pub open spec fn diff_status(v: DiffView) -> i32 {
    match v {
        DiffView::Identical => 0,
        _ => 1,
    }
}

impl DiffOutcome {
    /// The exit status of the comparison.
    pub fn exit_code(&self) -> (r: i32)
        ensures
            r == diff_status(self@),
    {
        match self {
            DiffOutcome::Identical => 0,
            _ => 1,
        }
    }
}

fn formatted(stmts: &Vec<Statement>) -> (r: String)
    ensures
        r@ == formatted_sql(stmts@),
{
    let texts = format_statements(stmts);
    join(&texts, ";\n")
}

fn pretty_or_empty(stmts: &Vec<Statement>) -> (r: String)
    ensures
        r@ == pretty_ast(stmts@),
{
    match to_json_string_pretty(stmts.as_slice()) {
        Ok(t) => t,
        Err(_) => String::new(),
    }
}

fn edits_only(changes: Vec<LineChange>) -> (r: Vec<LineChange>)
    ensures
        changes_view(r@) == changes_view(changes@).filter(edit_filter()),
{
    let ghost all = changes_view(changes@);
    let ghost p = edit_filter();
    let mut out: Vec<LineChange> = Vec::new();
    let mut rest = changes;
    let ghost n = all.len();
    proof {
        assert(changes_view(out@) =~= all.take(0).filter(p)) by {
            reveal_with_fuel(Seq::<(ChangeKind, Seq<char>)>::filter, 1);
        }
    }
    while rest.len() > 0
        invariant
            n == all.len(),
            p == edit_filter(),
            rest.len() <= n,
            changes_view(rest@) == all.skip(n - rest.len()),
            changes_view(out@) == all.take(n - rest.len()).filter(p),
        decreases rest.len(),
    {
        let ghost i = n - rest.len();
        let ghost before_rest = changes_view(rest@);
        let c = rest.remove(0);
        proof {
            assert(change_view(c) == all[i]) by {
                assert(all.skip(i)[0] == all[i]);
            }
            assert(all.take(i + 1) =~= all.take(i).push(all[i]));
            all.take(i).lemma_filter_push(all[i], p);
            assert(changes_view(rest@) =~= before_rest.subrange(1, before_rest.len() as int));
            assert(all.skip(i).subrange(1, all.skip(i).len() as int) =~= all.skip(i + 1));
            assert(p(all[i]) == (c.kind != ChangeKind::Equal));
        }
        if c.kind != ChangeKind::Equal {
            let ghost before = changes_view(out@);
            out.push(c);
            proof {
                assert(changes_view(out@) =~= before.push(change_view(c)));
            }
        }
    }
    proof {
        assert(all.take(n as int) =~= all);
    }
    out
}

/// Compares two pieces of SQL in a dialect. When they differ, each change
/// of the SQL diff holds one line, and the lines spell out the first text
/// (unchanged and deleted lines) and the second (unchanged and inserted
/// lines); the AST part, when the ASTs differ, is the edits of a line diff
/// from the first AST to the second.
pub fn diff_sql(sql1: &str, sql2: &str, dialect: &Dialect) -> (r: DiffOutcome)
    ensures
        r@ == diff_spec(sql1@, sql2@, *dialect),
        (match r@ {
            DiffView::Different(s, a) => old_side(s) == formatted_sql(
                parse_outcome(sql1@, *dialect)->Ok_0,
            ) && new_side(s) == formatted_sql(parse_outcome(sql2@, *dialect)->Ok_0)
                && all_one_line(s) && match a {
                Some(x) => is_edits_of(
                    x,
                    pretty_ast(parse_outcome(sql1@, *dialect)->Ok_0),
                    pretty_ast(parse_outcome(sql2@, *dialect)->Ok_0),
                ),
                None => pretty_ast(parse_outcome(sql1@, *dialect)->Ok_0) == pretty_ast(
                    parse_outcome(sql2@, *dialect)->Ok_0,
                ),
            },
            _ => true,
        }),
{
    let stmts1 = match parse(sql1, dialect) {
        Ok(s) => s,
        Err(e) => {
            return DiffOutcome::FirstInvalid(e);
        },
    };
    let stmts2 = match parse(sql2, dialect) {
        Ok(s) => s,
        Err(e) => {
            return DiffOutcome::SecondInvalid(e);
        },
    };
    let fmt1 = formatted(&stmts1);
    let fmt2 = formatted(&stmts2);
    if str_eq(fmt1.as_str(), fmt2.as_str()) {
        return DiffOutcome::Identical;
    }
    let sql = diff_lines(fmt1.as_str(), fmt2.as_str());
    let ast1 = pretty_or_empty(&stmts1);
    let ast2 = pretty_or_empty(&stmts2);
    let ast = if str_eq(ast1.as_str(), ast2.as_str()) {
        None
    } else {
        let full = diff_lines(ast1.as_str(), ast2.as_str());
        let ghost fv = changes_view(full@);
        let edits = edits_only(full);
        proof {
            assert(is_edits_of(changes_view(edits@), ast1@, ast2@)) by {
                assert(old_side(fv) == ast1@ && new_side(fv) == ast2@ && all_one_line(fv)
                    && changes_view(edits@) == fv.filter(edit_filter()));
            }
        }
        Some(edits)
    };
    DiffOutcome::Different { sql, ast }
}

/// Whether `a` is the edits of a full line diff from `old` to `new`: a
/// diff, one line per change, whose unchanged and deleted lines spell out
/// `old` and whose unchanged and inserted lines spell out `new`, with its
/// unchanged lines left out.
pub open spec fn is_edits_of(a: Seq<(ChangeKind, Seq<char>)>, old: Seq<char>, new: Seq<char>) -> bool {
    exists|full: Seq<(ChangeKind, Seq<char>)>|
        old_side(full) == old && new_side(full) == new && all_one_line(full) && a == full.filter(
            edit_filter(),
        )
}

/// The exit status of a comparison is 0 exactly when both pieces parse and
/// normalise to the same SQL.
pub proof fn lemma_diff_status(sql1: Seq<char>, sql2: Seq<char>, dialect: Dialect)
    ensures
        diff_status(diff_spec(sql1, sql2, dialect)) == 0 <==> (parse_outcome(sql1, dialect) is Ok
            && parse_outcome(sql2, dialect) is Ok && formatted_sql(
            parse_outcome(sql1, dialect)->Ok_0,
        ) == formatted_sql(parse_outcome(sql2, dialect)->Ok_0)),
{
}

} // verus!
