//! Validating a batch of `;`-separated statements one by one.

use vstd::prelude::*;
use crate::dialect::Dialect;
use crate::sql::{parse, parse_outcome};
use crate::lex::{split_statements, statement_pieces};
use crate::text::{lemma_trim_ends, strs_view, take_chars, take_spec, trim, trim_spec, white_space};

verus! {

/// How many characters of a statement are shown in a report.
pub const PREVIEW_CHARS: usize = 72;

/// The non-empty statements of a batch: the statement pieces of the text
/// in the dialect (cut at the `;`s that end statements), trimmed, with the
/// empty ones left out.
pub open spec fn batch_statements(dialect: Dialect, sql: Seq<char>) -> Seq<Seq<char>> {
    statement_pieces(dialect, sql).map_values(|p: Seq<char>| trim_spec(p)).filter(
        |p: Seq<char>| p.len() > 0,
    )
}

/// The report on one statement: its first characters, and the parser's
/// message when the statement, closed by `;`, does not parse.
pub open spec fn entry_spec(stmt: Seq<char>, dialect: Dialect) -> (Seq<char>, Option<Seq<char>>) {
    (
        take_spec(stmt, PREVIEW_CHARS as nat),
        match parse_outcome(stmt + ";"@, dialect) {
            Ok(_) => None,
            Err(m) => Some(m),
        },
    )
}

/// The report on every statement of a batch, in order.
pub open spec fn batch_spec(sql: Seq<char>, dialect: Dialect) -> Seq<
    (Seq<char>, Option<Seq<char>>),
> {
    batch_statements(dialect, sql).map_values(|s: Seq<char>| entry_spec(s, dialect))
}

/// The number of reports that carry an error.
pub open spec fn error_count_spec(v: Seq<(Seq<char>, Option<Seq<char>>)>) -> nat
    decreases v.len(),
{
    if v.len() == 0 {
        0
    } else {
        error_count_spec(v.drop_last()) + if v.last().1 is Some {
            1nat
        } else {
            0nat
        }
    }
}

/// Whether a report carries an error.
pub open spec fn has_error() -> spec_fn((Seq<char>, Option<Seq<char>>)) -> bool {
    |e: (Seq<char>, Option<Seq<char>>)| e.1 is Some
}

/// The error count is the number of reports that carry an error.
pub proof fn lemma_error_count_is_failing_reports(v: Seq<(Seq<char>, Option<Seq<char>>)>)
    ensures
        error_count_spec(v) == v.filter(has_error()).len(),
    decreases v.len(),
{
    reveal_with_fuel(Seq::<(Seq<char>, Option<Seq<char>>)>::filter, 1);
    if v.len() > 0 {
        lemma_error_count_is_failing_reports(v.drop_last());
        assert(v =~= v.drop_last().push(v.last()));
        v.drop_last().lemma_filter_push(v.last(), has_error());
    }
}

/// One more report adds one to the error count when it carries an error,
/// and nothing otherwise.
pub proof fn lemma_error_count_push(
    v: Seq<(Seq<char>, Option<Seq<char>>)>,
    e: (Seq<char>, Option<Seq<char>>),
)
    ensures
        error_count_spec(v.push(e)) == error_count_spec(v) + (if e.1 is Some {
            1int
        } else {
            0int
        }),
{
    lemma_error_count_is_failing_reports(v);
    lemma_error_count_is_failing_reports(v.push(e));
    v.lemma_filter_push(e, has_error());
}

/// The report on one statement of a batch.
#[derive(Debug)]
pub struct BatchEntry {
    /// The first characters of the statement.
    pub preview: String,
    /// The parser's message, when the statement does not parse.
    pub error: Option<String>,
}

/// The reports on the statements of a batch, in order.
#[derive(Debug)]
pub struct BatchReport {
    pub entries: Vec<BatchEntry>,
}

/// An entry as a pair of plain values.
pub open spec fn entry_view(e: BatchEntry) -> (Seq<char>, Option<Seq<char>>) {
    (
        e.preview@,
        match e.error {
            Some(m) => Some(m@),
            None => None,
        },
    )
}

impl View for BatchReport {
    type V = Seq<(Seq<char>, Option<Seq<char>>)>;

    open spec fn view(&self) -> Seq<(Seq<char>, Option<Seq<char>>)> {
        self.entries@.map_values(|e: BatchEntry| entry_view(e))
    }
}

/// The statements of `sql` checked one by one in a dialect.
pub fn validate_batch(sql: &str, dialect: &Dialect) -> (r: BatchReport)
    ensures
        r@ == batch_spec(sql@, *dialect),
{
    let pieces = split_statements(sql, dialect);
    let ghost all = statement_pieces(*dialect, sql@);
    let ghost trimmed = all.map_values(|p: Seq<char>| trim_spec(p));
    let ghost keep = |p: Seq<char>| p.len() > 0;
    let ghost d = *dialect;
    let mut entries: Vec<BatchEntry> = Vec::new();
    let mut i: usize = 0;
    proof {
        reveal_with_fuel(Seq::<Seq<char>>::filter, 1);
        assert(trimmed.take(0) =~= Seq::<Seq<char>>::empty());
    }
    while i < pieces.len()
        invariant
            strs_view(pieces@) == all,
            all == statement_pieces(*dialect, sql@),
            trimmed == all.map_values(|p: Seq<char>| trim_spec(p)),
            keep == (|p: Seq<char>| p.len() > 0),
            d == *dialect,
            i <= pieces.len(),
            entries@.map_values(|e: BatchEntry| entry_view(e)) == trimmed.take(i as int).filter(
                keep,
            ).map_values(|s: Seq<char>| entry_spec(s, d)),
        decreases pieces.len() - i,
    {
        let t = trim(pieces[i]);
        proof {
            assert(t@ == trimmed[i as int]);
            assert(trimmed.take(i + 1) =~= trimmed.take(i as int).push(trimmed[i as int]));
            trimmed.take(i as int).lemma_filter_push(trimmed[i as int], keep);
        }
        let ghost before = entries@.map_values(|e: BatchEntry| entry_view(e));
        if t.unicode_len() > 0 {
            let mut stmt = String::from_str(t);
            stmt.append(";");
            let error = match parse(stmt.as_str(), dialect) {
                Ok(_) => None,
                Err(m) => Some(m),
            };
            let entry = BatchEntry { preview: String::from_str(take_chars(t, PREVIEW_CHARS)), error };
            proof {
                assert(entry_view(entry) == entry_spec(t@, d));
            }
            entries.push(entry);
            proof {
                assert(entries@.map_values(|e: BatchEntry| entry_view(e)) =~= before.push(
                    entry_view(entry),
                ));
                assert(trimmed.take(i + 1).filter(keep) == trimmed.take(i as int).filter(keep).push(
                    t@,
                ));
                assert(trimmed.take(i + 1).filter(keep).map_values(
                    |s: Seq<char>| entry_spec(s, d),
                ) =~= trimmed.take(i as int).filter(keep).map_values(
                    |s: Seq<char>| entry_spec(s, d),
                ).push(entry_spec(t@, d)));
            }
        }
        i = i + 1;
    }
    proof {
        assert(trimmed.take(pieces@.len() as int) =~= trimmed);
    }
    BatchReport { entries }
}

impl BatchReport {
    /// The number of statements in the batch.
    pub fn total(&self) -> (r: usize)
        ensures
            r == self@.len(),
    {
        self.entries.len()
    }

    /// The number of statements that did not parse.
    pub fn error_count(&self) -> (r: usize)
        ensures
            r == error_count_spec(self@),
            r == self@.filter(has_error()).len(),
            r <= self@.len(),
    {
        let ghost v = self@;
        let mut n: usize = 0;
        let mut i: usize = 0;
        while i < self.entries.len()
            invariant
                v == self@,
                i <= self.entries.len(),
                n == error_count_spec(v.take(i as int)),
                n <= i,
            decreases self.entries.len() - i,
        {
            proof {
                assert(v.take(i + 1).drop_last() =~= v.take(i as int));
                assert(v.take(i + 1).last() == entry_view(self.entries@[i as int]));
            }
            if self.entries[i].error.is_some() {
                n = n + 1;
            }
            i = i + 1;
        }
        proof {
            assert(v.take(v.len() as int) =~= v);
            lemma_error_count_is_failing_reports(v);
        }
        n
    }

    /// The exit status of the batch: 0 when every statement parses (or
    /// there is none), 1 otherwise.
    pub fn exit_code(&self) -> (r: i32)
        ensures
            r == 0 <==> forall|i: int| 0 <= i < self@.len() ==> (#[trigger] self@[i]).1 is None,
            r == 0 || r == 1,
    {
        let mut i: usize = 0;
        while i < self.entries.len()
            invariant
                i <= self.entries.len(),
                forall|j: int| 0 <= j < i ==> (#[trigger] self@[j]).1 is None,
            decreases self.entries.len() - i,
        {
            if self.entries[i].error.is_some() {
                assert(self@[i as int].1 is Some);
                return 1;
            }
            i = i + 1;
        }
        0
    }
}

/// The suffix that makes `statement` plural for a count: none for one.
pub fn plural_suffix(n: usize) -> (r: &'static str)
    ensures
        r@ == (if n == 1 {
            ""@
        } else {
            "s"@
        }),
{
    if n == 1 {
        ""
    } else {
        "s"
    }
}

/// The statements of a batch are non-empty and neither begin nor end with
/// whitespace.
pub proof fn lemma_batch_statement_shape(dialect: Dialect, sql: Seq<char>, i: int)
    requires
        0 <= i < batch_statements(dialect, sql).len(),
    ensures
        batch_statements(dialect, sql)[i].len() > 0,
        !white_space(batch_statements(dialect, sql)[i][0]),
        !white_space(batch_statements(dialect, sql)[i].last()),
{
    let pieces = statement_pieces(dialect, sql);
    let trimmed = pieces.map_values(|p: Seq<char>| trim_spec(p));
    let keep = |p: Seq<char>| p.len() > 0;
    let s = batch_statements(dialect, sql)[i];
    trimmed.lemma_filter_pred(keep, i);
    assert(trimmed.filter(keep).contains(s));
    trimmed.lemma_filter_contains_rev(keep, s);
    let k = choose|k: int| 0 <= k < trimmed.len() && trimmed[k] == s;
    lemma_trim_ends(pieces[k]);
}

/// A batch succeeds exactly when none of its reports carries an error.
pub proof fn lemma_no_errors(v: Seq<(Seq<char>, Option<Seq<char>>)>)
    ensures
        error_count_spec(v) == 0 <==> forall|i: int| 0 <= i < v.len() ==> (#[trigger] v[i]).1 is None,
    decreases v.len(),
{
    if v.len() > 0 {
        lemma_no_errors(v.drop_last());
        if error_count_spec(v) == 0 {
            assert forall|i: int| 0 <= i < v.len() implies (#[trigger] v[i]).1 is None by {
                if i < v.len() - 1 {
                    assert(v.drop_last()[i] == v[i]);
                }
            }
        } else {
            if v.last().1 is None {
                let j = choose|j: int| 0 <= j < v.drop_last().len() && !((#[trigger] v.drop_last()[j]).1 is None);
                assert(v[j] == v.drop_last()[j]);
            }
        }
    }
}

} // verus!
