//! A JSON document model and its rendering as an indented tree, each line
//! made of styled spans (branch drawing, keys, indices and scalars).

use vstd::prelude::*;
use crate::text::{decimal, decimal_spec};

verus! {

/// A JSON value. Object entries keep the order in which they were given.
/// Numbers, arrays and objects also hold the compact JSON text that the
/// value is written as.
#[derive(Debug)]
pub enum Json {
    Null,
    Bool(bool),
    /// A number, with its JSON text.
    Number(String),
    Str(String),
    /// The items, and the array's JSON text.
    Array(Vec<Json>, String),
    /// The entries, and the object's JSON text.
    Object(Vec<(String, Json)>, String),
}

/// How a span of output is to be shown on a terminal.
#[derive(Clone, Copy, PartialEq, Eq, Debug, Structural)]
pub enum Style {
    Plain,
    Cyan,
    CyanBold,
    Green,
    Yellow,
}

/// A piece of output text together with its style.
#[derive(Clone, Debug)]
pub struct Span {
    pub style: Style,
    pub text: String,
}

/// A span as a pair of its style and its characters.
pub open spec fn span_view(s: Span) -> (Style, Seq<char>) {
    (s.style, s.text@)
}

/// The views of a sequence of spans.
pub open spec fn spans_view(v: Seq<Span>) -> Seq<(Style, Seq<char>)> {
    v.map_values(|s: Span| span_view(s))
}

/// Whether a value is an array or an object.
pub open spec fn is_container(v: Json) -> bool {
    v is Array || v is Object
}

/// The text shown for a value: a string without quotes, `true`, `false`
/// or `null`, and a number, an array or an object as its JSON text.
pub open spec fn scalar_text(v: Json) -> Seq<char> {
    match v {
        Json::Null => "null"@,
        Json::Bool(b) => if b {
            "true"@
        } else {
            "false"@
        },
        Json::Number(n) => n@,
        Json::Str(s) => s@,
        Json::Array(_, t) => t@,
        Json::Object(_, t) => t@,
    }
}

/// The branch drawn in front of a child and the prefix of that child's own
/// children, below a parent whose lines begin with `prefix`.
pub open spec fn branch_spec(prefix: Seq<char>, last: bool) -> (Seq<char>, Seq<char>) {
    if last {
        (prefix + "└── "@, prefix + "    "@)
    } else {
        (prefix + "├── "@, prefix + "│   "@)
    }
}

/// Whether no entry after index `j` holds a value other than `null`.
pub open spec fn no_visible_after(es: Seq<(String, Json)>, j: int) -> bool {
    forall|k: int| j < k < es.len() ==> (#[trigger] es[k]).1 is Null
}

/// The tree lines of a value whose lines begin with `prefix`: the entries
/// of an object (those that are not `null`), the items of an array, or the
/// scalar itself on a line of its own.
pub open spec fn tree_lines(v: Json, prefix: Seq<char>) -> Seq<(Style, Seq<char>)>
    decreases v, 0int,
{
    match v {
        Json::Object(es, _) => entries_lines(es@, prefix, es@.len() as int),
        Json::Array(items, _) => items_lines(items@, prefix, items@.len() as int),
        _ => seq![(Style::Plain, prefix), (Style::Green, scalar_text(v)), (Style::Plain, "\n"@)],
    }
}

/// The lines of the first `i` entries of an object.
pub open spec fn entries_lines(es: Seq<(String, Json)>, prefix: Seq<char>, i: int) -> Seq<
    (Style, Seq<char>),
>
    decreases es, i,
{
    if i <= 0 || i > es.len() {
        Seq::empty()
    } else {
        let k = es[i - 1].0;
        let v = es[i - 1].1;
        let (branch, child) = branch_spec(prefix, no_visible_after(es, i - 1));
        entries_lines(es, prefix, i - 1) + if v is Null {
            Seq::empty()
        } else if is_container(v) {
            seq![(Style::Plain, branch), (Style::CyanBold, k@), (Style::Plain, "\n"@)]
                + tree_lines(v, child)
        } else {
            seq![
                (Style::Plain, branch),
                (Style::Cyan, k@),
                (Style::Plain, ": "@),
                (Style::Green, scalar_text(v)),
                (Style::Plain, "\n"@),
            ]
        }
    }
}

/// The lines of the first `i` items of an array.
pub open spec fn items_lines(items: Seq<Json>, prefix: Seq<char>, i: int) -> Seq<
    (Style, Seq<char>),
>
    decreases items, i,
{
    if i <= 0 || i > items.len() {
        Seq::empty()
    } else {
        let v = items[i - 1];
        let (branch, child) = branch_spec(prefix, i - 1 == items.len() - 1);
        items_lines(items, prefix, i - 1) + if is_container(v) {
            seq![
                (Style::Plain, branch + "["@),
                (Style::Yellow, decimal_spec((i - 1) as nat)),
                (Style::Plain, "]\n"@),
            ] + tree_lines(v, child)
        } else {
            seq![
                (Style::Plain, branch + "["@),
                (Style::Yellow, decimal_spec((i - 1) as nat)),
                (Style::Plain, "] "@),
                (Style::Green, scalar_text(v)),
                (Style::Plain, "\n"@),
            ]
        }
    }
}

/// Every item of an array shows its position, written in decimal, as its
/// index: for each position `j`, the array's tree holds the index span of
/// `j`.
pub proof fn lemma_array_shows_every_index(v: Vec<Json>, t: String, prefix: Seq<char>, j: int)
    requires
        0 <= j < v@.len(),
    ensures
        tree_lines(Json::Array(v, t), prefix).contains((Style::Yellow, decimal_spec(j as nat))),
{
    lemma_items_show_indices(v@, prefix, v@.len() as int, j);
}

proof fn lemma_items_show_indices(items: Seq<Json>, prefix: Seq<char>, i: int, j: int)
    requires
        0 <= j < i <= items.len(),
    ensures
        items_lines(items, prefix, i).contains((Style::Yellow, decimal_spec(j as nat))),
    decreases i,
{
    let before = items_lines(items, prefix, i - 1);
    let whole = items_lines(items, prefix, i);
    let x = (Style::Yellow, decimal_spec(j as nat));
    if j < i - 1 {
        lemma_items_show_indices(items, prefix, i - 1, j);
        let k = choose|k: int| 0 <= k < before.len() && before[k] == x;
        assert(whole[k] == before[k]);
    } else {
        assert(whole[before.len() + 1int] == x);
    }
}

/// Whether the five spans from `5 * j` on draw item `j` of an array of `n`
/// scalars whose lines begin with `prefix`: its branch with `[`, its
/// position in decimal, `] `, its text and a newline, with the closing
/// branch for the last item alone.
pub open spec fn shows_scalar_item(
    l: Seq<(Style, Seq<char>)>,
    prefix: Seq<char>,
    n: int,
    j: int,
    item: Json,
) -> bool {
    &&& l[5 * j] == (Style::Plain, branch_spec(prefix, j == n - 1).0 + "["@)
    &&& l[5 * j + 1] == (Style::Yellow, decimal_spec(j as nat))
    &&& l[5 * j + 2] == (Style::Plain, "] "@)
    &&& l[5 * j + 3] == (Style::Green, scalar_text(item))
    &&& l[5 * j + 4] == (Style::Plain, "\n"@)
}

/// The tree of an array of scalars is five spans per item, item `j`
/// drawn by the spans from `5 * j` on.
pub proof fn lemma_scalar_array_lines(v: Vec<Json>, t: String, prefix: Seq<char>)
    requires
        forall|j: int| 0 <= j < v@.len() ==> !is_container(#[trigger] v@[j]),
    ensures
        tree_lines(Json::Array(v, t), prefix).len() == 5 * v@.len(),
        forall|j: int|
            0 <= j < v@.len() ==> shows_scalar_item(
                tree_lines(Json::Array(v, t), prefix),
                prefix,
                v@.len() as int,
                j,
                #[trigger] v@[j],
            ),
{
    lemma_scalar_items_lines(v@, prefix, v@.len() as int);
}

proof fn lemma_scalar_items_lines(items: Seq<Json>, prefix: Seq<char>, i: int)
    requires
        0 <= i <= items.len(),
        forall|j: int| 0 <= j < items.len() ==> !is_container(#[trigger] items[j]),
    ensures
        items_lines(items, prefix, i).len() == 5 * i,
        forall|j: int|
            0 <= j < i ==> shows_scalar_item(
                items_lines(items, prefix, i),
                prefix,
                items.len() as int,
                j,
                #[trigger] items[j],
            ),
    decreases i,
{
    if i > 0 {
        lemma_scalar_items_lines(items, prefix, i - 1);
        let before = items_lines(items, prefix, i - 1);
        let l = items_lines(items, prefix, i);
        assert(!is_container(items[i - 1]));
        assert forall|j: int| 0 <= j < i implies shows_scalar_item(
            l,
            prefix,
            items.len() as int,
            j,
            #[trigger] items[j],
        ) by {
            if j < i - 1 {
                assert(shows_scalar_item(before, prefix, items.len() as int, j, items[j]));
                assert(l[5 * j] == before[5 * j]);
                assert(l[5 * j + 1] == before[5 * j + 1]);
                assert(l[5 * j + 2] == before[5 * j + 2]);
                assert(l[5 * j + 3] == before[5 * j + 3]);
                assert(l[5 * j + 4] == before[5 * j + 4]);
            }
        }
    }
}

impl Json {
    /// Whether the value is `null`.
    pub fn is_null(&self) -> (r: bool)
        ensures
            r == (*self is Null),
    {
        match self {
            Json::Null => true,
            _ => false,
        }
    }

    /// Whether the value is an array or an object.
    pub fn is_container(&self) -> (r: bool)
        ensures
            r == is_container(*self),
    {
        match self {
            Json::Array(..) => true,
            Json::Object(..) => true,
            _ => false,
        }
    }
}

/// The text shown for a value: strings without quotes, everything else
/// as its JSON text.
pub fn scalar_str(v: &Json) -> (r: String)
    ensures
        r@ == scalar_text(*v),
{
    match v {
        Json::Null => String::from_str("null"),
        Json::Bool(b) => if *b {
            String::from_str("true")
        } else {
            String::from_str("false")
        },
        Json::Number(n) => n.clone(),
        Json::Str(s) => s.clone(),
        Json::Array(_, t) => t.clone(),
        Json::Object(_, t) => t.clone(),
    }
}

/// The branch line and the child indentation below a parent whose lines
/// begin with `parent_prefix`; `last` tells whether the child is its
/// parent's last.
pub fn branch_chars(parent_prefix: &str, last: bool) -> (r: (String, String))
    ensures
        (r.0@, r.1@) == branch_spec(parent_prefix@, last),
{
    let mut branch = String::from_str(parent_prefix);
    let mut child = String::from_str(parent_prefix);
    if last {
        branch.append("└── ");
        child.append("    ");
    } else {
        branch.append("├── ");
        child.append("│   ");
    }
    (branch, child)
}

fn push_span(out: &mut Vec<Span>, style: Style, text: String)
    ensures
        spans_view(final(out)@) == spans_view(old(out)@).push((style, text@)),
{
    let ghost before = spans_view(out@);
    out.push(Span { style, text });
    proof {
        assert(spans_view(out@) =~= before.push((style, text@)));
    }
}

/// Appends to `out` the tree lines of `val`, each beginning with `prefix`.
pub fn render_node(val: &Json, out: &mut Vec<Span>, prefix: &str)
    ensures
        spans_view(final(out)@) == spans_view(old(out)@) + tree_lines(*val, prefix@),
    decreases val,
{
    let ghost start = spans_view(out@);
    match val {
        Json::Object(map, text) => {
            let n = map.len();
            let mut lv: Option<usize> = None;
            let mut j: usize = 0;
            while j < n
                invariant
                    n == map@.len(),
                    j <= n,
                    match lv {
                        Some(m) => m < j && !(map@[m as int].1 is Null) && forall|k: int|
                            m < k < j ==> (#[trigger] map@[k]).1 is Null,
                        None => forall|k: int| 0 <= k < j ==> (#[trigger] map@[k]).1 is Null,
                    },
                decreases n - j,
            {
                if !map[j].1.is_null() {
                    lv = Some(j);
                }
                j = j + 1;
            }
            let mut i: usize = 0;
            while i < n
                invariant
                    n == map@.len(),
                    i <= n,
                    *val == Json::Object(*map, *text),
                    spans_view(out@) == start + entries_lines(map@, prefix@, i as int),
                    match lv {
                        Some(m) => m < n && !(map@[m as int].1 is Null) && forall|k: int|
                            m < k < n ==> (#[trigger] map@[k]).1 is Null,
                        None => forall|k: int| 0 <= k < n ==> (#[trigger] map@[k]).1 is Null,
                    },
                decreases n - i,
            {
                let entry = &map[i];
                let ghost es = map@;
                let ghost branch_child = branch_spec(prefix@, no_visible_after(es, i as int));
                if !entry.1.is_null() {
                    let last = match lv {
                        Some(m) => m == i,
                        None => false,
                    };
                    proof {
                        match lv {
                            Some(m) => {
                                if m == i {
                                    assert(no_visible_after(es, i as int));
                                } else if m > i {
                                    assert(!no_visible_after(es, i as int)) by {
                                        assert(!(es[m as int].1 is Null));
                                    }
                                } else {
                                    assert(!(es[i as int].1 is Null));
                                }
                            },
                            None => {
                                assert(es[i as int].1 is Null);
                            },
                        }
                        assert(last == no_visible_after(es, i as int));
                    }
                    let (branch, child) = branch_chars(prefix, last);
                    if entry.1.is_container() {
                        push_span(out, Style::Plain, branch);
                        push_span(out, Style::CyanBold, entry.0.clone());
                        push_span(out, Style::Plain, String::from_str("\n"));
                        proof {
                            assert(decreases_to!(*val => val->Object_0));
                            assert(decreases_to!(*map => map@));
                            assert(decreases_to!(map@ => map@[i as int]));
                            assert(decreases_to!(map@[i as int] => map@[i as int].1));
                        }
                        render_node(&entry.1, out, child.as_str());
                        proof {
                            assert(spans_view(out@) =~= start + entries_lines(es, prefix@, i + 1));
                        }
                    } else {
                        push_span(out, Style::Plain, branch);
                        push_span(out, Style::Cyan, entry.0.clone());
                        push_span(out, Style::Plain, String::from_str(": "));
                        push_span(out, Style::Green, scalar_str(&entry.1));
                        push_span(out, Style::Plain, String::from_str("\n"));
                        proof {
                            assert(spans_view(out@) =~= start + entries_lines(es, prefix@, i + 1));
                        }
                    }
                } else {
                    proof {
                        assert(entries_lines(es, prefix@, i + 1) =~= entries_lines(
                            es,
                            prefix@,
                            i as int,
                        ));
                    }
                }
                i = i + 1;
            }
        },
        Json::Array(items, text) => {
            let n = items.len();
            let mut i: usize = 0;
            while i < n
                invariant
                    n == items@.len(),
                    i <= n,
                    *val == Json::Array(*items, *text),
                    spans_view(out@) == start + items_lines(items@, prefix@, i as int),
                decreases n - i,
            {
                let item = &items[i];
                let ghost es = items@;
                let (branch, child) = branch_chars(prefix, i == n - 1);
                let mut head = branch;
                head.append("[");
                if item.is_container() {
                    push_span(out, Style::Plain, head);
                    push_span(out, Style::Yellow, decimal(i));
                    push_span(out, Style::Plain, String::from_str("]\n"));
                    proof {
                        assert(decreases_to!(*val => val->Array_0));
                        assert(decreases_to!(*items => items@));
                        assert(decreases_to!(items@ => items@[i as int]));
                    }
                    render_node(item, out, child.as_str());
                    proof {
                        assert(spans_view(out@) =~= start + items_lines(es, prefix@, i + 1));
                    }
                } else {
                    push_span(out, Style::Plain, head);
                    push_span(out, Style::Yellow, decimal(i));
                    push_span(out, Style::Plain, String::from_str("] "));
                    push_span(out, Style::Green, scalar_str(item));
                    push_span(out, Style::Plain, String::from_str("\n"));
                    proof {
                        assert(spans_view(out@) =~= start + items_lines(es, prefix@, i + 1));
                    }
                }
                i = i + 1;
            }
        },
        _ => {
            push_span(out, Style::Plain, String::from_str(prefix));
            push_span(out, Style::Green, scalar_str(val));
            push_span(out, Style::Plain, String::from_str("\n"));
            proof {
                assert(spans_view(out@) =~= start + tree_lines(*val, prefix@));
            }
        },
    }
}

} // verus!
