//! Rendering parsed statements: as JSON (compact or indented), as YAML, or
//! as a tree of styled lines.

use vstd::prelude::*;
use sqlparser::ast::Statement;
use crate::tree::{render_node, spans_view, tree_lines, Json, Span, Style};

verus! {

/// A JSON value of `serde_json`.
#[verifier::external_type_specification]
#[verifier::external_body]
pub struct ExJsonValue(serde_json::Value);

/// The error type of `serde_json`.
#[verifier::external_type_specification]
#[verifier::external_body]
pub struct ExJsonError(serde_json::Error);

/// A YAML value of `serde_yaml`.
#[verifier::external_type_specification]
#[verifier::external_body]
pub struct ExYamlValue(serde_yaml::Value);

/// The error type of `serde_yaml`.
#[verifier::external_type_specification]
#[verifier::external_body]
pub struct ExYamlError(serde_yaml::Error);

/// The ways a list of statements can be shown.
#[derive(Clone, Copy, PartialEq, Eq, Debug, Structural)]
pub enum OutputFormat {
    /// Indented JSON.
    JsonPretty,
    /// Compact single-line JSON.
    Json,
    /// YAML.
    Yaml,
    /// A human-readable tree.
    Tree,
}

/// What `serde_json::to_value` makes of the statements.
pub uninterp spec fn statements_value(stmts: Seq<Statement>) -> Result<
    serde_json::Value,
    serde_json::Error,
>;

/// The document that a `serde_json::Value` holds, as a `Json`.
pub uninterp spec fn json_model(v: serde_json::Value) -> Json;

/// What `serde_json::to_string` makes of the statements.
pub uninterp spec fn json_text(stmts: Seq<Statement>) -> Result<Seq<char>, serde_json::Error>;

/// What `serde_json::to_string_pretty` makes of the statements.
pub uninterp spec fn json_pretty_text(stmts: Seq<Statement>) -> Result<
    Seq<char>,
    serde_json::Error,
>;

/// The message of a `serde_json` error.
pub uninterp spec fn json_error_text(e: serde_json::Error) -> Seq<char>;

/// What `serde_yaml::to_value` makes of a JSON value.
pub uninterp spec fn yaml_value(v: serde_json::Value) -> Result<
    serde_yaml::Value,
    serde_yaml::Error,
>;

/// What `serde_yaml::to_string` makes of a YAML value.
pub uninterp spec fn yaml_text(v: serde_yaml::Value) -> Result<Seq<char>, serde_yaml::Error>;

/// The message of a `serde_yaml` error.
pub uninterp spec fn yaml_error_text(e: serde_yaml::Error) -> Seq<char>;

/// Whether a `Result` holding a `String` carries exactly the named text.
pub open spec fn text_as<E>(r: Result<String, E>, outcome: Result<Seq<char>, E>) -> bool {
    match r {
        Ok(t) => outcome == Ok::<Seq<char>, E>(t@),
        Err(e) => outcome == Err::<Seq<char>, E>(e),
    }
}

/// `serde_json::to_value` on the statements, named `statements_value`.
#[verifier::external_body]
fn to_json_value(stmts: &[Statement]) -> (r: Result<serde_json::Value, serde_json::Error>)
    ensures
        r == statements_value(stmts@),
{
    serde_json::to_value(stmts)
}

/// A `serde_json::Value` converted variant by variant into a `Json`
/// (numbers, arrays and objects keep the text that `Value`'s `Display`
/// writes for them; object entries keep the map's order), named
/// `json_model`.
#[verifier::external_body]
fn json_from_value(v: serde_json::Value) -> (r: Json)
    ensures
        r == json_model(v),
{
    let text = v.to_string();
    match v {
        serde_json::Value::Null => Json::Null,
        serde_json::Value::Bool(b) => Json::Bool(b),
        serde_json::Value::Number(_) => Json::Number(text),
        serde_json::Value::String(s) => Json::Str(s),
        serde_json::Value::Array(a) => Json::Array(a.into_iter().map(json_from_value).collect(), text),
        serde_json::Value::Object(m) => Json::Object(
            m.into_iter().map(|(k, x)| (k, json_from_value(x))).collect(),
            text,
        ),
    }
}

/// `serde_json::to_string` on the statements, named `json_text`.
#[verifier::external_body]
fn to_json_string(stmts: &[Statement]) -> (r: Result<String, serde_json::Error>)
    ensures
        text_as(r, json_text(stmts@)),
{
    serde_json::to_string(stmts)
}

/// `serde_json::to_string_pretty` on the statements, named
/// `json_pretty_text`.
#[verifier::external_body]
pub(crate) fn to_json_string_pretty(stmts: &[Statement]) -> (r: Result<String, serde_json::Error>)
    ensures
        text_as(r, json_pretty_text(stmts@)),
{
    serde_json::to_string_pretty(stmts)
}

/// `serde_json::Error`'s `Display`, named `json_error_text`.
#[verifier::external_body]
fn json_error_message(e: &serde_json::Error) -> (r: String)
    ensures
        r@ == json_error_text(*e),
{
    e.to_string()
}

/// `serde_yaml::to_value` on a JSON value, named `yaml_value`.
#[verifier::external_body]
fn to_yaml_value(v: &serde_json::Value) -> (r: Result<serde_yaml::Value, serde_yaml::Error>)
    ensures
        r == yaml_value(*v),
{
    serde_yaml::to_value(v)
}

/// `serde_yaml::to_string` on a YAML value, named `yaml_text`.
#[verifier::external_body]
fn to_yaml_string(v: &serde_yaml::Value) -> (r: Result<String, serde_yaml::Error>)
    ensures
        text_as(r, yaml_text(*v)),
{
    serde_yaml::to_string(v)
}

/// `serde_yaml::Error`'s `Display`, named `yaml_error_text`.
#[verifier::external_body]
fn yaml_error_message(e: &serde_yaml::Error) -> (r: String)
    ensures
        r@ == yaml_error_text(*e),
{
    e.to_string()
}

/// The YAML text of the statements: their JSON value turned into YAML, or
/// the message of the first step that failed.
pub open spec fn yaml_outcome(stmts: Seq<Statement>) -> Result<Seq<char>, Seq<char>> {
    match statements_value(stmts) {
        Err(e) => Err(json_error_text(e)),
        Ok(jv) => match yaml_value(jv) {
            Err(e) => Err(yaml_error_text(e)),
            Ok(yv) => match yaml_text(yv) {
                Ok(t) => Ok(t),
                Err(e) => Err(yaml_error_text(e)),
            },
        },
    }
}

/// The document drawn as a tree: the statements' JSON value, or `null`
/// when they have none.
pub open spec fn tree_document(stmts: Seq<Statement>) -> Json {
    match statements_value(stmts) {
        Ok(v) => json_model(v),
        Err(_) => Json::Null,
    }
}

/// Renders the statements as YAML (by way of their JSON value).
pub fn render_yaml(stmts: &[Statement]) -> (r: Result<String, String>)
    ensures
        (match yaml_outcome(stmts@) {
            Ok(t) => r is Ok && r->Ok_0@ == t,
            Err(m) => r is Err && r->Err_0@ == m,
        }),
{
    let json_val = match to_json_value(stmts) {
        Ok(v) => v,
        Err(e) => {
            return Err(json_error_message(&e));
        },
    };
    let yaml_val = match to_yaml_value(&json_val) {
        Ok(v) => v,
        Err(e) => {
            return Err(yaml_error_message(&e));
        },
    };
    match to_yaml_string(&yaml_val) {
        Ok(t) => Ok(t),
        Err(e) => Err(yaml_error_message(&e)),
    }
}

/// Renders the statements' JSON value as a tree.
pub fn render_tree(stmts: &[Statement]) -> (r: Vec<Span>)
    ensures
        spans_view(r@) == tree_lines(tree_document(stmts@), Seq::<char>::empty()),
{
    let val = match to_json_value(stmts) {
        Ok(v) => json_from_value(v),
        Err(_) => Json::Null,
    };
    let mut out: Vec<Span> = Vec::new();
    proof {
        assert(spans_view(out@) =~= Seq::<(Style, Seq<char>)>::empty());
    }
    render_node(&val, &mut out, "");
    proof {
        reveal_strlit("");
        assert(""@ =~= Seq::<char>::empty());
        assert(spans_view(out@) =~= tree_lines(val, ""@));
    }
    out
}

/// A text shown as one plain span.
pub open spec fn plain(t: Seq<char>) -> Seq<(Style, Seq<char>)> {
    seq![(Style::Plain, t)]
}

/// What rendering the statements in a format shows, or the message of the
/// failure.
pub open spec fn ast_output(stmts: Seq<Statement>, fmt: OutputFormat) -> Result<
    Seq<(Style, Seq<char>)>,
    Seq<char>,
> {
    match fmt {
        OutputFormat::JsonPretty => match json_pretty_text(stmts) {
            Ok(t) => Ok(plain(t)),
            Err(e) => Err(json_error_text(e)),
        },
        OutputFormat::Json => match json_text(stmts) {
            Ok(t) => Ok(plain(t)),
            Err(e) => Err(json_error_text(e)),
        },
        OutputFormat::Yaml => match yaml_outcome(stmts) {
            Ok(t) => Ok(plain(t)),
            Err(m) => Err(m),
        },
        OutputFormat::Tree => Ok(tree_lines(tree_document(stmts), Seq::<char>::empty())),
    }
}

fn plain_spans(t: String) -> (r: Vec<Span>)
    ensures
        spans_view(r@) == plain(t@),
{
    let mut v: Vec<Span> = Vec::new();
    v.push(Span { style: Style::Plain, text: t });
    proof {
        assert(spans_view(v@) =~= plain(t@));
    }
    v
}

/// Renders the statements in the chosen format.
pub fn render_ast(stmts: &[Statement], fmt: &OutputFormat) -> (r: Result<Vec<Span>, String>)
    ensures
        (match ast_output(stmts@, *fmt) {
            Ok(s) => r is Ok && spans_view(r->Ok_0@) == s,
            Err(m) => r is Err && r->Err_0@ == m,
        }),
{
    match fmt {
        OutputFormat::JsonPretty => match to_json_string_pretty(stmts) {
            Ok(t) => Ok(plain_spans(t)),
            Err(e) => Err(json_error_message(&e)),
        },
        OutputFormat::Json => match to_json_string(stmts) {
            Ok(t) => Ok(plain_spans(t)),
            Err(e) => Err(json_error_message(&e)),
        },
        OutputFormat::Yaml => match render_yaml(stmts) {
            Ok(t) => Ok(plain_spans(t)),
            Err(m) => Err(m),
        },
        OutputFormat::Tree => Ok(render_tree(stmts)),
    }
}

/// Rendering as a tree never fails: when the statements have no JSON
/// value, the tree of `null` is drawn.
pub proof fn lemma_tree_always_renders(stmts: Seq<Statement>)
    ensures
        ast_output(stmts, OutputFormat::Tree) is Ok,
{
}

} // verus!
