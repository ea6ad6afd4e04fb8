use sql_cli::dialect::Dialect;
use sql_cli::render::{render_ast, render_tree, render_yaml, OutputFormat};
use sql_cli::sql::parse;
use sql_cli::tree::{branch_chars, render_node, scalar_str, Json, Span, Style};

fn plain(spans: &[Span]) -> String {
    spans.iter().map(|s| s.text.as_str()).collect()
}

/// The tree drawing of a JSON value, without colours.
fn expected_tree(val: &serde_json::Value, out: &mut String, prefix: &str) {
    fn scalar(v: &serde_json::Value) -> String {
        match v {
            serde_json::Value::String(s) => s.clone(),
            other => other.to_string(),
        }
    }
    match val {
        serde_json::Value::Object(map) => {
            let entries: Vec<_> = map.iter().filter(|(_, v)| !v.is_null()).collect();
            for (i, (k, v)) in entries.iter().enumerate() {
                let last = i == entries.len() - 1;
                let branch = format!("{}{}", prefix, if last { "└── " } else { "├── " });
                let child = format!("{}{}", prefix, if last { "    " } else { "│   " });
                if v.is_object() || v.is_array() {
                    out.push_str(&format!("{}{}\n", branch, k));
                    expected_tree(v, out, &child);
                } else {
                    out.push_str(&format!("{}{}: {}\n", branch, k, scalar(v)));
                }
            }
        }
        serde_json::Value::Array(arr) => {
            for (i, item) in arr.iter().enumerate() {
                let last = i == arr.len() - 1;
                let branch = format!("{}{}", prefix, if last { "└── " } else { "├── " });
                let child = format!("{}{}", prefix, if last { "    " } else { "│   " });
                if item.is_object() || item.is_array() {
                    out.push_str(&format!("{}[{}]\n", branch, i));
                    expected_tree(item, out, &child);
                } else {
                    out.push_str(&format!("{}[{}] {}\n", branch, i, scalar(item)));
                }
            }
        }
        other => out.push_str(&format!("{}{}\n", prefix, scalar(other))),
    }
}

#[test]
fn branch_chars_draws_branches() {
    assert_eq!(branch_chars("", false), ("├── ".to_string(), "│   ".to_string()));
    assert_eq!(branch_chars("│   ", true), ("│   └── ".to_string(), "│       ".to_string()));
}

#[test]
fn scalars_are_shown_without_quotes() {
    assert_eq!(scalar_str(&Json::Null), "null");
    assert_eq!(scalar_str(&Json::Bool(true)), "true");
    assert_eq!(scalar_str(&Json::Bool(false)), "false");
    assert_eq!(scalar_str(&Json::Number("1.5".to_string())), "1.5");
    assert_eq!(scalar_str(&Json::Str("a\"b".to_string())), "a\"b");
    assert_eq!(scalar_str(&Json::Number("12".to_string())), "12");
    assert_eq!(
        scalar_str(&Json::Array(vec![Json::Number("1".to_string())], "[1]".to_string())),
        "[1]"
    );
    assert_eq!(scalar_str(&Json::Object(vec![], "{}".to_string())), "{}");
}

#[test]
fn tree_of_a_small_document() {
    let doc = Json::Object(
        vec![
            ("a".to_string(), Json::Number("1".to_string())),
            ("b".to_string(), Json::Null),
            (
                "c".to_string(),
                Json::Array(
                    vec![
                        Json::Bool(true),
                        Json::Object(
                            vec![("d".to_string(), Json::Str("x".to_string()))],
                            "{\"d\":\"x\"}".to_string(),
                        ),
                    ],
                    "[true,{\"d\":\"x\"}]".to_string(),
                ),
            ),
            ("e".to_string(), Json::Null),
        ],
        "{\"a\":1,\"b\":null,\"c\":[true,{\"d\":\"x\"}],\"e\":null}".to_string(),
    );
    let mut out = Vec::new();
    render_node(&doc, &mut out, "");
    assert_eq!(
        plain(&out),
        "├── a: 1\n└── c\n    ├── [0] true\n    └── [1]\n        └── d: x\n"
    );
    assert_eq!(out[0].style, Style::Plain);
    assert_eq!(out[1].style, Style::Cyan);
    assert_eq!(out[1].text, "a");
    assert_eq!(out[3].style, Style::Green);
    let key_c = out.iter().find(|s| s.text == "c").unwrap();
    assert_eq!(key_c.style, Style::CyanBold);
    let index = out.iter().find(|s| s.text == "1" && s.style == Style::Yellow);
    assert!(index.is_some());
}

#[test]
fn tree_of_a_scalar_document() {
    let mut out = Vec::new();
    render_node(&Json::Str("hello".to_string()), &mut out, "> ");
    assert_eq!(plain(&out), "> hello\n");
    let mut out = Vec::new();
    render_node(
        &Json::Object(vec![("x".to_string(), Json::Null)], "{\"x\":null}".to_string()),
        &mut out,
        "",
    );
    assert_eq!(plain(&out), "");
}

#[test]
fn tree_of_statements_matches_their_json() {
    for sql in [
        "SELECT a, b FROM t WHERE x = 1",
        "INSERT INTO t (a) VALUES (1), (2)",
        "CREATE TABLE t (id INT PRIMARY KEY, name TEXT)",
    ] {
        let stmts = parse(sql, &Dialect::Generic).unwrap();
        let spans = render_tree(&stmts);
        let value = serde_json::to_value(&stmts).unwrap();
        let mut expected = String::new();
        expected_tree(&value, &mut expected, "");
        assert_eq!(plain(&spans), expected);
    }
}

#[test]
fn json_outputs_are_serde_json() {
    let stmts = parse("SELECT 1", &Dialect::Generic).unwrap();
    let pretty = render_ast(&stmts, &OutputFormat::JsonPretty).unwrap();
    assert_eq!(plain(&pretty), serde_json::to_string_pretty(&stmts).unwrap());
    let compact = render_ast(&stmts, &OutputFormat::Json).unwrap();
    assert_eq!(plain(&compact), serde_json::to_string(&stmts).unwrap());
    assert!(plain(&compact).starts_with("[{\"Query\""));
    assert!(plain(&pretty).contains('\n'));
}

#[test]
fn yaml_output_goes_through_the_json_value() {
    let stmts = parse("SELECT a FROM t", &Dialect::Generic).unwrap();
    let value = serde_json::to_value(&stmts).unwrap();
    let expected = serde_yaml::to_string(&serde_yaml::to_value(&value).unwrap()).unwrap();
    assert_eq!(render_yaml(&stmts).unwrap(), expected);
    let via_ast = render_ast(&stmts, &OutputFormat::Yaml).unwrap();
    assert_eq!(plain(&via_ast), expected);
    assert!(expected.contains("Query"));
}

#[test]
fn tree_format_renders_the_tree() {
    let stmts = parse("SELECT 1", &Dialect::Generic).unwrap();
    let via_ast = render_ast(&stmts, &OutputFormat::Tree).unwrap();
    assert_eq!(plain(&via_ast), plain(&render_tree(&stmts)));
    assert!(plain(&via_ast).starts_with("└── [0]\n"));
}
