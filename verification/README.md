# sql_cli

A command-line SQL tool built on `sqlparser`: it normalises SQL, shows the
AST as JSON, YAML or a tree, validates batches of statements, compares two
pieces of SQL and offers an interactive session.

The decisions and text processing are a library verified with Verus
(`src/`); the program around it (`app/`) reads arguments, files and
standard input, runs the line editor and paints output with `colored`.

- `src/dialect.rs` – dialects, their names and the case-insensitive lookup.
- `src/sql.rs` – parsing in a dialect and printing statements back.
- `src/tree.rs` – a JSON model and its rendering as a tree of styled spans.
- `src/render.rs` – JSON, YAML and tree output of parsed statements.
- `src/lex.rs` – cutting SQL into statements at the dialect tokenizer's `;` tokens.
- `src/batch.rs` – validating `;`-separated statements one by one.
- `src/diff.rs` – comparing two pieces of SQL.
- `src/repl.rs` – what each line of the interactive session asks for.
- `src/input.rs` – where a command's SQL comes from.
- `src/text.rs` – character-level string operations and their laws.
