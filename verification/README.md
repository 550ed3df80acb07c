# ephact

The verified core of `ephact`, a local runner for Forgejo and GitHub
workflows. The functions under `src/` are checked by Verus against their
`requires`/`ensures` contracts, except four small trusted wrappers whose
contracts are taken on trust: `String::push` and `str::to_lowercase`
(`src/text.rs`), `char::from_u32` (`src/value_objects/json_text_reader.rs`)
and `uuid::Uuid::new_v4` (`src/value_objects/act_run_config.rs`).

- `src/expression/` and `src/services/expression_*`: the lexer and the
  recursive-descent parser of `${{ }}` expressions (each specified by a
  grammar of spec functions), the built-in function choice, `format` and
  `join`, the splitting of template text into literal text and
  expression bodies, and where an index access on a list reads.
- `src/services/execution_planner.rs`, `src/services/job_graph.rs`: cycle
  detection over job needs and the grouping of jobs into stages, with the
  ordering laws of a plan.
- `src/value_objects/`: action references, run configuration, triggers,
  markers, project branding values, shell commands, and a JSON text reader
  and string writer specified by the JSON grammar of RFC 8259 (number
  syntax, the four white-space characters between tokens, no raw control
  characters inside strings).
- `src/text.rs`, `src/text_map.rs`: string helpers and an insertion-ordered
  text-keyed map.
- `app/`: evaluation over values that hold floating-point numbers, serde
  conversions and request types; plain Rust on top of the library.
- `tests/`: the project's scenarios and the library's own tests.
