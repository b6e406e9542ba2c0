# utoipa_gen

The decision logic of the `utoipa` derive and attribute macros, written in
Verus and proved against its contracts: how Rust types are read as type
trees, how serde attributes and schema features are read and applied, how
names are renamed, how handler arguments and route paths of actix-web, axum
and Rocket are resolved, how struct, enum and `IntoParams` schemas are laid
out, which schema a type gets (primitives with their formats and implicit
minimums, references and inlined schemas, arrays, maps and flattened maps,
the wrappers that pass a schema on, serde enum representations), which
schema references a schema collects, how features go into a schema's
builder, how configured type aliases replace field types, and
which errors the macros report for which inputs.

Syntax trees enter the library as plain values (`rust_type::RustType`,
`tokens::Token`, `tokens::Attribute`, `fn_arg::HandlerArg`); the few calls
into outside crates that the logic needs (`regex` for path patterns, `syn`
for string literal values and for parsing alias types, Unicode character
classes of `std`) stand behind
small trusted wrappers whose contracts name what they return.

Layout:

- `src/` — the verified library, one module per concern; `src/lib.rs` lists
  them.
- `tests/` — tests of the library on concrete values.
- `app/` — the unverified edge: reading and writing the configuration file,
  turning `syn` syntax trees into the library's values, and rendering
  diagnostics as `compile_error!` tokens.
