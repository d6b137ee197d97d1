# 问源 (Wenyuan) compiler front end, verified

`ascompiler` compiles `.as` programs written in 问源, a language with Chinese
keywords and punctuation. The library in `src/` holds the compiler's front
end and the project tooling's decisions, each function with a Verus contract:

- `text`, `diagnostics`: character helpers and the rendering of error
  messages with a quoted source line.
- `lexer`: the token reader; its result is a spec function of the source
  text and the read offset.
- `grammar`: the grammar of 问源 as spec functions over the parser's
  position, and the syntax trees as values.
- `parser`: the recursive-descent parser and the AST; each parse function
  gives what the matching grammar rule gives, and fails exactly where the
  rule does. Parsed programs also satisfy the shape laws in `program_shape`.
- `semantic`: name resolution and type checking; `analyze` accepts exactly
  the programs of `program_ok`, and rejects the others with the message of
  `analysis_error`: the first failing check, in the order the checker makes
  them.
- `stdlib`: the standard input/output module, parsed and put in front of a
  program.
- `typing`, `symbols`: the types and symbol names that code generation uses.
- `cli`: command-line options and the checks a source file passes before
  code generation.
- `project`: the `salt` tool's command line, project configuration files and
  Cargo manifests.

`app/` is the executable: it reads files, generates LLVM IR through inkwell,
links with the system C compiler and runs `cargo` for Rust dependencies.
Run under the name `salt` it manages projects; otherwise it is `asc`.
