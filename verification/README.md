# quasiquodo

Compile-time quasi-quoting of TypeScript and Python source for Rust macros:
`#{name}` placeholders in a quoted source are replaced with stand-ins, the
source is parsed, and the syntax tree is turned into Rust code that rebuilds
it, with the stand-ins replaced by the bound variables.

The library under `src/` is verified with Verus:

- `text`, `segments`, `type_syntax`: characters and their UTF-8 offsets,
  stand-in segmentation, and the variable type syntax.
- `var_name`, `bindings`: variable names compared by their text,
  association lists keyed by name, stand-in tables.
- `py`: the string-aware placeholder scanner, variable types and output
  kinds, preprocessing into `__pyq_N__` stand-ins, the substitution context,
  format strings for string literals that hold stand-ins, how a variable
  replaces its stand-in in an expression, and the choice of the element of
  the parsed source that the output kind asks for.
- `ts`: SWC's token stream and comments as plain values, the placeholder
  scanners for tokens and JSDoc comments, variable types and output kinds,
  preprocessing into `__tsq_N__` stand-ins, the substitution context with its
  JSDoc comments, the templates for rebuilding those comments, the comment
  store that generated code fills, and the parse of the preprocessed source
  with SWC (the syntax tree kept with the text it was parsed from), with the choice of the element that the output kind asks for,
  and how a variable replaces its stand-in at type and expression position.

`app/` holds what stays outside the verified library: reading the macro
input with `syn`, parsing with Ruff, taking the chosen element out of SWC's
syntax tree, and the code generators that walk the syntax trees.
