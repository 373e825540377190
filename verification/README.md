# Petal

A compiler for the Lotus language, for embedded programming, with its
front end, intermediate representation and code generation verified with
Verus.

## Layout

- `src/text.rs`: decimal rendering and parsing of integers.
- `src/config.rs`: the compiler's settings (source file, output file with
  its default, debug mode).
- `src/front/`: tokens and the lexer, the syntax tree and its nodes, the
  recursive-descent parser, the text dump of the tree, and semantic analysis
  (scopes, the symbol table, type checks).
- `src/middle/`: the three-address intermediate representation, its
  generation from the tree, and a naive register assignment (the spill pass).
- `src/back/`: targets (x86-64, AArch64, RP2040) and assembly generation.
- `app/`: the command-line program: it reads the arguments and a source file, prints its
  tokens and the dump of its tree in color, and reports the outcome of
  semantic analysis.
- `tests/`: tests of each stage.

Each stage has a mathematical description (spec functions over the views of
its data) and its functions are proved to compute exactly that description.
The laws that relate stages or calls (for instance, that a name just declared
is found, that every virtual register gets exactly one place, or that the
lexer's output ends with its only end-of-file token) are proof functions
whose names start with `law_`.
