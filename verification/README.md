# compiler

The front and middle parts of a compiler for a small query language, with every function
of the library proved against its contract by Verus.

- `src/` is the verified library:
  - `lexer`, `token`, `text`, `span`: the lexer and the text utilities it needs;
  - `ast`, `ast_eq`, `dsl`, `name`, `map`, `ordmap`: syntax trees, their equality, and
    small constructors for them;
  - `display`, `print`, `style`: printing syntax trees, plainly or with types;
  - `parser`: token sets and binding powers of the grammar, the parser's cursor over
    tokens with its recovery from errors, and the expression parser (literals, paths,
    parentheses and tuples, arrays, blocks, `if`, `while`, `return`, `break`, `continue`,
    prefix and infix operators, calls, method calls and fields);
  - `desugar`: the surface syntax tree and its desugaring: operators as trait calls, `and`
    and `or` as matches, method calls as calls, placeholders as functions;
  - `mangle`, `infer`: mangled names, type variables, substitution of generics and
    expansion of associated types;
  - `mir`: functions as control-flow graphs, with successors and predecessors, search
    orders, dominators, the MIR lexer and printer, and the passes that remove unreachable
    blocks, merge chains of blocks, propagate constants and remove unused locals;
  - `diag`: diagnostics.
- `tests/` runs the library on concrete inputs.
- `app/` holds what the library leaves to ordinary Rust: the keys and values that make type
  and implementation variables usable in `ena` unification tables, reports printed with
  `ariadne`, and `Display` impls that print through the library.
