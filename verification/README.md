# mojito

The verified core of a compiler for a small Mojo-like language: its types, symbols and
origins, the parser of its statements, the verifier of its middle intermediate
representation, monomorphization, native layouts and symbols, and the operations on
runtime values.

Every item of `src/` is verified with Verus. Each data type `X` has a mathematical model
`XModel` (its view, `x@`), and the contracts speak of models. The statements that hold
across functions are public proof functions whose names start with `law_`.

- `token`, `parser`: tokens, the statement grammar, and recovery after errors. What
  statements are made of is a `Grammar`; `SimpleGrammar` is a small one.
- `ast`, `ct`, `literal`, `types`, `origin`, `checked`, `symbol`: the data of the phases;
  `debug`: their diagnostic forms.
- `mir`, `mir::verify`: the middle representation and its verifier, which reports every
  issue. What it takes from the type checker is a `Checker`; `PlainChecker` is one
  without conversions.
- `native`: build targets, C layouts, the runtime ABI table, mangling, and
  monomorphization (`native::mono`). What it takes from name resolution is `CallRules`;
  `DirectRules` is one.
- `runtime`: values and operators. Floating-point results come from a table: an
  operation that needs one says which, and is run again once the table has it.

`app/` runs that loop on floating-point hardware, and reads and prints.
