# cairo_lang_core

Parts of a compiler for Cairo, verified with Verus.

- `constant`: constant values, the calculation of constant expressions, and the constant items of
  a program. `constant/semantics.rs` says what an expression is worth; `constant/laws.rs` what
  holds of every calculation.
- `config`: the predicates of `#[cfg(..)]` attributes, and the plugin that drops what they exclude.
- `graph`: the flow control graph of matches and conditions.
- `sierra`: Sierra programs, readable names for their ids, and the resolution of labels.
- `libfunc`: the invocation of a single library function; `libfunc_text` tests the numbers in its
  text.
- `starknet`: what the Starknet plugin notes about generated files.
- `semantic`: the tables that describe a program, its expressions, and diagnostics.
- `integer`, `containers`, `text`, `search`, `duplicate`: what the others are made of.

`app` holds the plugins and contexts that other crates ask for; it is not verified.
