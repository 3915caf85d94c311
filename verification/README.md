# type_format

Lays out Rust types as text: paths, references, function pointers, trait objects and their
bounds, generic parameters and where predicates. Every function of the library is verified with
Verus against a model of the layout.

- `src/ast.rs`: the syntax of types
- `src/config.rs`, `src/shape.rs`, `src/span.rs`, `src/text.rs`, `src/lists.rs`: settings, room on
  the line, positions in the source, and measures of text and of lists
- `src/query.rs`: what has to be known from the rest of a formatter
- `src/model.rs`: what the layout of each piece of syntax is
- `src/types.rs`: the functions that compute it
- `src/laws.rs`, `src/stability.rs`: what holds of all layouts
- `app/`: joins the library to the compiler's syntax tree

The library neither reads the source nor lays out expressions, macro calls, comments or lists.
Where a layout depends on one of these, the function stops with a `Query`. The caller records the
answer in the context and calls again. `stability.rs` proves of each layout that a query that stops
it has no answer yet, and that once found it does not change when more answers are recorded.

`display_width`, the number of columns that a text takes up, comes from the `unicode-width`
crate. It is the only thing that is trusted.
