# rstml

A parser for JSX-like token streams (RSX) into a tree of nodes, verified
with Verus.

```text
<!DOCTYPE html>
<div class="x" on:click={handler} {attrs}>
    "text" raw text <br/> <!-- "comment" --> <>{ block }</>
</div>
```

The parser is recoverable: on invalid input it reports diagnostics and
still gives the nodes it could read (`ParsingResult::Partial`), or reports
why it could not (`ParsingResult::Failed`). When parsing stops with tokens
left (after a node that fails, or one of another type than required), the
first of them is reported as an unexpected token.

A configured transformation of blocks is asked once for each block of the
input; its answers are recorded by the block's position, and the result of
the parse is specified for every way of answering that agrees with them.

## Layout

- `src/token.rs`: token trees (identifiers, punctuation, literals, groups
  with their spans) and how they display.
- `src/grammar.rs`: the grammar, with its recovery, as spec functions over
  sequences of token values. Every parsing function is specified by it.
- `src/parse.rs`: strict parsers of the small parts (punctuation, names,
  close tags, keyed attributes).
- `src/parse_nodes.rs`, `src/parse_tree.rs`: recoverable parsers of blocks,
  attributes, tags, doctypes, fragments, elements and nodes.
- `src/parser.rs`, `src/config.rs`: the top level parser and its
  configuration (flat tree, required number and type of top level nodes,
  recovery of invalid blocks, void and raw text elements, transformation of
  blocks).
- `src/node/`: the node types, their spans, flattening, text of names, raw
  text and values.
- `src/recoverable.rs`: the recovery context and `ParsingResult`.
- `src/syntax.rs`: the questions the parser asks of Rust's grammar, answered
  by `syn` (is this valid block content, where does this expression end,
  what does this literal hold).
- `src/laws.rs`: properties proved for all inputs.
- `app/`: the `proc_macro` / `proc_macro2` front end: converts token
  streams, runs the parser, turns diagnostics into `syn` errors.
