# turbolint_rules

Lint rules for JavaScript, written in Verus. Each rule states, as a
specification over a syntax tree, exactly which reports it makes on a node,
and its code is proved to make those reports and no others.

Layout of `src/`:

- `tree.rs`: the syntax tree the rules read (nodes with kinds, byte ranges,
  children and fields) and its well-formedness.
- `parse.rs`: builds that tree from tree-sitter's JavaScript parse tree.
- `rule.rs`: the `Rule` trait; `diagnostic.rs`: reports, fixes, diagnostics.
- `linter.rs`: running a rule over every node, and dropping what directive
  comments switch off; `directives.rs`: `eslint-disable-line`,
  `eslint-disable-next-line`, `eslint-disable` and `eslint-enable`.
- `fixer.rs`: applying the fixes of the diagnostics to the source.
- `text.rs`, `helpers.rs`, `precision.rs`: byte and text helpers, node
  predicates shared by rules, and the integer side of the loss-of-precision
  check.
- one module per rule.

`app/` holds the rule set as one list and the loss-of-precision rule, whose
check parses and formats floating-point numbers.
