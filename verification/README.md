# template_pipeline

A verified core of the Angular template compilation pipeline, written in Verus.

- `output`, `parse_util`, `equivalence`: the output expression model, source spans, and
  structural equivalence of expressions.
- `expression_ast`, `conversion`: the template expression AST and its conversion to output
  expressions.
- `ir`, `compilation`, `component`: the intermediate operations, the host binding job and the
  component job (its views kept in an `indexmap::IndexMap`, in insertion order). The phases
  that run over a component job state their result for the root view and for every embedded
  view, each under its key.
- `ingest`: host bindings into operations.
- `phases`: the transformation phases (style property parsing, binding specialization,
  attribute extraction, constant collection, chaining, `$any` deletion, namespaces, empty
  elements, singleton interpolations, duplicate text attributes, advance operations, local
  references, i18n parameter formatting), each with its contract and laws.
- `emit`, `instruction`: emission of operations as calls of the runtime's instructions.
- `view_query`: the view query function of a component.
- `pipeline`: the host binding pipeline from input to job.

The public functions of `src/` carry contracts proved by Verus, as do most private helpers (a
few small ones, such as constructors of literals, carry none and are checked only for their
absence of panics); the few calls into `std` and `indexmap` that Verus does not know go through
small trusted wrappers whose doc comments say what they claim.
