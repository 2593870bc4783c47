# Lumen

The verified core of a JavaScript engine: the evaluator with its scopes, promises and modules, the object
model's number formats, properties and shapes, snapshots of syntax trees, and the decisions of a
conformance runner.

- `src/ast.rs`, `src/token.rs`, `src/tree.rs`, `src/grammar.rs`, `src/snapshot.rs`: syntax trees and
  their snapshots
- `src/interp/`: the evaluator. It keeps texts, lists, scopes, classes, modules and promises, asks a host
  for objects and calls, and its contracts say what it asks and how it goes on, whatever the host answers
- `src/modules/`: registering, linking and evaluating modules
- `src/scan/`: questions about syntax
- `src/scope.rs`, `src/jobs.rs`, `src/units.rs`: scopes, promises and jobs, and the units of texts
- `src/value/`: properties, shapes, typed arrays and number formats
- `src/runner/`: what a conformance runner decides
- `app/`: the runner's processes and files
- `tests/`: tests
