# turbine

Typed entity graphs and the naming rules of a code generator for entity types, verified with
Verus.

- `src/url.rs`: borrowed and owned versioned type URLs.
- `src/entity.rs`, `src/graph.rs`, `src/view.rs`: entities as the nodes of a petgraph graph,
  with an id index, an inheritance table of types and a set of excluded nodes.
- `src/dynamic.rs`, `src/select.rs`: clauses on entities (`Matches`, `Clause`, `Statement`),
  their meaning as spec functions, and the selection of nodes of a view, with its laws.
- `src/name.rs`: module paths and type names of generated types, from the parts of their URLs
  that regex flavors recognise (regex, url and heck behind trusted wrappers).
- `src/codegen.rs`: the name of the inner types of a generated property type.
- `src/types.rs`, `src/skeletor.rs`: the traits of generated types and the generator's errors.
- `app/lib.rs`: what rests on serde, serde_json, error-stack and onlyerror: the traits that
  convert JSON values, the `url!` macro, and the generator's error type with its messages.
