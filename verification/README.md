# kannolo

Approximate nearest neighbor search over dense, sparse and multivector collections, with the
logic around the vector engine verified by Verus.

- `src/` is the verified library: inverted files (`ivf`, `ivf_build`, `grouping`, `ranking`, and what
  they promise in `ivf_laws`, `exact` and `ivf_exact`),
  flat, graph and two-stage indexes (`flat`, `hnsw`, `rerank_dense`, `rerank_multivec`), sparse and
  multivector datasets (`sparse`, `multivec`), queries and results (`query`, `sparse_query`,
  `results`, `timing`), and the rules of the command line (`cli`, `build_plan`, `search_plan`).
- `app/` holds what surrounds it: command-line programs, Python classes, files and threads. The
  vector engine itself (storage, distances, graphs) is the vectorium crate, which the package
  registry does not carry; it is reached through the traits of `app/engine.rs`.
- `tests/` runs the library on concrete values.

Values are generic: the library is told how to add, multiply and compare them through
`Arithmetic`, so that its contracts hold for whatever these operations return. Work that
belongs to the vector engine comes in as closures, and contracts say exactly which calls are made
and what is done with their results.
