# asenix

The verified core of the Asenix research-coordination hub and of its
`asenix` command-line tool, written in Verus.

- `src/` is the library, and Verus verifies all of it; its public
  functions carry contracts that state what they return. It holds the
  domain model of atoms, edges and lifecycles, the acceptance pipeline, the MCP session store and protocol checks, the JSON-RPC and
  dashboard request handling, the artifact and project checks, the
  knowledge-graph cache with its traversals, the query text of the
  database reads, and the decisions of the command-line tool (its grammar,
  the agent launcher, the stream display, bounties, logs and packs).
  Calls into `blake3`, `hex`, `ed25519-dalek`, `rand` and `petgraph` stand
  behind small trusted wrappers whose contracts state what those crates
  document.
- `app/` is the command-line program around the library: argument
  handling, files, processes, the HTTP client and printing, and the
  floating-point pheromone arithmetic, which Verus does not reason about.
- `tests/` runs the library on concrete values.
