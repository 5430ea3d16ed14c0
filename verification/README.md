# faiss_rabitq

Rust access to the Faiss C API (IVF-RaBitQ, IVF-SQ8 and HNSW indexes), with
the logic around the C calls verified by Verus.

- `src/` is the verified library: version parsing and ordering
  (`version`), the errors and metrics (`error`), finding and checking the
  shared library (`api`), building an index step by step (`construct`),
  the checks on vector buffers and search results (`index`), the
  benchmark's configuration and counters (`bench`), the line handling of
  JSON-lines embedding files (`jsonl`), and the text and number helpers
  these rest on (`text`, `number`).
- `app/` is the program around it: loading `libfaiss_c` with `libloading`,
  the unsafe calls into it, the index types that own C pointers, reading
  embeddings with `serde_json`, and the benchmark's `main`.
- `tests/` runs the library on concrete inputs.

The library is looked for at `FAISS_C_LIB_PATH` first, then in the build
directories and through the dynamic loader. IVF-RaBitQ indexes need Faiss
1.11.0 or later.
