# v8_bridge

The native bridge through which MoonBit drives V8: runtimes, scripts,
modules, promises, globals, host ops and snapshots, exposed as a C ABI.

The crate is split in two.

- `src/` is the verified library (Verus). It holds every decision the bridge
  takes that does not need V8 itself, each with a contract:
  - `specifier`: splitting `scheme://authority` prefixes, normalising module
    paths, resolving relative imports;
  - `modules`: the module registry (loaded sources, compiled modules, the
    specifier behind each module), instantiation and dynamic-import steps;
  - `ops`: the four host-op lanes behind `MoonBit.opSync`, `opSyncBytes`,
    `opAsync` and `opAsyncBytes` (registration, callbacks, preloaded
    responses, the host's queue, op ids);
  - `handles`: the module and promise handle tables of a runtime;
  - `evaluation`: promise states, driving a promise with microtask
    checkpoints, rejection and exception reports;
  - `moonbit`: byte buffers handed to MoonBit, array headers, the response
    envelope of host callbacks, panic and error text;
  - `input`, `errors`: checks on what the embedder hands over, and the exact
    message of every error;
  - `collections`, `text`: small verified helpers. Registries keyed by
    strings (op names, module specifiers, op name and payload pairs) are kept
    in `collections::AssocList`, a list of entries with pairwise distinct
    keys, rather than in a `HashMap`/`HashSet` keyed by `String`: vstd
    specifies those std collections only for keys whose hashing and equality
    it models (such as integers), so nothing could be proved of a
    string-keyed one. Tables keyed by integers (op ids, handles, identity
    hashes) stay `HashMap`s.
  Laws relating several operations are public proof functions named `law_*`.
- `app/` is ordinary Rust: the `extern "C"` functions, raw pointers, and all
  work with the `v8` crate, calling the library for each decision.

`tests/` exercises the library on concrete values.
