# node_globals_inject

A verified library that adds ES-module definitions of the CommonJS globals
`__dirname` and `__filename` to a module that uses them:

```typescript
import { fileURLToPath } from "url"
import { dirname } from "path"

const __dirname = dirname(fileURLToPath(import.meta.url))
const __filename = fileURLToPath(import.meta.url)
```

Imports of `path`/`url` that the module already has are reused (a namespace
import `* as u` gives `u.fileURLToPath`, a named one its local name); a missing
function is imported under a configurable prefix (`__swc_shim_` by default).

Layout:

- `src/` — the library, verified with Verus. It works on a plain model of the
  module's top-level items (`model.rs`): `scan_visitor.rs` finds the uses and
  the existing imports, `import_data_parser.rs` reads an import declaration,
  `specifier_factory.rs` builds and completes imports, and
  `post_scan_write_visitor.rs` decides and performs the injection.
  `laws.rs` holds properties of the transform as a whole.
- `app/` — the SWC plugin: configuration, conversion between the SWC AST and
  the model, and error reporting.
- `tests/` — the transform's scenarios and unit tests, on the model.
