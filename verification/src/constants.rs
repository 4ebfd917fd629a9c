use vstd::prelude::*;

verus! {

// Node.js packages that provide the functions the shims call
pub const PATH_PKG: &'static str = "path";
pub const NODE_PATH_PKG: &'static str = "node:path";
pub const URL_PKG: &'static str = "url";
pub const NODE_URL_PKG: &'static str = "node:url";
pub const DIRNAME_FUNC: &'static str = "dirname";
pub const URL_TO_FILE_PATH_FUNC: &'static str = "fileURLToPath";

// CommonJS globals that are shimmed
pub const DIRNAME_TOKEN: &'static str = "__dirname";
pub const FILENAME_TOKEN: &'static str = "__filename";

// Defaults
pub const DEFAULT_INSERT_PREFIX: &'static str = "__swc_shim_";

// Plugin name
pub const PLUGIN_NAME: &'static str = "node-globals-inject";

} // verus!
