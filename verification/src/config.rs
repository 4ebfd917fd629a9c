use crate::constants::DEFAULT_INSERT_PREFIX;
use vstd::prelude::*;

verus! {

/// Options of the transform.
pub struct Config {
    /// Prefix put in front of the name of every function the transform has
    /// to import itself (to avoid clashes with names of the module).
    pub func_alias_prefix: String,
}

/// The prefix used when the configuration names none.
pub fn default_alias() -> (res: String)
    ensures
        res@ == DEFAULT_INSERT_PREFIX@,
{
    DEFAULT_INSERT_PREFIX.to_owned()
}

} // verus!
