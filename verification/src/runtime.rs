//! The setup of the native runtime.

use vstd::prelude::*;

verus! {

/// How the runtime is set up.
#[derive(Debug, Clone, Copy, PartialEq, Eq)]
pub struct RuntimeConfig {
    pub cuda_enabled: bool,
    pub asm_enabled: bool,
    /// The size of the arena in bytes.
    pub arena_size: usize,
}

impl Default for RuntimeConfig {
    /// Nothing enabled, and an arena of 64 mebibytes.
    fn default() -> (r: Self)
        ensures
            r == (RuntimeConfig {
                cuda_enabled: false,
                asm_enabled: false,
                arena_size: 67108864,
            }),
    {
        Self { cuda_enabled: false, asm_enabled: false, arena_size: 64 * 1024 * 1024 }
    }
}

/// Starts the runtime. There is nothing to start yet, so this succeeds with
/// every setup.
pub fn init(config: RuntimeConfig) -> (r: Result<(), &'static str>)
    ensures
        r is Ok,
{
    Ok(())
}

} // verus!
