//! What the WebAssembly runtime asks of the host it is embedded in.

use vstd::prelude::*;

verus! {

/// The page size the runtime maps memory in.
pub fn wasmtime_page_size() -> (r: usize)
    ensures
        r == 4096,
{
    4096
}

} // verus!
