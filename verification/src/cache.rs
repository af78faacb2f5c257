//! The compiled-contract cache interface: the host process brings its own
//! store of compiled modules, keyed by bytes, and the runner reads and
//! writes it through this trait.

use vstd::prelude::*;

verus! {

/// Relies on std::io::Error, declared opaque: cache implementations report
/// their failures with it, and this crate only carries such a value
/// through, never inspecting it.
#[verifier::external_type_specification]
#[verifier::external_body]
pub struct ExIoError(std::io::Error);

/// Cache for compiled modules. Implementations are the host's own; the
/// trait promises nothing of what a store returns, and callers must cope
/// with any answer.
pub trait CompiledContractCache: Send + Sync {
    fn put(&self, key: &[u8], value: &[u8]) -> Result<(), std::io::Error>;

    fn get(&self, key: &[u8]) -> Result<Option<Vec<u8>>, std::io::Error>;
}

/// The empty cache: accepts every store without keeping it, and never has
/// anything.
impl CompiledContractCache for () {
    fn put(&self, _key: &[u8], _value: &[u8]) -> (r: Result<(), std::io::Error>)
        ensures
            r is Ok,
    {
        Ok(())
    }

    fn get(&self, _key: &[u8]) -> (r: Result<Option<Vec<u8>>, std::io::Error>)
        ensures
            r matches Ok(v) && v is None,
    {
        Ok(None)
    }
}

} // verus!
