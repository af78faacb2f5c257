//! Mapping of the EVM interpreter's error type onto the host's logic
//! error type. The records here carry the interpreter's error data as
//! plain values — instruction names as strings, counters as integers — so
//! the mapping itself is checked variant by variant.

use vstd::prelude::*;

verus! {

/// An error as the EVM interpreter reports it.
pub enum VmError {
    OutOfGas,
    BadJumpDestination { destination: u64 },
    BadInstruction { instruction: u8 },
    StackUnderflow { instruction: String, wanted: u64, on_stack: u64 },
    OutOfStack { instruction: String, wanted: u64, limit: u64 },
    BuiltIn(String),
    MutableCallInStaticContext,
    Internal(String),
    Wasm(String),
    OutOfBounds,
    Reverted,
}

/// An EVM error as the host's logic layer records it. The counters are
/// narrowed to 32 bits; a value that does not fit becomes zero.
pub enum EvmError {
    OutOfGas,
    BadJumpDestination { destination: u32 },
    BadInstruction { instruction: u8 },
    StackUnderflow { instruction: String, wanted: u32, on_stack: u32 },
    OutOfStack { instruction: String, wanted: u32, limit: u32 },
    BuiltIn(String),
    OutOfBounds,
    Reverted,
}

/// A storage inconsistency as the host's logic layer records it.
pub enum InconsistentStateError {
    StorageError(String),
}

/// The host's logic error: an EVM error or an inconsistent-state error.
pub enum VMLogicError {
    EvmError(EvmError),
    InconsistentStateError(InconsistentStateError),
}

/// Narrowing to 32 bits with zero as the fallback for values that do not
/// fit.
pub open spec fn spec_narrow32(x: u64) -> u32 {
    if x <= u32::MAX {
        x as u32
    } else {
        0u32
    }
}

/// Narrows a 64-bit counter to 32 bits, zero when it does not fit.
fn narrow32(x: u64) -> (r: u32)
    ensures
        r == spec_narrow32(x),
{
    if x <= u32::MAX as u64 {
        x as u32
    } else {
        0
    }
}

/// Maps an interpreter error onto the host's logic error, variant by
/// variant: every EVM-side failure becomes the matching `EvmError`, an
/// internal interpreter error becomes a storage error, and a mutable call
/// in a static context is reported as out of bounds. A WASM error cannot
/// arise here — this host never runs the interpreter on WASM — so that
/// input is excluded.
pub fn convert_vm_error(err: VmError) -> (r: VMLogicError)
    requires
        !(err matches VmError::Wasm(_)),
    ensures
        err matches VmError::OutOfGas ==> r == VMLogicError::EvmError(EvmError::OutOfGas),
        err matches VmError::BadJumpDestination { destination } ==> r == VMLogicError::EvmError(
            EvmError::BadJumpDestination { destination: spec_narrow32(destination) },
        ),
        err matches VmError::BadInstruction { instruction } ==> r == VMLogicError::EvmError(
            EvmError::BadInstruction { instruction },
        ),
        err matches VmError::StackUnderflow { instruction, wanted, on_stack } ==> r
            == VMLogicError::EvmError(
            EvmError::StackUnderflow {
                instruction,
                wanted: spec_narrow32(wanted),
                on_stack: spec_narrow32(on_stack),
            },
        ),
        err matches VmError::OutOfStack { instruction, wanted, limit } ==> r
            == VMLogicError::EvmError(
            EvmError::OutOfStack {
                instruction,
                wanted: spec_narrow32(wanted),
                limit: spec_narrow32(limit),
            },
        ),
        err matches VmError::BuiltIn(msg) ==> r == VMLogicError::EvmError(EvmError::BuiltIn(msg)),
        err matches VmError::MutableCallInStaticContext ==> r == VMLogicError::EvmError(
            EvmError::OutOfBounds,
        ),
        err matches VmError::Internal(msg) ==> r == VMLogicError::InconsistentStateError(
            InconsistentStateError::StorageError(msg),
        ),
        err matches VmError::OutOfBounds ==> r == VMLogicError::EvmError(EvmError::OutOfBounds),
        err matches VmError::Reverted ==> r == VMLogicError::EvmError(EvmError::Reverted),
{
    match err {
        VmError::OutOfGas => VMLogicError::EvmError(EvmError::OutOfGas),
        VmError::BadJumpDestination { destination } => VMLogicError::EvmError(
            EvmError::BadJumpDestination { destination: narrow32(destination) },
        ),
        VmError::BadInstruction { instruction } => VMLogicError::EvmError(
            EvmError::BadInstruction { instruction },
        ),
        VmError::StackUnderflow { instruction, wanted, on_stack } => VMLogicError::EvmError(
            EvmError::StackUnderflow {
                instruction,
                wanted: narrow32(wanted),
                on_stack: narrow32(on_stack),
            },
        ),
        VmError::OutOfStack { instruction, wanted, limit } => VMLogicError::EvmError(
            EvmError::OutOfStack { instruction, wanted: narrow32(wanted), limit: narrow32(limit) },
        ),
        VmError::BuiltIn(msg) => VMLogicError::EvmError(EvmError::BuiltIn(msg)),
        VmError::MutableCallInStaticContext => VMLogicError::EvmError(EvmError::OutOfBounds),
        VmError::Internal(msg) => VMLogicError::InconsistentStateError(
            InconsistentStateError::StorageError(msg),
        ),
        VmError::Wasm(_) => {
            proof {
                assert(false);
            }
            VMLogicError::EvmError(EvmError::OutOfBounds)
        },
        VmError::OutOfBounds => VMLogicError::EvmError(EvmError::OutOfBounds),
        VmError::Reverted => VMLogicError::EvmError(EvmError::Reverted),
    }
}

} // verus!
