//! A process-wide memory-allocation tracker, modelled as an explicit state
//! object: it counts live bytes and live allocation counts per originating
//! thread, samples call stacks to attribute allocations to call sites, and
//! exposes a low-overhead reporting surface for an external telemetry
//! loop. The hot paths live in `tracker`; `ident`, `counters`, `filter`,
//! `sampler`, `symbols`, `hash`, `header` and `report` hold the parts.
//!
//! Beside the tracker stand the host runtime's small data-plane pieces:
//! the EVM argument records and their byte codec (`evm_args`), the mapping
//! of interpreter errors onto the host's logic errors (`vm_errors`), and
//! the compiled-contract cache interface (`cache`).

pub mod cache;
pub mod counters;
pub mod evm_args;
pub mod filter;
pub mod hash;
pub mod header;
pub mod ident;
pub mod report;
pub mod sampler;
pub mod symbols;
pub mod tracker;
pub mod vm_errors;
