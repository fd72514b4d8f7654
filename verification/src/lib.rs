//! Transaction and ledger core of a privacy-preserving, UTXO-style
//! value-transfer protocol.
//!
//! The crate covers three tightly coupled pieces: the [`transaction::Transaction`]
//! data type with fixed-capacity input/output slots, canonical ordering and a
//! deterministic hash; its bit-exact binary wire codec in [`codec`]; and the
//! ledger store [`db::Db`] that holds the set of unspent notes (indexed) and the
//! set of spent nullifiers, with at-most-one-registration-per-nullifier as its
//! core safety property.
//!
//! The zero-knowledge proving engine, the note cryptography and the commitment
//! tree are collaborators outside this core; [`zk`] and [`note`] model the
//! contracts this layer requires of them with deterministic placeholders, in the
//! same way that [`db::Db::root`] returns a fixed default while no tree is wired
//! in.
use vstd::prelude::*;

pub mod codec;
pub mod db;
pub mod hexfmt;
pub mod item;
pub mod note;
pub mod rng;
pub mod rpc;
pub mod scalar;
pub mod transaction;
pub mod zk;

verus! {

/// Errors surfaced by the transaction and ledger layers.
///
/// All lower-level failures are surfaced to the caller as typed results; none
/// are silently swallowed.
#[derive(Clone, Copy, Debug, PartialEq, Eq, Structural)]
pub enum Error {
    /// A push went beyond a transaction's fixed slot capacity.
    MaximumNotes,
    /// The mandatory fee output produced no stored index.
    FeeOutput,
    /// A malformed wire field, a nullifier that does not validate against its
    /// note, or a proof/public-input count mismatch.
    InvalidParameters,
    /// A proof failed to check, or a note lookup by index found nothing.
    Generic,
    /// A storage region was busy; the call may be retried. The store here
    /// demands exclusive access through `&mut`, so its operations never
    /// actually report this variant; it remains part of the surface for
    /// callers that wrap the store behind a non-blocking try-acquire.
    LockContention,
}

/// Upper bound on the input slots of a transaction.
pub const MAX_INPUT_NOTES_PER_TRANSACTION: usize = 1;

/// Upper bound on the output slots of a transaction.
pub const MAX_OUTPUT_NOTES_PER_TRANSACTION: usize = 2;

/// Maximum allowed number of notes per transaction: the input slots plus the
/// output slots.
pub const MAX_NOTES_PER_TRANSACTION: usize = 3;

} // verus!
