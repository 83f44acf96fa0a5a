//! The error kinds that the single-action entry points report.

use vstd::prelude::*;

verus! {

/// Why a call was rejected. Single-action entry points (create, join, betray,
/// set-password) propagate the first error they meet and leave the state
/// untouched; the batch harvest round never propagates one, it converts each
/// into its failure counter instead.
#[derive(Clone, Copy, Debug, PartialEq, Eq, Structural)]
pub enum Error {
    AlreadyCreatedCircle,
    CircleDoesNotExist,
    CircleBetrayed,
    WrongPassword,
    AlreadyInCircle,
    LongPassword,
    NotOwner,
    HarvestFailed,
    CannotJoinOwnCircle,
    CannotBetrayOwnCircle,
    TokenTransferFailed,
    InvalidAmount,
}

} // verus!
