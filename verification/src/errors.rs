//! The closed set of validation failures. Any error rejects the whole
//! transaction; there is no recovery.

use vstd::prelude::*;

verus! {

/// Every way a transaction can fail validation. The two `Invliad...` names
/// keep their historical spelling, which callers match on.
#[derive(Clone, Copy, Debug, PartialEq, Eq, Structural)]
pub enum Error {
    /// A referenced cell position does not exist, or a position cannot be
    /// encoded as a single decimal digit for a delegated call.
    IndexOutOfBound,
    /// A multipart boundary parameter is not valid UTF-8.
    Encoding,
    /// Cell data is not a well-formed serialized asset record.
    InvalidNFTData,
    /// The identity in the type-script args does not match the value derived
    /// from the first consumed input and the output index.
    InvalidNFTID,
    /// A new asset carries no content bytes.
    EmptyContent,
    /// The content-type string is empty or malformed.
    InvalidContentType,
    /// A multipart asset's content does not contain its boundary marker.
    InvalidMultipartContent,
    /// The declared cluster cell is absent from the dependencies.
    ClusterCellNotInDep,
    /// The cluster demands a mutant that the asset does not apply.
    ClusterRequiresMutantApplied,
    /// None of the four cluster ownership proofs holds.
    ClusterOwnershipVerifyFailed,
    /// A declared mutant's extension cell is absent from the dependencies.
    ExtensionCellNotInDep,
    /// The extension's lock does not receive the demanded capacity.
    ExtensionPaymentNotEnough,
    /// More than one asset cell of this type among the outputs.
    ConflictCreation,
    /// More than one asset cell of this type among the inputs.
    MultipleSpend,
    /// The transaction carries no signed message area.
    InvliadCoBuildWitnessLayout,
    /// No action record in the message is keyed by this script's hash.
    InvliadCoBuildMessage,
    /// The action record's operation does not match the branch taken.
    SporeActionMismatch,
    /// An action record field contradicts the observed cell data.
    SporeActionFieldMismatch,
    /// The asset declares itself immortal and cannot be destroyed.
    DestroyImmortalNFT,
    /// A transfer changes the asset's serialized record.
    ModifySporePermanentField,
}

} // verus!
