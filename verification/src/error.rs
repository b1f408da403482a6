//! Error kinds reported by the registry.

use vstd::prelude::*;

verus! {

/// Failures that are specific to the registry's own rules.
#[derive(Clone, Copy, Debug, PartialEq, Eq, Structural)]
pub enum NFTError {
    /// The request bytes do not decode to a known operation.
    InvalidInstruction,
    /// The owner recorded in an asset is not the signer of the request.
    InvalidOwner,
    /// The account holds no record yet.
    NotInitialized,
    /// The account already holds bytes other than zero.
    AlreadyInitialized,
    /// A checked addition would wrap.
    Overflow,
    /// The authority recorded in a collection is not the signer of the request.
    InsufficientAuthority,
    /// The asset has been minted before.
    AlreadyMinted,
    /// The asset has not been minted.
    NotMinted,
    /// The metadata URI is not acceptable.
    InvalidMetadataUri,
    /// The royalty percentage is above one hundred.
    InvalidRoyaltyPercentage,
    /// The collection does not allow its metadata to change.
    ImmutableMetadata,
}

impl NFTError {
    /// The number under which the ledger reports this error: the position of
    /// the kind in the declaration, counted from zero.
    pub open spec fn spec_code(self) -> u32 {
        match self {
            NFTError::InvalidInstruction => 0,
            NFTError::InvalidOwner => 1,
            NFTError::NotInitialized => 2,
            NFTError::AlreadyInitialized => 3,
            NFTError::Overflow => 4,
            NFTError::InsufficientAuthority => 5,
            NFTError::AlreadyMinted => 6,
            NFTError::NotMinted => 7,
            NFTError::InvalidMetadataUri => 8,
            NFTError::InvalidRoyaltyPercentage => 9,
            NFTError::ImmutableMetadata => 10,
        }
    }

    /// The number under which the ledger reports this error.
    pub fn code(self) -> (c: u32)
        ensures
            c == self.spec_code(),
    {
        match self {
            NFTError::InvalidInstruction => 0,
            NFTError::InvalidOwner => 1,
            NFTError::NotInitialized => 2,
            NFTError::AlreadyInitialized => 3,
            NFTError::Overflow => 4,
            NFTError::InsufficientAuthority => 5,
            NFTError::AlreadyMinted => 6,
            NFTError::NotMinted => 7,
            NFTError::InvalidMetadataUri => 8,
            NFTError::InvalidRoyaltyPercentage => 9,
            NFTError::ImmutableMetadata => 10,
        }
    }

    /// The error kind that is reported under `code`, if there is one.
    pub fn from_code(code: u32) -> (e: Option<NFTError>)
        ensures
            code <= 10 <==> e is Some,
            e matches Some(kind) ==> kind.spec_code() == code,
    {
        match code {
            0 => Some(NFTError::InvalidInstruction),
            1 => Some(NFTError::InvalidOwner),
            2 => Some(NFTError::NotInitialized),
            3 => Some(NFTError::AlreadyInitialized),
            4 => Some(NFTError::Overflow),
            5 => Some(NFTError::InsufficientAuthority),
            6 => Some(NFTError::AlreadyMinted),
            7 => Some(NFTError::NotMinted),
            8 => Some(NFTError::InvalidMetadataUri),
            9 => Some(NFTError::InvalidRoyaltyPercentage),
            10 => Some(NFTError::ImmutableMetadata),
            _ => None,
        }
    }
}

/// Every way in which a request can fail. A request that fails changes nothing.
#[derive(Clone, Copy, Debug, PartialEq, Eq, Structural)]
pub enum ProgramError {
    /// The request names fewer accounts than the operation takes.
    NotEnoughAccountKeys,
    /// An account that has to sign the request did not.
    MissingRequiredSignature,
    /// An account that has to belong to this program belongs to another.
    IncorrectProgramId,
    /// An address is not the one that the seeds derive.
    InvalidAccountData,
    /// The bytes of an account do not hold a record of the expected shape.
    InvalidRecord,
    /// A record does not fit the space that its layout gives it.
    RecordTooLarge,
    /// One of the registry's own rules is broken.
    Custom(NFTError),
}

} // verus!
