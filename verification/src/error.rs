//! The errors an operation on a registry can end with.

use vstd::prelude::*;

verus! {

/// Why an operation was refused. A refused operation changes nothing.
#[derive(Clone, Copy, Debug, PartialEq, Eq)]
pub enum VaultError {
    /// The content identifier is empty or longer than allowed.
    InvalidCID,
    /// The name is empty or longer than allowed.
    InvalidName,
    /// The description is longer than allowed.
    InvalidDescription,
    /// The file type is empty or longer than allowed.
    InvalidFileType,
    /// No record of the registry carries the content identifier.
    AssetNotFound,
    /// The caller is not the owner that the registry names.
    Unauthorized,
}

impl VaultError {
    /// The text shown for this error.
    pub open spec fn spec_message(self) -> Seq<char> {
        match self {
            VaultError::InvalidCID => "Invalid CID format"@,
            VaultError::InvalidName => "Invalid asset name"@,
            VaultError::InvalidDescription => "Invalid description"@,
            VaultError::InvalidFileType => "Invalid file type"@,
            VaultError::AssetNotFound => "Asset not found"@,
            VaultError::Unauthorized => "Unauthorized: Only asset owner can perform this action"@,
        }
    }

    /// The text shown for this error.
    pub fn message(&self) -> (text: &'static str)
        ensures
            text@ == self.spec_message(),
    {
        match self {
            VaultError::InvalidCID => "Invalid CID format",
            VaultError::InvalidName => "Invalid asset name",
            VaultError::InvalidDescription => "Invalid description",
            VaultError::InvalidFileType => "Invalid file type",
            VaultError::AssetNotFound => "Asset not found",
            VaultError::Unauthorized => "Unauthorized: Only asset owner can perform this action",
        }
    }
}

} // verus!
