//! One registered asset, and the checks that admit it.

use crate::error::VaultError;
use anchor_lang::prelude::Pubkey;
use vstd::prelude::*;

verus! {

/// Most characters a content identifier may have.
pub const MAX_CID_LEN: usize = 100;

/// Most characters a name may have.
pub const MAX_NAME_LEN: usize = 100;

/// Most characters a description may have.
pub const MAX_DESCRIPTION_LEN: usize = 500;

/// Most characters a file type may have.
pub const MAX_FILE_TYPE_LEN: usize = 50;

/// The outcome of the admission checks on the four texts of an asset. The
/// checks run in the order content identifier, name, description, file
/// type, and the first one that fails names the error. Lengths count
/// characters.
pub open spec fn admission(
    cid: Seq<char>,
    name: Seq<char>,
    description: Seq<char>,
    file_type: Seq<char>,
) -> Result<(), VaultError> {
    if !(1 <= cid.len() <= MAX_CID_LEN) {
        Err(VaultError::InvalidCID)
    } else if !(1 <= name.len() <= MAX_NAME_LEN) {
        Err(VaultError::InvalidName)
    } else if !(description.len() <= MAX_DESCRIPTION_LEN) {
        Err(VaultError::InvalidDescription)
    } else if !(1 <= file_type.len() <= MAX_FILE_TYPE_LEN) {
        Err(VaultError::InvalidFileType)
    } else {
        Ok(())
    }
}

/// Runs the admission checks on the four texts of an asset.
pub fn check_admission(cid: &str, name: &str, description: &str, file_type: &str) -> (outcome:
    Result<(), VaultError>)
    ensures
        outcome == admission(cid@, name@, description@, file_type@),
{
    let cid_len: usize = cid.unicode_len();
    if cid_len < 1 || cid_len > MAX_CID_LEN {
        return Err(VaultError::InvalidCID);
    }
    let name_len: usize = name.unicode_len();
    if name_len < 1 || name_len > MAX_NAME_LEN {
        return Err(VaultError::InvalidName);
    }
    if description.unicode_len() > MAX_DESCRIPTION_LEN {
        return Err(VaultError::InvalidDescription);
    }
    let file_type_len: usize = file_type.unicode_len();
    if file_type_len < 1 || file_type_len > MAX_FILE_TYPE_LEN {
        return Err(VaultError::InvalidFileType);
    }
    Ok(())
}

/// What an [`AssetRecord`] holds, as mathematical values.
pub struct AssetRecordView {
    pub cid: Seq<char>,
    pub name: Seq<char>,
    pub description: Seq<char>,
    pub file_type: Seq<char>,
    pub file_size: u64,
    pub owner: Pubkey,
    pub timestamp: i64,
    pub bump: u8,
}

impl AssetRecordView {
    /// The four texts pass the admission checks.
    pub open spec fn admissible(self) -> bool {
        admission(self.cid, self.name, self.description, self.file_type) is Ok
    }
}

/// The metadata of one registered asset. A record is made by a registration
/// and never changed afterwards.
#[derive(Debug, PartialEq, Eq)]
pub struct AssetRecord {
    /// Content identifier: names the content, which is stored elsewhere.
    pub cid: String,
    pub name: String,
    pub description: String,
    pub file_type: String,
    /// Size of the content in bytes.
    pub file_size: u64,
    /// The owner of the registry that holds the record.
    pub owner: Pubkey,
    /// Time of registration, in seconds since the epoch.
    pub timestamp: i64,
    /// The salt of the registry's address.
    pub bump: u8,
}

impl View for AssetRecord {
    type V = AssetRecordView;

    open spec fn view(&self) -> AssetRecordView {
        AssetRecordView {
            cid: self.cid@,
            name: self.name@,
            description: self.description@,
            file_type: self.file_type@,
            file_size: self.file_size,
            owner: self.owner,
            timestamp: self.timestamp,
            bump: self.bump,
        }
    }
}

impl Clone for AssetRecord {
    /// A record with the same content.
    fn clone(&self) -> (copy: Self)
        ensures
            copy@ == self@,
    {
        AssetRecord {
            cid: self.cid.clone(),
            name: self.name.clone(),
            description: self.description.clone(),
            file_type: self.file_type.clone(),
            file_size: self.file_size,
            owner: self.owner,
            timestamp: self.timestamp,
            bump: self.bump,
        }
    }
}

impl AssetRecord {
    /// Whether the four texts of the record pass the admission checks.
    pub fn is_admissible(&self) -> (ok: bool)
        ensures
            ok == self@.admissible(),
    {
        check_admission(
            self.cid.as_str(),
            self.name.as_str(),
            self.description.as_str(),
            self.file_type.as_str(),
        ).is_ok()
    }
}

} // verus!
