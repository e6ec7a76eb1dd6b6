//! Account wire types shared with off-chain readers.

use vstd::prelude::*;

use crate::error::{program_error, ProgramError, RoshiError};

pub mod asset;
pub mod flags;
pub mod vault;

verus! {

/// Tag byte that prefixes a `Vault` payload in the program's tagged account.
pub const VAULT_ACCOUNT_TAG: u8 = 1;

/// Tag byte that prefixes an `Asset` payload in the program's tagged account.
pub const ASSET_ACCOUNT_TAG: u8 = 4;

/// The payload of tagged account data whose first byte must be `tag`;
/// anything else is reported as `error`.
pub fn account_payload(data: &[u8], tag: u8, error: RoshiError) -> (r: Result<&[u8], ProgramError>)
    ensures
        r is Ok <==> data@.len() > 0 && data@[0] == tag,
        r is Err ==> r == Err::<&[u8], ProgramError>(program_error(error)),
        r matches Ok(payload) ==> payload@ == data@.subrange(1, data@.len() as int),
{
    if data.len() == 0 || data[0] != tag {
        return Err(ProgramError::from(error));
    }
    Ok(vstd::slice::slice_subrange(data, 1, data.len()))
}

} // verus!
