//! Boolean vault/asset flags stored as a single byte and validated on read.

use vstd::prelude::*;

use crate::error::{program_error, ProgramError, RoshiError};

verus! {

pub const FALSE: u8 = 0;

pub const TRUE: u8 = 1;

/// The stored byte of a boolean flag.
pub open spec fn flag_byte(value: bool) -> u8 {
    if value {
        TRUE
    } else {
        FALSE
    }
}

/// Decoding of a stored flag byte: only `0` and `1` are flags.
pub open spec fn spec_flag_to_bool(flag: u8, error: RoshiError) -> Result<bool, ProgramError> {
    if flag == FALSE {
        Ok(false)
    } else if flag == TRUE {
        Ok(true)
    } else {
        Err(program_error(error))
    }
}

pub fn bool_to_flag(value: bool) -> (r: u8)
    ensures
        r == flag_byte(value),
{
    if value {
        TRUE
    } else {
        FALSE
    }
}

pub fn flag_to_bool(flag: u8, error: RoshiError) -> (r: Result<bool, ProgramError>)
    ensures
        r == spec_flag_to_bool(flag, error),
{
    match flag {
        FALSE => Ok(false),
        TRUE => Ok(true),
        _ => Err(ProgramError::from(error)),
    }
}

pub fn validate_flag(flag: u8, error: RoshiError) -> (r: Result<(), ProgramError>)
    ensures
        r is Ok <==> (flag == FALSE || flag == TRUE),
        r is Err ==> r == Err::<(), ProgramError>(program_error(error)),
{
    match flag_to_bool(flag, error) {
        Ok(_) => Ok(()),
        Err(e) => Err(e),
    }
}

/// Storing a flag and reading it back returns the stored boolean.
pub proof fn law_flag_round_trips(value: bool, error: RoshiError)
    ensures
        spec_flag_to_bool(flag_byte(value), error) == Ok::<bool, ProgramError>(value),
{
}

} // verus!
