//! Small authorization checks over escrow records.

use vstd::prelude::*;

use crate::errors::Error;
use crate::state::contains_addr;
use crate::types::Address;
use crate::types::EscrowInfo;

verus! {

/// Accepts exactly the members of the escrow's validator set.
pub fn validate_validator(escrow: &EscrowInfo, validator: Address) -> (r: Result<(), Error>)
    ensures
        r is Ok <==> escrow.validators@.contains(validator),
        r is Err ==> r == Err::<(), Error>(Error::NotAValidator),
{
    if contains_addr(&escrow.validators, validator) {
        Ok(())
    } else {
        Err(Error::NotAValidator)
    }
}

/// Accepts exactly the expected oracle address.
pub fn validate_oracle(escrow: &EscrowInfo, oracle: Address, expected: Address) -> (r: Result<
    (),
    Error,
>)
    ensures
        r is Ok <==> oracle == expected,
        r is Err ==> r == Err::<(), Error>(Error::OracleUnauthorized),
{
    if oracle == expected {
        Ok(())
    } else {
        Err(Error::OracleUnauthorized)
    }
}

} // verus!
