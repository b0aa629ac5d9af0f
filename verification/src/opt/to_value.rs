//! Showing a structured value to the host.

use crate::convert::from_structured;
use crate::convert::host_of;
use crate::convert::HostValue;
use crate::value::Structured;
use vstd::prelude::*;

verus! {

/// Converts a structured value into the value of the host that shows it.
pub fn to_value(value: &Structured) -> (r: HostValue)
    ensures
        r@ == host_of(value@),
{
    from_structured(value)
}

} // verus!
