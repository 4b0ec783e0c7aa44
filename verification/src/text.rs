//! Small changes to text.

use vstd::prelude::*;
use vstd::string::StringExecFns;

verus! {

/// Puts " is Happy" behind `name`.
pub fn change_string(name: &mut String)
    ensures
        final(name)@ == old(name)@ + " is Happy"@,
{
    name.append(" is Happy");
}

} // verus!
