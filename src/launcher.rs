//! Reporting on launched applications; the process itself is spawned by the
//! host.

use vstd::prelude::*;
use vstd::string::*;

verus! {

/// The text reported after `path` was launched: `Launched: <path>`.
pub open spec fn launched_text(path: Seq<char>) -> Seq<char> {
    "Launched: "@ + path
}

/// The report for a launched application.
pub fn launched_message(path: &String) -> (r: String)
    ensures
        r@ == launched_text(path@),
{
    let mut r = String::from_str("Launched: ");
    r.append(path.as_str());
    r
}

} // verus!
