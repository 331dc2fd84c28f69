//! The label value under which a request's outcome is counted.
use vstd::prelude::*;
use vstd::string::StringExecFns;

verus! {

/// `success` or `failure`.
pub fn status_label(success: bool) -> (r: String)
    ensures
        r@ == if success {
            "success"@
        } else {
            "failure"@
        },
{
    if success {
        String::from_str("success")
    } else {
        String::from_str("failure")
    }
}

} // verus!
