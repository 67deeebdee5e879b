//! The release number of the application.

use vstd::prelude::*;
use vstd::string::StringExecFns;

verus! {

/// The release number as text, led by `v` where `prefix` asks for it.
pub open spec fn version_text(prefix: Option<bool>) -> Seq<char> {
    if prefix == Some(true) {
        "v"@ + "1.0.1"@
    } else {
        "1.0.1"@
    }
}

/// The release number, `1.0.1`, or `v1.0.1` when `prefix` is `Some(true)`.
pub fn versionno(prefix: Option<bool>) -> (text: String)
    ensures
        text@ == version_text(prefix),
{
    let with_prefix = match prefix {
        Some(flag) => flag,
        None => false,
    };
    if with_prefix {
        String::from_str("v").concat("1.0.1")
    } else {
        String::from_str("1.0.1")
    }
}

} // verus!
