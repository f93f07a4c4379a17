//! The one entry point the scripting host calls back into: formatting a log
//! line for a message a script reports. Printing is the host's business, so
//! the formatted line is returned to it.

use vstd::prelude::*;
use vstd::string::*;

verus! {

/// The log line for a message arriving from a script.
pub fn log_from_js(message: String) -> (r: String)
    ensures
        r@ == "[Rust Log]: "@ + message@,
{
    let mut r = "[Rust Log]: ".to_owned();
    r.append(message.as_str());
    r
}

} // verus!
