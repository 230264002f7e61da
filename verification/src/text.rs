//! Short fixed phrases built around a caller-supplied name.

use vstd::prelude::*;
use vstd::string::*;

verus! {

/// The characters of the greeting for `name`.
pub open spec fn greeting_of(name: Seq<char>) -> Seq<char> {
    "Hello, "@ + name + "!"@
}

/// The characters of the farewell for `name`.
pub open spec fn farewell_of(name: Seq<char>) -> Seq<char> {
    "Goodbye, "@ + name + "!"@
}

/// Builds `Hello, <name>!`.
pub fn greet(name: &str) -> (out: String)
    ensures
        out@ == greeting_of(name@),
{
    let mut out = String::from_str("Hello, ");
    out.append(name);
    out.append("!");
    out
}

/// Builds `Goodbye, <name>!`.
pub fn goodbye(name: &str) -> (out: String)
    ensures
        out@ == farewell_of(name@),
{
    let mut out = String::from_str("Goodbye, ");
    out.append(name);
    out.append("!");
    out
}

} // verus!
