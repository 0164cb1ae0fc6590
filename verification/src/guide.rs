//! The heading of the bundled automation guide.

use vstd::prelude::*;

use crate::plugins::VERSION;
use crate::text;

verus! {

/// The line above the guide: this version and its protocol.
pub fn heading() -> (r: String)
    ensures
        r@ == "Ködade CLI "@ + VERSION@ + " · automation guide 1 · protocol 1\n"@,
{
    text::cat3("Ködade CLI ", VERSION, " · automation guide 1 · protocol 1\n")
}

} // verus!
