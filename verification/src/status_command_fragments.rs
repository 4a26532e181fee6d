//! Recognition of the partial `/status` command words that the composer may hold
//! while the user is typing or deleting.
use vstd::prelude::*;

use crate::text::text_eq;

verus! {

/// The fragments of `status` (and its typo `tatus$`) that count as the command.
pub open spec fn status_fragment(text: Seq<char>) -> bool {
    ||| text == "status"@
    ||| text == "tatus$"@
    ||| text == "atus"@
    ||| text == "tus"@
    ||| text == "us"@
    ||| text == "s"@
}

/// Whether `text` is one of the fragments of the status command.
pub fn is_status_command_fragment(text: &str) -> (r: bool)
    ensures
        r == status_fragment(text@),
{
    text_eq(text, "status") || text_eq(text, "tatus$") || text_eq(text, "atus") || text_eq(
        text,
        "tus",
    ) || text_eq(text, "us") || text_eq(text, "s")
}

} // verus!
