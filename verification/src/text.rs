//! Texts as sequences of characters.

use vstd::prelude::*;

verus! {

/// The text of an optional value.
pub open spec fn text_of(value: Option<String>) -> Option<Seq<char>> {
    match value {
        Some(text) => Some(text@),
        None => None,
    }
}

} // verus!
