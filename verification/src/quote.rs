//! A motivational quote as the quote service returns it.

use vstd::prelude::*;

verus! {

/// One quote: its text and its author.
#[derive(Debug)]
pub struct Quote {
    pub quote: String,
    pub author: String,
}

} // verus!
