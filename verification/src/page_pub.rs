//! The publisher page, which holds nothing yet.

use vstd::prelude::*;

verus! {

/// The publisher page.
pub struct PagePub {}

impl Default for PagePub {
    fn default() -> (p: PagePub) {
        PagePub {}
    }
}

} // verus!
