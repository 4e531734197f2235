//! The serializer: maps a frame back to the canonical tag text, the exact
//! inverse of extraction for every field extraction knows about.

pub mod button;
pub mod frame;
pub mod image;

use vstd::prelude::*;

verus! {

/// Serialization of a frame or one of its parts to meta-tag text.
pub trait HtmlSerializer {
    /// The exact text this value serializes to.
    spec fn spec_html(&self) -> Seq<char>;

    /// Renders this value, character for character as [`Self::spec_html`]
    /// says.
    fn to_html(&self) -> (r: String)
        ensures
            r@ == self.spec_html(),
    ;
}

} // verus!
