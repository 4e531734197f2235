//! Frame images and their declared aspect ratios.

use vstd::prelude::*;

verus! {

/// The declared shape of a frame image. `Unspecified` means the aspect-ratio
/// tag was absent; `Invalid` records a tag with an unrecognized value and
/// never passes validation.
#[derive(Debug, Clone, Copy, PartialEq, Eq, Structural)]
pub enum AspectRatio {
    Unspecified,
    Square,
    Wide,
    Invalid,
}

/// The image of a frame.
#[derive(Debug, PartialEq)]
pub struct FrameImage {
    pub url: String,
    pub aspect_ratio: AspectRatio,
}

/// The mathematical value of a [`FrameImage`].
pub struct ImageView {
    pub url: Seq<char>,
    pub aspect_ratio: AspectRatio,
}

impl View for FrameImage {
    type V = ImageView;

    open spec fn view(&self) -> ImageView {
        ImageView { url: self.url@, aspect_ratio: self.aspect_ratio }
    }
}

/// The aspect ratio named by an aspect-ratio tag's value: `1:1` is square,
/// `1.91:1` is wide, anything else is invalid.
pub open spec fn spec_parse_aspect(s: Seq<char>) -> AspectRatio {
    if s == "1:1"@ {
        AspectRatio::Square
    } else if s == "1.91:1"@ {
        AspectRatio::Wide
    } else {
        AspectRatio::Invalid
    }
}

/// Parses an aspect-ratio tag's value.
pub fn parse_aspect(s: &str) -> (a: AspectRatio)
    ensures
        a == spec_parse_aspect(s@),
{
    if crate::text::str_eq(s, "1:1") {
        AspectRatio::Square
    } else if crate::text::str_eq(s, "1.91:1") {
        AspectRatio::Wide
    } else {
        AspectRatio::Invalid
    }
}

} // verus!
