//! The frame itself: the card a document's meta tags describe.

use vstd::prelude::*;

use crate::types::button::{ButtonView, FrameButton};
use crate::types::image::{AspectRatio, FrameImage, ImageView};

verus! {

/// A frame: a title, a protocol version, an image, and optionally a
/// submission URL, input text and up to four buttons. Extraction fills one
/// in; validation decides whether it obeys the protocol rules.
#[derive(Debug, PartialEq)]
pub struct Frame {
    pub title: String,
    pub version: String,
    pub image: FrameImage,
    pub post_url: Option<String>,
    pub buttons: Vec<FrameButton>,
    pub input_text: Option<String>,
}

/// The mathematical value of a [`Frame`].
pub struct FrameView {
    pub title: Seq<char>,
    pub version: Seq<char>,
    pub image: ImageView,
    pub post_url: Option<Seq<char>>,
    pub buttons: Seq<ButtonView>,
    pub input_text: Option<Seq<char>>,
}

impl View for Frame {
    type V = FrameView;

    open spec fn view(&self) -> FrameView {
        FrameView {
            title: self.title@,
            version: self.version@,
            image: self.image@,
            post_url: self.post_url.deep_view(),
            buttons: self.buttons.deep_view(),
            input_text: self.input_text.deep_view(),
        }
    }
}

/// The view of a frame as [`Frame::new`] builds it: every field empty.
pub open spec fn empty_frame_view() -> FrameView {
    FrameView {
        title: Seq::<char>::empty(),
        version: Seq::<char>::empty(),
        image: ImageView { url: Seq::<char>::empty(), aspect_ratio: AspectRatio::Unspecified },
        post_url: None,
        buttons: Seq::<ButtonView>::empty(),
        input_text: None,
    }
}

/// The data-model invariant of a frame: buttons stored in ascending id
/// order (so with distinct ids), each id within the machine range.
pub open spec fn frame_wf(f: FrameView) -> bool {
    &&& forall|i: int, j: int| 0 <= i < j < f.buttons.len() ==> f.buttons[i].id < f.buttons[j].id
    &&& forall|i: int| 0 <= i < f.buttons.len() ==> 0 <= (#[trigger] f.buttons[i].id) <= usize::MAX
}

impl Frame {
    /// An empty frame, ready to be filled by extraction.
    pub fn new() -> (r: Frame)
        ensures
            r@ == empty_frame_view(),
    {
        let r = Frame {
            title: String::new(),
            version: String::new(),
            image: FrameImage { url: String::new(), aspect_ratio: AspectRatio::Unspecified },
            post_url: None,
            buttons: Vec::new(),
            input_text: None,
        };
        proof {
            assert(r@.buttons =~= Seq::<ButtonView>::empty());
        }
        r
    }
}

} // verus!
