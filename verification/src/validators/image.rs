//! Image validation: the URL shape and the declared aspect ratio.

use vstd::prelude::*;

use crate::types::errors::{invalid_aspect_error, invalid_url_error, Error, ErrorView, FrameErrors};
use crate::types::image::{AspectRatio, FrameImage, ImageView};
use crate::validators::url::url_ok;

verus! {

/// Every problem of an image: a URL that does not match the accepted shape,
/// then an explicitly invalid aspect ratio.
pub open spec fn spec_image_errors(img: ImageView) -> Seq<ErrorView> {
    (if !url_ok(img.url) {
        seq![invalid_url_error()]
    } else {
        Seq::<ErrorView>::empty()
    }) + (if img.aspect_ratio == AspectRatio::Invalid {
        seq![invalid_aspect_error()]
    } else {
        Seq::<ErrorView>::empty()
    })
}

impl FrameImage {
    /// Reports every problem of this image, or nothing when it is valid.
    pub fn validate(&self) -> (r: Result<(), FrameErrors>)
        ensures
            r is Ok <==> spec_image_errors(self@).len() == 0,
            r matches Err(e) ==> e@ == spec_image_errors(self@),
    {
        let mut errors = FrameErrors::new();
        if !crate::validators::url::is_valid_url(self.url.as_str()) {
            errors.add_error(Error::invalid_url());
        }
        match self.aspect_ratio {
            AspectRatio::Invalid => {
                errors.add_error(Error::invalid_aspect());
            },
            _ => {},
        }
        proof {
            assert(errors@ =~= spec_image_errors(self@));
        }
        if !errors.is_empty() {
            return Err(errors);
        }
        Ok(())
    }
}

} // verus!
