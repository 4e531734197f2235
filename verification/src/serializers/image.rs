//! Serialization of an image: its URL tag, then an aspect-ratio tag when the
//! ratio was declared square or wide.

use vstd::prelude::*;

use crate::serializers::HtmlSerializer;
use crate::types::image::{AspectRatio, FrameImage, ImageView};

verus! {

/// The tag text of an image.
pub open spec fn spec_image_html(img: ImageView) -> Seq<char> {
    "<meta name=\"fc:frame:image\" content=\""@ + img.url + "\" />"@ + (match img.aspect_ratio {
        AspectRatio::Square => "<meta name=\"fc:frame:image:aspect_ratio\" content=\"1:1\" />"@,
        AspectRatio::Wide => "<meta name=\"fc:frame:image:aspect_ratio\" content=\"1.91:1\" />"@,
        _ => Seq::<char>::empty(),
    })
}

impl HtmlSerializer for FrameImage {
    open spec fn spec_html(&self) -> Seq<char> {
        spec_image_html(self@)
    }

    fn to_html(&self) -> (r: String) {
        let mut html: String = "<meta name=\"fc:frame:image\" content=\"".to_owned();
        html.append(self.url.as_str());
        html.append("\" />");
        match self.aspect_ratio {
            AspectRatio::Square => {
                html.append("<meta name=\"fc:frame:image:aspect_ratio\" content=\"1:1\" />");
            },
            AspectRatio::Wide => {
                html.append("<meta name=\"fc:frame:image:aspect_ratio\" content=\"1.91:1\" />");
            },
            _ => {},
        }
        proof {
            assert(html@ =~= spec_image_html(self@));
        }
        html
    }
}

} // verus!
