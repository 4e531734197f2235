//! Serialization of a whole frame, in the canonical emission order: title,
//! version, image, input text, buttons in stored order, submission URL.

use vstd::prelude::*;

use crate::serializers::button::spec_button_html;
use crate::serializers::image::spec_image_html;
use crate::serializers::HtmlSerializer;
use crate::types::button::ButtonView;
use crate::types::frame::{Frame, FrameView};

verus! {

/// The tag text of a button sequence, in order.
pub open spec fn spec_buttons_html(bs: Seq<ButtonView>) -> Seq<char>
    decreases bs.len(),
{
    if bs.len() == 0 {
        Seq::<char>::empty()
    } else {
        spec_buttons_html(bs.drop_last()) + spec_button_html(bs.last())
    }
}

/// The full tag text of a frame.
pub open spec fn spec_frame_html(f: FrameView) -> Seq<char> {
    "<title>"@ + f.title + "</title>"@ + "<meta name=\"fc:frame\" content=\""@ + f.version
        + "\" />"@ + spec_image_html(f.image) + (match f.input_text {
        Some(t) => "<meta name=\"fc:frame:input:text\" content=\""@ + t + "\" />"@,
        None => Seq::<char>::empty(),
    }) + spec_buttons_html(f.buttons) + (match f.post_url {
        Some(u) => "<meta name=\"fc:frame:post_url\" content=\""@ + u + "\" />"@,
        None => Seq::<char>::empty(),
    })
}

impl HtmlSerializer for Frame {
    open spec fn spec_html(&self) -> Seq<char> {
        spec_frame_html(self@)
    }

    fn to_html(&self) -> (r: String) {
        let mut html: String = "<title>".to_owned();
        html.append(self.title.as_str());
        html.append("</title>");
        html.append("<meta name=\"fc:frame\" content=\"");
        html.append(self.version.as_str());
        html.append("\" />");
        let image_html = self.image.to_html();
        html.append(image_html.as_str());
        match &self.input_text {
            Some(t) => {
                html.append("<meta name=\"fc:frame:input:text\" content=\"");
                html.append(t.as_str());
                html.append("\" />");
            },
            None => {},
        }
        let ghost head = html@;
        let mut i: usize = 0;
        while i < self.buttons.len()
            invariant
                0 <= i <= self.buttons.len(),
                html@ == head + spec_buttons_html(self@.buttons.take(i as int)),
            decreases self.buttons.len() - i,
        {
            let button_html = self.buttons[i].to_html();
            html.append(button_html.as_str());
            proof {
                assert(self@.buttons.take(i + 1).drop_last() =~= self@.buttons.take(i as int));
                assert(self@.buttons.take(i + 1).last() == self@.buttons[i as int]);
                assert(html@ =~= head + spec_buttons_html(self@.buttons.take(i + 1)));
            }
            i = i + 1;
        }
        proof {
            assert(self@.buttons.take(self.buttons.len() as int) =~= self@.buttons);
        }
        match &self.post_url {
            Some(u) => {
                html.append("<meta name=\"fc:frame:post_url\" content=\"");
                html.append(u.as_str());
                html.append("\" />");
            },
            None => {},
        }
        proof {
            assert(html@ =~= spec_frame_html(self@));
        }
        html
    }
}

} // verus!
