//! Serialization of one button: its label tag, then an action tag when the
//! action is a known one, then a target tag when a target is present.

use vstd::prelude::*;

use crate::serializers::HtmlSerializer;
use crate::text::{dec_str, push_dec};
use crate::types::button::{spec_action_value, ButtonAction, ButtonView, FrameButton};

verus! {

/// The tag text of one button.
pub open spec fn spec_button_html(b: ButtonView) -> Seq<char> {
    "<meta name=\"fc:frame:button:"@ + dec_str(b.id as nat) + "\" content=\""@ + b.label
        + "\" />"@ + (match b.action {
        Some(a) => if a == ButtonAction::Invalid {
            Seq::<char>::empty()
        } else {
            "<meta name=\"fc:frame:button:"@ + dec_str(b.id as nat) + ":action\" content=\""@
                + spec_action_value(a) + "\" />"@
        },
        None => Seq::<char>::empty(),
    }) + (match b.target {
        Some(t) => "<meta name=\"fc:frame:button:"@ + dec_str(b.id as nat)
            + ":target\" content=\""@ + t + "\" />"@,
        None => Seq::<char>::empty(),
    })
}

/// The tag value of a known action.
fn action_value(a: ButtonAction) -> (r: &'static str)
    requires
        a != ButtonAction::Invalid,
    ensures
        r@ == spec_action_value(a),
{
    match a {
        ButtonAction::Post => "post",
        ButtonAction::PostRedirect => "post_redirect",
        ButtonAction::Mint => "mint",
        ButtonAction::Link => "link",
        ButtonAction::Invalid => "post",
    }
}

impl HtmlSerializer for FrameButton {
    open spec fn spec_html(&self) -> Seq<char> {
        spec_button_html(self@)
    }

    fn to_html(&self) -> (r: String) {
        let mut html: String = "<meta name=\"fc:frame:button:".to_owned();
        push_dec(&mut html, self.id);
        html.append("\" content=\"");
        html.append(self.label.as_str());
        html.append("\" />");
        match self.action {
            Some(a) => {
                if let ButtonAction::Invalid = a {
                } else {
                    html.append("<meta name=\"fc:frame:button:");
                    push_dec(&mut html, self.id);
                    html.append(":action\" content=\"");
                    html.append(action_value(a));
                    html.append("\" />");
                }
            },
            None => {},
        }
        match &self.target {
            Some(t) => {
                html.append("<meta name=\"fc:frame:button:");
                push_dec(&mut html, self.id);
                html.append(":target\" content=\"");
                html.append(t.as_str());
                html.append("\" />");
            },
            None => {},
        }
        proof {
            assert(html@ =~= spec_button_html(self@));
        }
        html
    }
}

} // verus!
