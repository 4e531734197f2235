//! Button validation: a present action must name one of the four known
//! actions.

use vstd::prelude::*;

use crate::types::button::{ButtonAction, ButtonView, FrameButton};
use crate::types::errors::{invalid_action_error, Error, ErrorView, FrameErrors};

verus! {

/// Every problem of a button: exactly one error when its action tag named
/// no known action, nothing otherwise.
pub open spec fn spec_button_errors(b: ButtonView) -> Seq<ErrorView> {
    if b.action == Some(ButtonAction::Invalid) {
        seq![invalid_action_error(b.id)]
    } else {
        Seq::<ErrorView>::empty()
    }
}

impl FrameButton {
    /// Reports every problem of this button, or nothing when it is valid.
    pub fn validate(&self) -> (r: Result<(), FrameErrors>)
        ensures
            r is Ok <==> spec_button_errors(self@).len() == 0,
            r matches Err(e) ==> e@ == spec_button_errors(self@),
    {
        match self.action {
            Some(ButtonAction::Invalid) => {
                let mut errors = FrameErrors::new();
                errors.add_error(Error::invalid_button_action(self.id));
                proof {
                    assert(errors@ =~= spec_button_errors(self@));
                }
                Err(errors)
            },
            _ => Ok(()),
        }
    }
}

} // verus!
