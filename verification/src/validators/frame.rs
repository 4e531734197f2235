//! Frame validation: the image rules, every button's action, and the
//! contiguity of the button ids, with all findings accumulated.

use vstd::prelude::*;

use crate::types::button::{ButtonView, FrameButton};
use crate::types::errors::{sequence_error, Error, ErrorView, FrameErrors};
use crate::types::frame::{Frame, FrameView};
use crate::validators::button::spec_button_errors;
use crate::validators::image::spec_image_errors;

verus! {

/// The ids of a button sequence.
pub open spec fn button_ids(bs: Seq<ButtonView>) -> Seq<int> {
    bs.map_values(|b: ButtonView| b.id)
}

/// The contiguity rule: zero buttons or one button is always acceptable;
/// two or more must carry distinct ids that cover exactly 1 through n.
pub open spec fn valid_button_sequence(ids: Seq<int>) -> bool {
    ids.len() <= 1 || (ids.no_duplicates() && forall|j: int|
        1 <= j <= ids.len() ==> ids.contains(j))
}

/// Exactly one error when the ids break the contiguity rule.
pub open spec fn spec_sequence_errors(ids: Seq<int>) -> Seq<ErrorView> {
    if valid_button_sequence(ids) {
        Seq::<ErrorView>::empty()
    } else {
        seq![sequence_error()]
    }
}

/// The action errors of every button, in button order.
pub open spec fn spec_buttons_errors(bs: Seq<ButtonView>) -> Seq<ErrorView>
    decreases bs.len(),
{
    if bs.len() == 0 {
        Seq::<ErrorView>::empty()
    } else {
        spec_buttons_errors(bs.drop_last()) + spec_button_errors(bs.last())
    }
}

/// Every problem of a frame, in reporting order: the image's problems, then
/// each button's, then the contiguity of the ids.
pub open spec fn spec_validate_errors(f: FrameView) -> Seq<ErrorView> {
    spec_image_errors(f.image) + spec_buttons_errors(f.buttons) + spec_sequence_errors(
        button_ids(f.buttons),
    )
}

/// Decides the contiguity rule for the buttons' ids.
#[verifier::loop_isolation(false)]
fn sequence_valid(buttons: &Vec<FrameButton>) -> (r: bool)
    ensures
        r == valid_button_sequence(button_ids(buttons.deep_view())),
{
    let ghost ids = button_ids(buttons.deep_view());
    proof {
        assert(ids.len() == buttons@.len());
        assert forall|k: int| 0 <= k < ids.len() implies ids[k] == buttons@[k].id as int by {}
    }
    let n = buttons.len();
    if n <= 1 {
        return true;
    }
    // Distinctness of the ids.
    let mut a: usize = 0;
    while a < n
        invariant
            0 <= a <= n,
            forall|x: int, y: int| 0 <= x < a && x < y < n ==> ids[x] != ids[y],
        decreases n - a,
    {
        let mut b: usize = a + 1;
        while b < n
            invariant
                a < b <= n,
                forall|y: int| a < y < b ==> ids[a as int] != ids[y],
            decreases n - b,
        {
            if buttons[a].id == buttons[b].id {
                proof {
                    assert(ids[a as int] == ids[b as int]);
                    assert(!ids.no_duplicates());
                }
                return false;
            }
            b = b + 1;
        }
        a = a + 1;
    }
    proof {
        assert(ids.no_duplicates()) by {
            assert forall|x: int, y: int|
                (0 <= x < ids.len() && 0 <= y < ids.len() && x != y) implies ids[x] != ids[y] by {
                if x < y {
                } else {
                }
            }
        }
    }
    // Presence of every id from 1 to n.
    let mut q: usize = 0;
    while q < n
        invariant
            0 <= q <= n,
            forall|t: int| 1 <= t <= q ==> ids.contains(t),
        decreases n - q,
    {
        let target = q + 1;
        let mut k: usize = 0;
        let mut found: bool = false;
        while k < n
            invariant
                0 <= k <= n,
                target == q + 1,
                found ==> ids.contains(target as int),
                !found ==> forall|x: int| 0 <= x < k ==> ids[x] != target as int,
            decreases n - k,
        {
            if !found && buttons[k].id == target {
                found = true;
                proof {
                    assert(ids[k as int] == target as int);
                }
            }
            k = k + 1;
        }
        if !found {
            proof {
                assert(!ids.contains(target as int));
                assert(1 <= target as int <= ids.len());
            }
            return false;
        }
        q = q + 1;
    }
    true
}

impl Frame {
    /// Reports every problem of this frame, or nothing when it is valid.
    pub fn validate(&self) -> (r: Result<(), FrameErrors>)
        ensures
            r is Ok <==> spec_validate_errors(self@).len() == 0,
            r matches Err(e) ==> e@ == spec_validate_errors(self@),
    {
        let mut errors = FrameErrors::new();
        match self.image.validate() {
            Ok(_) => (),
            Err(e) => errors.add_errors(e.errors),
        }
        proof {
            assert(errors@ =~= spec_image_errors(self@.image));
        }
        let mut i: usize = 0;
        while i < self.buttons.len()
            invariant
                0 <= i <= self.buttons.len(),
                errors@ =~= spec_image_errors(self@.image) + spec_buttons_errors(
                    self@.buttons.take(i as int),
                ),
            decreases self.buttons.len() - i,
        {
            match self.buttons[i].validate() {
                Ok(_) => (),
                Err(e) => errors.add_errors(e.errors),
            }
            proof {
                assert(self@.buttons.take(i + 1).drop_last() =~= self@.buttons.take(i as int));
                assert(self@.buttons.take(i + 1).last() == self@.buttons[i as int]);
                assert(errors@ =~= spec_image_errors(self@.image) + spec_buttons_errors(
                    self@.buttons.take(i + 1),
                ));
            }
            i = i + 1;
        }
        proof {
            assert(self@.buttons.take(self.buttons.len() as int) =~= self@.buttons);
        }
        if !sequence_valid(&self.buttons) {
            errors.add_error(Error::invalid_sequence());
        }
        proof {
            assert(self.buttons.deep_view() =~= self@.buttons);
            assert(errors@ =~= spec_validate_errors(self@));
        }
        if !errors.is_empty() {
            return Err(errors);
        }
        Ok(())
    }
}

} // verus!
