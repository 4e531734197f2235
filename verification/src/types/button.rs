//! Frame buttons and their actions.

use vstd::prelude::*;

verus! {

/// What a client does when a button is tapped. `Invalid` records an action
/// tag whose value is not one of the four known ones; it never passes
/// validation.
#[derive(Debug, Clone, Copy, PartialEq, Eq, Structural)]
pub enum ButtonAction {
    Post,
    PostRedirect,
    Mint,
    Link,
    Invalid,
}

/// One button of a frame. Ids run from 1 to 4 in a valid frame; `target` is
/// reserved for mint and link URIs and is not populated by extraction.
#[derive(Debug, PartialEq)]
pub struct FrameButton {
    pub id: usize,
    pub label: String,
    pub action: Option<ButtonAction>,
    pub target: Option<String>,
}

/// The mathematical value of a [`FrameButton`].
pub struct ButtonView {
    pub id: int,
    pub label: Seq<char>,
    pub action: Option<ButtonAction>,
    pub target: Option<Seq<char>>,
}

impl View for FrameButton {
    type V = ButtonView;

    open spec fn view(&self) -> ButtonView {
        ButtonView {
            id: self.id as int,
            label: self.label@,
            action: self.action,
            target: self.target.deep_view(),
        }
    }
}

impl DeepView for FrameButton {
    type V = ButtonView;

    open spec fn deep_view(&self) -> ButtonView {
        self.view()
    }
}

/// The tag value that names a known action.
pub open spec fn spec_action_value(a: ButtonAction) -> Seq<char> {
    match a {
        ButtonAction::Post => "post"@,
        ButtonAction::PostRedirect => "post_redirect"@,
        ButtonAction::Mint => "mint"@,
        ButtonAction::Link => "link"@,
        ButtonAction::Invalid => Seq::<char>::empty(),
    }
}

/// The action named by an action tag's value; unknown values are `Invalid`.
pub open spec fn spec_parse_action(s: Seq<char>) -> ButtonAction {
    if s == "post"@ {
        ButtonAction::Post
    } else if s == "post_redirect"@ {
        ButtonAction::PostRedirect
    } else if s == "mint"@ {
        ButtonAction::Mint
    } else if s == "link"@ {
        ButtonAction::Link
    } else {
        ButtonAction::Invalid
    }
}

/// Parses an action tag's value.
pub fn parse_action(s: &str) -> (a: ButtonAction)
    ensures
        a == spec_parse_action(s@),
{
    if crate::text::str_eq(s, "post") {
        ButtonAction::Post
    } else if crate::text::str_eq(s, "post_redirect") {
        ButtonAction::PostRedirect
    } else if crate::text::str_eq(s, "mint") {
        ButtonAction::Mint
    } else if crate::text::str_eq(s, "link") {
        ButtonAction::Link
    } else {
        ButtonAction::Invalid
    }
}

/// Parsing a rendered action value gives the action back: the four known
/// values are pairwise distinct tag values.
pub proof fn lemma_action_value_round_trip(a: ButtonAction)
    requires
        a != ButtonAction::Invalid,
    ensures
        spec_parse_action(spec_action_value(a)) == a,
{
    reveal_strlit("post");
    reveal_strlit("post_redirect");
    reveal_strlit("mint");
    reveal_strlit("link");
    match a {
        ButtonAction::Post => {
        },
        ButtonAction::PostRedirect => {
            assert("post_redirect"@ != "post"@) by {
                assert("post_redirect"@.len() == 13 && "post"@.len() == 4);
            }
        },
        ButtonAction::Mint => {
            assert("mint"@ != "post"@) by {
                assert("mint"@[0] == 'm' && "post"@[0] == 'p');
            }
            assert("mint"@ != "post_redirect"@) by {
                assert("mint"@.len() == 4 && "post_redirect"@.len() == 13);
            }
        },
        ButtonAction::Link => {
            assert("link"@ != "post"@) by {
                assert("link"@[0] == 'l' && "post"@[0] == 'p');
            }
            assert("link"@ != "post_redirect"@) by {
                assert("link"@.len() == 4 && "post_redirect"@.len() == 13);
            }
            assert("link"@ != "mint"@) by {
                assert("link"@[0] == 'l' && "mint"@[0] == 'm');
            }
        },
        ButtonAction::Invalid => {
        },
    }
}

} // verus!
