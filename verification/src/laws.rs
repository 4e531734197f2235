//! The laws the pipeline obeys, proved over the same spec functions the
//! public contracts use: the tag sequence a frame renders to, and the round
//! trip from a valid frame through rendering and extraction back to itself.

use vstd::prelude::*;

use crate::extract::{
    action_tag_id, apply_meta, buttons_of_map, init_scan, label_tag_id, lemma_scan_append,
    parse_errors, parse_post, scan_metas, upsert_action, upsert_label, with_buttons, ScanState,
};
use crate::serializers::button::spec_button_html;
use crate::serializers::frame::{spec_buttons_html, spec_frame_html};
use crate::text::{all_digits, dec_str, lemma_dec_str_val};
use crate::types::button::{
    lemma_action_value_round_trip, spec_action_value, spec_parse_action, ButtonAction, ButtonView,
};
use crate::types::frame::{empty_frame_view, frame_wf, FrameView};
use crate::types::image::{spec_parse_aspect, AspectRatio};
use crate::validators::button::spec_button_errors;
use crate::validators::frame::{spec_buttons_errors, spec_validate_errors};

verus! {

// ---------------------------------------------------------------------
// The tag sequence a frame renders to.
// ---------------------------------------------------------------------
/// The meta-tag text of one name/content pair.
pub open spec fn spec_tag_html(t: (Seq<char>, Seq<char>)) -> Seq<char> {
    "<meta name=\""@ + t.0 + "\" content=\""@ + t.1 + "\" />"@
}

/// The meta-tag text of a tag list, in order.
pub open spec fn spec_tags_html(ts: Seq<(Seq<char>, Seq<char>)>) -> Seq<char>
    decreases ts.len(),
{
    if ts.len() == 0 {
        Seq::<char>::empty()
    } else {
        spec_tags_html(ts.drop_last()) + spec_tag_html(ts.last())
    }
}

/// The tags of one button, in emission order: the label tag, then an action
/// tag when the action is a known one, then a target tag when one is set.
pub open spec fn spec_button_tags(b: ButtonView) -> Seq<(Seq<char>, Seq<char>)> {
    seq![("fc:frame:button:"@ + dec_str(b.id as nat), b.label)] + (match b.action {
        Some(a) => if a == ButtonAction::Invalid {
            Seq::<(Seq<char>, Seq<char>)>::empty()
        } else {
            seq![("fc:frame:button:"@ + dec_str(b.id as nat) + ":action"@, spec_action_value(a))]
        },
        None => Seq::<(Seq<char>, Seq<char>)>::empty(),
    }) + (match b.target {
        Some(t) => seq![("fc:frame:button:"@ + dec_str(b.id as nat) + ":target"@, t)],
        None => Seq::<(Seq<char>, Seq<char>)>::empty(),
    })
}

/// The tags of a button sequence, in order.
pub open spec fn spec_buttons_tags(bs: Seq<ButtonView>) -> Seq<(Seq<char>, Seq<char>)>
    decreases bs.len(),
{
    if bs.len() == 0 {
        Seq::<(Seq<char>, Seq<char>)>::empty()
    } else {
        spec_buttons_tags(bs.drop_last()) + spec_button_tags(bs.last())
    }
}

/// Every meta tag a frame renders to, in emission order.
pub open spec fn spec_frame_tags(f: FrameView) -> Seq<(Seq<char>, Seq<char>)> {
    seq![("fc:frame"@, f.version)] + seq![("fc:frame:image"@, f.image.url)] + (
    match f.image.aspect_ratio {
        AspectRatio::Square => seq![("fc:frame:image:aspect_ratio"@, "1:1"@)],
        AspectRatio::Wide => seq![("fc:frame:image:aspect_ratio"@, "1.91:1"@)],
        _ => Seq::<(Seq<char>, Seq<char>)>::empty(),
    }) + (match f.input_text {
        Some(t) => seq![("fc:frame:input:text"@, t)],
        None => Seq::<(Seq<char>, Seq<char>)>::empty(),
    }) + spec_buttons_tags(f.buttons) + (match f.post_url {
        Some(u) => seq![("fc:frame:post_url"@, u)],
        None => Seq::<(Seq<char>, Seq<char>)>::empty(),
    })
}

/// Concatenating tag lists concatenates their texts.
proof fn lemma_tags_html_append(a: Seq<(Seq<char>, Seq<char>)>, b: Seq<(Seq<char>, Seq<char>)>)
    ensures
        spec_tags_html(a + b) == spec_tags_html(a) + spec_tags_html(b),
    decreases b.len(),
{
    if b.len() == 0 {
        assert(a + b =~= a);
        assert(spec_tags_html(a) + spec_tags_html(b) =~= spec_tags_html(a));
    } else {
        lemma_tags_html_append(a, b.drop_last());
        assert((a + b).drop_last() =~= a + b.drop_last());
        assert((a + b).last() == b.last());
        assert(spec_tags_html(a) + (spec_tags_html(b.drop_last()) + spec_tag_html(b.last()))
            =~= (spec_tags_html(a) + spec_tags_html(b.drop_last())) + spec_tag_html(b.last()));
    }
}

/// The text of a singleton tag list.
proof fn lemma_tags_html_one(t: (Seq<char>, Seq<char>))
    ensures
        spec_tags_html(seq![t]) == spec_tag_html(t),
{
    assert(seq![t].drop_last() =~= Seq::<(Seq<char>, Seq<char>)>::empty());
    assert(spec_tags_html(Seq::<(Seq<char>, Seq<char>)>::empty()) + spec_tag_html(t) =~= spec_tag_html(
        t,
    ));
}

/// One button's text is the text of its tags.
proof fn lemma_button_emits_tags(b: ButtonView)
    ensures
        spec_button_html(b) == spec_tags_html(spec_button_tags(b)),
{
    reveal_strlit("<meta name=\"");
    reveal_strlit("\" content=\"");
    reveal_strlit("\" />");
    reveal_strlit("<meta name=\"fc:frame:button:");
    reveal_strlit("fc:frame:button:");
    reveal_strlit(":action\" content=\"");
    reveal_strlit(":target\" content=\"");
    reveal_strlit(":action");
    reveal_strlit(":target");
    let lbl = ("fc:frame:button:"@ + dec_str(b.id as nat), b.label);
    let lseq = seq![lbl];
    lemma_tags_html_one(lbl);
    assert(spec_tag_html(lbl) =~= "<meta name=\"fc:frame:button:"@ + dec_str(b.id as nat)
        + "\" content=\""@ + b.label + "\" />"@);
    match b.action {
        Some(a) => {
            if a != ButtonAction::Invalid {
                let act = (
                    "fc:frame:button:"@ + dec_str(b.id as nat) + ":action"@,
                    spec_action_value(a),
                );
                lemma_tags_html_append(lseq, seq![act]);
                lemma_tags_html_one(act);
                assert(spec_tag_html(act) =~= "<meta name=\"fc:frame:button:"@ + dec_str(
                    b.id as nat,
                ) + ":action\" content=\""@ + spec_action_value(a) + "\" />"@);
            } else {
                assert(lseq + Seq::<(Seq<char>, Seq<char>)>::empty() =~= lseq);
            }
        },
        None => {
            assert(lseq + Seq::<(Seq<char>, Seq<char>)>::empty() =~= lseq);
        },
    }
    let head = lseq + (match b.action {
        Some(a) => if a == ButtonAction::Invalid {
            Seq::<(Seq<char>, Seq<char>)>::empty()
        } else {
            seq![("fc:frame:button:"@ + dec_str(b.id as nat) + ":action"@, spec_action_value(a))]
        },
        None => Seq::<(Seq<char>, Seq<char>)>::empty(),
    });
    match b.target {
        Some(t) => {
            let tgt = ("fc:frame:button:"@ + dec_str(b.id as nat) + ":target"@, t);
            lemma_tags_html_append(head, seq![tgt]);
            lemma_tags_html_one(tgt);
            assert(spec_tag_html(tgt) =~= "<meta name=\"fc:frame:button:"@ + dec_str(b.id as nat)
                + ":target\" content=\""@ + t + "\" />"@);
        },
        None => {
            assert(head + Seq::<(Seq<char>, Seq<char>)>::empty() =~= head);
        },
    }
    assert(spec_button_html(b) =~= spec_tags_html(spec_button_tags(b)));
}

/// The buttons' text is the text of their tags.
proof fn lemma_buttons_emit_tags(bs: Seq<ButtonView>)
    ensures
        spec_buttons_html(bs) == spec_tags_html(spec_buttons_tags(bs)),
    decreases bs.len(),
{
    if bs.len() > 0 {
        lemma_buttons_emit_tags(bs.drop_last());
        lemma_button_emits_tags(bs.last());
        lemma_tags_html_append(spec_buttons_tags(bs.drop_last()), spec_button_tags(bs.last()));
    }
}

/// What a frame renders to is exactly its title element followed by the
/// meta-tag text of its canonical tag sequence, in order: rendering emits
/// those tags and nothing else.
#[verifier::rlimit(80)]
pub proof fn lemma_render_emits_tags(f: FrameView)
    ensures
        spec_frame_html(f) == "<title>"@ + f.title + "</title>"@ + spec_tags_html(
            spec_frame_tags(f),
        ),
{
    reveal_strlit("<meta name=\"");
    reveal_strlit("\" content=\"");
    reveal_strlit("\" />");
    reveal_strlit("fc:frame");
    reveal_strlit("<meta name=\"fc:frame\" content=\"");
    reveal_strlit("fc:frame:image");
    reveal_strlit("<meta name=\"fc:frame:image\" content=\"");
    reveal_strlit("fc:frame:image:aspect_ratio");
    reveal_strlit("1:1");
    reveal_strlit("1.91:1");
    reveal_strlit("<meta name=\"fc:frame:image:aspect_ratio\" content=\"1:1\" />");
    reveal_strlit("<meta name=\"fc:frame:image:aspect_ratio\" content=\"1.91:1\" />");
    reveal_strlit("fc:frame:input:text");
    reveal_strlit("<meta name=\"fc:frame:input:text\" content=\"");
    reveal_strlit("fc:frame:post_url");
    reveal_strlit("<meta name=\"fc:frame:post_url\" content=\"");
    let s1 = seq![("fc:frame"@, f.version)];
    let s2 = seq![("fc:frame:image"@, f.image.url)];
    let s3 = match f.image.aspect_ratio {
        AspectRatio::Square => seq![("fc:frame:image:aspect_ratio"@, "1:1"@)],
        AspectRatio::Wide => seq![("fc:frame:image:aspect_ratio"@, "1.91:1"@)],
        _ => Seq::<(Seq<char>, Seq<char>)>::empty(),
    };
    let s4 = match f.input_text {
        Some(t) => seq![("fc:frame:input:text"@, t)],
        None => Seq::<(Seq<char>, Seq<char>)>::empty(),
    };
    let s5 = spec_buttons_tags(f.buttons);
    let s6 = match f.post_url {
        Some(u) => seq![("fc:frame:post_url"@, u)],
        None => Seq::<(Seq<char>, Seq<char>)>::empty(),
    };
    lemma_tags_html_append(s1, s2);
    lemma_tags_html_append(s1 + s2, s3);
    lemma_tags_html_append(s1 + s2 + s3, s4);
    lemma_tags_html_append(s1 + s2 + s3 + s4, s5);
    lemma_tags_html_append(s1 + s2 + s3 + s4 + s5, s6);
    lemma_tags_html_one(("fc:frame"@, f.version));
    lemma_tags_html_one(("fc:frame:image"@, f.image.url));
    assert(spec_tags_html(s1) =~= "<meta name=\"fc:frame\" content=\""@ + f.version + "\" />"@);
    assert(spec_tags_html(s2) =~= "<meta name=\"fc:frame:image\" content=\""@ + f.image.url
        + "\" />"@);
    match f.image.aspect_ratio {
        AspectRatio::Square => {
            lemma_tags_html_one(("fc:frame:image:aspect_ratio"@, "1:1"@));
            assert(spec_tags_html(s3)
                =~= "<meta name=\"fc:frame:image:aspect_ratio\" content=\"1:1\" />"@);
        },
        AspectRatio::Wide => {
            lemma_tags_html_one(("fc:frame:image:aspect_ratio"@, "1.91:1"@));
            assert(spec_tags_html(s3)
                =~= "<meta name=\"fc:frame:image:aspect_ratio\" content=\"1.91:1\" />"@);
        },
        _ => {},
    }
    match f.input_text {
        Some(t) => {
            lemma_tags_html_one(("fc:frame:input:text"@, t));
            assert(spec_tags_html(s4) =~= "<meta name=\"fc:frame:input:text\" content=\""@ + t
                + "\" />"@);
        },
        None => {},
    }
    lemma_buttons_emit_tags(f.buttons);
    match f.post_url {
        Some(u) => {
            lemma_tags_html_one(("fc:frame:post_url"@, u));
            assert(spec_tags_html(s6) =~= "<meta name=\"fc:frame:post_url\" content=\""@ + u
                + "\" />"@);
        },
        None => {},
    }
    assert(spec_frame_html(f) =~= "<title>"@ + f.title + "</title>"@ + spec_tags_html(
        spec_frame_tags(f),
    ));
}

// ---------------------------------------------------------------------
// The round trip from a valid frame through rendering and extraction.
// ---------------------------------------------------------------------
/// The mapping holding exactly the buttons of `bs`, keyed by id.
pub open spec fn map_of_buttons(bs: Seq<ButtonView>) -> Map<int, ButtonView>
    decreases bs.len(),
{
    if bs.len() == 0 {
        Map::<int, ButtonView>::empty()
    } else {
        map_of_buttons(bs.drop_last()).insert(bs.last().id, bs.last())
    }
}

/// A sequence in strictly ascending id order lists exactly the buttons of
/// its own mapping.
proof fn lemma_map_of_buttons(bs: Seq<ButtonView>)
    requires
        forall|i: int, j: int| 0 <= i < j < bs.len() ==> bs[i].id < bs[j].id,
    ensures
        buttons_of_map(bs, map_of_buttons(bs)),
    decreases bs.len(),
{
    if bs.len() > 0 {
        let pre = bs.drop_last();
        let b = bs.last();
        lemma_map_of_buttons(pre);
        let m = map_of_buttons(bs);
        assert forall|i: int| 0 <= i < bs.len() implies m.dom().contains(#[trigger] bs[i].id)
            && m[bs[i].id] == bs[i] by {
            if i < bs.len() - 1 {
                assert(pre[i] == bs[i]);
                assert(bs[i].id < b.id);
            }
        }
        assert forall|id: int| m.dom().contains(id) implies exists|i: int|
            0 <= i < bs.len() && #[trigger] bs[i].id == id by {
            if id == b.id {
                assert(bs[bs.len() - 1].id == id);
            } else {
                assert(map_of_buttons(pre).dom().contains(id));
                let i = choose|i: int| 0 <= i < pre.len() && #[trigger] pre[i].id == id;
                assert(bs[i].id == id);
            }
        }
    }
}

/// Two listings of one mapping, both in ascending id order, are equal.
pub proof fn lemma_buttons_of_map_unique(
    s1: Seq<ButtonView>,
    s2: Seq<ButtonView>,
    m: Map<int, ButtonView>,
)
    requires
        buttons_of_map(s1, m),
        buttons_of_map(s2, m),
    ensures
        s1 == s2,
    decreases s1.len(),
{
    if s1.len() == 0 {
        if s2.len() > 0 {
            assert(m.dom().contains(s2[0].id));
            assert(false);
        }
        assert(s1 =~= s2);
    } else {
        // The heads agree: each lists the unique least id of the mapping.
        assert(m.dom().contains(s1[0].id));
        let j = choose|j: int| 0 <= j < s2.len() && #[trigger] s2[j].id == s1[0].id;
        if j > 0 {
            assert(s2[0].id < s2[j].id);
            assert(m.dom().contains(s2[0].id));
            let i = choose|i: int| 0 <= i < s1.len() && #[trigger] s1[i].id == s2[0].id;
            if i > 0 {
                assert(s1[0].id < s1[i].id);
            }
            assert(false);
        }
        assert(s2[0] == m[s1[0].id] && s1[0] == m[s1[0].id]);
        // The tails list the mapping without the head id.
        let head_id = s1[0].id;
        let m2 = m.remove(head_id);
        assert(buttons_of_map(s1.drop_first(), m2)) by {
            lemma_tail_of_map(s1, m);
        }
        assert(buttons_of_map(s2.drop_first(), m2)) by {
            assert(s2[0].id == head_id);
            lemma_tail_of_map(s2, m);
        }
        lemma_buttons_of_map_unique(s1.drop_first(), s2.drop_first(), m2);
        assert forall|k: int| 0 <= k < s1.len() implies s1[k] == s2[k] by {
            if k > 0 {
                assert(s1.drop_first()[k - 1] == s2.drop_first()[k - 1]);
            }
        }
        assert(s1 =~= s2);
    }
}

/// Dropping the first button of a sorted listing lists the mapping without
/// its id.
proof fn lemma_tail_of_map(s: Seq<ButtonView>, m: Map<int, ButtonView>)
    requires
        buttons_of_map(s, m),
        s.len() > 0,
    ensures
        buttons_of_map(s.drop_first(), m.remove(s[0].id)),
{
    let t = s.drop_first();
    let m2 = m.remove(s[0].id);
    assert forall|i: int| 0 <= i < t.len() implies m2.dom().contains(#[trigger] t[i].id)
        && m2[t[i].id] == t[i] by {
        assert(t[i] == s[i + 1]);
        assert(s[0].id < s[i + 1].id);
    }
    assert forall|id: int| m2.dom().contains(id) implies exists|i: int|
        0 <= i < t.len() && #[trigger] t[i].id == id by {
        let i = choose|i: int| 0 <= i < s.len() && #[trigger] s[i].id == id;
        assert(i > 0);
        assert(t[i - 1].id == id);
    }
}

/// When a button sequence reports nothing, no button of it does.
proof fn lemma_buttons_errors_empty(bs: Seq<ButtonView>)
    requires
        spec_buttons_errors(bs).len() == 0,
    ensures
        forall|i: int| 0 <= i < bs.len() ==> spec_button_errors(#[trigger] bs[i]).len() == 0,
    decreases bs.len(),
{
    if bs.len() > 0 {
        lemma_buttons_errors_empty(bs.drop_last());
        assert forall|i: int| 0 <= i < bs.len() implies spec_button_errors(
            #[trigger] bs[i],
        ).len() == 0 by {
            if i < bs.len() - 1 {
                assert(bs.drop_last()[i] == bs[i]);
            } else {
                assert(bs.last() == bs[i]);
            }
        }
    }
}

/// A rendered button tag name is none of the five fixed tag names, and
/// parses back to its button id and kind.
proof fn lemma_button_tag_names(id: int)
    requires
        0 <= id <= usize::MAX,
    ensures
        ({
            let name = "fc:frame:button:"@ + dec_str(id as nat);
            &&& name != "fc:frame"@
            &&& name != "fc:frame:image"@
            &&& name != "fc:frame:image:aspect_ratio"@
            &&& name != "fc:frame:post_url"@
            &&& name != "fc:frame:input:text"@
            &&& label_tag_id(name) == Some(id)
        }),
        ({
            let name = "fc:frame:button:"@ + dec_str(id as nat) + ":action"@;
            &&& name != "fc:frame"@
            &&& name != "fc:frame:image"@
            &&& name != "fc:frame:image:aspect_ratio"@
            &&& name != "fc:frame:post_url"@
            &&& name != "fc:frame:input:text"@
            &&& label_tag_id(name) is None
            &&& action_tag_id(name) == Some(id)
        }),
{
    reveal_strlit("fc:frame:button:");
    reveal_strlit(":action");
    reveal_strlit("fc:frame");
    reveal_strlit("fc:frame:image");
    reveal_strlit("fc:frame:image:aspect_ratio");
    reveal_strlit("fc:frame:post_url");
    reveal_strlit("fc:frame:input:text");
    lemma_dec_str_val(id as nat);
    let d = dec_str(id as nat);
    let lname = "fc:frame:button:"@ + d;
    let aname = "fc:frame:button:"@ + d + ":action"@;
    assert(d.len() >= 1);
    assert(lname[9] == 'b' && aname[9] == 'b');
    // The label name parses as a label tag.
    assert(lname.take(16) =~= "fc:frame:button:"@);
    assert(lname.skip(16) =~= d);
    assert(label_tag_id(lname) == Some(id));
    // The action name parses as an action tag and nothing else.
    assert(aname.take(16) =~= "fc:frame:button:"@);
    assert(aname.skip(16) =~= d + ":action"@);
    assert(aname.skip(aname.len() - 7) =~= ":action"@);
    assert(aname.subrange(16, aname.len() - 7) =~= d);
    assert(!all_digits(aname.skip(16))) by {
        assert(aname.skip(16)[d.len() as int] == ':');
        assert(!crate::text::is_digit_char(':'));
    }
    assert(label_tag_id(aname) is None);
    assert(action_tag_id(aname) == Some(id));
}

/// Scanning the rendered tags of sorted, fully specified buttons from a
/// state with no buttons seen rebuilds exactly their mapping and leaves the
/// frame fields alone.
proof fn lemma_scan_rendered_buttons(st0: ScanState, bs: Seq<ButtonView>)
    requires
        st0.buttons == Map::<int, ButtonView>::empty(),
        forall|i: int, j: int| 0 <= i < j < bs.len() ==> bs[i].id < bs[j].id,
        forall|i: int| 0 <= i < bs.len() ==> 0 <= (#[trigger] bs[i].id) <= usize::MAX,
        forall|i: int|
            0 <= i < bs.len() ==> ((#[trigger] bs[i].action) is Some && bs[i].action != Some(
                ButtonAction::Invalid,
            )),
        forall|i: int| 0 <= i < bs.len() ==> ((#[trigger] bs[i].target) is None),
    ensures
        scan_metas(st0, spec_buttons_tags(bs)) == (ScanState {
            frame: st0.frame,
            buttons: map_of_buttons(bs),
        }),
    decreases bs.len(),
{
    reveal_with_fuel(scan_metas, 4);
    if bs.len() == 0 {
        assert(map_of_buttons(bs) =~= st0.buttons);
    } else {
        let pre = bs.drop_last();
        let b = bs.last();
        lemma_scan_rendered_buttons(st0, pre);
        lemma_scan_append(st0, spec_buttons_tags(pre), spec_button_tags(b));
        let st1 = ScanState { frame: st0.frame, buttons: map_of_buttons(pre) };
        assert(scan_metas(st0, spec_buttons_tags(pre)) == st1);
        let a = match b.action {
            Some(a) => a,
            None => ButtonAction::Post,
        };
        lemma_button_tag_names(b.id);
        lemma_action_value_round_trip(a);
        let lbl = ("fc:frame:button:"@ + dec_str(b.id as nat), b.label);
        let act = ("fc:frame:button:"@ + dec_str(b.id as nat) + ":action"@, spec_action_value(a));
        let two = spec_button_tags(b);
        assert(two =~= seq![lbl, act]);
        assert(two.drop_last() =~= seq![lbl]);
        assert(two.last() == act);
        assert(seq![lbl].drop_last() =~= Seq::<(Seq<char>, Seq<char>)>::empty());
        assert(scan_metas(st1, seq![lbl].drop_last()) == st1);
        // The label tag creates the button with the default action.
        assert(!map_of_buttons(pre).dom().contains(b.id)) by {
            lemma_map_of_buttons(pre);
            if map_of_buttons(pre).dom().contains(b.id) {
                let i = choose|i: int| 0 <= i < pre.len() && #[trigger] pre[i].id == b.id;
                assert(bs[i].id < b.id);
            }
        }
        assert(scan_metas(st1, two.drop_last()) == apply_meta(st1, lbl.0, lbl.1));
        let st2 = apply_meta(st1, lbl.0, lbl.1);
        assert(st2 == ScanState {
            frame: st1.frame,
            buttons: upsert_label(st1.buttons, b.id, b.label),
        });
        // The action tag then fills in the rendered action.
        let st3 = apply_meta(st2, act.0, act.1);
        assert(st2.buttons.dom().contains(b.id));
        assert(st3.buttons =~= map_of_buttons(pre).insert(b.id, b)) by {
            assert(st3.buttons == upsert_action(st2.buttons, b.id, spec_action_value(a)));
            assert(spec_parse_action(spec_action_value(a)) == a);
            assert(st2.buttons[b.id].id == b.id);
            assert(st3.buttons[b.id] == b);
        }
        assert(scan_metas(st0, spec_buttons_tags(bs)) == scan_metas(st1, two));
        assert(scan_metas(st1, two) == st3);
        assert(st3 == ScanState { frame: st0.frame, buttons: map_of_buttons(bs) });
    }
}

/// Round trip: whatever frame extraction reconstructs from the canonical
/// tag sequence of a valid frame (its rendered output, by
/// [`lemma_render_emits_tags`]) together with its title, is that frame
/// again, and it passes validation with nothing to report. The buttons must
/// carry an explicit action and no target: rendering emits a default for a
/// missing action and extraction never reads target tags, so such frames
/// do not survive the trip unchanged.
#[verifier::rlimit(100)]
pub proof fn lemma_round_trip(f: FrameView, new_f: FrameView)
    requires
        frame_wf(f),
        spec_validate_errors(f).len() == 0,
        forall|i: int| 0 <= i < f.buttons.len() ==> ((#[trigger] f.buttons[i].action) is Some),
        forall|i: int| 0 <= i < f.buttons.len() ==> ((#[trigger] f.buttons[i].target) is None),
        parse_post(empty_frame_view(), Some(f.title), spec_frame_tags(f), new_f),
    ensures
        new_f == f,
        parse_errors(Some(f.title), new_f).len() == 0,
{
    reveal_with_fuel(scan_metas, 4);
    reveal_strlit("fc:frame");
    reveal_strlit("fc:frame:image");
    reveal_strlit("fc:frame:image:aspect_ratio");
    reveal_strlit("fc:frame:post_url");
    reveal_strlit("fc:frame:input:text");
    reveal_strlit("1:1");
    reveal_strlit("1.91:1");
    let t0 = init_scan(empty_frame_view(), Some(f.title));
    let ghost empty_tags = Seq::<(Seq<char>, Seq<char>)>::empty();
    let s1 = seq![("fc:frame"@, f.version)];
    assert(scan_metas(t0, empty_tags) == t0);
    let s2 = seq![("fc:frame:image"@, f.image.url)];
    let s3 = match f.image.aspect_ratio {
        AspectRatio::Square => seq![("fc:frame:image:aspect_ratio"@, "1:1"@)],
        AspectRatio::Wide => seq![("fc:frame:image:aspect_ratio"@, "1.91:1"@)],
        _ => Seq::<(Seq<char>, Seq<char>)>::empty(),
    };
    let s4 = match f.input_text {
        Some(t) => seq![("fc:frame:input:text"@, t)],
        None => Seq::<(Seq<char>, Seq<char>)>::empty(),
    };
    let s5 = spec_buttons_tags(f.buttons);
    let s6 = match f.post_url {
        Some(u) => seq![("fc:frame:post_url"@, u)],
        None => Seq::<(Seq<char>, Seq<char>)>::empty(),
    };
    // No invalid action or aspect ratio: validation reported nothing.
    assert(spec_buttons_errors(f.buttons).len() == 0);
    lemma_buttons_errors_empty(f.buttons);
    assert(crate::validators::image::spec_image_errors(f.image).len() == 0);
    assert(f.image.aspect_ratio != AspectRatio::Invalid);
    // Scan the six tag groups in order.
    lemma_scan_append(t0, s1, s2);
    lemma_scan_append(t0, s1 + s2, s3);
    lemma_scan_append(t0, s1 + s2 + s3, s4);
    lemma_scan_append(t0, s1 + s2 + s3 + s4, s5);
    lemma_scan_append(t0, s1 + s2 + s3 + s4 + s5, s6);
    assert(seq![("fc:frame"@, f.version)].drop_last() =~= Seq::<(Seq<char>, Seq<char>)>::empty());
    let t1 = scan_metas(t0, s1);
    assert(t1 == apply_meta(t0, "fc:frame"@, f.version));
    assert(seq![("fc:frame:image"@, f.image.url)].drop_last() =~= Seq::<(
        Seq<char>,
        Seq<char>,
    )>::empty());
    let t2 = scan_metas(t1, s2);
    assert(t2 == apply_meta(t1, "fc:frame:image"@, f.image.url));
    let t3 = scan_metas(t2, s3);
    match f.image.aspect_ratio {
        AspectRatio::Square => {
            assert(s3.drop_last() =~= Seq::<(Seq<char>, Seq<char>)>::empty());
            assert(t3 == apply_meta(t2, "fc:frame:image:aspect_ratio"@, "1:1"@));
            assert(spec_parse_aspect("1:1"@) == AspectRatio::Square);
        },
        AspectRatio::Wide => {
            assert(s3.drop_last() =~= Seq::<(Seq<char>, Seq<char>)>::empty());
            assert(t3 == apply_meta(t2, "fc:frame:image:aspect_ratio"@, "1.91:1"@));
            assert("1.91:1"@ != "1:1"@) by {
                assert("1.91:1"@.len() == 6);
                assert("1:1"@.len() == 3);
            }
            assert(spec_parse_aspect("1.91:1"@) == AspectRatio::Wide);
        },
        _ => {
            assert(t3 == t2);
        },
    }
    let t4 = scan_metas(t3, s4);
    match f.input_text {
        Some(t) => {
            assert(s4.drop_last() =~= Seq::<(Seq<char>, Seq<char>)>::empty());
            assert(t4 == apply_meta(t3, "fc:frame:input:text"@, t));
        },
        None => {
            assert(t4 == t3);
        },
    }
    assert(t4.buttons =~= Map::<int, ButtonView>::empty());
    let t5 = scan_metas(t4, s5);
    lemma_scan_rendered_buttons(t4, f.buttons);
    assert(t5 == ScanState { frame: t4.frame, buttons: map_of_buttons(f.buttons) });
    let t6 = scan_metas(t5, s6);
    match f.post_url {
        Some(u) => {
            assert(s6.drop_last() =~= Seq::<(Seq<char>, Seq<char>)>::empty());
            assert(t6 == apply_meta(t5, "fc:frame:post_url"@, u));
            // A rendered submission URL does not disturb the buttons: the
            // post_url tag is dispatched before the button patterns.
        },
        None => {
            assert(t6 == t5);
        },
    }
    assert(t6.frame == with_buttons(f, Seq::<ButtonView>::empty())) by {
        assert(t6.frame.title == f.title);
        assert(t6.frame.version == f.version);
        assert(t6.frame.image.url == f.image.url);
        assert(t6.frame.image.aspect_ratio == f.image.aspect_ratio);
        assert(t6.frame.post_url == f.post_url);
        assert(t6.frame.input_text == f.input_text);
        assert(t6.frame.buttons == Seq::<ButtonView>::empty());
    }
    assert(t6.buttons == map_of_buttons(f.buttons));
    assert(scan_metas(t0, spec_frame_tags(f)) == t6);
    // The listed buttons are forced: both listings are sorted listings of
    // one mapping.
    lemma_map_of_buttons(f.buttons);
    assert(new_f.buttons.skip(0) =~= new_f.buttons);
    assert(buttons_of_map(new_f.buttons, t6.buttons));
    lemma_buttons_of_map_unique(new_f.buttons, f.buttons, map_of_buttons(f.buttons));
    assert(new_f == f);
}

} // verus!

