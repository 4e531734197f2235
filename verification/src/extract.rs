//! The extractor: walks the `<meta>` tags of a document, assembles a draft
//! frame, and hands the draft to validation. Tag dispatch, button assembly
//! and error accumulation are verified; only the reading of the document
//! tree is delegated to an outside HTML parser behind trusted wrappers.
//!
//! Buttons are accumulated in a mapping keyed by the id parsed from the tag
//! name, so that the label tag and the action tag of one button may appear
//! in either document order; after the scan they are emitted in ascending id
//! order.

use vstd::prelude::*;

use crate::text::{all_digits, dec_val, has_prefix, has_suffix, parse_dec, str_eq};
use crate::types::button::{spec_parse_action, ButtonAction, ButtonView, FrameButton};
use crate::types::errors::{
    fetch_failed_error, missing_title_error, read_failed_error, Error, ErrorView, FetchFailure,
    FrameErrors,
};
use crate::types::frame::{empty_frame_view, Frame, FrameView};
use crate::types::image::spec_parse_aspect;
use crate::validators::frame::spec_validate_errors;

verus! {

/// The first `<title>` element's concatenated text, if the document has one.
pub uninterp spec fn doc_title(html: Seq<char>) -> Option<Seq<char>>;

/// The `name` and `content` attribute values of every `<meta>` element that
/// carries both, in document order.
pub uninterp spec fn doc_metas(html: Seq<char>) -> Seq<(Seq<char>, Seq<char>)>;

/// Relies on `scraper::Html::parse_document`, `scraper::Selector::parse` and
/// `scraper::Html::select` to find the first `<title>` element, and on
/// `scraper::ElementRef::text` for its concatenated text. The result is a
/// pure function of the document text.
#[verifier::external_body]
fn doc_title_of(html: &str) -> (r: Option<String>)
    ensures
        r.deep_view() == doc_title(html@),
{
    let document = scraper::Html::parse_document(html);
    let selector = scraper::Selector::parse("title").unwrap();
    document.select(&selector).next().map(|el| el.text().collect::<Vec<_>>().join(""))
}

/// Relies on `scraper::Html::parse_document`, `scraper::Selector::parse` and
/// `scraper::Html::select` to enumerate the `<meta>` elements in document
/// order, and on `scraper::Element::attr` for their `name` and `content`
/// attributes. The result is a pure function of the document text.
#[verifier::external_body]
fn doc_metas_of(html: &str) -> (r: Vec<(String, String)>)
    ensures
        r.deep_view() == doc_metas(html@),
{
    let document = scraper::Html::parse_document(html);
    let selector = scraper::Selector::parse("meta").unwrap();
    let mut out: Vec<(String, String)> = Vec::new();
    for element in document.select(&selector) {
        if let (Some(name), Some(content)) = (element.value().attr("name"), element.value().attr(
            "content",
        )) {
            out.push((name.to_string(), content.to_string()));
        }
    }
    out
}

/// The prefix of every button tag name.
pub open spec fn button_prefix() -> Seq<char> {
    "fc:frame:button:"@
}

/// The suffix of every button action tag name.
pub open spec fn action_suffix() -> Seq<char> {
    ":action"@
}

/// The id when `name` is a button label tag `fc:frame:button:{n}` whose id
/// is a plain decimal that fits a `usize`; otherwise nothing, and the tag is
/// dropped.
pub open spec fn label_tag_id(name: Seq<char>) -> Option<int> {
    let p = button_prefix();
    let rest = name.skip(p.len() as int);
    if name.len() > p.len() && name.take(p.len() as int) == p && all_digits(rest) && dec_val(rest)
        <= usize::MAX {
        Some(dec_val(rest))
    } else {
        None
    }
}

/// The id when `name` is a button action tag `fc:frame:button:{n}:action`
/// whose id is a plain decimal that fits a `usize`.
pub open spec fn action_tag_id(name: Seq<char>) -> Option<int> {
    let p = button_prefix();
    let q = action_suffix();
    let mid = name.subrange(p.len() as int, name.len() - q.len());
    if name.len() > p.len() + q.len() && name.take(p.len() as int) == p && name.skip(
        name.len() - q.len(),
    ) == q && all_digits(mid) && dec_val(mid) <= usize::MAX {
        Some(dec_val(mid))
    } else {
        None
    }
}

/// The draft state while tags are scanned: the frame fields filled so far,
/// and the buttons accumulated in a mapping keyed by id. The frame's own
/// button sequence is untouched by the scan.
pub struct ScanState {
    pub frame: FrameView,
    pub buttons: Map<int, ButtonView>,
}

/// A label tag for button `id`: sets the label, and gives a button seen for
/// the first time the default action.
pub open spec fn upsert_label(m: Map<int, ButtonView>, id: int, content: Seq<char>) -> Map<
    int,
    ButtonView,
> {
    if m.dom().contains(id) {
        m.insert(
            id,
            ButtonView {
                id: m[id].id,
                label: content,
                action: m[id].action,
                target: m[id].target,
            },
        )
    } else {
        m.insert(
            id,
            ButtonView { id: id, label: content, action: Some(ButtonAction::Post), target: None },
        )
    }
}

/// An action tag for button `id`: sets the action, and gives a button seen
/// for the first time the tag's value as a placeholder label.
pub open spec fn upsert_action(m: Map<int, ButtonView>, id: int, content: Seq<char>) -> Map<
    int,
    ButtonView,
> {
    if m.dom().contains(id) {
        m.insert(
            id,
            ButtonView {
                id: m[id].id,
                label: m[id].label,
                action: Some(spec_parse_action(content)),
                target: m[id].target,
            },
        )
    } else {
        m.insert(
            id,
            ButtonView {
                id: id,
                label: content,
                action: Some(spec_parse_action(content)),
                target: None,
            },
        )
    }
}

/// One step of the tag scan: dispatches a `name`/`content` pair on the
/// name. A repeated non-button tag overwrites, so the last occurrence wins;
/// unknown names are ignored.
pub open spec fn apply_meta(st: ScanState, name: Seq<char>, content: Seq<char>) -> ScanState {
    if name == "fc:frame"@ {
        ScanState { frame: FrameView { version: content, ..st.frame }, buttons: st.buttons }
    } else if name == "fc:frame:image"@ {
        ScanState {
            frame: FrameView {
                image: crate::types::image::ImageView {
                    url: content,
                    aspect_ratio: st.frame.image.aspect_ratio,
                },
                ..st.frame
            },
            buttons: st.buttons,
        }
    } else if name == "fc:frame:image:aspect_ratio"@ {
        ScanState {
            frame: FrameView {
                image: crate::types::image::ImageView {
                    url: st.frame.image.url,
                    aspect_ratio: spec_parse_aspect(content),
                },
                ..st.frame
            },
            buttons: st.buttons,
        }
    } else if name == "fc:frame:post_url"@ {
        ScanState { frame: FrameView { post_url: Some(content), ..st.frame }, buttons: st.buttons }
    } else if name == "fc:frame:input:text"@ {
        ScanState {
            frame: FrameView { input_text: Some(content), ..st.frame },
            buttons: st.buttons,
        }
    } else {
        match label_tag_id(name) {
            Some(id) => ScanState {
                frame: st.frame,
                buttons: upsert_label(st.buttons, id, content),
            },
            None => match action_tag_id(name) {
                Some(id) => ScanState {
                    frame: st.frame,
                    buttons: upsert_action(st.buttons, id, content),
                },
                None => st,
            },
        }
    }
}

/// The tag scan: every pair applied in document order.
pub open spec fn scan_metas(st: ScanState, metas: Seq<(Seq<char>, Seq<char>)>) -> ScanState
    decreases metas.len(),
{
    if metas.len() == 0 {
        st
    } else {
        apply_meta(scan_metas(st, metas.drop_last()), metas.last().0, metas.last().1)
    }
}

/// A scan of two tag lists, one after the other, is the scan of their
/// concatenation.
pub proof fn lemma_scan_append(
    st: ScanState,
    a: Seq<(Seq<char>, Seq<char>)>,
    b: Seq<(Seq<char>, Seq<char>)>,
)
    ensures
        scan_metas(st, a + b) == scan_metas(scan_metas(st, a), b),
    decreases b.len(),
{
    if b.len() == 0 {
        assert(a + b =~= a);
    } else {
        lemma_scan_append(st, a, b.drop_last());
        assert((a + b).drop_last() =~= a + b.drop_last());
        assert((a + b).last() == b.last());
    }
}

/// The scan fills frame fields and the button mapping; the frame's own
/// button sequence is never touched.
pub proof fn lemma_scan_keeps_buttons(st: ScanState, metas: Seq<(Seq<char>, Seq<char>)>)
    ensures
        scan_metas(st, metas).frame.buttons == st.frame.buttons,
    decreases metas.len(),
{
    if metas.len() > 0 {
        lemma_scan_keeps_buttons(st, metas.drop_last());
    }
}

/// The state a scan starts from: the frame as the caller handed it, with
/// the document's title applied when there is one, and no buttons seen.
pub open spec fn init_scan(f: FrameView, title: Option<Seq<char>>) -> ScanState {
    ScanState {
        frame: match title {
            Some(t) => FrameView { title: t, ..f },
            None => f,
        },
        buttons: Map::<int, ButtonView>::empty(),
    }
}

/// `s` lists exactly the buttons of `m`, in strictly ascending id order.
pub open spec fn buttons_of_map(s: Seq<ButtonView>, m: Map<int, ButtonView>) -> bool {
    &&& forall|i: int, j: int| 0 <= i < j < s.len() ==> s[i].id < s[j].id
    &&& forall|i: int|
        0 <= i < s.len() ==> m.dom().contains(#[trigger] s[i].id) && m[s[i].id] == s[i]
    &&& forall|id: int|
        m.dom().contains(id) ==> exists|i: int| 0 <= i < s.len() && #[trigger] s[i].id == id
}

/// Replaces the buttons of `f`.
pub open spec fn with_buttons(f: FrameView, bs: Seq<ButtonView>) -> FrameView {
    FrameView { buttons: bs, ..f }
}

/// How extraction leaves a frame: every field is what the tag scan made of
/// it, and the buttons found — exactly those of the scan's mapping, in
/// ascending id order — follow the buttons the frame already had.
pub open spec fn parse_post(
    old_f: FrameView,
    title: Option<Seq<char>>,
    metas: Seq<(Seq<char>, Seq<char>)>,
    new_f: FrameView,
) -> bool {
    let st = scan_metas(init_scan(old_f, title), metas);
    &&& new_f == with_buttons(st.frame, new_f.buttons)
    &&& old_f.buttons.len() <= new_f.buttons.len()
    &&& new_f.buttons.take(old_f.buttons.len() as int) == old_f.buttons
    &&& buttons_of_map(new_f.buttons.skip(old_f.buttons.len() as int), st.buttons)
}

/// Every problem extraction reports for a frame it produced: the validation
/// findings, and a missing-title error when the document had no title.
pub open spec fn parse_errors(title: Option<Seq<char>>, f: FrameView) -> Seq<ErrorView> {
    spec_validate_errors(f) + (if title is None {
        seq![missing_title_error()]
    } else {
        Seq::<ErrorView>::empty()
    })
}

/// Classifies a button tag name: the button id and whether the tag is an
/// action tag. Returns nothing for every other name.
fn parse_button_tag(name: &str) -> (r: Option<(usize, bool)>)
    ensures
        r matches Some(p) ==> (if p.1 {
            action_tag_id(name@) == Some(p.0 as int) && label_tag_id(name@) is None
        } else {
            label_tag_id(name@) == Some(p.0 as int)
        }),
        r is None ==> label_tag_id(name@) is None && action_tag_id(name@) is None,
{
    proof {
        reveal_strlit("fc:frame:button:");
        reveal_strlit(":action");
    }
    if !has_prefix(name, "fc:frame:button:") {
        return None;
    }
    let len = name.unicode_len();
    if len <= 16 {
        proof {
            assert(name@.skip(16) =~= Seq::<char>::empty());
        }
        return None;
    }
    let rest = name.substring_char(16, len);
    proof {
        assert(rest@ =~= name@.skip(16));
    }
    if has_suffix(rest, ":action") {
        proof {
            // The rest ends in the suffix, whose ':' keeps it from being all
            // digits, so this cannot also be a label tag.
            assert(rest@.skip(rest@.len() - 7)[0] == rest@[rest@.len() - 7]);
            assert(!all_digits(name@.skip(16))) by {
                assert(rest@[rest@.len() - 7] == ':');
                assert(!crate::text::is_digit_char(':'));
            }
            assert(name@.skip(name@.len() - 7) =~= rest@.skip(rest@.len() - 7));
        }
        let rest_len = rest.unicode_len();
        if rest_len <= 7 {
            return None;
        }
        let mid = rest.substring_char(0, rest_len - 7);
        proof {
            assert(mid@ =~= name@.subrange(16, name@.len() - 7));
        }
        match parse_dec(mid) {
            Some(id) => {
                proof {
                    crate::text::lemma_dec_val_nonneg(name@.subrange(16, name@.len() - 7));
                }
                Some((id, true))
            },
            None => None,
        }
    } else {
        proof {
            if name@.len() >= 23 {
                assert(name@.skip(name@.len() - 7) =~= rest@.skip(rest@.len() - 7));
            }
        }
        match parse_dec(rest) {
            Some(id) => {
                proof {
                    crate::text::lemma_dec_val_nonneg(name@.skip(16));
                }
                Some((id, false))
            },
            None => None,
        }
    }
}

/// Inserts or updates the button `id` in a sequence kept in ascending id
/// order, mirroring one upsert of the scan's mapping.
#[verifier::loop_isolation(false)]
fn upsert_button(
    buttons: &mut Vec<FrameButton>,
    id: usize,
    is_action: bool,
    content: String,
    Ghost(m): Ghost<Map<int, ButtonView>>,
)
    requires
        buttons_of_map(old(buttons).deep_view(), m),
    ensures
        buttons_of_map(
            final(buttons).deep_view(),
            if is_action {
                upsert_action(m, id as int, content@)
            } else {
                upsert_label(m, id as int, content@)
            },
        ),
{
    let ghost m2 = if is_action {
        upsert_action(m, id as int, content@)
    } else {
        upsert_label(m, id as int, content@)
    };
    let n = buttons.len();
    let mut i: usize = 0;
    while i < n && buttons[i].id < id
        invariant
            0 <= i <= n,
            forall|k: int| 0 <= k < i ==> old(buttons).deep_view()[k].id < id as int,
        decreases n - i,
    {
        i = i + 1;
    }
    if i < n && buttons[i].id == id {
        // The button exists: merge the tag into it.
        let old_b = buttons.remove(i);
        let new_b = if is_action {
            FrameButton {
                id,
                label: old_b.label,
                action: Some(crate::types::button::parse_action(content.as_str())),
                target: old_b.target,
            }
        } else {
            FrameButton { id, label: content, action: old_b.action, target: old_b.target }
        };
        buttons.insert(i, new_b);
        proof {
            let s0 = old(buttons).deep_view();
            let s1 = buttons.deep_view();
            assert(m.dom().contains(id as int) && m[id as int] == s0[i as int]) by {
                assert(s0[i as int].id == id as int);
            }
            assert(s1.len() == s0.len());
            assert forall|k: int| 0 <= k < s1.len() && k != i implies s1[k] == s0[k] by {
                assert(buttons@[k] == old(buttons)@.remove(i as int).insert(i as int, new_b)[k]);
            }
            assert(s1[i as int] == new_b@);
            assert(buttons_of_map(s1, m2)) by {
                assert forall|x: int, y: int| 0 <= x < y < s1.len() implies s1[x].id < s1[y].id by {
                    assert(s0[x].id < s0[y].id);
                }
                assert forall|k: int| 0 <= k < s1.len() implies m2.dom().contains(
                    #[trigger] s1[k].id,
                ) && m2[s1[k].id] == s1[k] by {
                    if k == i {
                    } else {
                        assert(s0[k].id != id as int) by {
                            if k < i {
                                assert(s0[k].id < s0[i as int].id);
                            } else {
                                assert(s0[i as int].id < s0[k].id);
                            }
                        }
                    }
                }
                assert forall|bid: int| m2.dom().contains(bid) implies exists|k: int|
                    0 <= k < s1.len() && #[trigger] s1[k].id == bid by {
                    if bid == id as int {
                        assert(s1[i as int].id == bid);
                    } else {
                        let k = choose|k: int| 0 <= k < s0.len() && #[trigger] s0[k].id == bid;
                        assert(s1[k].id == bid);
                    }
                }
            }
        }
    } else {
        // A new button: insert it at its place in id order.
        let new_b = if is_action {
            let action = crate::types::button::parse_action(content.as_str());
            FrameButton { id, label: content, action: Some(action), target: None }
        } else {
            FrameButton {
                id,
                label: content,
                action: Some(ButtonAction::Post),
                target: None,
            }
        };
        proof {
            // The id is new: nothing before position i carries it, and
            // everything at or after i is larger.
            assert(!m.dom().contains(id as int)) by {
                if m.dom().contains(id as int) {
                    let k = choose|k: int|
                        0 <= k < old(buttons).deep_view().len() && #[trigger] old(
                            buttons,
                        ).deep_view()[k].id == id as int;
                    if k >= i {
                        if i < n {
                            assert(old(buttons).deep_view()[i as int].id != id as int);
                            if k > i {
                                assert(old(buttons).deep_view()[i as int].id < old(
                                    buttons,
                                ).deep_view()[k].id);
                                assert(old(buttons).deep_view()[i as int].id < id as int);
                            }
                        }
                    }
                }
            }
        }
        buttons.insert(i, new_b);
        proof {
            let s0 = old(buttons).deep_view();
            let s1 = buttons.deep_view();
            assert(s1.len() == s0.len() + 1);
            assert(s1[i as int] == new_b@);
            assert forall|k: int| 0 <= k < i implies s1[k] == s0[k] by {
                assert(buttons@[k] == old(buttons)@.insert(i as int, new_b)[k]);
            }
            assert forall|k: int| i < k < s1.len() implies s1[k] == s0[k - 1] by {
                assert(buttons@[k] == old(buttons)@.insert(i as int, new_b)[k]);
            }
            assert(buttons_of_map(s1, m2)) by {
                assert forall|x: int, y: int| 0 <= x < y < s1.len() implies s1[x].id < s1[y].id by {
                    if y < i {
                        assert(s0[x].id < s0[y].id);
                    } else if x > i {
                        assert(s0[x - 1].id < s0[y - 1].id);
                    } else if x < i && y == i {
                        assert(s0[x].id < id as int);
                    } else if x < i && y > i {
                        assert(s0[x].id < s0[y - 1].id);
                    } else if x == i && y > i {
                        // Everything from i on in the old sequence is larger.
                        assert(s0[i as int].id > id as int) by {
                            assert(i < n);
                            assert(s0[i as int].id != id as int);
                        }
                        if y - 1 > i {
                            assert(s0[i as int].id < s0[y - 1].id);
                        }
                    }
                }
                assert forall|k: int| 0 <= k < s1.len() implies m2.dom().contains(
                    #[trigger] s1[k].id,
                ) && m2[s1[k].id] == s1[k] by {
                    if k < i {
                        assert(s1[k].id != id as int);
                    } else if k > i {
                        assert(s1[k] == s0[k - 1]);
                        assert(s1[k].id != id as int);
                    }
                }
                assert forall|bid: int| m2.dom().contains(bid) implies exists|k: int|
                    0 <= k < s1.len() && #[trigger] s1[k].id == bid by {
                    if bid == id as int {
                        assert(s1[i as int].id == bid);
                    } else {
                        let k = choose|k: int| 0 <= k < s0.len() && #[trigger] s0[k].id == bid;
                        if k < i {
                            assert(s1[k].id == bid);
                        } else {
                            assert(s1[k + 1].id == bid);
                        }
                    }
                }
            }
        }
    }
}

impl Frame {
    /// Fills this frame from a document's title and meta tags, then
    /// validates it: the core of extraction, working on plain values.
    #[verifier::loop_isolation(false)]
    pub fn apply_parts(&mut self, title: Option<String>, metas: &Vec<(String, String)>) -> (r:
        Result<(), FrameErrors>)
        ensures
            parse_post(old(self)@, title.deep_view(), metas.deep_view(), final(self)@),
            r is Ok <==> parse_errors(title.deep_view(), final(self)@).len() == 0,
            r matches Err(e) ==> e@ == parse_errors(title.deep_view(), final(self)@),
    {
        let ghost title_v = title.deep_view();
        let ghost metas_v = metas.deep_view();
        let ghost init = init_scan(old(self)@, title_v);
        let title_missing: bool = match title {
            Some(t) => {
                self.title = t;
                false
            },
            None => true,
        };
        proof {
            assert(self@ == init.frame);
        }
        let mut new_buttons: Vec<FrameButton> = Vec::new();
        proof {
            assert(buttons_of_map(new_buttons.deep_view(), init.buttons)) by {
                assert(new_buttons.deep_view().len() == 0);
            }
        }
        let n = metas.len();
        let mut idx: usize = 0;
        while idx < n
            invariant
                0 <= idx <= n,
                self@ == scan_metas(init, metas_v.take(idx as int)).frame,
                buttons_of_map(
                    new_buttons.deep_view(),
                    scan_metas(init, metas_v.take(idx as int)).buttons,
                ),
            decreases n - idx,
        {
            let ghost st = scan_metas(init, metas_v.take(idx as int));
            let name = &metas[idx].0;
            let content = metas[idx].1.clone();
            proof {
                assert(metas_v[idx as int] == (name@, content@));
            }
            if str_eq(name.as_str(), "fc:frame") {
                self.version = content;
            } else if str_eq(name.as_str(), "fc:frame:image") {
                self.image.url = content;
            } else if str_eq(name.as_str(), "fc:frame:image:aspect_ratio") {
                self.image.aspect_ratio = crate::types::image::parse_aspect(content.as_str());
            } else if str_eq(name.as_str(), "fc:frame:post_url") {
                self.post_url = Some(content);
            } else if str_eq(name.as_str(), "fc:frame:input:text") {
                self.input_text = Some(content);
            } else {
                match parse_button_tag(name.as_str()) {
                    Some((id, is_action)) => {
                        upsert_button(
                            &mut new_buttons,
                            id,
                            is_action,
                            content,
                            Ghost(st.buttons),
                        );
                    },
                    None => {},
                }
            }
            proof {
                assert(metas_v.take(idx + 1).drop_last() =~= metas_v.take(idx as int));
                assert(metas_v.take(idx + 1).last() == metas_v[idx as int]);
                assert(scan_metas(init, metas_v.take(idx + 1)) == apply_meta(
                    st,
                    name@,
                    content@,
                ));
            }
            idx = idx + 1;
        }
        proof {
            assert(metas_v.take(n as int) =~= metas_v);
        }
        let ghost st = scan_metas(init, metas_v);
        let ghost pre = self.buttons.deep_view();
        let ghost newv = new_buttons.deep_view();
        self.buttons.append(&mut new_buttons);
        proof {
            lemma_scan_keeps_buttons(init, metas_v);
            assert(pre == old(self)@.buttons);
            assert(self@.buttons.len() == pre.len() + newv.len());
            assert forall|k: int| 0 <= k < pre.len() implies self@.buttons[k] == pre[k] by {}
            assert forall|k: int| 0 <= k < newv.len() implies self@.buttons[pre.len() + k]
                == newv[k] by {}
            assert(self@.buttons.take(pre.len() as int) =~= pre);
            assert(self@.buttons.skip(pre.len() as int) =~= newv);
            assert(self@ == with_buttons(st.frame, self@.buttons));
        }
        let mut errors = FrameErrors::new();
        match self.validate() {
            Ok(_) => (),
            Err(e) => errors.add_errors(e.errors),
        }
        if title_missing {
            errors.add_error(Error::missing_title());
        }
        proof {
            assert(errors@ =~= parse_errors(title_v, self@));
        }
        if !errors.is_empty() {
            return Err(errors);
        }
        Ok(())
    }

    /// Fills this frame from an HTML document and validates it. The document
    /// tree is read by the trusted wrappers above; everything done with what
    /// they return is verified.
    pub fn from_html(&mut self, html: &str) -> (r: Result<(), FrameErrors>)
        ensures
            parse_post(old(self)@, doc_title(html@), doc_metas(html@), final(self)@),
            r is Ok <==> parse_errors(doc_title(html@), final(self)@).len() == 0,
            r matches Err(e) ==> e@ == parse_errors(doc_title(html@), final(self)@),
    {
        let title = doc_title_of(html);
        let metas = doc_metas_of(html);
        self.apply_parts(title, &metas)
    }

    /// Continues after a fetch: extracts from the body when the fetch
    /// succeeded, and reports the transport or read failure otherwise.
    pub fn from_fetched(&mut self, fetched: Result<String, FetchFailure>) -> (r: Result<
        (),
        FrameErrors,
    >)
        ensures
            fetched matches Ok(html) ==> parse_post(
                old(self)@,
                doc_title(html@),
                doc_metas(html@),
                final(self)@,
            ) && (r is Ok <==> parse_errors(doc_title(html@), final(self)@).len() == 0) && (
            r matches Err(e) ==> e@ == parse_errors(doc_title(html@), final(self)@)),
            fetched matches Err(f) ==> *final(self) == *old(self) && (r matches Err(e) && e@
                == seq![
                if f == FetchFailure::Transport {
                    fetch_failed_error()
                } else {
                    read_failed_error()
                },
            ]),
    {
        match fetched {
            Ok(html) => self.from_html(html.as_str()),
            Err(FetchFailure::Transport) => {
                let mut errors = FrameErrors::new();
                errors.add_error(Error::fetch_failed());
                proof {
                    assert(errors@ =~= seq![fetch_failed_error()]);
                }
                Err(errors)
            },
            Err(FetchFailure::Read) => {
                let mut errors = FrameErrors::new();
                errors.add_error(Error::read_failed());
                proof {
                    assert(errors@ =~= seq![read_failed_error()]);
                }
                Err(errors)
            },
        }
    }
}

} // verus!
