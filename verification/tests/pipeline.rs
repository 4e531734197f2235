use frames_core::serializers::HtmlSerializer;
use frames_core::types::button::{ButtonAction, FrameButton};
use frames_core::types::errors::{Error, ErrorCode, FetchFailure, FrameErrors};
use frames_core::types::frame::Frame;
use frames_core::types::image::{AspectRatio, FrameImage};

fn button(id: usize, label: &str) -> FrameButton {
    FrameButton {
        id,
        label: label.to_string(),
        action: Some(ButtonAction::Post),
        target: None,
    }
}

fn valid_frame(buttons: Vec<FrameButton>) -> Frame {
    Frame {
        title: "Example".to_string(),
        version: "vNext".to_string(),
        image: FrameImage {
            url: "http://example.com/image.png".to_string(),
            aspect_ratio: AspectRatio::Unspecified,
        },
        post_url: Some("https://example.com".to_string()),
        buttons,
        input_text: None,
    }
}

#[test]
fn round_trip_preserves_a_valid_frame() {
    let frame = valid_frame(vec![
        button(1, "Green"),
        button(2, "Purple"),
        button(3, "Red"),
        button(4, "Blue"),
    ]);
    let html = frame.to_html();
    let mut rebuilt = Frame::new();
    rebuilt.from_html(&html).unwrap();
    assert_eq!(rebuilt, frame);
}

#[test]
fn round_trip_preserves_square_and_wide_ratios() {
    for ratio in [AspectRatio::Square, AspectRatio::Wide] {
        let mut frame = valid_frame(vec![button(1, "Go")]);
        frame.image.aspect_ratio = ratio;
        let html = frame.to_html();
        let mut rebuilt = Frame::new();
        rebuilt.from_html(&html).unwrap();
        assert_eq!(rebuilt, frame);
    }
}

#[test]
fn round_trip_defaults_a_missing_action() {
    // A button without an action renders without an action tag, so it comes
    // back with the default action: the one shape that does not survive the
    // trip unchanged.
    let mut frame = valid_frame(vec![button(1, "Go")]);
    frame.buttons[0].action = None;
    let html = frame.to_html();
    let mut rebuilt = Frame::new();
    rebuilt.from_html(&html).unwrap();
    assert_eq!(rebuilt.buttons[0].action, Some(ButtonAction::Post));
}

#[test]
fn render_is_a_pure_function_of_the_frame() {
    let frame = valid_frame(vec![button(1, "Go"), button(2, "Stop")]);
    assert_eq!(frame.to_html(), frame.to_html());
}

#[test]
fn render_emits_every_action_kind() {
    let mut frame = valid_frame(vec![
        button(1, "A"),
        button(2, "B"),
        button(3, "C"),
        button(4, "D"),
    ]);
    frame.buttons[0].action = Some(ButtonAction::Post);
    frame.buttons[1].action = Some(ButtonAction::PostRedirect);
    frame.buttons[2].action = Some(ButtonAction::Mint);
    frame.buttons[3].action = Some(ButtonAction::Link);
    frame.buttons[3].target = Some("https://example.com/item".to_string());
    let html = frame.to_html();
    assert!(html.contains(r#"<meta name="fc:frame:button:1:action" content="post" />"#));
    assert!(html.contains(r#"<meta name="fc:frame:button:2:action" content="post_redirect" />"#));
    assert!(html.contains(r#"<meta name="fc:frame:button:3:action" content="mint" />"#));
    assert!(html.contains(r#"<meta name="fc:frame:button:4:action" content="link" />"#));
    assert!(
        html.contains(r#"<meta name="fc:frame:button:4:target" content="https://example.com/item" />"#)
    );
}

#[test]
fn contiguous_buttons_validate() {
    let frame = valid_frame(vec![
        button(1, "A"),
        button(2, "B"),
        button(3, "C"),
        button(4, "D"),
    ]);
    assert!(frame.validate().is_ok());
}

#[test]
fn no_buttons_and_one_button_validate() {
    assert!(valid_frame(vec![]).validate().is_ok());
    assert!(valid_frame(vec![button(1, "A")]).validate().is_ok());
    // A single button is acceptable whatever its id.
    assert!(valid_frame(vec![button(2, "A")]).validate().is_ok());
}

#[test]
fn a_gap_in_button_ids_yields_exactly_one_sequence_error() {
    let frame = valid_frame(vec![button(1, "A"), button(3, "C")]);
    let errors = frame.validate().err().unwrap();
    assert_eq!(errors.errors.len(), 1);
    assert_eq!(errors.errors[0].code, ErrorCode::InvalidButtonSequence);
    assert_eq!(errors.errors[0].key, Some("fc:frame:buttons".to_string()));
}

#[test]
fn duplicate_button_ids_fail_the_sequence_check() {
    let frame = valid_frame(vec![button(1, "A"), button(1, "B")]);
    let errors = frame.validate().err().unwrap();
    assert_eq!(errors.errors.len(), 1);
    assert_eq!(errors.errors[0].code, ErrorCode::InvalidButtonSequence);
}

#[test]
fn unknown_aspect_ratio_is_invalid_and_fails_validation() {
    let html = r#"
        <title>Example</title>
        <meta name="fc:frame" content="vNext" />
        <meta name="fc:frame:image" content="http://example.com/image.png" />
        <meta name="fc:frame:image:aspect_ratio" content="4:3" />
    "#;
    let mut frame = Frame::new();
    let errors = frame.from_html(html).err().unwrap();
    assert_eq!(frame.image.aspect_ratio, AspectRatio::Invalid);
    assert_eq!(errors.errors.len(), 1);
    assert_eq!(errors.errors[0].code, ErrorCode::InvalidAspectRatio);
    assert_eq!(errors.errors[0].key, Some("fc:frame:image:aspect_ratio".to_string()));
}

#[test]
fn a_delete_action_yields_exactly_one_action_error() {
    let html = r#"
        <title>Example</title>
        <meta name="fc:frame" content="vNext" />
        <meta name="fc:frame:image" content="http://example.com/image.png" />
        <meta name="fc:frame:button:1" content="Go" />
        <meta name="fc:frame:button:1:action" content="delete" />
    "#;
    let mut frame = Frame::new();
    let errors = frame.from_html(html).err().unwrap();
    assert_eq!(errors.errors.len(), 1);
    assert_eq!(errors.errors[0].code, ErrorCode::InvalidButtonAction);
    assert_eq!(errors.errors[0].key, Some("fc:frame:button:1:action".to_string()));
}

#[test]
fn a_missing_title_yields_exactly_one_error() {
    let html = r#"
        <meta name="fc:frame" content="vNext" />
        <meta name="fc:frame:image" content="http://example.com/image.png" />
        <meta name="fc:frame:button:1" content="Go" />
    "#;
    let mut frame = Frame::new();
    let errors = frame.from_html(html).err().unwrap();
    assert_eq!(errors.errors.len(), 1);
    assert_eq!(errors.errors[0].code, ErrorCode::MissingTitle);
    assert_eq!(errors.errors[0].key, None);
}

#[test]
fn the_last_occurrence_of_a_repeated_tag_wins() {
    let html = r#"
        <title>Example</title>
        <meta name="fc:frame" content="vOld" />
        <meta name="fc:frame" content="vNext" />
        <meta name="fc:frame:image" content="http://example.com/image.png" />
    "#;
    let mut frame = Frame::new();
    frame.from_html(html).unwrap();
    assert_eq!(frame.version, "vNext");
}

#[test]
fn malformed_button_tags_are_silently_dropped() {
    let html = r#"
        <title>Example</title>
        <meta name="fc:frame" content="vNext" />
        <meta name="fc:frame:image" content="http://example.com/image.png" />
        <meta name="fc:frame:button:x" content="NotANumber" />
        <meta name="fc:frame:button:" content="Empty" />
        <meta name="fc:frame:button:99999999999999999999999999" content="TooBig" />
        <meta name="fc:frame:button:1:target" content="https://example.com/t" />
        <meta name="fc:frame:something:else" content="Ignored" />
    "#;
    let mut frame = Frame::new();
    frame.from_html(html).unwrap();
    assert!(frame.buttons.is_empty());
}

#[test]
fn a_multi_digit_button_id_is_parsed_and_rendered() {
    let html = r#"
        <title>Example</title>
        <meta name="fc:frame" content="vNext" />
        <meta name="fc:frame:image" content="http://example.com/image.png" />
        <meta name="fc:frame:button:10" content="Ten" />
    "#;
    let mut frame = Frame::new();
    frame.from_html(html).unwrap();
    assert_eq!(frame.buttons.len(), 1);
    assert_eq!(frame.buttons[0].id, 10);
    assert!(frame.to_html().contains(r#"<meta name="fc:frame:button:10" content="Ten" />"#));
}

#[test]
fn the_largest_machine_id_still_parses() {
    let html = format!(
        r#"
        <title>Example</title>
        <meta name="fc:frame" content="vNext" />
        <meta name="fc:frame:image" content="http://example.com/image.png" />
        <meta name="fc:frame:button:{}" content="Edge" />
    "#,
        usize::MAX
    );
    let mut frame = Frame::new();
    frame.from_html(&html).unwrap();
    assert_eq!(frame.buttons.len(), 1);
    assert_eq!(frame.buttons[0].id, usize::MAX);
}

#[test]
fn buttons_come_out_in_ascending_id_order() {
    let html = r#"
        <title>Example</title>
        <meta name="fc:frame" content="vNext" />
        <meta name="fc:frame:image" content="http://example.com/image.png" />
        <meta name="fc:frame:button:3" content="C" />
        <meta name="fc:frame:button:1" content="A" />
        <meta name="fc:frame:button:2" content="B" />
    "#;
    let mut frame = Frame::new();
    frame.from_html(html).unwrap();
    let ids: Vec<usize> = frame.buttons.iter().map(|b| b.id).collect();
    assert_eq!(ids, vec![1, 2, 3]);
}

#[test]
fn image_url_shapes_are_judged_exactly() {
    let accepted = [
        "http://example.com",
        "https://example.com",
        "http://www.example.com/path",
        "https://example.com/path?q=1#frag",
        "http://a-b_c.de",
        "http://a.bc",
    ];
    let rejected = [
        "htt://example.com",
        "ftp://example.com",
        "http://example",
        "http://.com",
        "http://example.com/pa th",
        "http://exa mple.com",
        "http://example.c",
        "",
        "example.com",
    ];
    for url in accepted {
        let image = FrameImage { url: url.to_string(), aspect_ratio: AspectRatio::Unspecified };
        assert!(image.validate().is_ok(), "should accept {url}");
    }
    for url in rejected {
        let image = FrameImage { url: url.to_string(), aspect_ratio: AspectRatio::Invalid };
        let errors = image.validate().err().unwrap();
        assert_eq!(errors.errors.len(), 2, "should reject {url}");
        assert_eq!(errors.errors[0].code, ErrorCode::InvalidURL);
        assert_eq!(errors.errors[1].code, ErrorCode::InvalidAspectRatio);
    }
}

#[test]
fn fetch_failures_map_to_their_error_codes() {
    let mut frame = Frame::new();
    let errors = frame.from_fetched(Err(FetchFailure::Transport)).err().unwrap();
    assert_eq!(errors.errors.len(), 1);
    assert_eq!(errors.errors[0].code, ErrorCode::FailedToFetchFrameHTML);

    let errors = frame.from_fetched(Err(FetchFailure::Read)).err().unwrap();
    assert_eq!(errors.errors.len(), 1);
    assert_eq!(errors.errors[0].code, ErrorCode::FailedToReadResponse);
}

#[test]
fn a_fetched_body_goes_through_extraction() {
    let html = r#"
        <title>Example</title>
        <meta name="fc:frame" content="vNext" />
        <meta name="fc:frame:image" content="http://example.com/image.png" />
    "#;
    let mut frame = Frame::new();
    frame.from_fetched(Ok(html.to_string())).unwrap();
    assert_eq!(frame.title, "Example");
    assert_eq!(frame.version, "vNext");
}

#[test]
fn apply_parts_drives_the_pipeline_without_a_document() {
    let metas = vec![
        ("fc:frame".to_string(), "vNext".to_string()),
        ("fc:frame:image".to_string(), "http://example.com/image.png".to_string()),
        ("fc:frame:button:1".to_string(), "Go".to_string()),
    ];
    let mut frame = Frame::new();
    frame.apply_parts(Some("Example".to_string()), &metas).unwrap();
    assert_eq!(frame.title, "Example");
    assert_eq!(frame.buttons.len(), 1);
    assert_eq!(frame.buttons[0].label, "Go");
    assert_eq!(frame.buttons[0].action, Some(ButtonAction::Post));
}

#[test]
fn an_action_tag_before_its_label_leaves_a_placeholder_label() {
    // The placeholder label is the action tag's own value until the label
    // tag arrives.
    let metas = vec![
        ("fc:frame".to_string(), "vNext".to_string()),
        ("fc:frame:image".to_string(), "http://example.com/image.png".to_string()),
        ("fc:frame:button:1:action".to_string(), "mint".to_string()),
    ];
    let mut frame = Frame::new();
    frame.apply_parts(Some("Example".to_string()), &metas).unwrap();
    assert_eq!(frame.buttons.len(), 1);
    assert_eq!(frame.buttons[0].label, "mint");
    assert_eq!(frame.buttons[0].action, Some(ButtonAction::Mint));
}

#[test]
fn error_lists_accumulate_in_order() {
    let mut errors = FrameErrors::new();
    assert!(errors.is_empty());
    errors.add_error(Error {
        description: "one".to_string(),
        code: ErrorCode::InvalidURL,
        key: None,
    });
    errors.add_errors(vec![
        Error { description: "two".to_string(), code: ErrorCode::MissingTitle, key: None },
        Error {
            description: "three".to_string(),
            code: ErrorCode::InvalidButtonSequence,
            key: None,
        },
    ]);
    assert!(!errors.is_empty());
    let descriptions: Vec<&str> =
        errors.errors.iter().map(|e| e.description.as_str()).collect();
    assert_eq!(descriptions, vec!["one", "two", "three"]);
}

#[test]
fn error_text_lists_every_problem_line_by_line() {
    let mut errors = FrameErrors::new();
    errors.add_error(Error {
        description: "The URL provided is invalid.".to_string(),
        code: ErrorCode::InvalidURL,
        key: Some("fc:frame:image".to_string()),
    });
    errors.add_error(Error {
        description: "oops".to_string(),
        code: ErrorCode::MissingTitle,
        key: None,
    });
    let expected = "The URL provided is invalid. - The URL provided is invalid. - fc:frame:image\n\
        Please ensure a <title> tag is present within the HTML metadata for proper frame functionality. - oops - \n";
    assert_eq!(errors.to_text(), expected);
}

#[test]
fn a_new_frame_is_empty() {
    let frame = Frame::new();
    assert_eq!(frame.title, "");
    assert_eq!(frame.version, "");
    assert_eq!(frame.image.url, "");
    assert_eq!(frame.image.aspect_ratio, AspectRatio::Unspecified);
    assert_eq!(frame.post_url, None);
    assert_eq!(frame.input_text, None);
    assert!(frame.buttons.is_empty());
}

#[test]
fn validation_accumulates_every_problem_at_once() {
    let frame = Frame {
        title: "Example".to_string(),
        version: "vNext".to_string(),
        image: FrameImage {
            url: "not a url".to_string(),
            aspect_ratio: AspectRatio::Invalid,
        },
        post_url: None,
        buttons: vec![
            FrameButton {
                id: 1,
                label: "A".to_string(),
                action: Some(ButtonAction::Invalid),
                target: None,
            },
            FrameButton {
                id: 3,
                label: "C".to_string(),
                action: Some(ButtonAction::Post),
                target: None,
            },
        ],
        input_text: None,
    };
    let errors = frame.validate().err().unwrap();
    let codes: Vec<&ErrorCode> = errors.errors.iter().map(|e| &e.code).collect();
    assert_eq!(
        codes,
        vec![
            &ErrorCode::InvalidURL,
            &ErrorCode::InvalidAspectRatio,
            &ErrorCode::InvalidButtonAction,
            &ErrorCode::InvalidButtonSequence,
        ]
    );
}
