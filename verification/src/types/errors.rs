//! Accumulated error lists. Errors are data: every fallible stage of the
//! pipeline returns either a success value or a list of every problem found.

use vstd::prelude::*;

verus! {

/// The closed set of failure kinds the pipeline can report.
#[derive(Debug, Clone, Copy, PartialEq, Eq, Structural)]
pub enum ErrorCode {
    InvalidURL,
    InvalidButtonAction,
    FailedToReadResponse,
    FailedToFetchFrameHTML,
    MissingTitle,
    InvalidButtonSequence,
    InvalidAspectRatio,
}

/// Why a fetched document never reached extraction: the transport failed,
/// or the response body could not be read as text.
#[derive(Debug, Clone, Copy, PartialEq, Eq, Structural)]
pub enum FetchFailure {
    Transport,
    Read,
}

/// One reported problem: a human-readable description, its kind, and the
/// offending tag name when one can be named.
#[derive(Debug, PartialEq)]
pub struct Error {
    pub description: String,
    pub code: ErrorCode,
    pub key: Option<String>,
}

/// The mathematical value of an [`Error`].
pub struct ErrorView {
    pub description: Seq<char>,
    pub code: ErrorCode,
    pub key: Option<Seq<char>>,
}

impl View for Error {
    type V = ErrorView;

    open spec fn view(&self) -> ErrorView {
        ErrorView { description: self.description@, code: self.code, key: self.key.deep_view() }
    }
}

impl DeepView for Error {
    type V = ErrorView;

    open spec fn deep_view(&self) -> ErrorView {
        self.view()
    }
}

/// An ordered accumulation of [`Error`]s.
#[derive(Debug, PartialEq)]
pub struct FrameErrors {
    pub errors: Vec<Error>,
}

impl View for FrameErrors {
    type V = Seq<ErrorView>;

    open spec fn view(&self) -> Seq<ErrorView> {
        self.errors.deep_view()
    }
}

impl FrameErrors {
    /// An empty error list.
    pub fn new() -> (r: FrameErrors)
        ensures
            r@ == Seq::<ErrorView>::empty(),
    {
        let r = FrameErrors { errors: Vec::new() };
        proof {
            assert(r@ =~= Seq::<ErrorView>::empty());
        }
        r
    }

    /// Appends one error.
    pub fn add_error(&mut self, error: Error)
        ensures
            final(self)@ == old(self)@.push(error@),
    {
        let ghost e = error@;
        self.errors.push(error);
        proof {
            assert(self@ =~= old(self)@.push(e));
        }
    }

    /// Appends every error of `errors`, in order.
    pub fn add_errors(&mut self, errors: Vec<Error>)
        ensures
            final(self)@ == old(self)@ + errors.deep_view(),
    {
        let ghost tail = errors.deep_view();
        let mut rest = errors;
        self.errors.append(&mut rest);
        proof {
            assert(self@ =~= old(self)@ + tail);
        }
    }

    /// True when nothing has been reported.
    pub fn is_empty(&self) -> (r: bool)
        ensures
            r == (self@.len() == 0),
    {
        self.errors.is_empty()
    }
}

impl Default for FrameErrors {
    fn default() -> (r: FrameErrors)
        ensures
            r@ == Seq::<ErrorView>::empty(),
    {
        FrameErrors::new()
    }
}

/// The fixed message text for each failure kind.
pub open spec fn spec_message(code: ErrorCode) -> Seq<char> {
    match code {
        ErrorCode::InvalidURL => "The URL provided is invalid."@,
        ErrorCode::InvalidButtonAction => "Invalid button action specified"@,
        ErrorCode::FailedToReadResponse => "Failed to read the response text from the URL provided. This may occur due to network issues, server errors, or the response being in an unexpected format."@,
        ErrorCode::FailedToFetchFrameHTML => "Failed to fetch frame HTML."@,
        ErrorCode::MissingTitle => "Please ensure a <title> tag is present within the HTML metadata for proper frame functionality."@,
        ErrorCode::InvalidButtonSequence => "Button indices are not in a consecutive sequence starting from 1."@,
        ErrorCode::InvalidAspectRatio => "Invalid Aspect Ratio. (Must be either 1.91:1 or 1:1)"@,
    }
}

impl ErrorCode {
    /// The fixed message text for this failure kind.
    pub fn message(&self) -> (r: &'static str)
        ensures
            r@ == spec_message(*self),
    {
        match self {
            ErrorCode::InvalidURL => "The URL provided is invalid.",
            ErrorCode::InvalidButtonAction => "Invalid button action specified",
            ErrorCode::FailedToReadResponse => "Failed to read the response text from the URL provided. This may occur due to network issues, server errors, or the response being in an unexpected format.",
            ErrorCode::FailedToFetchFrameHTML => "Failed to fetch frame HTML.",
            ErrorCode::MissingTitle => "Please ensure a <title> tag is present within the HTML metadata for proper frame functionality.",
            ErrorCode::InvalidButtonSequence => "Button indices are not in a consecutive sequence starting from 1.",
            ErrorCode::InvalidAspectRatio => "Invalid Aspect Ratio. (Must be either 1.91:1 or 1:1)",
        }
    }
}

/// One reported line: the message for the code, the description and the key
/// (empty when absent), dash-separated.
pub open spec fn spec_error_line(e: ErrorView) -> Seq<char> {
    spec_message(e.code) + " - "@ + e.description + " - "@ + (match e.key {
        Some(k) => k,
        None => Seq::<char>::empty(),
    }) + "\n"@
}

/// The reported lines of an error list, in order.
pub open spec fn spec_errors_text(s: Seq<ErrorView>) -> Seq<char>
    decreases s.len(),
{
    if s.len() == 0 {
        Seq::<char>::empty()
    } else {
        spec_errors_text(s.drop_last()) + spec_error_line(s.last())
    }
}

impl FrameErrors {
    /// Every reported problem as text, one line each, in order.
    pub fn to_text(&self) -> (r: String)
        ensures
            r@ == spec_errors_text(self@),
    {
        let mut text = String::new();
        let mut i: usize = 0;
        while i < self.errors.len()
            invariant
                0 <= i <= self.errors.len(),
                text@ =~= spec_errors_text(self@.take(i as int)),
            decreases self.errors.len() - i,
        {
            let e = &self.errors[i];
            text.append(e.code.message());
            text.append(" - ");
            text.append(e.description.as_str());
            text.append(" - ");
            match &e.key {
                Some(k) => text.append(k.as_str()),
                None => (),
            }
            text.append("\n");
            proof {
                assert(self@.take(i + 1).drop_last() =~= self@.take(i as int));
                assert(self@.take(i + 1).last() == self@[i as int]);
                assert(text@ =~= spec_errors_text(self@.take(i + 1)));
            }
            i = i + 1;
        }
        proof {
            assert(self@.take(self.errors.len() as int) =~= self@);
        }
        text
    }
}

/// The error for an image URL that does not match the accepted shape.
pub open spec fn invalid_url_error() -> ErrorView {
    ErrorView {
        description: "The URL provided is invalid."@,
        code: ErrorCode::InvalidURL,
        key: Some("fc:frame:image"@),
    }
}

/// The error for an aspect-ratio tag with an unrecognized value.
pub open spec fn invalid_aspect_error() -> ErrorView {
    ErrorView {
        description: "Invalid image aspect ratio."@,
        code: ErrorCode::InvalidAspectRatio,
        key: Some("fc:frame:image:aspect_ratio"@),
    }
}

/// The error for a button whose action tag names no known action.
pub open spec fn invalid_action_error(id: int) -> ErrorView {
    ErrorView {
        description: "Invalid button action specified"@,
        code: ErrorCode::InvalidButtonAction,
        key: Some("fc:frame:button:"@ + crate::text::dec_str(id as nat) + ":action"@),
    }
}

/// The error for button ids that do not form a run starting at 1.
pub open spec fn sequence_error() -> ErrorView {
    ErrorView {
        description: "Button indices are not in a consecutive sequence starting from 1."@,
        code: ErrorCode::InvalidButtonSequence,
        key: Some("fc:frame:buttons"@),
    }
}

/// The error for a document without a `<title>` element.
pub open spec fn missing_title_error() -> ErrorView {
    ErrorView {
        description: "Please ensure a <title> tag is present within the HTML metadata for proper frame functionality."@,
        code: ErrorCode::MissingTitle,
        key: None,
    }
}

/// The error for a transport failure while fetching a document.
pub open spec fn fetch_failed_error() -> ErrorView {
    ErrorView {
        description: "Failed to fetch frame HTML."@,
        code: ErrorCode::FailedToFetchFrameHTML,
        key: None,
    }
}

/// The error for a response whose body could not be read as text.
pub open spec fn read_failed_error() -> ErrorView {
    ErrorView {
        description: "Failed to read the response text from the URL provided. This may occur due to network issues, server errors, or the response being in an unexpected format."@,
        code: ErrorCode::FailedToReadResponse,
        key: None,
    }
}

impl Error {
    /// Builds the [`invalid_url_error`] value.
    pub fn invalid_url() -> (e: Error)
        ensures
            e@ == invalid_url_error(),
    {
        Error {
            description: "The URL provided is invalid.".to_owned(),
            code: ErrorCode::InvalidURL,
            key: Some("fc:frame:image".to_owned()),
        }
    }

    /// Builds the [`invalid_aspect_error`] value.
    pub fn invalid_aspect() -> (e: Error)
        ensures
            e@ == invalid_aspect_error(),
    {
        Error {
            description: "Invalid image aspect ratio.".to_owned(),
            code: ErrorCode::InvalidAspectRatio,
            key: Some("fc:frame:image:aspect_ratio".to_owned()),
        }
    }

    /// Builds the [`invalid_action_error`] value for button `id`.
    pub fn invalid_button_action(id: usize) -> (e: Error)
        ensures
            e@ == invalid_action_error(id as int),
    {
        let mut key: String = "fc:frame:button:".to_owned();
        crate::text::push_dec(&mut key, id);
        key.append(":action");
        proof {
            assert(key@ =~= "fc:frame:button:"@ + crate::text::dec_str(id as nat) + ":action"@);
        }
        Error {
            description: "Invalid button action specified".to_owned(),
            code: ErrorCode::InvalidButtonAction,
            key: Some(key),
        }
    }

    /// Builds the [`sequence_error`] value.
    pub fn invalid_sequence() -> (e: Error)
        ensures
            e@ == sequence_error(),
    {
        Error {
            description: "Button indices are not in a consecutive sequence starting from 1."
                .to_owned(),
            code: ErrorCode::InvalidButtonSequence,
            key: Some("fc:frame:buttons".to_owned()),
        }
    }

    /// Builds the [`missing_title_error`] value.
    pub fn missing_title() -> (e: Error)
        ensures
            e@ == missing_title_error(),
    {
        Error {
            description:
                "Please ensure a <title> tag is present within the HTML metadata for proper frame functionality.".to_owned(),
            code: ErrorCode::MissingTitle,
            key: None,
        }
    }

    /// Builds the [`fetch_failed_error`] value.
    pub fn fetch_failed() -> (e: Error)
        ensures
            e@ == fetch_failed_error(),
    {
        Error {
            description: "Failed to fetch frame HTML.".to_owned(),
            code: ErrorCode::FailedToFetchFrameHTML,
            key: None,
        }
    }

    /// Builds the [`read_failed_error`] value.
    pub fn read_failed() -> (e: Error)
        ensures
            e@ == read_failed_error(),
    {
        Error {
            description:
                "Failed to read the response text from the URL provided. This may occur due to network issues, server errors, or the response being in an unexpected format.".to_owned(),
            code: ErrorCode::FailedToReadResponse,
            key: None,
        }
    }
}

} // verus!
