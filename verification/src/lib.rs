//! Extraction, validation and re-serialization of Frames: small embeddable
//! cards described by a vocabulary of HTML `<meta>` tags (a title, an image,
//! optional input text, up to four buttons and a submission URL).
//!
//! The pipeline has three verified stages: the extractor walks the `<meta>`
//! tags of a document and assembles a draft frame, the validator applies the
//! per-field protocol rules and accumulates every violation, and the
//! serializer maps a valid frame back to the canonical tag sequence.

pub mod extract;
pub mod laws;
pub mod serializers;
pub mod text;
pub mod types;
pub mod validators;
