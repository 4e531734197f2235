//! The validator: per-field protocol rules, applied to a draft frame, with
//! every violation accumulated rather than reported one at a time.

pub mod button;
pub mod frame;
pub mod image;
pub mod url;
