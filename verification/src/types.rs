//! The data model: frames, their parts, and the accumulated error lists.

pub mod button;
pub mod errors;
pub mod external;
pub mod frame;
pub mod image;
