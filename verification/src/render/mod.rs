//! Rendering of the markup dialect into its two output forms: an HTML
//! string, and a structured content tree for downstream typesetting.

pub mod events;
pub mod html;
pub mod markdown;
