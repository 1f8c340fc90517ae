//! The logic of a chat bot that answers search commands with images from a
//! tagged-image board: reading a command into tags and a quantity, building
//! the authenticated search request, and deciding, step by step, how the
//! results reach the channel (attachments, a fallback link, or a notice).

pub mod delivery;
pub mod dispatch;
pub mod query;
pub mod search;
pub mod text;
