//! The operations of the comment and reaction service.

pub mod add_comment;
pub mod add_reaction;
pub mod remove_reaction;
