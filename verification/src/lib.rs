//! The rules of a photo blog's two chores: drafting dated posts for a batch
//! of numbered images, and placing a watermark on them.
//!
//! Posts go out on Mondays, Wednesdays and Fridays at seven in the morning
//! ([`schedule`]). Each post is made from an image's file name ([`files`]),
//! from the keywords of its description ([`tags`]) and from a template
//! ([`post`]). Reading directories, asking for descriptions and writing
//! files is left to the caller.

pub mod error;
pub mod files;
pub mod post;
pub mod schedule;
pub mod tags;
pub mod text;
pub mod watermark;
