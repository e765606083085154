//! What can go wrong while posts are generated.

use vstd::prelude::*;

verus! {

/// Why a run of post generation stopped.
#[derive(Clone, Copy, Debug, PartialEq, Eq, Structural)]
pub enum PostError {
    /// The start date is not a Monday, a Wednesday or a Friday.
    InvalidStartDate,
    /// The stem of an image's file name is not an integer.
    InvalidFileName,
    /// The template engine refused the template or failed to render it.
    Template,
}

impl PostError {
    /// What [`PostError::message`] says.
    pub open spec fn message_text(self) -> Seq<char> {
        match self {
            PostError::InvalidStartDate => "Date must be a Monday, Wednesday, or Friday"@,
            PostError::InvalidFileName => "File name must be an integer"@,
            PostError::Template => "Post template could not be rendered"@,
        }
    }

    /// The text shown to the user for this error.
    pub fn message(&self) -> (text: String)
        ensures
            text@ == self.message_text(),
    {
        match self {
            PostError::InvalidStartDate => "Date must be a Monday, Wednesday, or Friday".to_owned(),
            PostError::InvalidFileName => "File name must be an integer".to_owned(),
            PostError::Template => "Post template could not be rendered".to_owned(),
        }
    }
}

} // verus!
