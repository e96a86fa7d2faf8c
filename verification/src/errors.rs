//! The two closed sets of validation-failure reasons, one per entity.

use vstd::prelude::*;

verus! {

/// Why `ProjectBuilder::bulid` could not produce a `Project`.
#[derive(Debug, PartialEq, Eq, Structural, Clone, Copy)]
pub enum ProjectBuilderError {
    Title,
    Description,
    Tags,
    Links,
}

/// Why `LinkBuilder::bulid` could not produce a `Link`.
#[derive(Debug, PartialEq, Eq, Structural, Clone, Copy)]
pub enum LinkBuilderError {
    Name,
    Url,
}

impl ProjectBuilderError {
    /// The user-facing message for this failure reason.
    pub fn message(&self) -> (r: &'static str)
        ensures
            r@ == match *self {
                ProjectBuilderError::Title => "Missing Title"@,
                ProjectBuilderError::Description => "Missing Description"@,
                ProjectBuilderError::Tags => "Missing at least one Tag"@,
                ProjectBuilderError::Links => "Missing at least one Link"@,
            },
    {
        match *self {
            ProjectBuilderError::Title => "Missing Title",
            ProjectBuilderError::Description => "Missing Description",
            ProjectBuilderError::Tags => "Missing at least one Tag",
            ProjectBuilderError::Links => "Missing at least one Link",
        }
    }
}

impl LinkBuilderError {
    /// The user-facing message for this failure reason.
    pub fn message(&self) -> (r: &'static str)
        ensures
            r@ == match *self {
                LinkBuilderError::Name => "Missing Link name"@,
                LinkBuilderError::Url => "Missing URL"@,
            },
    {
        match *self {
            LinkBuilderError::Name => "Missing Link name",
            LinkBuilderError::Url => "Missing URL",
        }
    }
}

} // verus!
