//! Portfolio records: projects and named links, constructed through
//! validating builders and editable by converting a value back into its
//! builder.

use vstd::prelude::*;

pub mod builders;
pub mod codec;
pub mod errors;
pub mod rows;
pub mod urls;

pub use crate::urls::Url;

verus! {

/// A named URL, immutable once built.
#[derive(Debug)]
pub struct Link {
    pub name: String,
    pub link: Url,
}

/// Mathematical model of a `Link`.
#[verifier::ext_equal]
pub ghost struct LinkView {
    pub name: Seq<char>,
    pub url: Seq<char>,
}

impl View for Link {
    type V = LinkView;

    open spec fn view(&self) -> LinkView {
        LinkView { name: self.name@, url: self.link@ }
    }
}

impl DeepView for Link {
    type V = LinkView;

    open spec fn deep_view(&self) -> LinkView {
        self@
    }
}

/// A portfolio entry, immutable once built.
#[derive(Debug)]
pub struct Project {
    pub title: String,
    pub description: String,
    pub cover: Option<Url>,
    pub tags: Vec<String>,
    pub links: Vec<Link>,
}

/// Mathematical model of a `Project`.
#[verifier::ext_equal]
pub ghost struct ProjectView {
    pub title: Seq<char>,
    pub description: Seq<char>,
    pub cover: Option<Seq<char>>,
    pub tags: Seq<Seq<char>>,
    pub links: Seq<LinkView>,
}

impl View for Project {
    type V = ProjectView;

    open spec fn view(&self) -> ProjectView {
        ProjectView {
            title: self.title@,
            description: self.description@,
            cover: match self.cover {
                Some(u) => Some(u@),
                None => None,
            },
            tags: self.tags.deep_view(),
            links: self.links.deep_view(),
        }
    }
}

impl DeepView for Project {
    type V = ProjectView;

    open spec fn deep_view(&self) -> ProjectView {
        self@
    }
}

/// The collection of all portfolio entries.
#[derive(Debug)]
pub struct Projects {
    pub projects: Vec<Project>,
}

impl View for Projects {
    type V = Seq<ProjectView>;

    open spec fn view(&self) -> Seq<ProjectView> {
        self.projects.deep_view()
    }
}

impl Clone for Project {
    fn clone(&self) -> (r: Self)
        ensures
            r@ == self@,
    {
        let r = Project {
            title: self.title.clone(),
            description: self.description.clone(),
            cover: match &self.cover {
                Some(u) => Some(u.clone()),
                None => None,
            },
            tags: self.tags.clone(),
            links: self.links.clone(),
        };
        proof {
            assert(r@.tags =~= self@.tags);
            assert(r@.links =~= self@.links);
            assert(r@ =~= self@);
        }
        r
    }
}

impl Clone for Link {
    fn clone(&self) -> (r: Self)
        ensures
            r == *self,
    {
        Link { name: self.name.clone(), link: self.link.clone() }
    }
}

impl PartialEq for Link {
    fn eq(&self, other: &Self) -> (r: bool)
    {
        self.name == other.name && self.link == other.link
    }
}

impl vstd::std_specs::cmp::PartialEqSpecImpl for Link {
    open spec fn obeys_eq_spec() -> bool {
        true
    }

    open spec fn eq_spec(&self, other: &Self) -> bool {
        self@ == other@
    }
}

/// Body of the root route: a fixed greeting.
pub fn index() -> (r: &'static str)
    ensures
        r@ == "Hello, world!"@,
{
    "Hello, world!"
}

} // verus!
