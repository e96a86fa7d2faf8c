//! The two builders and the edit conversion back from a finished value.

use vstd::prelude::*;

use crate::errors::{LinkBuilderError, ProjectBuilderError};
use crate::urls::Url;
use crate::{Link, LinkView, Project, ProjectView};

verus! {

/// Mutable accumulator for a `Project`.
#[derive(Debug)]
pub struct ProjectBuilder {
    title: Option<String>,
    description: Option<String>,
    cover: Option<Url>,
    tags: Vec<String>,
    links: Vec<Link>,
}

/// Mathematical model of a `ProjectBuilder`.
#[verifier::ext_equal]
pub ghost struct ProjectBuilderView {
    pub title: Option<Seq<char>>,
    pub description: Option<Seq<char>>,
    pub cover: Option<Seq<char>>,
    pub tags: Seq<Seq<char>>,
    pub links: Seq<LinkView>,
}

impl View for ProjectBuilder {
    type V = ProjectBuilderView;

    closed spec fn view(&self) -> ProjectBuilderView {
        ProjectBuilderView {
            title: match self.title {
                Some(t) => Some(t@),
                None => None,
            },
            description: match self.description {
                Some(d) => Some(d@),
                None => None,
            },
            cover: match self.cover {
                Some(u) => Some(u@),
                None => None,
            },
            tags: self.tags.deep_view(),
            links: self.links.deep_view(),
        }
    }
}

/// What `ProjectBuilder::bulid` returns for a builder in the given state:
/// the first missing-field reason in the fixed order title, description,
/// tags, links, or the finished project. The cover is always optional and
/// is carried through as it stands.
pub open spec fn project_build_spec(b: ProjectBuilderView) -> Result<
    ProjectView,
    ProjectBuilderError,
> {
    if b.title is None {
        Err(ProjectBuilderError::Title)
    } else if b.description is None {
        Err(ProjectBuilderError::Description)
    } else if b.tags.len() == 0 {
        Err(ProjectBuilderError::Tags)
    } else if b.links.len() == 0 {
        Err(ProjectBuilderError::Links)
    } else {
        Ok(
            ProjectView {
                title: b.title->Some_0,
                description: b.description->Some_0,
                cover: b.cover,
                tags: b.tags,
                links: b.links,
            },
        )
    }
}

/// The tags left after removing every tag equal to `tag`, order kept.
pub open spec fn keep_tags(tags: Seq<Seq<char>>, tag: Seq<char>) -> Seq<Seq<char>> {
    tags.filter(|t: Seq<char>| t != tag)
}

/// The links left after removing every link whose name is `name`, order kept.
pub open spec fn keep_links(links: Seq<LinkView>, name: Seq<char>) -> Seq<LinkView> {
    links.filter(|l: LinkView| l.name != name)
}

proof fn lemma_keep_tags_push(tags: Seq<Seq<char>>, x: Seq<char>, tag: Seq<char>)
    ensures
        keep_tags(tags.push(x), tag) == if x != tag {
            keep_tags(tags, tag).push(x)
        } else {
            keep_tags(tags, tag)
        },
{
    reveal(Seq::filter);
    assert(tags.push(x).drop_last() =~= tags);
}

proof fn lemma_keep_links_push(links: Seq<LinkView>, x: LinkView, name: Seq<char>)
    ensures
        keep_links(links.push(x), name) == if x.name != name {
            keep_links(links, name).push(x)
        } else {
            keep_links(links, name)
        },
{
    reveal(Seq::filter);
    assert(links.push(x).drop_last() =~= links);
}

impl ProjectBuilder {
    /// An empty builder: nothing set, no tags, no links.
    pub fn new() -> (r: Self)
        ensures
            r@ == (ProjectBuilderView {
                title: None,
                description: None,
                cover: None,
                tags: Seq::empty(),
                links: Seq::empty(),
            }),
    {
        let r = ProjectBuilder {
            title: None,
            description: None,
            cover: None,
            tags: Vec::new(),
            links: Vec::new(),
        };
        proof {
            assert(r@.tags =~= Seq::<Seq<char>>::empty());
            assert(r@.links =~= Seq::<LinkView>::empty());
        }
        r
    }

    /// Overwrites the title; never validates eagerly.
    pub fn title(&mut self, title: &str) -> (r: &mut Self)
        ensures
            r@ == (ProjectBuilderView { title: Some(title@), ..old(self)@ }),
            *final(self) == *final(r),
    {
        self.title = Some(title.to_owned());
        self
    }

    /// Overwrites the description; never validates eagerly.
    pub fn description(&mut self, description: &str) -> (r: &mut Self)
        ensures
            r@ == (ProjectBuilderView { description: Some(description@), ..old(self)@ }),
            *final(self) == *final(r),
    {
        self.description = Some(description.to_owned());
        self
    }

    /// Overwrites the cover with an already-valid URL; never validates
    /// eagerly.
    pub fn cover(&mut self, cover: Url) -> (r: &mut Self)
        ensures
            r@ == (ProjectBuilderView { cover: Some(cover@), ..old(self)@ }),
            *final(self) == *final(r),
    {
        self.cover = Some(cover);
        self
    }

    /// Appends a tag; duplicates are accepted as they come.
    pub fn add_tag(&mut self, tag: &str) -> (r: &mut Self)
        ensures
            r@ == (ProjectBuilderView { tags: old(self)@.tags.push(tag@), ..old(self)@ }),
            *final(self) == *final(r),
    {
        self.tags.push(tag.to_owned());
        proof {
            assert(self@.tags =~= old(self)@.tags.push(tag@));
        }
        self
    }

    /// Appends a fully built link.
    pub fn add_link(&mut self, link: Link) -> (r: &mut Self)
        ensures
            r@ == (ProjectBuilderView { links: old(self)@.links.push(link@), ..old(self)@ }),
            *final(self) == *final(r),
    {
        self.links.push(link);
        proof {
            assert(self@.links =~= old(self)@.links.push(link@));
        }
        self
    }

    /// Removes every tag exactly equal to the given text; a no-op when none
    /// matches.
    pub fn remove_tag(&mut self, tag_name: &str) -> (r: &mut Self)
        ensures
            r@ == (ProjectBuilderView {
                tags: keep_tags(old(self)@.tags, tag_name@),
                ..old(self)@
            }),
            *final(self) == *final(r),
    {
        let ghost vtags: Seq<Seq<char>> = self.tags.deep_view();
        let wanted: String = tag_name.to_owned();
        let mut kept: Vec<String> = Vec::new();
        proof {
            assert(kept.deep_view() =~= keep_tags(vtags.take(0), tag_name@)) by {
                reveal(Seq::filter);
            }
        }
        let mut i: usize = 0;
        while i < self.tags.len()
            invariant
                i <= self.tags@.len(),
                wanted@ == tag_name@,
                vtags == self.tags.deep_view(),
                kept.deep_view() == keep_tags(vtags.take(i as int), tag_name@),
            decreases self.tags@.len() - i,
        {
            proof {
                lemma_keep_tags_push(vtags.take(i as int), vtags[i as int], tag_name@);
                assert(vtags.take(i + 1) =~= vtags.take(i as int).push(vtags[i as int]));
            }
            if !(self.tags[i] == wanted) {
                let t = self.tags[i].clone();
                kept.push(t);
                proof {
                    assert(kept.deep_view() =~= keep_tags(vtags.take(i + 1), tag_name@));
                }
            }
            i += 1;
        }
        proof {
            assert(vtags.take(vtags.len() as int) =~= vtags);
        }
        self.tags = kept;
        self
    }

    /// Removes every link whose name equals the given text; a no-op when
    /// none matches.
    pub fn remove_link(&mut self, link_name: &str) -> (r: &mut Self)
        ensures
            r@ == (ProjectBuilderView {
                links: keep_links(old(self)@.links, link_name@),
                ..old(self)@
            }),
            *final(self) == *final(r),
    {
        let ghost vlinks: Seq<LinkView> = self.links.deep_view();
        let wanted: String = link_name.to_owned();
        let mut kept: Vec<Link> = Vec::new();
        proof {
            assert(kept.deep_view() =~= keep_links(vlinks.take(0), link_name@)) by {
                reveal(Seq::filter);
            }
        }
        let mut i: usize = 0;
        while i < self.links.len()
            invariant
                i <= self.links@.len(),
                wanted@ == link_name@,
                vlinks == self.links.deep_view(),
                kept.deep_view() == keep_links(vlinks.take(i as int), link_name@),
            decreases self.links@.len() - i,
        {
            proof {
                lemma_keep_links_push(vlinks.take(i as int), vlinks[i as int], link_name@);
                assert(vlinks.take(i + 1) =~= vlinks.take(i as int).push(vlinks[i as int]));
            }
            if !(self.links[i].name == wanted) {
                let l = self.links[i].clone();
                kept.push(l);
                proof {
                    assert(kept.deep_view() =~= keep_links(vlinks.take(i + 1), link_name@));
                }
            }
            i += 1;
        }
        proof {
            assert(vlinks.take(vlinks.len() as int) =~= vlinks);
        }
        self.links = kept;
        self
    }

    /// Terminal operation: the finished `Project`, or the first
    /// missing-field reason in the fixed order title, description, tags,
    /// links. The builder is untouched either way, so a failed build can be
    /// corrected and retried.
    pub fn bulid(&self) -> (r: Result<Project, ProjectBuilderError>)
        ensures
            match r {
                Ok(p) => project_build_spec(self@) == Ok::<ProjectView, ProjectBuilderError>(p@),
                Err(e) => project_build_spec(self@) == Err::<ProjectView, ProjectBuilderError>(e),
            },
    {
        match (&self.title, &self.description) {
            (None, _) => Err(ProjectBuilderError::Title),
            (_, None) => Err(ProjectBuilderError::Description),
            (Some(title), Some(description)) => {
                if self.tags.len() == 0 {
                    Err(ProjectBuilderError::Tags)
                } else if self.links.len() == 0 {
                    Err(ProjectBuilderError::Links)
                } else {
                    let p = Project {
                        title: title.clone(),
                        description: description.clone(),
                        cover: match &self.cover {
                            Some(u) => Some(u.clone()),
                            None => None,
                        },
                        tags: self.tags.clone(),
                        links: self.links.clone(),
                    };
                    proof {
                        lemma_vec_string_clone_view(self.tags, p.tags);
                        lemma_vec_link_clone_view(self.links, p.links);
                    }
                    Ok(p)
                }
            },
        }
    }
}

proof fn lemma_vec_string_clone_view(a: Vec<String>, b: Vec<String>)
    requires
        a.len() == b.len(),
        forall|i: int| #![all_triggers] 0 <= i < a.len() ==> cloned::<String>(a[i], b[i]),
    ensures
        b.deep_view() == a.deep_view(),
{
    assert forall|i: int| 0 <= i < a.len() implies a[i] == b[i] by {}
    assert(b.deep_view() =~= a.deep_view());
}

proof fn lemma_vec_link_clone_view(a: Vec<Link>, b: Vec<Link>)
    requires
        a.len() == b.len(),
        forall|i: int| #![all_triggers] 0 <= i < a.len() ==> cloned::<Link>(a[i], b[i]),
    ensures
        b.deep_view() == a.deep_view(),
{
    assert forall|i: int| 0 <= i < a.len() implies a[i] == b[i] by {}
    assert(b.deep_view() =~= a.deep_view());
}

/// Mutable accumulator for a `Link`.
#[derive(Debug)]
pub struct LinkBuilder {
    name: Option<String>,
    url: Option<Url>,
}

/// Mathematical model of a `LinkBuilder`.
#[verifier::ext_equal]
pub ghost struct LinkBuilderView {
    pub name: Option<Seq<char>>,
    pub url: Option<Seq<char>>,
}

impl View for LinkBuilder {
    type V = LinkBuilderView;

    closed spec fn view(&self) -> LinkBuilderView {
        LinkBuilderView {
            name: match self.name {
                Some(n) => Some(n@),
                None => None,
            },
            url: match self.url {
                Some(u) => Some(u@),
                None => None,
            },
        }
    }
}

/// What `LinkBuilder::bulid` returns for a builder in the given state: the
/// first missing-field reason in the fixed order name, url, or the finished
/// link. An empty name counts as absent.
pub open spec fn link_build_spec(b: LinkBuilderView) -> Result<LinkView, LinkBuilderError> {
    if b.name is None || b.name->Some_0.len() == 0 {
        Err(LinkBuilderError::Name)
    } else if b.url is None {
        Err(LinkBuilderError::Url)
    } else {
        Ok(LinkView { name: b.name->Some_0, url: b.url->Some_0 })
    }
}

impl LinkBuilder {
    /// An empty builder: no name, no URL.
    pub fn new() -> (r: Self)
        ensures
            r@ == (LinkBuilderView { name: None, url: None }),
    {
        LinkBuilder { name: None, url: None }
    }

    /// Overwrites the name; never validates eagerly.
    pub fn name(&mut self, name: &str) -> (r: &mut Self)
        ensures
            r@ == (LinkBuilderView { name: Some(name@), ..old(self)@ }),
            *final(self) == *final(r),
    {
        self.name = Some(name.to_owned());
        self
    }

    /// Overwrites the URL with an already-valid one; never validates eagerly.
    pub fn url(&mut self, url: Url) -> (r: &mut Self)
        ensures
            r@ == (LinkBuilderView { url: Some(url@), ..old(self)@ }),
            *final(self) == *final(r),
    {
        self.url = Some(url);
        self
    }

    /// Terminal operation: the finished `Link`, or the first missing-field
    /// reason. The builder is untouched either way, so a failed build can be
    /// corrected and retried.
    pub fn bulid(&self) -> (r: Result<Link, LinkBuilderError>)
        ensures
            match r {
                Ok(l) => link_build_spec(self@) == Ok::<LinkView, LinkBuilderError>(l@),
                Err(e) => link_build_spec(self@) == Err::<LinkView, LinkBuilderError>(e),
            },
    {
        match (&self.name, &self.url) {
            (Some(name), Some(url)) => {
                if name.as_str().is_empty() {
                    Err(LinkBuilderError::Name)
                } else {
                    Ok(Link { name: name.clone(), link: url.clone() })
                }
            },
            (Some(name), None) => {
                if name.as_str().is_empty() {
                    Err(LinkBuilderError::Name)
                } else {
                    Err(LinkBuilderError::Url)
                }
            },
            (None, _) => Err(LinkBuilderError::Name),
        }
    }

    /// A fixed convenience sample value for seeding tests and demos.
    pub fn sample() -> (r: Link)
        ensures
            r@ == (LinkView { name: "Example"@, url: "https://example.com"@ }),
    {
        Link {
            name: String::from_str("Example"),
            link: Url::from_text(String::from_str("https://example.com")),
        }
    }
}

/// Derive a builder that reproduces a finished value's current state: the
/// only path back from an immutable value into a mutable builder.
pub trait Edit {
    type Builder;

    fn edit(self) -> Self::Builder;
}

impl Edit for Project {
    type Builder = ProjectBuilder;

    fn edit(self) -> (r: ProjectBuilder)
        ensures
            r@ == (ProjectBuilderView {
                title: Some(self@.title),
                description: Some(self@.description),
                cover: self@.cover,
                tags: self@.tags,
                links: self@.links,
            }),
    {
        ProjectBuilder {
            title: Some(self.title),
            description: Some(self.description),
            cover: self.cover,
            tags: self.tags,
            links: self.links,
        }
    }
}

impl Edit for Link {
    type Builder = LinkBuilder;

    fn edit(self) -> (r: LinkBuilder)
        ensures
            r@ == (LinkBuilderView { name: Some(self@.name), url: Some(self@.url) }),
    {
        LinkBuilder { name: Some(self.name), url: Some(self.link) }
    }
}

/// A `LinkView` that a successful build can produce: the name is non-empty.
pub open spec fn link_wf(l: LinkView) -> bool {
    l.name.len() > 0
}

/// A `ProjectView` that a successful build can produce: at least one tag
/// and at least one link.
pub open spec fn project_wf(p: ProjectView) -> bool {
    p.tags.len() > 0 && p.links.len() > 0
}

/// A build on a builder with nothing set fails with the first
/// missing-field reason of the fixed priority order: the name for a link,
/// the title for a project, whatever else is also missing.
pub proof fn lemma_unset_builder_fails_first()
    ensures
        link_build_spec(LinkBuilderView { name: None, url: None }) == Err::<
            LinkView,
            LinkBuilderError,
        >(LinkBuilderError::Name),
        project_build_spec(
            ProjectBuilderView {
                title: None,
                description: None,
                cover: None,
                tags: Seq::empty(),
                links: Seq::empty(),
            },
        ) == Err::<ProjectView, ProjectBuilderError>(ProjectBuilderError::Title),
{
}

/// The fixed priority order of the failure reasons: a reason is reported
/// exactly when its field is missing and every field before it is present.
pub proof fn lemma_build_priority(b: ProjectBuilderView, lb: LinkBuilderView)
    ensures
        project_build_spec(b) == Err::<ProjectView, ProjectBuilderError>(ProjectBuilderError::Title)
            <==> b.title is None,
        project_build_spec(b) == Err::<ProjectView, ProjectBuilderError>(
            ProjectBuilderError::Description,
        ) <==> (b.title is Some && b.description is None),
        project_build_spec(b) == Err::<ProjectView, ProjectBuilderError>(ProjectBuilderError::Tags)
            <==> (b.title is Some && b.description is Some && b.tags.len() == 0),
        project_build_spec(b) == Err::<ProjectView, ProjectBuilderError>(ProjectBuilderError::Links)
            <==> (b.title is Some && b.description is Some && b.tags.len() > 0 && b.links.len()
            == 0),
        project_build_spec(b) is Ok <==> (b.title is Some && b.description is Some && b.tags.len()
            > 0 && b.links.len() > 0),
        link_build_spec(lb) == Err::<LinkView, LinkBuilderError>(LinkBuilderError::Name) <==> (
        lb.name is None || lb.name->Some_0.len() == 0),
        link_build_spec(lb) == Err::<LinkView, LinkBuilderError>(LinkBuilderError::Url) <==> (
        lb.name is Some && lb.name->Some_0.len() > 0 && lb.url is None),
        link_build_spec(lb) is Ok <==> (lb.name is Some && lb.name->Some_0.len() > 0
            && lb.url is Some),
{
}

/// A failed build loses nothing: an otherwise complete project builder that
/// failed for want of links succeeds once one link is added, with every
/// previously set field carried over unchanged.
pub proof fn lemma_failed_project_build_then_correct(b: ProjectBuilderView, l: LinkView)
    requires
        project_build_spec(b) == Err::<ProjectView, ProjectBuilderError>(ProjectBuilderError::Links),
    ensures
        project_build_spec(ProjectBuilderView { links: b.links.push(l), ..b }) == Ok::<
            ProjectView,
            ProjectBuilderError,
        >(
            ProjectView {
                title: b.title->Some_0,
                description: b.description->Some_0,
                cover: b.cover,
                tags: b.tags,
                links: b.links.push(l),
            },
        ),
{
}

/// The same for a link builder that failed for want of a URL: setting one
/// makes the next build succeed with the name kept.
pub proof fn lemma_failed_link_build_then_correct(b: LinkBuilderView, u: Seq<char>)
    requires
        link_build_spec(b) == Err::<LinkView, LinkBuilderError>(LinkBuilderError::Url),
    ensures
        link_build_spec(LinkBuilderView { url: Some(u), ..b }) == Ok::<LinkView, LinkBuilderError>(
            LinkView { name: b.name->Some_0, url: u },
        ),
{
}

/// An empty name set on a link builder is equivalent to an absent one: the
/// build outcome is the same.
pub proof fn lemma_empty_name_like_absent(b: LinkBuilderView)
    requires
        b.name == Some(Seq::<char>::empty()),
    ensures
        link_build_spec(b) == link_build_spec(LinkBuilderView { name: None, ..b }),
{
}

/// Edit round-trip: converting a buildable value to a builder, as `edit`
/// does, and immediately building reproduces a value equal in every field.
pub proof fn lemma_edit_round_trip(l: LinkView, p: ProjectView)
    requires
        link_wf(l),
        project_wf(p),
    ensures
        link_build_spec(LinkBuilderView { name: Some(l.name), url: Some(l.url) }) == Ok::<
            LinkView,
            LinkBuilderError,
        >(l),
        project_build_spec(
            ProjectBuilderView {
                title: Some(p.title),
                description: Some(p.description),
                cover: p.cover,
                tags: p.tags,
                links: p.links,
            },
        ) == Ok::<ProjectView, ProjectBuilderError>(p),
{
    assert(LinkView { name: l.name, url: l.url } =~= l);
    assert(ProjectView {
        title: p.title,
        description: p.description,
        cover: p.cover,
        tags: p.tags,
        links: p.links,
    } =~= p);
}

/// Mutation order is preserved: adding one tag, then a different second
/// one, then removing the first leaves exactly the second.
pub proof fn lemma_mutation_order(a: Seq<char>, b: Seq<char>)
    requires
        a != b,
    ensures
        keep_tags(Seq::<Seq<char>>::empty().push(a).push(b), a) =~= seq![b],
{
    lemma_keep_tags_push(Seq::<Seq<char>>::empty().push(a), b, a);
    lemma_keep_tags_push(Seq::<Seq<char>>::empty(), a, a);
    reveal(Seq::filter);
}

/// Removing a tag that no entry equals is a no-op.
pub proof fn lemma_remove_absent_tag(tags: Seq<Seq<char>>, tag: Seq<char>)
    requires
        !tags.contains(tag),
    ensures
        keep_tags(tags, tag) == tags,
    decreases tags.len(),
{
    reveal(Seq::filter);
    if tags.len() > 0 {
        assert(!tags.drop_last().contains(tag)) by {
            assert forall|i: int| 0 <= i < tags.drop_last().len() implies tags.drop_last()[i]
                != tag by {
                assert(tags[i] == tags.drop_last()[i]);
            }
        }
        lemma_remove_absent_tag(tags.drop_last(), tag);
        assert(tags.last() != tag) by {
            assert(tags[tags.len() - 1] == tags.last());
        }
        assert(tags.drop_last().push(tags.last()) =~= tags);
    } else {
        assert(keep_tags(tags, tag) =~= tags);
    }
}

/// Removing a link name that no link bears is a no-op.
pub proof fn lemma_remove_absent_link(links: Seq<LinkView>, name: Seq<char>)
    requires
        forall|i: int| 0 <= i < links.len() ==> links[i].name != name,
    ensures
        keep_links(links, name) == links,
    decreases links.len(),
{
    reveal(Seq::filter);
    if links.len() > 0 {
        lemma_remove_absent_link(links.drop_last(), name);
        assert(links.drop_last().push(links.last()) =~= links);
    } else {
        assert(keep_links(links, name) =~= links);
    }
}

} // verus!
