//! Assembly of the portfolio from stored rows.
//!
//! The data store hands over three row streams: one project row per entry,
//! one tag row per `(project, tag)` pair, one link row per `(project, name,
//! url text)` triple. Assembly fills one builder per project row and builds
//! it; a cover or link whose URL text is absent or does not parse is
//! silently omitted, and a project whose build fails is left out rather
//! than failing the whole assembly.

use vstd::prelude::*;

use crate::builders::{
    link_build_spec, project_build_spec, LinkBuilder, LinkBuilderView, ProjectBuilder,
    ProjectBuilderView,
};
use crate::urls::{parse_url_spec, Url};
use crate::{LinkView, Project, ProjectView, Projects};

verus! {

/// One stored project row.
#[derive(Debug)]
pub struct ProjectRow {
    pub id: u32,
    pub title: String,
    pub description: String,
    pub cover: Option<String>,
}

/// Mathematical model of a `ProjectRow`.
#[verifier::ext_equal]
pub ghost struct ProjectRowView {
    pub id: u32,
    pub title: Seq<char>,
    pub description: Seq<char>,
    pub cover: Option<Seq<char>>,
}

impl DeepView for ProjectRow {
    type V = ProjectRowView;

    open spec fn deep_view(&self) -> ProjectRowView {
        ProjectRowView {
            id: self.id,
            title: self.title@,
            description: self.description@,
            cover: match self.cover {
                Some(c) => Some(c@),
                None => None,
            },
        }
    }
}

/// One stored tag row.
#[derive(Debug)]
pub struct TagRow {
    pub project_id: u32,
    pub tag: String,
}

/// Mathematical model of a `TagRow`.
#[verifier::ext_equal]
pub ghost struct TagRowView {
    pub project_id: u32,
    pub tag: Seq<char>,
}

impl DeepView for TagRow {
    type V = TagRowView;

    open spec fn deep_view(&self) -> TagRowView {
        TagRowView { project_id: self.project_id, tag: self.tag@ }
    }
}

/// One stored link row.
#[derive(Debug)]
pub struct LinkRow {
    pub project_id: u32,
    pub name: String,
    pub link: Option<String>,
}

/// Mathematical model of a `LinkRow`.
#[verifier::ext_equal]
pub ghost struct LinkRowView {
    pub project_id: u32,
    pub name: Seq<char>,
    pub link: Option<Seq<char>>,
}

impl DeepView for LinkRow {
    type V = LinkRowView;

    open spec fn deep_view(&self) -> LinkRowView {
        LinkRowView {
            project_id: self.project_id,
            name: self.name@,
            link: match self.link {
                Some(l) => Some(l@),
                None => None,
            },
        }
    }
}

/// The cover a project row yields: the parsed URL's serialization, absent
/// when no cover text is stored or the text does not parse.
pub open spec fn cover_of_row(cover: Option<Seq<char>>) -> Option<Seq<char>> {
    match cover {
        Some(s) => parse_url_spec(s),
        None => None,
    }
}

/// The link a link row yields: the built link, or nothing when the name is
/// empty or the URL text is absent or does not parse.
pub open spec fn link_of_row(r: LinkRowView) -> Option<LinkView> {
    let b = LinkBuilderView {
        name: Some(r.name),
        url: match r.link {
            Some(s) => parse_url_spec(s),
            None => None,
        },
    };
    match link_build_spec(b) {
        Ok(l) => Some(l),
        Err(_) => None,
    }
}

/// The tags of one project: those of its tag rows, in row order.
pub open spec fn tags_for(id: u32, rows: Seq<TagRowView>) -> Seq<Seq<char>>
    decreases rows.len(),
{
    if rows.len() == 0 {
        Seq::empty()
    } else {
        let rest = tags_for(id, rows.drop_last());
        if rows.last().project_id == id {
            rest.push(rows.last().tag)
        } else {
            rest
        }
    }
}

/// The links of one project: those its link rows yield, in row order.
pub open spec fn links_for(id: u32, rows: Seq<LinkRowView>) -> Seq<LinkView>
    decreases rows.len(),
{
    if rows.len() == 0 {
        Seq::empty()
    } else {
        let rest = links_for(id, rows.drop_last());
        if rows.last().project_id == id {
            match link_of_row(rows.last()) {
                Some(l) => rest.push(l),
                None => rest,
            }
        } else {
            rest
        }
    }
}

/// The project a project row yields, given all tag and link rows: the
/// built project, or nothing when the build fails.
pub open spec fn project_of_row(
    r: ProjectRowView,
    tags: Seq<TagRowView>,
    links: Seq<LinkRowView>,
) -> Option<ProjectView> {
    let b = ProjectBuilderView {
        title: Some(r.title),
        description: Some(r.description),
        cover: cover_of_row(r.cover),
        tags: tags_for(r.id, tags),
        links: links_for(r.id, links),
    };
    match project_build_spec(b) {
        Ok(p) => Some(p),
        Err(_) => None,
    }
}

/// The whole portfolio: the projects the project rows yield, in row order.
pub open spec fn assembled(
    rows: Seq<ProjectRowView>,
    tags: Seq<TagRowView>,
    links: Seq<LinkRowView>,
) -> Seq<ProjectView>
    decreases rows.len(),
{
    if rows.len() == 0 {
        Seq::empty()
    } else {
        let rest = assembled(rows.drop_last(), tags, links);
        match project_of_row(rows.last(), tags, links) {
            Some(p) => rest.push(p),
            None => rest,
        }
    }
}

proof fn lemma_tags_for_push(id: u32, rows: Seq<TagRowView>, x: TagRowView)
    ensures
        tags_for(id, rows.push(x)) == if x.project_id == id {
            tags_for(id, rows).push(x.tag)
        } else {
            tags_for(id, rows)
        },
{
    assert(rows.push(x).drop_last() =~= rows);
    assert(rows.push(x).last() == x);
}

proof fn lemma_links_for_push(id: u32, rows: Seq<LinkRowView>, x: LinkRowView)
    ensures
        links_for(id, rows.push(x)) == if x.project_id == id {
            match link_of_row(x) {
                Some(l) => links_for(id, rows).push(l),
                None => links_for(id, rows),
            }
        } else {
            links_for(id, rows)
        },
{
    assert(rows.push(x).drop_last() =~= rows);
    assert(rows.push(x).last() == x);
}

proof fn lemma_assembled_push(
    rows: Seq<ProjectRowView>,
    x: ProjectRowView,
    tags: Seq<TagRowView>,
    links: Seq<LinkRowView>,
)
    ensures
        assembled(rows.push(x), tags, links) == match project_of_row(x, tags, links) {
            Some(p) => assembled(rows, tags, links).push(p),
            None => assembled(rows, tags, links),
        },
{
    assert(rows.push(x).drop_last() =~= rows);
    assert(rows.push(x).last() == x);
}

impl Projects {
    /// Assembles the portfolio from the three row streams, one builder per
    /// project row: rows in other streams count for the project whose
    /// identifier they carry, a cover or link URL that is absent or does
    /// not parse is silently omitted, and a project whose build fails is
    /// left out.
    pub fn assemble(
        rows: &Vec<ProjectRow>,
        tag_rows: &Vec<TagRow>,
        link_rows: &Vec<LinkRow>,
    ) -> (r: Projects)
        ensures
            r@ == assembled(rows.deep_view(), tag_rows.deep_view(), link_rows.deep_view()),
    {
        let ghost prows: Seq<ProjectRowView> = rows.deep_view();
        let ghost trows: Seq<TagRowView> = tag_rows.deep_view();
        let ghost lrows: Seq<LinkRowView> = link_rows.deep_view();
        let mut projects: Vec<Project> = Vec::new();
        proof {
            assert(projects.deep_view() =~= assembled(prows.take(0), trows, lrows));
        }
        let mut i: usize = 0;
        while i < rows.len()
            invariant
                i <= prows.len(),
                prows == rows.deep_view(),
                trows == tag_rows.deep_view(),
                lrows == link_rows.deep_view(),
                projects.deep_view() == assembled(prows.take(i as int), trows, lrows),
            decreases prows.len() - i,
        {
            let row = &rows[i];
            let ghost rv: ProjectRowView = prows[i as int];
            let mut pb = ProjectBuilder::new();
            pb.title(row.title.as_str());
            pb.description(row.description.as_str());
            match &row.cover {
                Some(c) => {
                    match Url::parse(c.as_str()) {
                        Some(u) => {
                            pb.cover(u);
                        },
                        None => {},
                    }
                },
                None => {},
            }
            proof {
                assert(pb@ =~= (ProjectBuilderView {
                    title: Some(rv.title),
                    description: Some(rv.description),
                    cover: cover_of_row(rv.cover),
                    tags: tags_for(rv.id, trows.take(0)),
                    links: Seq::empty(),
                }));
            }
            let mut j: usize = 0;
            while j < tag_rows.len()
                invariant
                    j <= trows.len(),
                    trows == tag_rows.deep_view(),
                    pb@ == (ProjectBuilderView {
                        title: Some(rv.title),
                        description: Some(rv.description),
                        cover: cover_of_row(rv.cover),
                        tags: tags_for(rv.id, trows.take(j as int)),
                        links: Seq::empty(),
                    }),
                    row.id == rv.id,
                decreases trows.len() - j,
            {
                proof {
                    lemma_tags_for_push(rv.id, trows.take(j as int), trows[j as int]);
                    assert(trows.take(j + 1) =~= trows.take(j as int).push(trows[j as int]));
                }
                if tag_rows[j].project_id == row.id {
                    pb.add_tag(tag_rows[j].tag.as_str());
                }
                j += 1;
            }
            proof {
                assert(trows.take(trows.len() as int) =~= trows);
            }
            let mut k: usize = 0;
            while k < link_rows.len()
                invariant
                    k <= lrows.len(),
                    lrows == link_rows.deep_view(),
                    pb@ == (ProjectBuilderView {
                        title: Some(rv.title),
                        description: Some(rv.description),
                        cover: cover_of_row(rv.cover),
                        tags: tags_for(rv.id, trows),
                        links: links_for(rv.id, lrows.take(k as int)),
                    }),
                    row.id == rv.id,
                decreases lrows.len() - k,
            {
                proof {
                    lemma_links_for_push(rv.id, lrows.take(k as int), lrows[k as int]);
                    assert(lrows.take(k + 1) =~= lrows.take(k as int).push(lrows[k as int]));
                }
                if link_rows[k].project_id == row.id {
                    let mut lb = LinkBuilder::new();
                    lb.name(link_rows[k].name.as_str());
                    match &link_rows[k].link {
                        Some(s) => {
                            match Url::parse(s.as_str()) {
                                Some(u) => {
                                    lb.url(u);
                                },
                                None => {},
                            }
                        },
                        None => {},
                    }
                    match lb.bulid() {
                        Ok(l) => {
                            pb.add_link(l);
                        },
                        Err(_) => {},
                    }
                }
                k += 1;
            }
            proof {
                assert(lrows.take(lrows.len() as int) =~= lrows);
                lemma_assembled_push(prows.take(i as int), prows[i as int], trows, lrows);
                assert(prows.take(i + 1) =~= prows.take(i as int).push(prows[i as int]));
            }
            match pb.bulid() {
                Ok(p) => {
                    projects.push(p);
                    proof {
                        assert(projects.deep_view() =~= assembled(
                            prows.take(i + 1),
                            trows,
                            lrows,
                        ));
                    }
                },
                Err(_) => {},
            }
            i += 1;
        }
        proof {
            assert(prows.take(prows.len() as int) =~= prows);
        }
        Projects { projects }
    }
}

} // verus!
