use blogger::builders::{Edit, LinkBuilder, ProjectBuilder};
use blogger::errors::{LinkBuilderError, ProjectBuilderError};
use blogger::rows::{LinkRow, ProjectRow, TagRow};
use blogger::{Projects, Url};

#[test]
fn empty_builders_first_error() {
    assert!(matches!(LinkBuilder::new().bulid(), Err(LinkBuilderError::Name)));
    assert!(matches!(
        ProjectBuilder::new().bulid(),
        Err(ProjectBuilderError::Title)
    ));
}

#[test]
fn edit_rebuild_reproduces_link() {
    let link = LinkBuilder::new()
        .name("Docs")
        .url(Url::parse("https://docs.rs").unwrap())
        .bulid()
        .unwrap();
    let copy = link.clone();
    let rebuilt = link.edit().bulid().unwrap();
    assert_eq!(rebuilt, copy);
}

#[test]
fn edit_rebuild_reproduces_project() {
    let project = ProjectBuilder::new()
        .title("t")
        .description("d")
        .cover(Url::parse("https://example.org").unwrap())
        .add_tag("x")
        .add_tag("y")
        .add_link(LinkBuilder::sample())
        .bulid()
        .unwrap();
    let rebuilt = project.clone().edit().bulid().unwrap();
    assert_eq!(rebuilt.title, project.title);
    assert_eq!(rebuilt.description, project.description);
    assert_eq!(rebuilt.cover, project.cover);
    assert_eq!(rebuilt.tags, project.tags);
    assert_eq!(rebuilt.links, project.links);
}

#[test]
fn mutation_order_kept() {
    let project = ProjectBuilder::new()
        .title("t")
        .description("d")
        .add_tag("Rust")
        .add_tag("Java")
        .remove_tag("Rust")
        .add_link(LinkBuilder::sample())
        .bulid()
        .unwrap();
    assert_eq!(project.tags, vec![String::from("Java")]);
}

#[test]
fn remove_without_match_is_noop() {
    let mut builder = ProjectBuilder::new();
    builder
        .title("t")
        .description("d")
        .add_tag("Rust")
        .add_tag("Rust")
        .add_link(LinkBuilder::sample());
    builder.remove_tag("Java");
    builder.remove_link("nothing named this");
    let project = builder.bulid().unwrap();
    assert_eq!(project.tags.len(), 2);
    assert_eq!(project.links.len(), 1);
}

#[test]
fn duplicate_tags_removed_together() {
    let project = ProjectBuilder::new()
        .title("t")
        .description("d")
        .add_tag("a")
        .add_tag("b")
        .add_tag("a")
        .remove_tag("a")
        .add_link(LinkBuilder::sample())
        .bulid()
        .unwrap();
    assert_eq!(project.tags, vec![String::from("b")]);
}

#[test]
fn error_messages() {
    assert_eq!(ProjectBuilderError::Title.message(), "Missing Title");
    assert_eq!(
        ProjectBuilderError::Description.message(),
        "Missing Description"
    );
    assert_eq!(ProjectBuilderError::Tags.message(), "Missing at least one Tag");
    assert_eq!(
        ProjectBuilderError::Links.message(),
        "Missing at least one Link"
    );
    assert_eq!(LinkBuilderError::Name.message(), "Missing Link name");
    assert_eq!(LinkBuilderError::Url.message(), "Missing URL");
}

#[test]
fn url_parse_normalizes() {
    let url = Url::parse("HTTPS://GOOGLE.COM").unwrap();
    assert_eq!(url.as_str(), "https://google.com/");
}

#[test]
fn url_parse_rejects_relative_text() {
    assert!(Url::parse("not a url").is_none());
    assert!(Url::parse("/just/a/path").is_none());
}

#[test]
fn sample_link_value() {
    let sample = LinkBuilder::sample();
    assert_eq!(sample.name, "Example");
    assert_eq!(sample.link.as_str(), "https://example.com");
}

#[test]
fn assemble_from_rows() {
    let rows = vec![
        ProjectRow {
            id: 1,
            title: String::from("first"),
            description: String::from("one"),
            cover: Some(String::from("https://example.com/cover.png")),
        },
        ProjectRow {
            id: 2,
            title: String::from("second"),
            description: String::from("two"),
            cover: Some(String::from("not a url")),
        },
        ProjectRow {
            id: 3,
            title: String::from("third"),
            description: String::from("three"),
            cover: None,
        },
    ];
    let tag_rows = vec![
        TagRow { project_id: 1, tag: String::from("Rust") },
        TagRow { project_id: 2, tag: String::from("Java") },
        TagRow { project_id: 1, tag: String::from("Web") },
    ];
    let link_rows = vec![
        LinkRow {
            project_id: 1,
            name: String::from("home"),
            link: Some(String::from("https://example.com")),
        },
        LinkRow {
            project_id: 2,
            name: String::from("broken"),
            link: Some(String::from("::: no :::")),
        },
        LinkRow {
            project_id: 1,
            name: String::from("docs"),
            link: Some(String::from("https://docs.rs")),
        },
    ];
    let assembled = Projects::assemble(&rows, &tag_rows, &link_rows);

    // The second project keeps no valid link and the third has no rows at
    // all, so only the first survives.
    assert_eq!(assembled.projects.len(), 1);
    let first = &assembled.projects[0];
    assert_eq!(first.title, "first");
    assert_eq!(first.description, "one");
    assert_eq!(
        first.cover.as_ref().map(|u| u.as_str().to_string()),
        Some(String::from("https://example.com/cover.png"))
    );
    assert_eq!(first.tags, vec![String::from("Rust"), String::from("Web")]);
    assert_eq!(first.links.len(), 2);
    assert_eq!(first.links[0].name, "home");
    assert_eq!(first.links[0].link.as_str(), "https://example.com/");
    assert_eq!(first.links[1].name, "docs");
    assert_eq!(first.links[1].link.as_str(), "https://docs.rs/");
}

#[test]
fn assemble_drops_empty_named_link() {
    let rows = vec![ProjectRow {
        id: 7,
        title: String::from("t"),
        description: String::from("d"),
        cover: None,
    }];
    let tag_rows = vec![TagRow { project_id: 7, tag: String::from("x") }];
    let link_rows = vec![
        LinkRow {
            project_id: 7,
            name: String::new(),
            link: Some(String::from("https://example.com")),
        },
        LinkRow {
            project_id: 7,
            name: String::from("ok"),
            link: Some(String::from("https://example.com")),
        },
    ];
    let assembled = Projects::assemble(&rows, &tag_rows, &link_rows);
    assert_eq!(assembled.projects.len(), 1);
    assert_eq!(assembled.projects[0].links.len(), 1);
    assert_eq!(assembled.projects[0].links[0].name, "ok");
}

#[test]
fn index_greets() {
    assert_eq!(blogger::index(), "Hello, world!");
}
