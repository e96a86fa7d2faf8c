use blogger::builders::{LinkBuilder, ProjectBuilder};
use blogger::{Projects, Url};

#[test]
fn from_json() {
    let json = r#"
    {
      "projects":[
        {
          "title":"test",
          "description":"description",
          "cover":"https://images.unsplash.com/photo-1719937050601-969f4f25d060?q=80&w=1587&auto=format&fit=crop&ixlib=rb-4.0.3&ixid=M3wxMjA3fDF8MHxwaG90by1wYWdlfHx8fGVufDB8fHx8fA%3D%3D",
          "tags":[
            "Rust",
            "Java",
            "C#",
            "C",
            "C++",
            "Javascript",
            "Typescript",
            "Go",
            "Vue",
            "Next.js",
            "Nuxt.js",
            "Arduino",
            "React",
            "Python",
            "Unity"
          ],
          "links":[
            {
              "name":"Google",
              "link":"https://google.com"
            },
            {
              "name":"Wikipedia",
              "link":"https://en.wikipedia.org"
            },
            {
              "name":"Reddit",
              "link":"https://reddit.com"
            },
            {
              "name":"Twitter",
              "link":"https://twitter.com"
            }
          ]
        },
        {
          "title":"test2",
          "description":"Lorem ipsum dolor sit amet, consectetur adipiscing elit, sunt in culpa qui officia deserunt mollit anim id est laborum.",
          "cover":"https://images.unsplash.com/photo-1719937050601-969f4f25d060?q=80&w=1587&auto=format&fit=crop&ixlib=rb-4.0.3&ixid=M3wxMjA3fDF8MHxwaG90by1wYWdlfHx8fGVufDB8f$",
          "tags":[
            "Rust",
            "Java",
            "C#",
            "C",
            "C++",
            "Javascript",
            "Typescript"
          ],
          "links":[
            {
              "name":"Google",
              "link":"https://google.com"
            },
            {
              "name":"Wikipedia",
              "link":"https://en.wikipedia.org"
            }
          ]
        },
        {
          "title":"test3",
          "description":"waow",
          "tags":[
            "Rust",
            "Java",
            "C#",
            "C",
            "C++",
            "Javascript",
            "Typescript",
            "Go",
            "Vue",
            "Next.js",
            "Nuxt.js",
            "Arduino",
            "React",
            "Unity"
          ],
          "links":[
            {
              "name":"Google",
              "link":"https://google.com"
            },
            {
              "name":"Wikipedia",
              "link":"https://en.wikipedia.org"
            },
            {
              "name":"Reddit",
              "link":"https://reddit.com"
            }
          ]
        }
      ]
    }
    "#;
    let names = ["test", "test2", "test3"];

    let deserialized_projects = Projects::from_json(json);
    assert!(deserialized_projects.is_some());
    let deserialized_projects = deserialized_projects.unwrap();
    let vec_of_projects = deserialized_projects.projects;
    for (project, name) in std::iter::zip(vec_of_projects, names) {
        assert_eq!(project.title, name);
    }
}

#[test]
fn to_json() {
    let project1 = ProjectBuilder::new()
        .title("hi")
        .description("hello")
        .cover(Url::parse("https://google.com").unwrap())
        .add_link(LinkBuilder::sample())
        .add_tag("hai")
        .bulid()
        .unwrap();
    let projects = Projects {
        projects: vec![project1],
    };
    let json = projects.to_json();

    let decoded = Projects::from_json(&json);
    assert!(decoded.is_some());
    let decoded = decoded.unwrap();
    let proj = decoded.projects[0].clone();
    assert_eq!(proj.title, "hi");
    assert_eq!(proj.description, "hello");
    assert_eq!(proj.cover, Some(Url::parse("https://google.com").unwrap()));
    assert_eq!(proj.links[0], LinkBuilder::sample());
    assert_eq!(proj.tags[0], "hai");
}

#[test]
fn json_exact_text() {
    let project = ProjectBuilder::new()
        .title("a")
        .description("b")
        .add_tag("t")
        .add_link(
            LinkBuilder::new()
                .name("n")
                .url(Url::parse("https://x.example").unwrap())
                .bulid()
                .unwrap(),
        )
        .bulid()
        .unwrap();
    let projects = Projects { projects: vec![project] };
    let expected = "{\"projects\":[{\"title\":\"a\",\"description\":\"b\",\"tags\":[\"t\"],\"links\":[{\"name\":\"n\",\"link\":\"https://x.example/\"}]}]}";
    assert_eq!(projects.to_json(), expected);
}

#[test]
fn json_round_trip_no_cover() {
    let project = ProjectBuilder::new()
        .title("t")
        .description("d")
        .add_tag("x")
        .add_link(LinkBuilder::sample())
        .bulid()
        .unwrap();
    let projects = Projects { projects: vec![project] };
    let decoded = Projects::from_json(&projects.to_json()).unwrap();
    assert_eq!(decoded.projects.len(), 1);
    assert_eq!(decoded.projects[0].cover, None);
    assert_eq!(decoded.projects[0].title, "t");
    assert_eq!(decoded.projects[0].tags, vec![String::from("x")]);
}

#[test]
fn json_round_trip_escapes() {
    let project = ProjectBuilder::new()
        .title("say \"hi\" \\ wave")
        .description("d")
        .add_tag("a\"b")
        .add_link(LinkBuilder::sample())
        .bulid()
        .unwrap();
    let projects = Projects { projects: vec![project] };
    let decoded = Projects::from_json(&projects.to_json()).unwrap();
    assert_eq!(decoded.projects[0].title, "say \"hi\" \\ wave");
    assert_eq!(decoded.projects[0].tags, vec![String::from("a\"b")]);
}

#[test]
fn json_round_trip_empty_portfolio() {
    let projects = Projects { projects: Vec::new() };
    let json = projects.to_json();
    assert_eq!(json, "{\"projects\":[]}");
    let decoded = Projects::from_json(&json).unwrap();
    assert!(decoded.projects.is_empty());
}

#[test]
fn from_json_rejects_malformed_text() {
    assert!(Projects::from_json("").is_none());
    assert!(Projects::from_json("{\"projects\":").is_none());
    assert!(Projects::from_json("{\"projects\":[]} trailing").is_none());
    assert!(Projects::from_json("{\"wrong\":[]}").is_none());
}
