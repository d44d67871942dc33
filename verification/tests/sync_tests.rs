use markspace::checksum::sha256_digest;
use markspace::confluence_page::{
    ConfluenceFolder, ConfluenceNode, ConfluenceNodeType, ConfluencePageData,
};
use markspace::link_generator::LinkGenerator;
use markspace::local_link::{get_parent_file, normalize_path, LocalLink};
use markspace::markdown_page::{FrontMatter, MarkdownPage, RenderedPage};
use markspace::marker::build_version_message;
use markspace::page_properties::diff_property;
use markspace::reconciler::{build_plan, DocAction};
use markspace::responses::{
    ContentProperty, ContentStatus, Descendant, PageBulkWithoutBody, PropertyValue, Version,
};

fn managed_page_node(id: &str, path: &str, checksum: &str, status: ContentStatus) -> ConfluenceNode {
    ConfluenceNode {
        id: id.to_string(),
        title: String::from("Some Title"),
        parent_id: None,
        data: ConfluenceNodeType::Page(ConfluencePageData {
            version: Version {
                message: build_version_message(path, checksum),
                number: 7,
            },
            path: Some(path.to_string()),
            status,
        }),
    }
}

fn rendered(source: &str, content: &str, parent: Option<&str>) -> RenderedPage {
    RenderedPage::build(
        String::from("Title"),
        content.to_string(),
        source.to_string(),
        parent.map(|p| p.to_string()),
    )
}

#[test]
fn second_run_with_no_changes_plans_nothing() {
    let doc = rendered("a.md", "<p>hello</p>", Some("99"));
    let node = managed_page_node("12", "a.md", doc.checksum.as_str(), ContentStatus::Current);
    let plan = build_plan(&vec![doc], &vec![node]);

    assert_eq!(plan.docs.len(), 1);
    assert!(matches!(plan.docs[0].action, DocAction::NoOp { .. }));
    assert!(plan.docs[0].unarchive_node.is_none());
    assert_eq!(plan.archives.len(), 0);
}

#[test]
fn rename_is_one_create_and_one_archive() {
    let doc = rendered("b.md", "<p>same content</p>", Some("99"));
    let node = managed_page_node("12", "a.md", doc.checksum.as_str(), ContentStatus::Current);
    let plan = build_plan(&vec![doc], &vec![node]);

    assert_eq!(plan.docs.len(), 1);
    match &plan.docs[0].action {
        DocAction::Create { parent_id } => assert_eq!(parent_id.as_deref(), Some("99")),
        other => panic!("expected a create, got {:?}", other),
    }
    assert_eq!(plan.archives, vec![String::from("12")]);
}

#[test]
fn orphaned_node_is_archived_once() {
    let node = managed_page_node("12", "gone.md", "aabb", ContentStatus::Current);
    let plan = build_plan(&Vec::new(), &vec![node]);
    assert_eq!(plan.archives, vec![String::from("12")]);

    let node = managed_page_node("12", "gone.md", "aabb", ContentStatus::Archived);
    let plan = build_plan(&Vec::new(), &vec![node]);
    assert_eq!(plan.archives.len(), 0);
}

#[test]
fn reappearing_document_is_unarchived_without_content_update() {
    let doc = rendered("a.md", "<p>unchanged</p>", Some("99"));
    let node = managed_page_node("12", "a.md", doc.checksum.as_str(), ContentStatus::Archived);
    let plan = build_plan(&vec![doc], &vec![node]);

    assert_eq!(plan.docs[0].unarchive_node.as_deref(), Some("12"));
    assert!(matches!(plan.docs[0].action, DocAction::NoOp { .. }));
    assert_eq!(plan.archives.len(), 0);
}

#[test]
fn changed_content_is_an_update_with_the_observed_revision() {
    let doc = rendered("a.md", "<p>new text</p>", Some("99"));
    let node = managed_page_node("12", "a.md", "0123beef", ContentStatus::Current);
    let plan = build_plan(&vec![doc], &vec![node]);

    match &plan.docs[0].action {
        DocAction::UpdateContent {
            node_id,
            expected_revision,
        } => {
            assert_eq!(node_id.as_str(), "12");
            assert_eq!(*expected_revision, 7);
        }
        other => panic!("expected a content update, got {:?}", other),
    }
}

#[test]
fn equal_checksum_under_an_odd_marker_refreshes_the_marker_only() {
    let doc = rendered("a.md", "<p>kept</p>", Some("99"));
    let mut message = String::from("updated by markedspace: checksum=");
    message.push_str(doc.checksum.as_str());
    message.push_str("; source=a.md");
    let node = ConfluenceNode {
        id: String::from("12"),
        title: String::from("Some Title"),
        parent_id: None,
        data: ConfluenceNodeType::Page(ConfluencePageData {
            version: Version { message, number: 4 },
            path: Some(String::from("a.md")),
            status: ContentStatus::Current,
        }),
    };
    let plan = build_plan(&vec![doc], &vec![node]);

    assert!(matches!(
        plan.docs[0].action,
        DocAction::UpdateMarkerOnly { .. }
    ));
}

#[test]
fn unmanaged_nodes_and_folders_are_never_touched() {
    let unmanaged = ConfluenceNode {
        id: String::from("31"),
        title: String::from("Hand-written"),
        parent_id: None,
        data: ConfluenceNodeType::Page(ConfluencePageData {
            version: Version {
                message: String::from("an ordinary human edit"),
                number: 2,
            },
            path: None,
            status: ContentStatus::Current,
        }),
    };
    let folder = ConfluenceNode {
        id: String::from("32"),
        title: String::from("A Folder"),
        parent_id: Some(String::from("1")),
        data: ConfluenceNodeType::Folder(ConfluenceFolder {}),
    };
    let plan = build_plan(&Vec::new(), &vec![unmanaged, folder]);
    assert_eq!(plan.archives.len(), 0);
}

#[test]
fn missing_parent_is_fatal_for_that_document_only() {
    let no_parent = rendered("docs/a.md", "<p>x</p>", None);
    let home = rendered("index.md", "<p>home</p>", None);
    let plan = build_plan(&vec![no_parent, home], &Vec::new());

    assert!(matches!(
        plan.docs[0].action,
        DocAction::OrphanParentMissing
    ));
    assert!(matches!(plan.docs[1].action, DocAction::Create { .. }));
}

#[test]
fn property_diff_is_deterministic_for_a_given_revision() {
    let absent: Option<String> = None;
    let local = Some(String::from("x"));
    let local_y = Some(String::from("y"));
    let remote = |value: &str, r: u64| {
        vec![ContentProperty {
            id: String::from("5"),
            key: String::from("k"),
            value: PropertyValue::Text(String::from(value)),
            version: Version {
                message: String::from(""),
                number: r,
            },
        }]
    };

    // (absent, absent) emits nothing
    assert_eq!(diff_property("k", &absent, &Vec::new()), None);

    // (absent, "x") emits a removal keeping the remote revision
    let removal = diff_property("k", &absent, &remote("x", 41)).unwrap();
    assert_eq!(removal.value, PropertyValue::Null);
    assert_eq!(removal.version.number, 41);

    // ("x", absent) emits a creation at revision zero
    let creation = diff_property("k", &local, &Vec::new()).unwrap();
    assert_eq!(creation.value, PropertyValue::Text(String::from("x")));
    assert_eq!(creation.version.number, 0);
    assert_eq!(creation.id, "");

    // ("y", "x") emits an update at the remote revision plus one
    let update = diff_property("k", &local_y, &remote("x", 41)).unwrap();
    assert_eq!(update.value, PropertyValue::Text(String::from("y")));
    assert_eq!(update.version.number, 42);

    // ("x", "x") emits nothing
    assert_eq!(diff_property("k", &local, &remote("x", 41)), None);
}

#[test]
fn link_resolution_does_not_depend_on_registration_order() {
    let page_a = MarkdownPage {
        title: String::from("A"),
        source: String::from("docs/a.md"),
        attachments: Vec::new(),
        local_links: vec![LocalLink {
            path: String::from("docs/sub/b.md"),
            anchor: Some(String::from("s")),
        }],
        front_matter: FrontMatter {
            emoji: String::new(),
            labels: Vec::new(),
            unknown_keys: Vec::new(),
        },
        warnings: Vec::new(),
    };
    let page_b = MarkdownPage {
        title: String::from("B"),
        source: String::from("docs/sub/b.md"),
        attachments: Vec::new(),
        local_links: Vec::new(),
        front_matter: FrontMatter {
            emoji: String::new(),
            labels: Vec::new(),
            unknown_keys: Vec::new(),
        },
        warnings: Vec::new(),
    };
    let remote = markspace::confluence_page::ConfluencePage {
        id: String::from("47"),
        title: String::from("B"),
        parent_id: None,
        version: Version {
            message: String::new(),
            number: 1,
        },
        path: None,
        status: ContentStatus::Current,
    };

    let mut first = LinkGenerator::new("example.net", "TEAM");
    first.register_markdown_page(&page_a).unwrap();
    first.register_markdown_page(&page_b).unwrap();
    first.register_confluence_page(&remote);

    let mut second = LinkGenerator::new("example.net", "TEAM");
    second.register_markdown_page(&page_b).unwrap();
    second.register_markdown_page(&page_a).unwrap();
    second.register_confluence_page(&remote);

    let expected = Some(String::from(
        "https://example.net/wiki/spaces/TEAM/pages/47#s",
    ));
    assert_eq!(first.resolve_url("./sub/b.md#s", "docs"), expected);
    assert_eq!(second.resolve_url("./sub/b.md#s", "docs"), expected);
}

#[test]
fn duplicate_path_keys_are_a_fatal_conflict() {
    let page = MarkdownPage {
        title: String::from("A"),
        source: String::from("a.md"),
        attachments: Vec::new(),
        local_links: Vec::new(),
        front_matter: FrontMatter {
            emoji: String::new(),
            labels: Vec::new(),
            unknown_keys: Vec::new(),
        },
        warnings: Vec::new(),
    };
    let mut registry = LinkGenerator::new("example.net", "TEAM");
    assert!(registry.register_markdown_page(&page).is_ok());
    let conflict = registry.register_markdown_page(&page);
    assert_eq!(conflict.err().unwrap().path, "a.md");
}

#[test]
fn paths_normalize_against_the_referencing_directory() {
    assert_eq!(
        normalize_path("docs", "./sub/b.md"),
        Some(String::from("docs/sub/b.md"))
    );
    assert_eq!(
        normalize_path("docs/sub", "../x.md"),
        Some(String::from("docs/x.md"))
    );
    assert_eq!(normalize_path("", "../x.md"), None);
    assert_eq!(normalize_path("", "a.md"), Some(String::from("a.md")));
}

#[test]
fn sorting_keys_is_stable_under_content() {
    let keys = vec![
        String::from("b"),
        String::from("a"),
        String::from("ab"),
        String::from("a"),
    ];
    let sorted = markspace::chars::sort_strings(&keys);
    assert_eq!(sorted, vec!["a", "a", "ab", "b"]);
}

#[test]
fn parent_documents_are_the_index_of_the_directory() {
    assert_eq!(get_parent_file("index.md"), None);
    assert_eq!(get_parent_file("a.md"), Some(String::from("index.md")));
    assert_eq!(
        get_parent_file("docs/a.md"),
        Some(String::from("docs/index.md"))
    );
    assert_eq!(
        get_parent_file("docs/index.md"),
        Some(String::from("index.md"))
    );
    assert_eq!(
        get_parent_file("docs/sub/index.md"),
        Some(String::from("docs/index.md"))
    );
}

#[test]
fn checksums_are_the_sha256_of_the_exact_bytes() {
    assert_eq!(
        sha256_digest(""),
        "e3b0c44298fc1c149afbf4c8996fb92427ae41e4649b934ca495991b7852b855"
    );
    assert_eq!(
        sha256_digest("abc"),
        "ba7816bf8f01cfea414140de5dae2223b00361a396177a9cb410ff61f20015ad"
    );
}

#[test]
fn the_home_page_is_the_root_index() {
    let home = rendered("index.md", "<p>home</p>", None);
    assert!(home.is_home_page());
    let other = rendered("docs/a.md", "<p>x</p>", None);
    assert!(!other.is_home_page());
}

#[test]
fn rendered_pages_carry_the_canonical_marker() {
    let page = rendered("docs/a.md", "<p>x</p>", None);
    let message = page.version_message();
    let expected = build_version_message("docs/a.md", page.checksum.as_str());
    assert_eq!(message, expected);
    assert!(message.starts_with("updated by markedspace: source=docs/a.md; checksum="));
}

#[test]
fn the_snapshot_holds_all_pages_and_only_folder_descendants() {
    let pages = vec![PageBulkWithoutBody {
        id: String::from("1"),
        title: String::from("Managed"),
        parent_id: None,
        status: ContentStatus::Current,
        version: Version {
            message: build_version_message("a.md", "00ff"),
            number: 3,
        },
    }];
    let descendants = vec![
        Descendant {
            id: String::from("2"),
            parent_id: String::from("1"),
            title: String::from("A Folder"),
            _type: String::from("folder"),
        },
        Descendant {
            id: String::from("3"),
            parent_id: String::from("1"),
            title: String::from("A Page Seen As Descendant"),
            _type: String::from("page"),
        },
    ];
    let nodes = ConfluenceNode::get_all(&pages, &descendants);
    assert_eq!(nodes.len(), 2);
    match &nodes[0].data {
        ConfluenceNodeType::Page(d) => {
            assert_eq!(d.path.as_deref(), Some("a.md"));
            assert!(d.is_managed());
        }
        other => panic!("expected a page node, got {:?}", other),
    }
    assert!(matches!(
        nodes[1].data,
        ConfluenceNodeType::Folder(ConfluenceFolder {})
    ));
    assert_eq!(nodes[1].id, "2");
}
