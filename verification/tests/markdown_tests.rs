use comrak::nodes::{AstNode, NodeValue};
use comrak::{parse_document, Arena, Options};
use markspace::link_generator::LinkGenerator;
use markspace::local_link::LocalLink;
use markspace::markdown_page::{DocNode, FrontMatter, MarkdownPage};
use markspace::page_emojis::parse_emoji;
use markspace::page_properties::{get_property_updates, EMOJI_TITLE_PUBLISHED_PROP};
use markspace::responses::{ContentProperty, PropertyValue, Version};

fn collect_text<'a>(node: &'a AstNode<'a>, out: &mut String) {
    match &node.data.borrow().value {
        NodeValue::Text(t) => out.push_str(t),
        NodeValue::Code(c) => out.push_str(&c.literal),
        _ => {}
    }
    for c in node.children() {
        collect_text(c, out);
    }
}

fn walk<'a>(node: &'a AstNode<'a>, nodes: &mut Vec<DocNode>, fm_text: &mut Option<String>) {
    match &node.data.borrow().value {
        NodeValue::FrontMatter(t) => {
            *fm_text = Some(t.clone());
        }
        NodeValue::Heading(h) => {
            let mut text = String::new();
            for c in node.children() {
                collect_text(c, &mut text);
            }
            nodes.push(DocNode::Heading {
                level: h.level,
                text,
            });
        }
        NodeValue::Image(l) => {
            nodes.push(DocNode::Image { url: l.url.clone() });
        }
        NodeValue::Link(l) => {
            nodes.push(DocNode::Link { url: l.url.clone() });
        }
        _ => {}
    }
    for c in node.children() {
        walk(c, nodes, fm_text);
    }
}

fn front_matter_from_text(t: Option<&str>) -> Result<FrontMatter, String> {
    let mut emoji = String::new();
    let mut labels: Vec<String> = Vec::new();
    let mut keys: Vec<String> = Vec::new();
    if let Some(raw) = t {
        let inner = raw.trim().trim_start_matches("---").trim_end_matches("---");
        let v: serde_yaml::Value = serde_yaml::from_str(inner)
            .map_err(|e| format!("Failed to parse front matter as YAML: {}", e))?;
        if let serde_yaml::Value::Mapping(m) = v {
            for (k, val) in &m {
                if let Some(ks) = k.as_str() {
                    keys.push(ks.to_string());
                    match ks {
                        "emoji" => {
                            if let Some(s) = val.as_str() {
                                emoji = s.to_string();
                            }
                        }
                        "labels" => {
                            if let Some(seq) = val.as_sequence() {
                                for it in seq {
                                    if let Some(s) = it.as_str() {
                                        labels.push(s.to_string());
                                    }
                                }
                            }
                        }
                        _ => {}
                    }
                }
            }
        }
    }
    Ok(FrontMatter::new(emoji, labels, &keys))
}

fn page_from_str(filename: &str, content: &str) -> Result<MarkdownPage, String> {
    let arena = Arena::new();
    let mut options = Options::default();
    options.extension.table = true;
    options.extension.tasklist = true;
    options.extension.strikethrough = true;
    options.extension.front_matter_delimiter = Some("---".to_string());
    options.extension.shortcodes = true;
    let root = parse_document(&arena, content, &options);
    let mut nodes: Vec<DocNode> = Vec::new();
    let mut fm_text: Option<String> = None;
    walk(root, &mut nodes, &mut fm_text);
    let fm = front_matter_from_text(fm_text.as_deref())?;
    MarkdownPage::parse_markdown(filename.to_string(), &nodes, fm).map_err(|e| e.message())
}

fn dummy_confluence_page(title: &str, id: &str) -> markspace::confluence_page::ConfluencePage {
    markspace::confluence_page::ConfluencePage {
        id: id.to_string(),
        title: title.to_string(),
        parent_id: None,
        version: Version {
            message: String::new(),
            number: 1,
        },
        path: None,
        status: markspace::responses::ContentStatus::Current,
    }
}

#[test]
fn it_get_first_heading_as_title() {
    let markdown_content = &String::from("# My Page Title\n\nMy page content");
    let page = page_from_str("page.md", markdown_content).unwrap();

    assert_eq!(page.title, "My Page Title");
}

#[test]
fn it_errors_if_no_heading() {
    let markdown_content = &String::from("My page content");
    let page = page_from_str("page.md", markdown_content);

    assert!(page.is_err());
    assert_eq!(
        page.err().unwrap(),
        "Failed to parse page.md: missing first heading for title"
    );
}

#[test]
fn it_fails_if_first_non_frontmatter_element_is_not_h1() {
    let markdown_content = &String::from("## First Heading Needs to be H1");
    let page = page_from_str("page.md", markdown_content);

    assert!(page.is_err());
    assert_eq!(
        page.err().unwrap(),
        "Failed to parse page.md: first heading in file should be level 1, instead was level 2"
    );
}

#[test]
fn it_parses_file_links_with_anchors() {
    let link_filename = "some-page.md";
    let markdown_content = &format!(
        "# My Page Title\n\nMy page content: [link text]({}#some-anchor)",
        link_filename
    );
    let page = page_from_str("page.md", markdown_content).unwrap();
    assert_eq!(
        page.local_links,
        vec![LocalLink {
            path: link_filename.to_string(),
            anchor: Some(String::from("some-anchor"))
        }]
    );
}

#[test]
fn it_uses_the_title_when_linktext_is_empty() {
    let link_filename = "hello-world.md";
    let link_url = String::from("https://my.atlassian.net/wiki/spaces/TEAM/pages/47");
    let markdown_content = &format!("# My Page Title\n\nMy page content: []({})", link_filename);
    let page = page_from_str("page.md", markdown_content).unwrap();
    let linked_page = page_from_str(link_filename, "# A Linked Page\n").unwrap();

    let mut link_generator = LinkGenerator::new("my.atlassian.net", "TEAM");

    link_generator.register_markdown_page(&page).unwrap();
    link_generator.register_markdown_page(&linked_page).unwrap();
    link_generator.register_confluence_page(&dummy_confluence_page("A Linked Page", "47"));

    assert_eq!(page.local_links.len(), 1);
    let resolved = link_generator.resolve_url(link_filename, "");
    assert_eq!(resolved, Some(link_url));
    // an empty link text falls back to the target's title
    let fallback = link_generator.title_for_path(link_filename);
    assert_eq!(fallback, Some(String::from("A Linked Page")));
}

#[test]
fn it_translates_file_links() {
    let link_url = String::from("https://my.atlassian.net/wiki/spaces/TEAM/pages/47");
    let markdown_content = "# My Page Title\n\nMy page content: [Link text](./hello-world.md)";
    let page = page_from_str("page.md", markdown_content).unwrap();
    let linked_page = page_from_str("hello-world.md", "# A Linked Page\n").unwrap();

    let mut link_generator = LinkGenerator::new("my.atlassian.net", "TEAM");

    link_generator.register_markdown_page(&page).unwrap();
    link_generator.register_markdown_page(&linked_page).unwrap();
    link_generator.register_confluence_page(&dummy_confluence_page("A Linked Page", "47"));

    let resolved = link_generator.resolve_url("./hello-world.md", "");
    assert_eq!(resolved, Some(link_url));
}

#[test]
fn it_translates_relative_file_links() {
    let link_url = String::from("https://my.atlassian.net/wiki/spaces/TEAM/pages/47");
    let markdown_content = "# My Page Title\n\nMy page content: [Link text](./hello-world.md)";
    let page = page_from_str("page.md", markdown_content).unwrap();
    let linked_page = page_from_str("hello-world.md", "# A Linked Page\n").unwrap();

    let mut link_generator = LinkGenerator::new("my.atlassian.net", "TEAM");

    link_generator.register_markdown_page(&page).unwrap();
    link_generator.register_markdown_page(&linked_page).unwrap();
    link_generator.register_confluence_page(&dummy_confluence_page("A Linked Page", "47"));

    assert_eq!(
        page.local_links,
        vec![LocalLink {
            path: String::from("hello-world.md"),
            anchor: None
        }]
    );
    let resolved = link_generator.resolve_url("./hello-world.md", "");
    assert_eq!(resolved, Some(link_url));
}

#[test]
fn it_renders_local_file_as_attached_image() {
    let content = "# My Page Title\n\nMy page content: ![myimage](myimage.png)";
    let page = page_from_str("page.md", content).unwrap();

    assert_eq!(page.attachments.len(), 1);
    assert_eq!(page.attachments[0].url, "myimage.png");
}

#[test]
fn it_renders_url_as_external_image() {
    let image_url = "http://www.example.com/image.png";
    let markdown_content = format!("# My Page Title\n\nMy page content: ![myimage]({})", image_url);
    let page = page_from_str("page.md", markdown_content.as_str()).unwrap();

    // an external image is not an attachment of the page
    assert_eq!(page.attachments.len(), 0);
}

#[test]
fn it_renders_links_to_external_pages() {
    let external_url = "https://example.com";
    let markdown_content = format!("# My Page Title\n\nExternal Link: [example]({})", external_url);
    let page = page_from_str("page.md", markdown_content.as_str()).unwrap();

    // an absolute target passes through: it is not a cross-document link
    assert_eq!(page.local_links.len(), 0);
}

#[test]
fn it_parses_yaml_frontmatter() {
    let markdown_content = "---\nlabels: \n- foo\n- bar\n---\n# compulsory title\n";

    let page = page_from_str("page.md", markdown_content).unwrap();

    let expected_labels = vec!["foo", "bar"];

    assert_eq!(page.front_matter.labels, expected_labels);
}

#[test]
fn it_warns_about_unknown_keys() {
    let markdown_content =
        "---\nunknown_top_level_key: \"foo\"\npage_emoji: \"and typos\"\n---\n# compulsory title\n";

    let page = page_from_str("page.md", markdown_content).unwrap();

    assert_eq!(
        page.warnings,
        vec!["Unknown top level front matter keys: page_emoji, unknown_top_level_key"]
    );
}

#[test]
fn it_fails_if_front_matter_is_invalid_yaml() {
    let markdown_content = "---\n[some section]\nfoo=bar\n---\n# compulsory title\n";

    let result = page_from_str("page.md", markdown_content);

    assert!(result.is_err());

    if let Err(err) = result {
        assert!(
            err.contains("Failed to parse front matter as YAML"),
            "Error did not contain expected error message, actual mesage: {:?}",
            err
        );
    }
}

fn without_emoji_md() -> MarkdownPage {
    let markdown_content = "---\n---\n# Test Heading\n";
    page_from_str("without_emoji.md", markdown_content).unwrap()
}

fn heart_eyes_md() -> MarkdownPage {
    let markdown_content = "---\nemoji:  heart_eyes\n---\n# Test Heading\n";
    page_from_str("heart_eyes.md", markdown_content).unwrap()
}

#[test]
fn it_reads_emoji_in_front_matter() {
    let markdown_content = "---\nemoji:  heart_eyes\n---\n# Test Heading\n";
    let page = page_from_str("test.md", markdown_content).unwrap();
    let emoji = parse_emoji(&page);

    assert_eq!(emoji, Some(String::from("1f60d")));
}

#[test]
fn it_allows_absent_emojis_in_front_matter() {
    let markdown_content = "---\n---\n# Test Heading\n";
    let page = page_from_str("test.md", markdown_content).unwrap();
    let emoji = parse_emoji(&page);

    assert_eq!(emoji, None);
}

#[test]
fn it_fails_if_front_matter_emoji_string_is_not_a_valid_shortcode() {
    let markdown_content = "---\nemoji:  not_a_short_code\n---\n# Test Heading\n";
    let page = page_from_str("test.md", markdown_content).unwrap();
    let emoji = parse_emoji(&page);

    assert_eq!(emoji, None);
}

#[test]
fn it_adds_emoji_to_pages() {
    // given a confluence page without emojis
    // when I add the emoji field to the front matter
    // then it adds it as a property to the confluence page
    let page = heart_eyes_md();

    let existing_properties: Vec<ContentProperty> = Vec::new();

    let property_updates = get_property_updates(&page, &existing_properties);

    let expected_updates = vec![ContentProperty {
        id: String::from(""),
        key: String::from(EMOJI_TITLE_PUBLISHED_PROP),
        value: PropertyValue::Text(String::from("1f60d")),
        version: Version {
            number: 0,
            message: String::from(""),
        },
    }];

    assert_eq!(property_updates, expected_updates)
}

#[test]
fn it_removes_emoji_from_pages() {
    let markdown_content = "\n# Test Heading\n";
    let page = page_from_str("test.md", markdown_content).unwrap();

    let existing_properties: Vec<ContentProperty> = vec![ContentProperty {
        id: String::from("123456"),
        key: String::from(EMOJI_TITLE_PUBLISHED_PROP),
        value: PropertyValue::Text(String::from("1f60d")),
        version: Version {
            number: 0,
            message: String::from(""),
        },
    }];

    let property_updates = get_property_updates(&page, &existing_properties);

    let expected_updates = vec![ContentProperty {
        id: String::from("123456"),
        key: String::from(EMOJI_TITLE_PUBLISHED_PROP),
        value: PropertyValue::Null,
        version: Version {
            number: 0,
            message: String::from(""),
        },
    }];

    assert_eq!(property_updates, expected_updates)
}

#[test]
fn it_updates_existing_emoji() {
    let page = heart_eyes_md();

    let existing_properties: Vec<ContentProperty> = vec![ContentProperty {
        id: String::from("123456"),
        key: String::from(EMOJI_TITLE_PUBLISHED_PROP),
        value: PropertyValue::Text(String::from("1f600")), // not heart_eyes
        version: Version {
            number: 0,
            message: String::from(""),
        },
    }];

    let property_updates = get_property_updates(&page, &existing_properties);

    let expected_updates = vec![ContentProperty {
        id: String::from("123456"),
        key: String::from(EMOJI_TITLE_PUBLISHED_PROP),
        value: PropertyValue::Text(String::from("1f60d")),
        version: Version {
            number: 1, // version should increment
            message: String::from(""),
        },
    }];

    assert_eq!(property_updates, expected_updates)
}

#[test]
fn it_skips_existing_emoji_updates_when_no_change() {
    let page = heart_eyes_md();

    let existing_properties: Vec<ContentProperty> = vec![ContentProperty {
        id: String::from("123456"),
        key: String::from(EMOJI_TITLE_PUBLISHED_PROP),
        value: PropertyValue::Text(String::from("1f60d")),
        version: Version {
            number: 0,
            message: String::from(""),
        },
    }];

    let property_updates = get_property_updates(&page, &existing_properties);

    let expected_updates: Vec<ContentProperty> = Vec::new();

    assert_eq!(property_updates, expected_updates)
}

#[test]
fn it_skips_absent_emoji_updates_when_no_change() {
    let page = without_emoji_md();

    let existing_properties: Vec<ContentProperty> = Vec::new();

    let property_updates = get_property_updates(&page, &existing_properties);

    let expected_updates: Vec<ContentProperty> = Vec::new();

    assert_eq!(property_updates, expected_updates)
}
