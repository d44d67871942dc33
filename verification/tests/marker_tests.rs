use markspace::confluence_page::ConfluencePageData;
use markspace::marker::{build_version_message, marker_field_str, message_is_managed};
use markspace::responses::Version;

fn test_extract_path_from_string(s: &str) -> Option<String> {
    ConfluencePageData::extract_path(&Version {
        message: String::from(s),
        number: 27,
    })
}

fn test_extract_path_from_string_with_prefix(s: &str) -> Option<String> {
    ConfluencePageData::extract_path(&Version {
        message: ConfluencePageData::version_message_prefix().to_owned() + s,
        number: 27,
    })
}

#[test]
fn it_extracts_paths() {
    let result = test_extract_path_from_string("not a markspace update");
    assert!(result.is_none());

    let result = test_extract_path_from_string_with_prefix("checksum=CHECKSUM; source=FILE");
    assert!(result.is_some());
    let path = result.unwrap();
    assert_eq!(path.as_str(), "FILE");
}

#[test]
fn it_round_trips_the_marker() {
    let message = build_version_message("docs/a.md", "deadbeef");
    assert_eq!(
        message,
        "updated by markedspace: source=docs/a.md; checksum=deadbeef"
    );
    let version = Version {
        message,
        number: 3,
    };
    assert_eq!(
        ConfluencePageData::extract_path(&version),
        Some(String::from("docs/a.md"))
    );
    assert_eq!(
        ConfluencePageData::extract_checksum(&version),
        Some(String::from("deadbeef"))
    );
}

#[test]
fn it_writes_backslashes_as_forward_slashes() {
    let message = build_version_message("docs\\sub\\a.md", "00ff");
    assert_eq!(
        message,
        "updated by markedspace: source=docs/sub/a.md; checksum=00ff"
    );
}

#[test]
fn it_marks_only_prefixed_messages_as_managed() {
    assert!(message_is_managed(
        "updated by markedspace: source=a.md; checksum=00"
    ));
    assert!(!message_is_managed("an ordinary human edit"));
    assert!(!message_is_managed(""));
}

#[test]
fn it_takes_the_last_clause_with_the_same_key() {
    let result =
        test_extract_path_from_string_with_prefix(" source=first.md; source=second.md");
    assert_eq!(result, Some(String::from("second.md")));
}

#[test]
fn it_ignores_clauses_without_an_equals_sign() {
    let result =
        test_extract_path_from_string_with_prefix(" just some words; source=real.md");
    assert_eq!(result, Some(String::from("real.md")));
}

#[test]
fn it_trims_whitespace_around_keys_and_values() {
    let result =
        test_extract_path_from_string_with_prefix("  source =  spaced.md  ; checksum=00");
    assert_eq!(result, Some(String::from("spaced.md")));
}

#[test]
fn it_finds_no_field_in_a_marker_without_it() {
    let message = "updated by markedspace: checksum=abc";
    assert_eq!(marker_field_str(message, "source"), None);
    assert_eq!(marker_field_str(message, "checksum"), Some(String::from("abc")));
}
