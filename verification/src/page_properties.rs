//! The property differ: diffs each document-derived key-value property
//! against the remote property of the same key and emits at most one
//! versioned update per property. An unchanged value never re-emits an
//! update; a changed value advances the revision by exactly one.

use crate::chars::str_eq;
use crate::markdown_page::MarkdownPage;
use crate::page_emojis::{parse_emoji, spec_parse_emoji};
use crate::responses::{
    ContentProperty, ContentPropertyView, PropertyValue, Version, VersionView,
};
use vstd::prelude::*;
use vstd::string::StringExecFns;

verus! {

/// The key of the page emoji property.
pub const EMOJI_TITLE_PUBLISHED_PROP: &'static str = "emoji-title-published";

/// The first remote property with the given key.
pub open spec fn spec_find_property(
    props: Seq<ContentPropertyView>,
    key: Seq<char>,
) -> Option<ContentPropertyView>
    decreases props.len(),
{
    if props.len() == 0 {
        None
    } else if props[0].key == key {
        Some(props[0])
    } else {
        spec_find_property(props.drop_first(), key)
    }
}

/// The update emitted for one property, by the diff table: nothing when
/// both sides are absent or equal; a removal (the null sentinel, keeping
/// the remote revision) when only the remote side has a value; a creation
/// at revision zero when only the local side has one; and an update at the
/// remote revision plus one when the values differ.
pub open spec fn spec_property_update(
    key: Seq<char>,
    local: Option<Seq<char>>,
    remote: Option<ContentPropertyView>,
) -> Option<ContentPropertyView> {
    match (local, remote) {
        (None, None) => None,
        (None, Some(p)) => if p.value is Some {
            Some(ContentPropertyView { id: p.id, key, value: None, version: p.version })
        } else {
            None
        },
        (Some(x), None) => Some(
            ContentPropertyView {
                id: Seq::empty(),
                key,
                value: Some(x),
                version: VersionView { message: Seq::empty(), number: 0 },
            },
        ),
        (Some(x), Some(p)) => if p.value == Some(x) {
            None
        } else {
            Some(
                ContentPropertyView {
                    id: p.id,
                    key,
                    value: Some(x),
                    version: VersionView { message: p.version.message, number: p.version.number + 1 },
                },
            )
        },
    }
}

/// The first remote property with the given key.
fn find_property<'a>(props: &'a Vec<ContentProperty>, key: &str) -> (r: Option<
    &'a ContentProperty,
>)
    ensures
        match r {
            Some(p) => spec_find_property(props.deep_view(), key@) == Some(p@),
            None => spec_find_property(props.deep_view(), key@) is None,
        },
{
    let n = props.len();
    let mut i: usize = 0;
    proof {
        assert(props.deep_view().skip(0) =~= props.deep_view());
    }
    while i < n
        invariant
            i <= n,
            n == props@.len(),
            spec_find_property(props.deep_view(), key@) == spec_find_property(
                props.deep_view().skip(i as int),
                key@,
            ),
        decreases n - i,
    {
        let ghost pre = props.deep_view().skip(i as int);
        proof {
            assert(pre[0] == props.deep_view()[i as int]);
            assert(pre.drop_first() =~= props.deep_view().skip(i + 1));
        }
        if str_eq(props[i].key.as_str(), key) {
            return Some(&props[i]);
        }
        i = i + 1;
    }
    None
}

/// Diffs one property: the local value against the remote property of the
/// same key, per `spec_property_update`.
pub fn diff_property(key: &str, local: &Option<String>, existing: &Vec<ContentProperty>) -> (r:
    Option<ContentProperty>)
    requires
        forall|i: int|
            0 <= i < existing@.len() ==> (#[trigger] existing@[i]).version.number < u64::MAX,
    ensures
        r.deep_view() == spec_property_update(
            key@,
            local.deep_view(),
            spec_find_property(existing.deep_view(), key@),
        ),
{
    let found = find_property(existing, key);
    proof {
        lemma_find_property_bound(existing.deep_view(), key@);
    }
    match (local, found) {
        (None, None) => None,
        (None, Some(p)) => {
            match &p.value {
                PropertyValue::Text(_) => Some(
                    ContentProperty {
                        id: p.id.clone(),
                        key: String::from_str(key),
                        value: PropertyValue::Null,
                        version: Version {
                            message: p.version.message.clone(),
                            number: p.version.number,
                        },
                    },
                ),
                PropertyValue::Null => None,
            }
        },
        (Some(x), None) => Some(
            ContentProperty {
                id: String::new(),
                key: String::from_str(key),
                value: PropertyValue::Text(x.clone()),
                version: Version { message: String::new(), number: 0 },
            },
        ),
        (Some(x), Some(p)) => {
            let same = match &p.value {
                PropertyValue::Text(t) => str_eq(t.as_str(), x.as_str()),
                PropertyValue::Null => false,
            };
            if same {
                None
            } else {
                Some(
                    ContentProperty {
                        id: p.id.clone(),
                        key: String::from_str(key),
                        value: PropertyValue::Text(x.clone()),
                        version: Version {
                            message: p.version.message.clone(),
                            number: p.version.number + 1,
                        },
                    },
                )
            }
        },
    }
}

/// A property `spec_find_property` returns is one of the properties.
proof fn lemma_find_property_bound(props: Seq<ContentPropertyView>, key: Seq<char>)
    ensures
        spec_find_property(props, key) matches Some(p) ==> exists|i: int|
            0 <= i < props.len() && props[i] == p,
    decreases props.len(),
{
    if props.len() > 0 {
        lemma_find_property_bound(props.drop_first(), key);
        if props[0].key != key {
            match spec_find_property(props.drop_first(), key) {
                Some(p) => {
                    let i = choose|i: int|
                        0 <= i < props.drop_first().len() && props.drop_first()[i] == p;
                    assert(props[i + 1] == p);
                },
                None => {},
            }
        }
    }
}

/// The updates a document's derived properties need against the remote
/// properties already fetched for its node: at most one per property. The
/// one derived property is the page emoji indicator.
pub fn get_property_updates(
    page: &MarkdownPage,
    existing_properties: &Vec<ContentProperty>,
) -> (r: Vec<ContentProperty>)
    requires
        forall|i: int|
            0 <= i < existing_properties@.len() ==> (#[trigger] existing_properties@[i]).version.number
                < u64::MAX,
    ensures
        r.deep_view() == spec_property_updates(
            spec_parse_emoji(page.front_matter.emoji@),
            existing_properties.deep_view(),
        ),
{
    let emoji = parse_emoji(page);
    let mut r: Vec<ContentProperty> = Vec::new();
    match diff_property(EMOJI_TITLE_PUBLISHED_PROP, &emoji, existing_properties) {
        Some(p) => {
            r.push(p);
            proof {
                assert(r.deep_view() =~= spec_property_updates(
                    spec_parse_emoji(page.front_matter.emoji@),
                    existing_properties.deep_view(),
                ));
            }
        },
        None => {
            proof {
                assert(r.deep_view() =~= spec_property_updates(
                    spec_parse_emoji(page.front_matter.emoji@),
                    existing_properties.deep_view(),
                ));
            }
        },
    }
    r
}

/// All updates emitted for a document: the diff of the emoji property.
pub open spec fn spec_property_updates(
    emoji: Option<Seq<char>>,
    existing: Seq<ContentPropertyView>,
) -> Seq<ContentPropertyView> {
    match spec_property_update(
        "emoji-title-published"@,
        emoji,
        spec_find_property(existing, "emoji-title-published"@),
    ) {
        Some(p) => seq![p],
        None => Seq::empty(),
    }
}

} // verus!
