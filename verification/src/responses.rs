//! Plain records for what the remote workspace reports: node revisions,
//! statuses, paginated page and descendant listings, and content
//! properties. The transport that fetches them is external; the records
//! hold only plain values.

use vstd::prelude::*;

verus! {

/// A node revision: a monotonic number and the revision message, which may
/// embed a provenance marker.
#[derive(Debug, Clone, PartialEq, Eq)]
pub struct Version {
    pub message: String,
    pub number: u64,
}

/// The mathematical content of a revision.
pub struct VersionView {
    pub message: Seq<char>,
    pub number: int,
}

impl View for Version {
    type V = VersionView;

    open spec fn view(&self) -> VersionView {
        VersionView { message: self.message@, number: self.number as int }
    }
}

impl DeepView for Version {
    type V = VersionView;

    open spec fn deep_view(&self) -> VersionView {
        self.view()
    }
}

/// A remote node is either current or archived.
#[derive(Debug, Clone, Copy, PartialEq, Eq, Structural)]
pub enum ContentStatus {
    Current,
    Archived,
}

/// One record of the paginated page listing, without its body.
#[derive(Debug, Clone)]
pub struct PageBulkWithoutBody {
    pub id: String,
    pub title: String,
    pub parent_id: Option<String>,
    pub status: ContentStatus,
    pub version: Version,
}

/// The mathematical content of a page-listing record.
pub struct PageRecordView {
    pub id: Seq<char>,
    pub title: Seq<char>,
    pub parent_id: Option<Seq<char>>,
    pub status: ContentStatus,
    pub version: VersionView,
}

impl View for PageBulkWithoutBody {
    type V = PageRecordView;

    open spec fn view(&self) -> PageRecordView {
        PageRecordView {
            id: self.id@,
            title: self.title@,
            parent_id: self.parent_id.deep_view(),
            status: self.status,
            version: self.version@,
        }
    }
}

impl DeepView for PageBulkWithoutBody {
    type V = PageRecordView;

    open spec fn deep_view(&self) -> PageRecordView {
        self.view()
    }
}

/// One record of the paginated descendant listing; `_type` discriminates
/// folders from pages.
#[derive(Debug, Clone)]
pub struct Descendant {
    pub id: String,
    pub parent_id: String,
    pub title: String,
    pub _type: String,
}

/// The mathematical content of a descendant record.
pub struct DescendantView {
    pub id: Seq<char>,
    pub parent_id: Seq<char>,
    pub title: Seq<char>,
    pub _type: Seq<char>,
}

impl View for Descendant {
    type V = DescendantView;

    open spec fn view(&self) -> DescendantView {
        DescendantView {
            id: self.id@,
            parent_id: self.parent_id@,
            title: self.title@,
            _type: self._type@,
        }
    }
}

impl DeepView for Descendant {
    type V = DescendantView;

    open spec fn deep_view(&self) -> DescendantView {
        self.view()
    }
}

/// A property value: either text or the null sentinel that asks the remote
/// side to remove the property.
#[derive(Debug, Clone, PartialEq, Eq)]
pub enum PropertyValue {
    Null,
    Text(String),
}

impl View for PropertyValue {
    type V = Option<Seq<char>>;

    open spec fn view(&self) -> Option<Seq<char>> {
        match self {
            PropertyValue::Null => None,
            PropertyValue::Text(s) => Some(s@),
        }
    }
}

/// A key-value property attached to a remote node, with its own revision.
#[derive(Debug, Clone, PartialEq, Eq)]
pub struct ContentProperty {
    pub id: String,
    pub key: String,
    pub value: PropertyValue,
    pub version: Version,
}

/// The mathematical content of a content property.
pub struct ContentPropertyView {
    pub id: Seq<char>,
    pub key: Seq<char>,
    pub value: Option<Seq<char>>,
    pub version: VersionView,
}

impl View for ContentProperty {
    type V = ContentPropertyView;

    open spec fn view(&self) -> ContentPropertyView {
        ContentPropertyView {
            id: self.id@,
            key: self.key@,
            value: self.value@,
            version: self.version@,
        }
    }
}

impl DeepView for ContentProperty {
    type V = ContentPropertyView;

    open spec fn deep_view(&self) -> ContentPropertyView {
        self.view()
    }
}

} // verus!
