//! The in-memory snapshot of the remote tree: nodes recovered from the
//! paginated page and descendant listings, with the provenance marker
//! decoded into a prior source path where a page is managed.

use crate::chars::str_eq;
use crate::marker::{
    is_managed_message, marker_checksum, marker_field_str, marker_source, message_is_managed,
    spec_version_message_prefix, version_message_prefix,
};
use crate::responses::{
    ContentStatus, Descendant, DescendantView, PageBulkWithoutBody, PageRecordView, Version,
    VersionView,
};
use vstd::prelude::*;

verus! {

/// A remote node is a page (with revision, recovered path and status) or a
/// pure hierarchy folder. Folders carry no marker and are never archived.
#[derive(Debug, Clone)]
pub enum ConfluenceNodeType {
    Page(ConfluencePageData),
    Folder(ConfluenceFolder),
}

/// One node of the remote tree snapshot.
#[derive(Debug, Clone)]
pub struct ConfluenceNode {
    pub id: String,
    pub title: String,
    pub parent_id: Option<String>,
    pub data: ConfluenceNodeType,
}

/// The page-specific part of a remote node.
#[derive(Debug, Clone)]
pub struct ConfluencePageData {
    pub version: Version,
    pub path: Option<String>,
    pub status: ContentStatus,
}

/// The folder-specific part of a remote node; folders are hierarchy only.
#[derive(Debug, Clone)]
pub struct ConfluenceFolder {}

/// The mathematical content of a page node's data.
pub struct PageDataView {
    pub version: VersionView,
    pub path: Option<Seq<char>>,
    pub status: ContentStatus,
}

/// The mathematical content of a node's kind-specific data.
pub enum NodeDataView {
    Page(PageDataView),
    Folder,
}

/// The mathematical content of a snapshot node.
pub struct NodeView {
    pub id: Seq<char>,
    pub title: Seq<char>,
    pub parent_id: Option<Seq<char>>,
    pub data: NodeDataView,
}

impl View for ConfluencePageData {
    type V = PageDataView;

    open spec fn view(&self) -> PageDataView {
        PageDataView {
            version: self.version@,
            path: self.path.deep_view(),
            status: self.status,
        }
    }
}

impl View for ConfluenceNodeType {
    type V = NodeDataView;

    open spec fn view(&self) -> NodeDataView {
        match self {
            ConfluenceNodeType::Page(d) => NodeDataView::Page(d@),
            ConfluenceNodeType::Folder(_) => NodeDataView::Folder,
        }
    }
}

impl View for ConfluenceNode {
    type V = NodeView;

    open spec fn view(&self) -> NodeView {
        NodeView {
            id: self.id@,
            title: self.title@,
            parent_id: self.parent_id.deep_view(),
            data: self.data@,
        }
    }
}

impl DeepView for ConfluenceNode {
    type V = NodeView;

    open spec fn deep_view(&self) -> NodeView {
        self.view()
    }
}

/// The node a page-listing record maps to: the identity fields are copied
/// and the prior source path is recovered from the revision message.
pub open spec fn spec_page_node(p: PageRecordView) -> NodeView {
    NodeView {
        id: p.id,
        title: p.title,
        parent_id: p.parent_id,
        data: NodeDataView::Page(
            PageDataView {
                status: p.status,
                path: marker_source(p.version.message),
                version: p.version,
            },
        ),
    }
}

/// The node a folder descendant record maps to.
pub open spec fn spec_folder_node(d: DescendantView) -> NodeView {
    NodeView {
        id: d.id,
        title: d.title,
        parent_id: Some(d.parent_id),
        data: NodeDataView::Folder,
    }
}

/// Whether a descendant record is a folder.
pub open spec fn is_folder_record(d: DescendantView) -> bool {
    d._type == "folder"@
}

/// The nodes of a page listing, in order.
pub open spec fn spec_page_nodes(pages: Seq<PageRecordView>) -> Seq<NodeView> {
    pages.map_values(|p: PageRecordView| spec_page_node(p))
}

/// The nodes of a descendant listing: its folder records, in order.
pub open spec fn spec_folder_nodes(ds: Seq<DescendantView>) -> Seq<NodeView> {
    ds.filter(|d: DescendantView| is_folder_record(d)).map_values(
        |d: DescendantView| spec_folder_node(d),
    )
}

/// The whole snapshot: all pages, then all folders.
pub open spec fn spec_get_all(
    pages: Seq<PageRecordView>,
    ds: Seq<DescendantView>,
) -> Seq<NodeView> {
    spec_page_nodes(pages) + spec_folder_nodes(ds)
}

proof fn lemma_page_nodes_step(pages: Seq<PageRecordView>, i: int)
    requires
        0 <= i < pages.len(),
    ensures
        spec_page_nodes(pages.take(i + 1)) == spec_page_nodes(pages.take(i)).push(
            spec_page_node(pages[i]),
        ),
{
    assert(spec_page_nodes(pages.take(i + 1)) =~= spec_page_nodes(pages.take(i)).push(
        spec_page_node(pages[i]),
    ));
}

proof fn lemma_folder_nodes_step(ds: Seq<DescendantView>, i: int)
    requires
        0 <= i < ds.len(),
    ensures
        spec_folder_nodes(ds.take(i + 1)) == if is_folder_record(ds[i]) {
            spec_folder_nodes(ds.take(i)).push(spec_folder_node(ds[i]))
        } else {
            spec_folder_nodes(ds.take(i))
        },
{
    reveal(Seq::filter);
    let pred = |d: DescendantView| is_folder_record(d);
    let t1 = ds.take(i + 1);
    assert(t1.drop_last() =~= ds.take(i));
    assert(t1.last() == ds[i]);
    if is_folder_record(ds[i]) {
        assert(t1.filter(pred) == ds.take(i).filter(pred).push(ds[i]));
        assert(spec_folder_nodes(t1) =~= spec_folder_nodes(ds.take(i)).push(
            spec_folder_node(ds[i]),
        ));
    } else {
        assert(t1.filter(pred) == ds.take(i).filter(pred));
        assert(spec_folder_nodes(t1) =~= spec_folder_nodes(ds.take(i)));
    }
}

impl ConfluenceNode {
    /// Builds the snapshot from the fully drained page and descendant
    /// listings: every page record becomes a page node, every folder
    /// descendant a folder node, in listing order. The pagination that
    /// produced the records is external and performs no writes.
    pub fn get_all(pages: &Vec<PageBulkWithoutBody>, descendants: &Vec<Descendant>) -> (r: Vec<
        ConfluenceNode,
    >)
        ensures
            r.deep_view() == spec_get_all(pages.deep_view(), descendants.deep_view()),
    {
        let mut r: Vec<ConfluenceNode> = Vec::new();
        let mut i: usize = 0;
        while i < pages.len()
            invariant
                i <= pages@.len(),
                r.deep_view() == spec_page_nodes(pages.deep_view().take(i as int)),
            decreases pages@.len() - i,
        {
            let node = Self::new_from_page_bulk(&pages[i]);
            r.push(node);
            proof {
                lemma_page_nodes_step(pages.deep_view(), i as int);
                assert(r.deep_view() =~= spec_page_nodes(pages.deep_view().take(i + 1)));
            }
            i = i + 1;
        }
        proof {
            assert(pages.deep_view().take(pages.deep_view().len() as int) =~= pages.deep_view());
        }
        let mut j: usize = 0;
        while j < descendants.len()
            invariant
                j <= descendants@.len(),
                r.deep_view() == spec_page_nodes(pages.deep_view()) + spec_folder_nodes(
                    descendants.deep_view().take(j as int),
                ),
            decreases descendants@.len() - j,
        {
            let ghost r0 = r.deep_view();
            let ghost dv = descendants.deep_view();
            let is_folder = str_eq(descendants[j]._type.as_str(), "folder");
            proof {
                assert(dv[j as int] == descendants@[j as int]@);
                assert(is_folder == is_folder_record(dv[j as int]));
            }
            if is_folder {
                let node = Self::folder_from_descendant(&descendants[j]);
                r.push(node);
                proof {
                    assert(r.deep_view() =~= r0.push(spec_folder_node(dv[j as int])));
                }
            }
            proof {
                lemma_folder_nodes_step(dv, j as int);
                assert(r.deep_view() =~= spec_page_nodes(pages.deep_view()) + spec_folder_nodes(
                    dv.take(j + 1),
                ));
            }
            j = j + 1;
        }
        proof {
            assert(descendants.deep_view().take(descendants.deep_view().len() as int)
                =~= descendants.deep_view());
        }
        r
    }

    /// The page node for one page-listing record.
    pub fn new_from_page_bulk(bulk_page: &PageBulkWithoutBody) -> (r: Self)
        ensures
            r@ == spec_page_node(bulk_page@),
    {
        let parent_id = match &bulk_page.parent_id {
            Some(p) => Some(p.clone()),
            None => None,
        };
        let version = Version {
            message: bulk_page.version.message.clone(),
            number: bulk_page.version.number,
        };
        ConfluenceNode {
            id: bulk_page.id.clone(),
            parent_id,
            title: bulk_page.title.clone(),
            data: ConfluenceNodeType::Page(
                ConfluencePageData {
                    status: bulk_page.status,
                    path: ConfluencePageData::extract_path(&bulk_page.version),
                    version,
                },
            ),
        }
    }

    /// The page data of a page node, or nothing for a folder.
    pub fn page_data(&self) -> (r: Option<&ConfluencePageData>)
        ensures
            match self.data {
                ConfluenceNodeType::Page(d) => r matches Some(p) && *p == d,
                ConfluenceNodeType::Folder(_) => r is None,
            },
    {
        match &self.data {
            ConfluenceNodeType::Page(confluence_page_data) => Some(confluence_page_data),
            _ => None,
        }
    }

    /// The folder node for one descendant record.
    pub fn folder_from_descendant(d: &Descendant) -> (r: Self)
        ensures
            r@ == spec_folder_node(d@),
    {
        ConfluenceNode {
            id: d.id.clone(),
            parent_id: Some(d.parent_id.clone()),
            title: d.title.clone(),
            data: ConfluenceNodeType::Folder(ConfluenceFolder {}),
        }
    }
}

/// A remote page in the flat shape the link registry consumes: identity,
/// title, recovered path and status side by side.
#[derive(Debug, Clone)]
pub struct ConfluencePage {
    pub id: String,
    pub title: String,
    pub parent_id: Option<String>,
    pub version: Version,
    pub path: Option<String>,
    pub status: ContentStatus,
}

impl ConfluencePage {
    /// The fixed prefix that marks a revision message as managed.
    pub fn version_message_prefix() -> (r: &'static str)
        ensures
            r@ == spec_version_message_prefix(),
    {
        version_message_prefix()
    }
}

impl ConfluencePageData {
    /// The fixed prefix that marks a revision message as managed.
    pub fn version_message_prefix() -> (r: &'static str)
        ensures
            r@ == spec_version_message_prefix(),
    {
        version_message_prefix()
    }

    /// The source path recovered from a revision message's marker, if the
    /// message carries one.
    pub fn extract_path(version: &Version) -> (r: Option<String>)
        ensures
            r.deep_view() == marker_source(version.message@),
    {
        marker_field_str(version.message.as_str(), "source")
    }

    /// The content checksum recovered from a revision message's marker.
    pub fn extract_checksum(version: &Version) -> (r: Option<String>)
        ensures
            r.deep_view() == marker_checksum(version.message@),
    {
        marker_field_str(version.message.as_str(), "checksum")
    }

    /// Whether this page is managed by this system: its revision message
    /// starts with the fixed marker prefix. Unmanaged pages are read-only
    /// input and are never mutated.
    pub fn is_managed(&self) -> (r: bool)
        ensures
            r == is_managed_message(self.version.message@),
    {
        message_is_managed(self.version.message.as_str())
    }
}

} // verus!
