//! The reconciler: diffs the rendered local documents against the remote
//! tree snapshot and computes the sync plan. Matching goes by the source
//! path recovered from the provenance marker, never by title. Unmanaged
//! remote nodes and folders appear on neither side of the plan.

use crate::confluence_page::{ConfluenceNode, ConfluenceNodeType, NodeDataView, NodeView};
use crate::markdown_page::{RenderedPage, RenderedPageView};
use crate::marker::spec_version_message;
use crate::responses::ContentStatus;
use vstd::prelude::*;

verus! {

/// What the plan does for one local document.
#[derive(Debug, Clone)]
pub enum DocAction {
    /// No remote node matches: create a new page under the resolved parent.
    Create { parent_id: Option<String> },
    /// The matched node's content differs: rewrite body and marker, with a
    /// conflict check against the last observed revision.
    UpdateContent { node_id: String, expected_revision: u64 },
    /// The content is unchanged but the stored message is not the canonical
    /// marker: refresh the marker only.
    UpdateMarkerOnly { node_id: String, expected_revision: u64 },
    /// The stored message is exactly the canonical marker: nothing to do.
    NoOp { node_id: String },
    /// The document is not the home page and its parent resolved to no
    /// remote node: fatal for this document only.
    OrphanParentMissing,
}

/// The mathematical content of a document action.
pub enum DocActionView {
    Create { parent_id: Option<Seq<char>> },
    UpdateContent { node_id: Seq<char>, expected_revision: int },
    UpdateMarkerOnly { node_id: Seq<char>, expected_revision: int },
    NoOp { node_id: Seq<char> },
    OrphanParentMissing,
}

impl View for DocAction {
    type V = DocActionView;

    open spec fn view(&self) -> DocActionView {
        match self {
            DocAction::Create { parent_id } => DocActionView::Create {
                parent_id: parent_id.deep_view(),
            },
            DocAction::UpdateContent { node_id, expected_revision } => DocActionView::UpdateContent {
                node_id: node_id@,
                expected_revision: *expected_revision as int,
            },
            DocAction::UpdateMarkerOnly { node_id, expected_revision } => DocActionView::UpdateMarkerOnly {
                node_id: node_id@,
                expected_revision: *expected_revision as int,
            },
            DocAction::NoOp { node_id } => DocActionView::NoOp { node_id: node_id@ },
            DocAction::OrphanParentMissing => DocActionView::OrphanParentMissing,
        }
    }
}

/// The plan entry for one local document: an optional unarchive that is
/// applied first, then the action.
#[derive(Debug, Clone)]
pub struct DocPlan {
    pub source: String,
    pub unarchive_node: Option<String>,
    pub action: DocAction,
}

/// The mathematical content of a plan entry.
pub struct DocPlanView {
    pub source: Seq<char>,
    pub unarchive_node: Option<Seq<char>>,
    pub action: DocActionView,
}

impl View for DocPlan {
    type V = DocPlanView;

    open spec fn view(&self) -> DocPlanView {
        DocPlanView {
            source: self.source@,
            unarchive_node: self.unarchive_node.deep_view(),
            action: self.action@,
        }
    }
}

impl DeepView for DocPlan {
    type V = DocPlanView;

    open spec fn deep_view(&self) -> DocPlanView {
        self.view()
    }
}

/// The whole sync plan: one entry per local document, in input order, and
/// the ids of the orphaned nodes to archive.
#[derive(Debug)]
pub struct SyncPlan {
    pub docs: Vec<DocPlan>,
    pub archives: Vec<String>,
}

/// The first remote node whose recovered source path is `path`. Nodes
/// without a recovered path (folders, unmanaged pages) never match.
pub open spec fn find_node_by_path(remote: Seq<NodeView>, path: Seq<char>) -> Option<NodeView>
    decreases remote.len(),
{
    if remote.len() == 0 {
        None
    } else if node_has_path(remote[0], path) {
        Some(remote[0])
    } else {
        find_node_by_path(remote.drop_first(), path)
    }
}

/// Whether a node is a page whose recovered source path is `path`.
pub open spec fn node_has_path(n: NodeView, path: Seq<char>) -> bool {
    match n.data {
        NodeDataView::Page(d) => d.path == Some(path),
        NodeDataView::Folder => false,
    }
}

/// The plan entry for one local document against the snapshot, following
/// the reconciliation table: no match means create (or a fatal missing
/// parent); a match is unarchived first when archived, then gets no-op,
/// marker refresh or content update by comparing the stored message with
/// the canonical marker.
pub open spec fn spec_doc_plan(doc: RenderedPageView, remote: Seq<NodeView>) -> DocPlanView {
    match find_node_by_path(remote, doc.source) {
        None => DocPlanView {
            source: doc.source,
            unarchive_node: None,
            action: if doc.parent is Some || doc.source == "index.md"@ {
                DocActionView::Create { parent_id: doc.parent }
            } else {
                DocActionView::OrphanParentMissing
            },
        },
        Some(n) => {
            let d = n.data->Page_0;
            DocPlanView {
                source: doc.source,
                unarchive_node: if d.status == ContentStatus::Archived {
                    Some(n.id)
                } else {
                    None
                },
                action: if d.version.message == spec_version_message(doc.source, doc.checksum) {
                    DocActionView::NoOp { node_id: n.id }
                } else if crate::marker::marker_checksum(d.version.message) == Some(doc.checksum) {
                    DocActionView::UpdateMarkerOnly {
                        node_id: n.id,
                        expected_revision: d.version.number,
                    }
                } else {
                    DocActionView::UpdateContent {
                        node_id: n.id,
                        expected_revision: d.version.number,
                    }
                },
            }
        },
    }
}

/// Whether a node is an orphan against the local documents: a managed page
/// (it has a recovered path), still current, whose path no local document
/// carries. Folders and unmanaged pages are never orphans; already
/// archived pages need nothing.
pub open spec fn is_orphan_node(n: NodeView, locals: Seq<RenderedPageView>) -> bool {
    match n.data {
        NodeDataView::Page(d) => d.path matches Some(p) && d.status == ContentStatus::Current
            && !(exists|i: int| 0 <= i < locals.len() && (#[trigger] locals[i]).source == p),
        NodeDataView::Folder => false,
    }
}

/// The ids of the nodes the plan archives: the orphans, in snapshot order.
pub open spec fn spec_archives(
    remote: Seq<NodeView>,
    locals: Seq<RenderedPageView>,
) -> Seq<Seq<char>> {
    remote.filter(|n: NodeView| is_orphan_node(n, locals)).map_values(|n: NodeView| n.id)
}

/// The plan entries for the local documents, in input order.
pub open spec fn spec_doc_plans(
    locals: Seq<RenderedPageView>,
    remote: Seq<NodeView>,
) -> Seq<DocPlanView> {
    locals.map_values(|d: RenderedPageView| spec_doc_plan(d, remote))
}

/// The whole plan for one run.
pub open spec fn spec_sync_plan(
    locals: Seq<RenderedPageView>,
    remote: Seq<NodeView>,
) -> (Seq<DocPlanView>, Seq<Seq<char>>) {
    (spec_doc_plans(locals, remote), spec_archives(remote, locals))
}

/// A node that `find_node_by_path` returns carries the looked-up path.
proof fn lemma_find_node_has_path(remote: Seq<NodeView>, path: Seq<char>)
    ensures
        find_node_by_path(remote, path) matches Some(n) ==> node_has_path(n, path),
    decreases remote.len(),
{
    if remote.len() > 0 && !node_has_path(remote[0], path) {
        lemma_find_node_has_path(remote.drop_first(), path);
    }
}

/// The first remote node whose recovered source path is `path`.
fn find_node_by_path_exec<'a>(remote: &'a Vec<ConfluenceNode>, path: &str) -> (r: Option<
    &'a ConfluenceNode,
>)
    ensures
        match r {
            Some(n) => find_node_by_path(remote.deep_view(), path@) == Some(n@),
            None => find_node_by_path(remote.deep_view(), path@) is None,
        },
{
    let n = remote.len();
    let mut i: usize = 0;
    proof {
        assert(remote.deep_view().skip(0) =~= remote.deep_view());
    }
    while i < n
        invariant
            i <= n,
            n == remote@.len(),
            find_node_by_path(remote.deep_view(), path@) == find_node_by_path(
                remote.deep_view().skip(i as int),
                path@,
            ),
        decreases n - i,
    {
        let ghost pre = remote.deep_view().skip(i as int);
        proof {
            assert(pre[0] == remote.deep_view()[i as int]);
            assert(pre.drop_first() =~= remote.deep_view().skip(i + 1));
        }
        let node = &remote[i];
        let matches_path = match &node.data {
            ConfluenceNodeType::Page(d) => match &d.path {
                Some(p) => crate::chars::str_eq(p.as_str(), path),
                None => false,
            },
            ConfluenceNodeType::Folder(_) => false,
        };
        if matches_path {
            proof {
                assert(node_has_path(pre[0], path@));
            }
            return Some(node);
        }
        proof {
            assert(!node_has_path(pre[0], path@));
        }
        i = i + 1;
    }
    None
}

/// Whether some local document has the given source path.
fn any_local_has_source(locals: &Vec<RenderedPage>, path: &str) -> (r: bool)
    ensures
        r == (exists|i: int|
            0 <= i < locals.deep_view().len() && (#[trigger] locals.deep_view()[i]).source
                == path@),
{
    let n = locals.len();
    let mut i: usize = 0;
    while i < n
        invariant
            i <= n,
            n == locals@.len(),
            forall|j: int| 0 <= j < i ==> (#[trigger] locals.deep_view()[j]).source != path@,
        decreases n - i,
    {
        if crate::chars::str_eq(locals[i].source.as_str(), path) {
            proof {
                assert(locals.deep_view()[i as int].source == path@);
            }
            return true;
        }
        i = i + 1;
    }
    false
}

/// The plan entry for one local document against the snapshot.
pub fn plan_document(doc: &RenderedPage, remote: &Vec<ConfluenceNode>) -> (r: DocPlan)
    ensures
        r@ == spec_doc_plan(doc@, remote.deep_view()),
{
    let source = doc.source.clone();
    match find_node_by_path_exec(remote, doc.source.as_str()) {
        None => {
            let home = crate::chars::str_eq(doc.source.as_str(), "index.md");
            let action = match &doc.parent {
                Some(p) => DocAction::Create { parent_id: Some(p.clone()) },
                None => if home {
                    DocAction::Create { parent_id: None }
                } else {
                    DocAction::OrphanParentMissing
                },
            };
            DocPlan { source, unarchive_node: None, action }
        },
        Some(node) => {
            proof {
                lemma_find_node_has_path(remote.deep_view(), doc.source@);
            }
            match &node.data {
                ConfluenceNodeType::Page(d) => {
                    let unarchive_node = if d.status == ContentStatus::Archived {
                        Some(node.id.clone())
                    } else {
                        None
                    };
                    let canonical = crate::marker::build_version_message(
                        doc.source.as_str(),
                        doc.checksum.as_str(),
                    );
                    let action = if d.version.message == canonical {
                        DocAction::NoOp { node_id: node.id.clone() }
                    } else {
                        let stored = crate::marker::marker_field_str(
                            d.version.message.as_str(),
                            "checksum",
                        );
                        let same = match &stored {
                            Some(cs) => crate::chars::str_eq(
                                cs.as_str(),
                                doc.checksum.as_str(),
                            ),
                            None => false,
                        };
                        if same {
                            DocAction::UpdateMarkerOnly {
                                node_id: node.id.clone(),
                                expected_revision: d.version.number,
                            }
                        } else {
                            DocAction::UpdateContent {
                                node_id: node.id.clone(),
                                expected_revision: d.version.number,
                            }
                        }
                    };
                    DocPlan { source, unarchive_node, action }
                },
                ConfluenceNodeType::Folder(_) => {
                    proof {
                        assert(false);
                    }
                    DocPlan { source, unarchive_node: None, action: DocAction::OrphanParentMissing }
                },
            }
        },
    }
}

proof fn lemma_doc_plans_step(locals: Seq<RenderedPageView>, remote: Seq<NodeView>, i: int)
    requires
        0 <= i < locals.len(),
    ensures
        spec_doc_plans(locals.take(i + 1), remote) == spec_doc_plans(locals.take(i), remote).push(
            spec_doc_plan(locals[i], remote),
        ),
{
    assert(spec_doc_plans(locals.take(i + 1), remote) =~= spec_doc_plans(
        locals.take(i),
        remote,
    ).push(spec_doc_plan(locals[i], remote)));
}

proof fn lemma_archives_step(remote: Seq<NodeView>, locals: Seq<RenderedPageView>, k: int)
    requires
        0 <= k < remote.len(),
    ensures
        spec_archives(remote.take(k + 1), locals) == if is_orphan_node(remote[k], locals) {
            spec_archives(remote.take(k), locals).push(remote[k].id)
        } else {
            spec_archives(remote.take(k), locals)
        },
{
    reveal(Seq::filter);
    let pred = |n: NodeView| is_orphan_node(n, locals);
    let t1 = remote.take(k + 1);
    assert(t1.drop_last() =~= remote.take(k));
    assert(t1.last() == remote[k]);
    if is_orphan_node(remote[k], locals) {
        assert(t1.filter(pred) == remote.take(k).filter(pred).push(remote[k]));
        assert(spec_archives(t1, locals) =~= spec_archives(remote.take(k), locals).push(
            remote[k].id,
        ));
    } else {
        assert(t1.filter(pred) == remote.take(k).filter(pred));
        assert(spec_archives(t1, locals) =~= spec_archives(remote.take(k), locals));
    }
}

/// Computes the sync plan: one entry per local document, in input order,
/// and the orphaned node ids to archive, in snapshot order. Planning only
/// reads; applying the plan is the caller's to do, item by item.
pub fn build_plan(locals: &Vec<RenderedPage>, remote: &Vec<ConfluenceNode>) -> (r: SyncPlan)
    ensures
        r.docs.deep_view() == spec_doc_plans(locals.deep_view(), remote.deep_view()),
        r.archives.deep_view() == spec_archives(remote.deep_view(), locals.deep_view()),
{
    let mut docs: Vec<DocPlan> = Vec::new();
    let mut i: usize = 0;
    while i < locals.len()
        invariant
            i <= locals@.len(),
            docs.deep_view() == spec_doc_plans(
                locals.deep_view().take(i as int),
                remote.deep_view(),
            ),
        decreases locals@.len() - i,
    {
        let ghost d0 = docs.deep_view();
        let entry = plan_document(&locals[i], remote);
        docs.push(entry);
        proof {
            lemma_doc_plans_step(locals.deep_view(), remote.deep_view(), i as int);
            assert(docs.deep_view() =~= d0.push(spec_doc_plan(
                locals.deep_view()[i as int],
                remote.deep_view(),
            )));
        }
        i = i + 1;
    }
    proof {
        assert(locals.deep_view().take(locals@.len() as int) =~= locals.deep_view());
    }
    let mut archives: Vec<String> = Vec::new();
    let mut k: usize = 0;
    while k < remote.len()
        invariant
            k <= remote@.len(),
            archives.deep_view() == spec_archives(
                remote.deep_view().take(k as int),
                locals.deep_view(),
            ),
        decreases remote@.len() - k,
    {
        let ghost a0 = archives.deep_view();
        let node = &remote[k];
        let orphan = match &node.data {
            ConfluenceNodeType::Page(d) => match &d.path {
                Some(p) => d.status == ContentStatus::Current && !any_local_has_source(
                    locals,
                    p.as_str(),
                ),
                None => false,
            },
            ConfluenceNodeType::Folder(_) => false,
        };
        proof {
            assert(orphan == is_orphan_node(remote.deep_view()[k as int], locals.deep_view()));
        }
        if orphan {
            archives.push(node.id.clone());
            proof {
                assert(archives.deep_view() =~~= a0.push(remote.deep_view()[k as int].id));
            }
        }
        proof {
            lemma_archives_step(remote.deep_view(), locals.deep_view(), k as int);
        }
        k = k + 1;
    }
    proof {
        assert(remote.deep_view().take(remote@.len() as int) =~= remote.deep_view());
    }
    SyncPlan { docs, archives }
}

/// No node is an orphan: nothing is archived.
proof fn lemma_archives_empty(remote: Seq<NodeView>, locals: Seq<RenderedPageView>)
    requires
        forall|k: int| 0 <= k < remote.len() ==> !is_orphan_node(#[trigger] remote[k], locals),
    ensures
        spec_archives(remote, locals) == Seq::<Seq<char>>::empty(),
    decreases remote.len(),
{
    reveal(Seq::filter);
    if remote.len() > 0 {
        assert(remote.drop_last() =~= remote.take(remote.len() - 1));
        assert(forall|k: int|
            0 <= k < remote.drop_last().len() ==> remote.drop_last()[k] == remote[k]);
        lemma_archives_empty(remote.drop_last(), locals);
        assert(spec_archives(remote, locals) =~= Seq::<Seq<char>>::empty());
    } else {
        assert(spec_archives(remote, locals) =~= Seq::<Seq<char>>::empty());
    }
}

/// Mutating operations reach managed nodes only: the archive list holds
/// exactly the orphans' ids. Every orphan's id stands in it, and every id
/// in it belongs to an orphaned managed page — never to a folder, an
/// unmanaged page, or a page some local document still carries.
pub proof fn lemma_archives_exact(remote: Seq<NodeView>, locals: Seq<RenderedPageView>)
    ensures
        forall|k: int|
            0 <= k < remote.len() && is_orphan_node(#[trigger] remote[k], locals) ==> spec_archives(
                remote,
                locals,
            ).contains(remote[k].id),
        forall|j: int|
            0 <= j < spec_archives(remote, locals).len() ==> exists|k: int|
                0 <= k < remote.len() && is_orphan_node(remote[k], locals) && remote[k].id == (
                #[trigger] spec_archives(remote, locals)[j]),
    decreases remote.len(),
{
    reveal(Seq::filter);
    let pred = |n: NodeView| is_orphan_node(n, locals);
    let arch = spec_archives(remote, locals);
    if remote.len() > 0 {
        let dl = remote.drop_last();
        let last = remote.last();
        lemma_archives_exact(dl, locals);
        let sub = spec_archives(dl, locals);
        if pred(last) {
            assert(remote.filter(pred) == dl.filter(pred).push(last));
            assert(arch =~= sub.push(last.id));
        } else {
            assert(remote.filter(pred) == dl.filter(pred));
            assert(arch =~= sub);
        }
        assert forall|k: int|
            0 <= k < remote.len() && is_orphan_node(#[trigger] remote[k], locals) implies arch.contains(
            remote[k].id,
        ) by {
            if k < remote.len() - 1 {
                assert(dl[k] == remote[k]);
                assert(sub.contains(remote[k].id));
                let i = choose|i: int| 0 <= i < sub.len() && sub[i] == remote[k].id;
                assert(arch[i] == remote[k].id);
            } else {
                assert(arch.last() == last.id);
            }
        }
        assert forall|j: int| 0 <= j < arch.len() implies exists|k: int|
            0 <= k < remote.len() && is_orphan_node(remote[k], locals) && remote[k].id == (
            #[trigger] arch[j]) by {
            if j < sub.len() {
                assert(sub[j] == arch[j]);
                let k = choose|k: int|
                    0 <= k < dl.len() && is_orphan_node(dl[k], locals) && dl[k].id == sub[j];
                assert(remote[k] == dl[k]);
            } else {
                assert(arch[j] == last.id);
                assert(remote[remote.len() - 1] == last);
            }
        }
    } else {
        assert(remote.filter(pred) =~= Seq::<NodeView>::empty());
        assert(arch.len() == 0);
    }
}

/// Idempotence: when every local document still matches a current node
/// stamped with its own canonical marker, and no managed current node is
/// orphaned, a second run plans nothing: every entry is a no-op without an
/// unarchive, and nothing is archived.
pub proof fn lemma_idempotent_second_run(locals: Seq<RenderedPageView>, remote: Seq<NodeView>)
    requires
        forall|i: int|
            0 <= i < locals.len() ==> match find_node_by_path(
                remote,
                (#[trigger] locals[i]).source,
            ) {
                Some(n) => n.data matches NodeDataView::Page(d) && d.status
                    == ContentStatus::Current && d.version.message == spec_version_message(
                    locals[i].source,
                    locals[i].checksum,
                ),
                None => false,
            },
        forall|k: int| 0 <= k < remote.len() ==> !is_orphan_node(#[trigger] remote[k], locals),
    ensures
        forall|i: int|
            0 <= i < locals.len() ==> (#[trigger] spec_doc_plans(locals, remote)[i])
                == (DocPlanView {
                source: locals[i].source,
                unarchive_node: None,
                action: DocActionView::NoOp {
                    node_id: find_node_by_path(remote, locals[i].source)->Some_0.id,
                },
            }),
        spec_archives(remote, locals) == Seq::<Seq<char>>::empty(),
{
    lemma_archives_empty(remote, locals);
    assert forall|i: int| 0 <= i < locals.len() implies (#[trigger] spec_doc_plans(
        locals,
        remote,
    )[i]) == (DocPlanView {
        source: locals[i].source,
        unarchive_node: None,
        action: DocActionView::NoOp {
            node_id: find_node_by_path(remote, locals[i].source)->Some_0.id,
        },
    }) by {
        let n = find_node_by_path(remote, locals[i].source)->Some_0;
        assert(spec_doc_plan(locals[i], remote).action == DocActionView::NoOp { node_id: n.id });
    }
}

/// Identity over rename: the old node is still current under the old path
/// and the document now lives at a new path with identical content. The
/// plan is exactly one create of the new path and one archive of the old
/// node — never a content update.
pub proof fn lemma_identity_over_rename(doc: RenderedPageView, node: NodeView)
    requires
        node.data matches NodeDataView::Page(d) && d.status == ContentStatus::Current && (d.path
            matches Some(p) && p != doc.source),
        doc.parent is Some || doc.source == "index.md"@,
    ensures
        spec_doc_plans(seq![doc], seq![node]) =~= seq![
            DocPlanView {
                source: doc.source,
                unarchive_node: None,
                action: DocActionView::Create { parent_id: doc.parent },
            },
        ],
        spec_archives(seq![node], seq![doc]) =~~= seq![node.id],
{
    reveal(Seq::filter);
    assert(!node_has_path(node, doc.source));
    assert(seq![node].len() == 1);
    assert(seq![node][0] == node);
    assert(seq![node].drop_first() =~= Seq::<NodeView>::empty());
    assert(find_node_by_path(Seq::<NodeView>::empty(), doc.source) is None);
    assert(find_node_by_path(seq![node], doc.source) == find_node_by_path(
        seq![node].drop_first(),
        doc.source,
    ));
    assert(find_node_by_path(seq![node], doc.source) is None);
    assert(spec_doc_plans(seq![doc], seq![node])[0] == spec_doc_plan(doc, seq![node]));
    let locals = seq![doc];
    assert(forall|i: int| 0 <= i < locals.len() ==> (#[trigger] locals[i]) == doc);
    assert(is_orphan_node(node, locals));
    assert(seq![node].drop_last() =~= Seq::<NodeView>::empty());
    assert(seq![node].filter(|n: NodeView| is_orphan_node(n, locals)) =~= seq![node]);
}

/// Orphan lifecycle, first half: a managed node still current whose path no
/// local document carries is archived.
pub proof fn lemma_orphan_archived(node: NodeView, locals: Seq<RenderedPageView>)
    requires
        node.data matches NodeDataView::Page(d) && (d.path matches Some(p) && d.status
            == ContentStatus::Current),
        forall|i: int|
            0 <= i < locals.len() ==> (#[trigger] locals[i]).source
                != node.data->Page_0.path->Some_0,
    ensures
        spec_archives(seq![node], locals) =~~= seq![node.id],
{
    reveal(Seq::filter);
    assert(is_orphan_node(node, locals));
    assert(seq![node].drop_last() =~= Seq::<NodeView>::empty());
    assert(seq![node].filter(|n: NodeView| is_orphan_node(n, locals)) =~= seq![node]);
}

/// Orphan lifecycle, second half: when the document reappears with
/// unchanged content, the plan unarchives the matched node and performs no
/// content update.
pub proof fn lemma_orphan_revival(doc: RenderedPageView, node: NodeView, remote: Seq<NodeView>)
    requires
        find_node_by_path(remote, doc.source) == Some(node),
        node.data matches NodeDataView::Page(d) && d.status == ContentStatus::Archived
            && d.version.message == spec_version_message(doc.source, doc.checksum),
    ensures
        spec_doc_plan(doc, remote) == (DocPlanView {
            source: doc.source,
            unarchive_node: Some(node.id),
            action: DocActionView::NoOp { node_id: node.id },
        }),
{
}

} // verus!
