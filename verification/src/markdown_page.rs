//! The local side of a sync run: the structural content of a parsed
//! document, its front matter, and the rendered page that is pushed to the
//! remote workspace. The text parser and the HTML renderer are external;
//! this module owns what is decided about their output: the title rule,
//! attachment and cross-document link collection, and the rendered page's
//! provenance marker.

use crate::chars::{
    join_strings, join_vec, join_with, join_with_sep, lex_sorted, sort_strings, split_char,
    split_vec, starts_with, str_eq, str_starts_with, string_from_chars,
};
use crate::checksum::{hex_digit, hex_digit_char, sha256_digest, spec_checksum};
use crate::local_link::{spec_link_dest, LocalLink, LocalLinkView};
use crate::marker::{build_version_message, spec_version_message};
use vstd::prelude::*;
use vstd::string::StringExecFns;

verus! {

/// One structural node of a parsed document, as the external text parser
/// reports it: a heading with its level and collected text, an image
/// reference, or a link reference. Anything else in the document has no
/// bearing on synchronization.
#[derive(Debug, Clone)]
pub enum DocNode {
    Heading { level: u8, text: String },
    Image { url: String },
    Link { url: String },
}

/// The mathematical content of a structural node.
pub enum DocNodeView {
    Heading { level: u8, text: Seq<char> },
    Image { url: Seq<char> },
    Link { url: Seq<char> },
}

impl View for DocNode {
    type V = DocNodeView;

    open spec fn view(&self) -> DocNodeView {
        match self {
            DocNode::Heading { level, text } => DocNodeView::Heading {
                level: *level,
                text: text@,
            },
            DocNode::Image { url } => DocNodeView::Image { url: url@ },
            DocNode::Link { url } => DocNodeView::Link { url: url@ },
        }
    }
}

impl DeepView for DocNode {
    type V = DocNodeView;

    open spec fn deep_view(&self) -> DocNodeView {
        self.view()
    }
}

/// The recognized front matter of a document: the page emoji shortcode
/// (empty when absent), the labels, and the top-level keys that are not
/// recognized, to be reported as a warning.
#[derive(Debug, Clone)]
pub struct FrontMatter {
    pub emoji: String,
    pub labels: Vec<String>,
    pub unknown_keys: Vec<String>,
}

/// The mathematical content of a document's front matter.
pub struct FrontMatterView {
    pub emoji: Seq<char>,
    pub labels: Seq<Seq<char>>,
    pub unknown_keys: Seq<Seq<char>>,
}

impl View for FrontMatter {
    type V = FrontMatterView;

    open spec fn view(&self) -> FrontMatterView {
        FrontMatterView {
            emoji: self.emoji@,
            labels: self.labels.deep_view(),
            unknown_keys: self.unknown_keys.deep_view(),
        }
    }
}

impl FrontMatter {
    /// Builds front matter from the parsed reserved values and the list of
    /// top-level keys: the keys this system does not recognize are kept,
    /// sorted, to be reported in a parse warning.
    pub fn new(emoji: String, labels: Vec<String>, keys: &Vec<String>) -> (r: FrontMatter)
        ensures
            r.emoji@ == emoji@,
            r.labels.deep_view() == labels.deep_view(),
            r.unknown_keys.deep_view().to_multiset() == spec_unknown_keys(
                keys.deep_view(),
            ).to_multiset(),
            lex_sorted(r.unknown_keys.deep_view()),
    {
        let unknown = unknown_front_matter_keys(keys);
        let unknown_keys = sort_strings(&unknown);
        FrontMatter { emoji, labels, unknown_keys }
    }
}

/// A local image reference that becomes an attachment of its owning page.
/// Attachment association is scoped to the document; it never goes through
/// the link registry.
#[derive(Debug, Clone, PartialEq, Eq)]
pub struct ImageAttachment {
    pub url: String,
}

impl View for ImageAttachment {
    type V = Seq<char>;

    open spec fn view(&self) -> Seq<char> {
        self.url@
    }
}

impl DeepView for ImageAttachment {
    type V = Seq<char>;

    open spec fn deep_view(&self) -> Seq<char> {
        self.view()
    }
}

/// The structural content of one parsed local document: its title (from
/// the single top-level heading), its durable source path, the local image
/// and cross-document references found in it, its front matter, and any
/// warnings gathered while parsing.
#[derive(Debug)]
pub struct MarkdownPage {
    pub title: String,
    pub source: String,
    pub attachments: Vec<ImageAttachment>,
    pub local_links: Vec<crate::local_link::LocalLink>,
    pub front_matter: FrontMatter,
    pub warnings: Vec<String>,
}

/// A page rendered to its final remote form, ready to be written.
#[derive(Debug)]
pub struct RenderedPage {
    pub title: String,
    pub content: String,
    pub source: String,
    pub parent: Option<String>,
    pub checksum: String,
}

/// The mathematical content of a rendered page.
pub struct RenderedPageView {
    pub title: Seq<char>,
    pub content: Seq<char>,
    pub source: Seq<char>,
    pub parent: Option<Seq<char>>,
    pub checksum: Seq<char>,
}

impl View for RenderedPage {
    type V = RenderedPageView;

    open spec fn view(&self) -> RenderedPageView {
        RenderedPageView {
            title: self.title@,
            content: self.content@,
            source: self.source@,
            parent: self.parent.deep_view(),
            checksum: self.checksum@,
        }
    }
}

impl DeepView for RenderedPage {
    type V = RenderedPageView;

    open spec fn deep_view(&self) -> RenderedPageView {
        self.view()
    }
}

/// The directory of the document at `path`: everything before its last
/// `/`-separated segment.
pub open spec fn spec_dir_of(path: Seq<char>) -> Seq<char> {
    join_with(split_char(path, '/').drop_last(), '/')
}

/// The directory of the document at `path`.
pub fn dir_of(path: &str) -> (r: String)
    ensures
        r@ == spec_dir_of(path@),
{
    let pv = crate::chars::chars_of(path);
    let mut parts = split_vec(&pv, '/');
    let ghost parts0 = parts.deep_view();
    let _ = parts.pop();
    proof {
        assert(parts.deep_view() =~~= parts0.drop_last());
    }
    let joined = join_vec(&parts, '/');
    string_from_chars(&joined)
}

/// A reference target that is not a cross-document reference: an absolute
/// web address or an already-resolved storage link.
pub open spec fn is_absolute_url(u: Seq<char>) -> bool {
    starts_with(u, "http://"@) || starts_with(u, "https://"@) || starts_with(u, "ac:"@)
}

/// What one pass over the structural nodes gathers: the first heading, the
/// local image references, the parsed cross-document references, and the
/// reference targets that failed to parse.
pub struct ScanState {
    pub first_heading: Option<(u8, Seq<char>)>,
    pub attachments: Seq<Seq<char>>,
    pub links: Seq<LocalLinkView>,
    pub link_errors: Seq<Seq<char>>,
}

/// How one node extends the gathered state: the first heading is kept and
/// later ones ignored; a non-web image is collected as an attachment; a
/// non-absolute link is normalized against the document's directory, and
/// recorded as an error when it does not parse.
pub open spec fn scan_step(st: ScanState, node: DocNodeView, dir: Seq<char>) -> ScanState {
    match node {
        DocNodeView::Heading { level, text } => if st.first_heading is None {
            ScanState { first_heading: Some((level, text)), ..st }
        } else {
            st
        },
        DocNodeView::Image { url } => if !starts_with(url, "http"@) {
            ScanState { attachments: st.attachments.push(url), ..st }
        } else {
            st
        },
        DocNodeView::Link { url } => if is_absolute_url(url) {
            st
        } else {
            match spec_link_dest(url, dir) {
                Some(d) => ScanState {
                    links: st.links.push(LocalLinkView { path: d.0, anchor: d.1 }),
                    ..st
                },
                None => ScanState { link_errors: st.link_errors.push(url), ..st },
            }
        },
    }
}

/// The state gathered over all nodes, in order.
pub open spec fn scan_nodes(nodes: Seq<DocNodeView>, dir: Seq<char>) -> ScanState
    decreases nodes.len(),
{
    if nodes.len() == 0 {
        ScanState {
            first_heading: None,
            attachments: Seq::empty(),
            links: Seq::empty(),
            link_errors: Seq::empty(),
        }
    } else {
        scan_step(scan_nodes(nodes.drop_last(), dir), nodes.last(), dir)
    }
}

/// The messages for the reference targets that failed to parse.
pub open spec fn link_error_msgs(urls: Seq<Seq<char>>) -> Seq<Seq<char>> {
    urls.map_values(|u: Seq<char>| "Failed to parse local link: "@ + u)
}

/// The error messages of one parse: each unparsable reference, then the
/// title rule — the first heading must exist and be level 1.
pub open spec fn spec_parse_errors(st: ScanState) -> Seq<Seq<char>> {
    link_error_msgs(st.link_errors) + (match st.first_heading {
        None => seq!["missing first heading for title"@],
        Some(h) => if h.0 != 1 {
            seq![
                "first heading in file should be level 1, instead was level "@ + seq![
                    hex_digit((h.0 % 16) as u8),
                ],
            ]
        } else {
            Seq::<Seq<char>>::empty()
        },
    })
}

/// The warnings of one parse: one message naming the unrecognized front
/// matter keys, when there are any.
pub open spec fn spec_parse_warnings(fm: FrontMatterView) -> Seq<Seq<char>> {
    if fm.unknown_keys.len() > 0 {
        seq!["Unknown top level front matter keys: "@ + join_with_sep(fm.unknown_keys, ", "@)]
    } else {
        Seq::empty()
    }
}

/// A failed parse: the document's source path and what went wrong, every
/// message kept.
#[derive(Debug)]
pub struct ParseError {
    pub source: String,
    pub errors: Vec<String>,
}

impl ParseError {
    /// The error rendered as one line naming the document.
    pub fn message(&self) -> (r: String)
        ensures
            r@ == "Failed to parse "@ + self.source@ + ": "@ + join_with_sep(
                self.errors.deep_view(),
                "; "@,
            ),
    {
        let mut r = String::new();
        r.append("Failed to parse ");
        r.append(self.source.as_str());
        r.append(": ");
        let joined = join_strings(&self.errors, "; ");
        r.append(joined.as_str());
        proof {
            assert(r@ =~= "Failed to parse "@ + self.source@ + ": "@ + join_with_sep(
                self.errors.deep_view(),
                "; "@,
            ));
        }
        r
    }
}

proof fn lemma_scan_nodes_step(nodes: Seq<DocNodeView>, dir: Seq<char>, i: int)
    requires
        0 <= i < nodes.len(),
    ensures
        scan_nodes(nodes.take(i + 1), dir) == scan_step(scan_nodes(nodes.take(i), dir), nodes[i], dir),
{
    assert(nodes.take(i + 1).drop_last() =~= nodes.take(i));
    assert(nodes.take(i + 1).last() == nodes[i]);
}

impl MarkdownPage {
    /// Digests the structural nodes of one document into a page: the title
    /// comes from the single first heading, which must be level 1; local
    /// images become attachments; non-absolute links are normalized
    /// against the document's own directory. Every rule violation is
    /// collected, and any at all fails the parse for this document alone.
    pub fn parse_markdown(source: String, nodes: &Vec<DocNode>, fm: FrontMatter) -> (r: Result<
        MarkdownPage,
        ParseError,
    >)
        ensures
            match r {
                Ok(page) => spec_parse_errors(scan_nodes(nodes.deep_view(), spec_dir_of(source@)))
                    =~= Seq::<Seq<char>>::empty() && page.title@ == scan_nodes(
                    nodes.deep_view(),
                    spec_dir_of(source@),
                ).first_heading->Some_0.1 && page.source@ == source@
                    && page.attachments.deep_view() == scan_nodes(
                    nodes.deep_view(),
                    spec_dir_of(source@),
                ).attachments && page.local_links.deep_view() == scan_nodes(
                    nodes.deep_view(),
                    spec_dir_of(source@),
                ).links && page.front_matter@ == fm@ && page.warnings.deep_view()
                    == spec_parse_warnings(fm@),
                Err(e) => spec_parse_errors(scan_nodes(nodes.deep_view(), spec_dir_of(source@)))
                    != Seq::<Seq<char>>::empty() && e.source@ == source@ && e.errors.deep_view()
                    == spec_parse_errors(scan_nodes(nodes.deep_view(), spec_dir_of(source@))),
            },
    {
        broadcast use crate::chars::lemma_chars_deep_view;

        let dir = dir_of(source.as_str());
        let ghost gdir = spec_dir_of(source@);
        let mut first_heading: Option<(u8, String)> = None;
        let mut attachments: Vec<ImageAttachment> = Vec::new();
        let mut local_links: Vec<LocalLink> = Vec::new();
        let mut link_errors: Vec<String> = Vec::new();
        let mut i: usize = 0;
        while i < nodes.len()
            invariant
                i <= nodes@.len(),
                dir@ == gdir,
                fh_view(first_heading) == scan_nodes(
                    nodes.deep_view().take(i as int),
                    gdir,
                ).first_heading,
                attachments.deep_view() == scan_nodes(
                    nodes.deep_view().take(i as int),
                    gdir,
                ).attachments,
                local_links.deep_view() == scan_nodes(
                    nodes.deep_view().take(i as int),
                    gdir,
                ).links,
                link_errors.deep_view() == scan_nodes(
                    nodes.deep_view().take(i as int),
                    gdir,
                ).link_errors,
            decreases nodes@.len() - i,
        {
            let ghost st0 = scan_nodes(nodes.deep_view().take(i as int), gdir);
            let ghost nv = nodes.deep_view()[i as int];
            proof {
                lemma_scan_nodes_step(nodes.deep_view(), gdir, i as int);
                assert(nv == nodes@[i as int]@);
            }
            match &nodes[i] {
                DocNode::Heading { level, text } => {
                    if first_heading.is_none() {
                        first_heading = Some((*level, text.clone()));
                    }
                },
                DocNode::Image { url } => {
                    if !str_starts_with(url.as_str(), "http") {
                        let ghost a0 = attachments.deep_view();
                        attachments.push(ImageAttachment { url: url.clone() });
                        proof {
                            assert(attachments.deep_view() =~= a0.push(nv->Image_url));
                        }
                    }
                },
                DocNode::Link { url } => {
                    let absolute = str_starts_with(url.as_str(), "http://") || str_starts_with(
                        url.as_str(),
                        "https://",
                    ) || str_starts_with(url.as_str(), "ac:");
                    if !absolute {
                        match LocalLink::from_str(url.as_str(), dir.as_str()) {
                            Ok(l) => {
                                let ghost l0 = local_links.deep_view();
                                local_links.push(l);
                                proof {
                                    assert(local_links.deep_view() =~= l0.push(
                                        LocalLinkView {
                                            path: spec_link_dest(nv->Link_url, gdir)->Some_0.0,
                                            anchor: spec_link_dest(nv->Link_url, gdir)->Some_0.1,
                                        },
                                    ));
                                }
                            },
                            Err(_) => {
                                let ghost e0 = link_errors.deep_view();
                                link_errors.push(url.clone());
                                proof {
                                    assert(link_errors.deep_view() =~= e0.push(nv->Link_url));
                                }
                            },
                        }
                    }
                },
            }
            i = i + 1;
        }
        proof {
            assert(nodes.deep_view().take(nodes@.len() as int) =~= nodes.deep_view());
        }
        let ghost st = scan_nodes(nodes.deep_view(), gdir);

        // build the error list: link errors first, then the title rule
        let mut errors: Vec<String> = Vec::new();
        let mut k: usize = 0;
        while k < link_errors.len()
            invariant
                k <= link_errors@.len(),
                link_errors.deep_view() == st.link_errors,
                errors.deep_view() == link_error_msgs(st.link_errors.take(k as int)),
            decreases link_errors@.len() - k,
        {
            let mut msg = String::new();
            msg.append("Failed to parse local link: ");
            msg.append(link_errors[k].as_str());
            let ghost e0 = errors.deep_view();
            let ghost m0 = msg@;
            errors.push(msg);
            proof {
                let tk1 = st.link_errors.take(k + 1 as int);
                let target = link_error_msgs(tk1);
                assert(st.link_errors.len() == link_errors@.len());
                assert(k < st.link_errors.len());
                assert(e0.len() == st.link_errors.take(k as int).len());
                assert(e0.len() == k);
                assert(errors@.len() == k + 1);
                assert(target.len() == k + 1);
                assert forall|j: int| 0 <= j < k + 1 implies errors.deep_view()[j] == target[j] by {
                    assert(target[j] == "Failed to parse local link: "@ + tk1[j]);
                    if j < k {
                        assert(errors.deep_view()[j] == e0[j]);
                        assert(e0[j] == link_error_msgs(st.link_errors.take(k as int))[j]);
                        assert(tk1[j] == st.link_errors.take(k as int)[j]);
                    } else {
                        assert(errors.deep_view()[j] == m0);
                        assert(tk1[j] == st.link_errors[j]);
                        assert(st.link_errors[j] == link_errors@[j]@);
                        assert(m0 =~= "Failed to parse local link: "@ + link_errors@[j]@);
                    }
                }
                assert(errors.deep_view() =~~= target);
            }
            k = k + 1;
        }
        proof {
            assert(st.link_errors.take(st.link_errors.len() as int) =~= st.link_errors);
        }
        let mut title = String::new();
        match &first_heading {
            Some((level, text)) => {
                if *level != 1 {
                    let mut msg = String::new();
                    msg.append("first heading in file should be level 1, instead was level ");
                    let mut d: Vec<char> = Vec::new();
                    d.push(hex_digit_char(*level % 16));
                    let ds = string_from_chars(&d);
                    msg.append(ds.as_str());
                    let ghost e0 = errors.deep_view();
                    errors.push(msg);
                    proof {
                        assert(d@ =~= seq![hex_digit((st.first_heading->Some_0.0 % 16) as u8)]);
                        assert(errors.deep_view() =~~= spec_parse_errors(st));
                    }
                } else {
                    proof {
                        assert(errors.deep_view() =~~= spec_parse_errors(st));
                    }
                }
                title = text.clone();
            },
            None => {
                let ghost e0 = errors.deep_view();
                errors.push(String::from_str("missing first heading for title"));
                proof {
                    assert(errors.deep_view() =~~= spec_parse_errors(st));
                }
            },
        }

        if errors.len() == 0 {
            let mut warnings: Vec<String> = Vec::new();
            if fm.unknown_keys.len() > 0 {
                let mut msg = String::new();
                msg.append("Unknown top level front matter keys: ");
                let joined = join_strings(&fm.unknown_keys, ", ");
                msg.append(joined.as_str());
                warnings.push(msg);
                proof {
                    assert(warnings.deep_view() =~~= spec_parse_warnings(fm@));
                }
            } else {
                proof {
                    assert(warnings.deep_view() =~~= spec_parse_warnings(fm@));
                }
            }
            proof {
                assert(spec_parse_errors(st) =~= Seq::<Seq<char>>::empty());
            }
            Ok(
                MarkdownPage {
                    title,
                    source,
                    attachments,
                    local_links,
                    front_matter: fm,
                    warnings,
                },
            )
        } else {
            proof {
                assert(spec_parse_errors(st).len() > 0);
            }
            Err(ParseError { source, errors })
        }
    }
}

/// The gathered first heading, as the scan sees it.
pub open spec fn fh_view(o: Option<(u8, String)>) -> Option<(u8, Seq<char>)> {
    match o {
        Some(h) => Some((h.0, h.1@)),
        None => None,
    }
}

/// The keys this system recognizes at the top level of front matter.
pub open spec fn is_known_front_matter_key(k: Seq<char>) -> bool {
    k == "emoji"@ || k == "labels"@ || k == "metadata"@
}

/// The keys among `keys` this system does not recognize, in order.
pub open spec fn spec_unknown_keys(keys: Seq<Seq<char>>) -> Seq<Seq<char>> {
    keys.filter(|k: Seq<char>| !is_known_front_matter_key(k))
}

/// The top-level front matter keys this system does not recognize, in
/// input order; they are reported in a parse warning.
pub fn unknown_front_matter_keys(keys: &Vec<String>) -> (r: Vec<String>)
    ensures
        r.deep_view() == spec_unknown_keys(keys.deep_view()),
{
    let mut r: Vec<String> = Vec::new();
    let mut i: usize = 0;
    proof {
        reveal(Seq::filter);
        assert(keys.deep_view().take(0) =~= Seq::<Seq<char>>::empty());
        assert(r.deep_view() =~= spec_unknown_keys(keys.deep_view().take(0)));
    }
    while i < keys.len()
        invariant
            i <= keys@.len(),
            r.deep_view() == spec_unknown_keys(keys.deep_view().take(i as int)),
        decreases keys@.len() - i,
    {
        let known = str_eq(keys[i].as_str(), "emoji") || str_eq(keys[i].as_str(), "labels")
            || str_eq(keys[i].as_str(), "metadata");
        let ghost r0 = r.deep_view();
        let ghost kv = keys.deep_view();
        proof {
            reveal(Seq::filter);
            assert(kv[i as int] == keys@[i as int]@);
            assert(kv.take(i + 1).drop_last() =~= kv.take(i as int));
            assert(kv.take(i + 1).last() == kv[i as int]);
        }
        if !known {
            r.push(keys[i].clone());
            proof {
                assert(r.deep_view() =~= r0.push(kv[i as int]));
                assert(spec_unknown_keys(kv.take(i + 1)) == spec_unknown_keys(
                    kv.take(i as int),
                ).push(kv[i as int]));
                assert(r.deep_view() =~= spec_unknown_keys(kv.take(i + 1)));
            }
        } else {
            proof {
                assert(spec_unknown_keys(kv.take(i + 1)) == spec_unknown_keys(kv.take(i as int)));
            }
        }
        i = i + 1;
    }
    proof {
        assert(keys.deep_view().take(keys@.len() as int) =~= keys.deep_view());
    }
    r
}

impl RenderedPage {
    /// Assembles a rendered page from the externally rendered content; the
    /// checksum is this library's content hash of that content.
    pub fn build(title: String, content: String, source: String, parent: Option<String>) -> (r:
        RenderedPage)
        ensures
            r.title@ == title@,
            r.content@ == content@,
            r.source@ == source@,
            r.parent.deep_view() == parent.deep_view(),
            r.checksum@ == spec_checksum(content@),
    {
        let checksum = sha256_digest(content.as_str());
        RenderedPage { title, content, source, parent, checksum }
    }

    /// Whether this page is the workspace home page, which sits at the
    /// workspace root and has no parent.
    pub fn is_home_page(&self) -> (r: bool)
        ensures
            r == (self.source@ == "index.md"@),
    {
        str_eq(self.source.as_str(), "index.md")
    }

    /// The provenance marker written as this page's revision message.
    pub fn version_message(&self) -> (r: String)
        ensures
            r@ == spec_version_message(self.source@, self.checksum@),
    {
        build_version_message(self.source.as_str(), self.checksum.as_str())
    }
}

} // verus!
