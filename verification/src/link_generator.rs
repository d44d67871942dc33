//! The link registry: the two-phase cross-document link resolver. Phase
//! one registers every local document (its normalized path, with its title
//! as a lower-priority key) and every remote page recovered as managed;
//! phase two resolves references against the finished registry. Resolution
//! is a function of the registry alone, so its answers cannot depend on
//! the order the documents were registered in.

use crate::chars::str_eq;
use crate::confluence_page::ConfluencePage;
use crate::local_link::{spec_link_dest, LocalLink};
use crate::markdown_page::MarkdownPage;
use vstd::prelude::*;
use vstd::string::StringExecFns;

verus! {

/// The map an association list denotes: later entries override earlier
/// ones (registration keeps keys distinct, so there is nothing to
/// override).
pub open spec fn assoc_of(s: Seq<(Seq<char>, Seq<char>)>) -> Map<Seq<char>, Seq<char>>
    decreases s.len(),
{
    if s.len() == 0 {
        Map::empty()
    } else {
        assoc_of(s.drop_last()).insert(s.last().0, s.last().1)
    }
}

/// No two entries share a key.
pub open spec fn distinct_keys(s: Seq<(Seq<char>, Seq<char>)>) -> bool {
    forall|i: int, j: int| 0 <= i < j < s.len() ==> (#[trigger] s[i]).0 != (#[trigger] s[j]).0
}

/// The pairs of character sequences a vector of string pairs holds.
pub open spec fn pairs_view(v: Seq<(String, String)>) -> Seq<(Seq<char>, Seq<char>)> {
    v.map_values(|p: (String, String)| (p.0@, p.1@))
}

/// A key is in the association map exactly when some entry carries it.
pub proof fn lemma_assoc_contains(s: Seq<(Seq<char>, Seq<char>)>, k: Seq<char>)
    ensures
        assoc_of(s).dom().contains(k) <==> exists|i: int|
            0 <= i < s.len() && (#[trigger] s[i]).0 == k,
    decreases s.len(),
{
    if s.len() > 0 {
        lemma_assoc_contains(s.drop_last(), k);
        if s.last().0 == k {
            assert(s[s.len() - 1].0 == k);
        } else {
            if exists|i: int| 0 <= i < s.drop_last().len() && (#[trigger] s.drop_last()[i]).0
                == k {
                let i = choose|i: int|
                    0 <= i < s.drop_last().len() && (#[trigger] s.drop_last()[i]).0 == k;
                assert(s[i].0 == k);
            }
            if exists|i: int| 0 <= i < s.len() && (#[trigger] s[i]).0 == k {
                let i = choose|i: int| 0 <= i < s.len() && (#[trigger] s[i]).0 == k;
                assert(s.drop_last()[i].0 == k);
            }
        }
    }
}

/// With distinct keys, the entry that carries a key gives its map value.
pub proof fn lemma_assoc_value(s: Seq<(Seq<char>, Seq<char>)>, k: Seq<char>, i: int)
    requires
        distinct_keys(s),
        0 <= i < s.len(),
        s[i].0 == k,
    ensures
        assoc_of(s).dom().contains(k),
        assoc_of(s)[k] == s[i].1,
    decreases s.len(),
{
    if i == s.len() - 1 {
    } else {
        assert(s[s.len() - 1].0 != k);
        assert(s.drop_last()[i] == s[i]);
        lemma_assoc_value(s.drop_last(), k, i);
    }
}

/// Inserting two bindings with different keys builds the same registry in
/// either order: the heart of resolution order-independence.
pub proof fn lemma_insert_commutes(
    m: Map<Seq<char>, Seq<char>>,
    k1: Seq<char>,
    v1: Seq<char>,
    k2: Seq<char>,
    v2: Seq<char>,
)
    requires
        k1 != k2,
    ensures
        m.insert(k1, v1).insert(k2, v2) == m.insert(k2, v2).insert(k1, v1),
{
    assert(m.insert(k1, v1).insert(k2, v2) =~= m.insert(k2, v2).insert(k1, v1));
}

/// A registration-phase key collision: two local documents normalize to
/// the same path key. Fatal for the run.
#[derive(Debug, Clone, PartialEq, Eq)]
pub struct KeyConflict {
    pub path: String,
}

/// The link registry. Built fresh each run; read-only during resolution.
#[derive(Debug)]
pub struct LinkGenerator {
    pub host: String,
    pub space_key: String,
    pub path_titles: Vec<(String, String)>,
    pub title_ids: Vec<(String, String)>,
    pub path_ids: Vec<(String, String)>,
}

/// The mathematical content of the registry: three finite maps.
pub struct LinkGeneratorView {
    pub host: Seq<char>,
    pub space_key: Seq<char>,
    pub path_titles: Map<Seq<char>, Seq<char>>,
    pub title_ids: Map<Seq<char>, Seq<char>>,
    pub path_ids: Map<Seq<char>, Seq<char>>,
}

impl View for LinkGenerator {
    type V = LinkGeneratorView;

    open spec fn view(&self) -> LinkGeneratorView {
        LinkGeneratorView {
            host: self.host@,
            space_key: self.space_key@,
            path_titles: assoc_of(pairs_view(self.path_titles@)),
            title_ids: assoc_of(pairs_view(self.title_ids@)),
            path_ids: assoc_of(pairs_view(self.path_ids@)),
        }
    }
}

/// The registry's internal well-formedness: every key registered once.
pub open spec fn wf_registry(g: LinkGenerator) -> bool {
    distinct_keys(pairs_view(g.path_titles@)) && distinct_keys(pairs_view(g.title_ids@))
        && distinct_keys(pairs_view(g.path_ids@))
}

/// The remote id a normalized path resolves to: a managed remote node
/// registered under that path wins; otherwise the path's local title is
/// joined with a remote page of the same title.
pub open spec fn spec_file_id(g: LinkGeneratorView, path: Seq<char>) -> Option<Seq<char>> {
    if g.path_ids.dom().contains(path) {
        Some(g.path_ids[path])
    } else if g.path_titles.dom().contains(path) && g.title_ids.dom().contains(
        g.path_titles[path],
    ) {
        Some(g.title_ids[g.path_titles[path]])
    } else {
        None
    }
}

/// The web address of the remote page with the given id.
pub open spec fn spec_page_url(host: Seq<char>, space_key: Seq<char>, id: Seq<char>) -> Seq<char> {
    "https://"@ + host + "/wiki/spaces/"@ + space_key + "/pages/"@ + id
}

/// Where a reference written as `url` in a document of directory `dir`
/// resolves: the target page's web address with any anchor preserved, or
/// nothing when the reference does not parse or its path is unregistered.
pub open spec fn spec_resolve_url(
    g: LinkGeneratorView,
    url: Seq<char>,
    dir: Seq<char>,
) -> Option<Seq<char>> {
    match spec_link_dest(url, dir) {
        Some(dest) => match spec_file_id(g, dest.0) {
            Some(id) => Some(
                spec_page_url(g.host, g.space_key, id) + match dest.1 {
                    Some(a) => seq!['#'] + a,
                    None => Seq::empty(),
                },
            ),
            None => None,
        },
        None => None,
    }
}

/// First-match lookup in an association vector; with distinct keys this is
/// exactly the map the vector denotes.
fn assoc_lookup<'a>(entries: &'a Vec<(String, String)>, k: &str) -> (r: Option<&'a String>)
    requires
        distinct_keys(pairs_view(entries@)),
    ensures
        match r {
            Some(v) => assoc_of(pairs_view(entries@)).dom().contains(k@) && assoc_of(
                pairs_view(entries@),
            )[k@] == v@,
            None => !assoc_of(pairs_view(entries@)).dom().contains(k@),
        },
{
    let ghost s = pairs_view(entries@);
    let n = entries.len();
    let mut i: usize = 0;
    while i < n
        invariant
            i <= n,
            n == entries@.len(),
            s == pairs_view(entries@),
            distinct_keys(s),
            forall|j: int| 0 <= j < i ==> (#[trigger] s[j]).0 != k@,
        decreases n - i,
    {
        if str_eq(entries[i].0.as_str(), k) {
            proof {
                assert(s[i as int].0 == k@);
                lemma_assoc_value(s, k@, i as int);
            }
            return Some(&entries[i].1);
        }
        proof {
            assert(s[i as int].0 == entries@[i as int].0@);
        }
        i = i + 1;
    }
    proof {
        lemma_assoc_contains(s, k@);
    }
    None
}

/// Appends a binding to an association vector, keeping keys distinct.
fn assoc_insert(entries: &mut Vec<(String, String)>, k: String, v: String)
    requires
        distinct_keys(pairs_view(old(entries)@)),
        !assoc_of(pairs_view(old(entries)@)).dom().contains(k@),
    ensures
        distinct_keys(pairs_view(final(entries)@)),
        assoc_of(pairs_view(final(entries)@)) == assoc_of(pairs_view(old(entries)@)).insert(
            k@,
            v@,
        ),
{
    let ghost s0 = pairs_view(entries@);
    proof {
        lemma_assoc_contains(s0, k@);
    }
    entries.push((k, v));
    proof {
        let s1 = pairs_view(entries@);
        assert(s1 =~= s0.push((s1.last().0, s1.last().1)));
        assert(s1.drop_last() =~= s0);
        assert(forall|j: int| 0 <= j < s0.len() ==> (#[trigger] s0[j]).0 != s1.last().0);
    }
}

impl LinkGenerator {
    /// An empty registry for the workspace at `host` and space `space_key`.
    pub fn new(host: &str, space_key: &str) -> (r: Self)
        ensures
            wf_registry(r),
            r@.host == host@,
            r@.space_key == space_key@,
            r@.path_titles == Map::<Seq<char>, Seq<char>>::empty(),
            r@.title_ids == Map::<Seq<char>, Seq<char>>::empty(),
            r@.path_ids == Map::<Seq<char>, Seq<char>>::empty(),
    {
        let r = LinkGenerator {
            host: String::from_str(host),
            space_key: String::from_str(space_key),
            path_titles: Vec::new(),
            title_ids: Vec::new(),
            path_ids: Vec::new(),
        };
        proof {
            assert(pairs_view(r.path_titles@) =~~= Seq::<(Seq<char>, Seq<char>)>::empty());
            assert(pairs_view(r.title_ids@) =~~= Seq::<(Seq<char>, Seq<char>)>::empty());
            assert(pairs_view(r.path_ids@) =~~= Seq::<(Seq<char>, Seq<char>)>::empty());
        }
        r
    }

    /// An empty registry with no workspace address, for local diffing.
    pub fn default_test() -> (r: Self)
        ensures
            wf_registry(r),
            r@.path_titles == Map::<Seq<char>, Seq<char>>::empty(),
            r@.title_ids == Map::<Seq<char>, Seq<char>>::empty(),
            r@.path_ids == Map::<Seq<char>, Seq<char>>::empty(),
    {
        Self::new("", "")
    }

    /// Registration phase, local side: binds the document's normalized
    /// source path to its title. A second document under the same path key
    /// is a fatal key conflict naming the colliding path, and the registry
    /// is left unchanged.
    pub fn register_markdown_page(&mut self, page: &MarkdownPage) -> (r: Result<(), KeyConflict>)
        requires
            wf_registry(*old(self)),
        ensures
            wf_registry(*final(self)),
            final(self)@.host == old(self)@.host,
            final(self)@.space_key == old(self)@.space_key,
            final(self)@.title_ids == old(self)@.title_ids,
            final(self)@.path_ids == old(self)@.path_ids,
            match r {
                Ok(_) => !old(self)@.path_titles.dom().contains(page.source@)
                    && final(self)@.path_titles == old(self)@.path_titles.insert(
                    page.source@,
                    page.title@,
                ),
                Err(e) => old(self)@.path_titles.dom().contains(page.source@) && e.path@
                    == page.source@ && final(self)@.path_titles == old(self)@.path_titles,
            },
    {
        match assoc_lookup(&self.path_titles, page.source.as_str()) {
            Some(_) => Err(KeyConflict { path: page.source.clone() }),
            None => {
                assoc_insert(&mut self.path_titles, page.source.clone(), page.title.clone());
                Ok(())
            },
        }
    }

    /// Registration phase, remote side: binds the page's title to its id,
    /// and, when the page was recovered as managed with a prior source
    /// path, that path to its id — so relinking to a page not yet
    /// republished still resolves. Keys seen before are kept as they are.
    pub fn register_confluence_page(&mut self, page: &ConfluencePage)
        requires
            wf_registry(*old(self)),
        ensures
            wf_registry(*final(self)),
            final(self)@.host == old(self)@.host,
            final(self)@.space_key == old(self)@.space_key,
            final(self)@.path_titles == old(self)@.path_titles,
            final(self)@.title_ids == if old(self)@.title_ids.dom().contains(page.title@) {
                old(self)@.title_ids
            } else {
                old(self)@.title_ids.insert(page.title@, page.id@)
            },
            final(self)@.path_ids == match page.path {
                Some(p) => if old(self)@.path_ids.dom().contains(p@) {
                    old(self)@.path_ids
                } else {
                    old(self)@.path_ids.insert(p@, page.id@)
                },
                None => old(self)@.path_ids,
            },
    {
        match assoc_lookup(&self.title_ids, page.title.as_str()) {
            Some(_) => (),
            None => {
                assoc_insert(&mut self.title_ids, page.title.clone(), page.id.clone());
            },
        }
        match &page.path {
            Some(p) => {
                match assoc_lookup(&self.path_ids, p.as_str()) {
                    Some(_) => (),
                    None => {
                        assoc_insert(&mut self.path_ids, p.clone(), page.id.clone());
                    },
                }
            },
            None => (),
        }
    }

    /// Resolution phase: the remote id the normalized path `path` points
    /// to, per `spec_file_id`.
    pub fn get_file_id(&self, path: &str) -> (r: Option<String>)
        requires
            wf_registry(*self),
        ensures
            r.deep_view() == spec_file_id(self@, path@),
    {
        match assoc_lookup(&self.path_ids, path) {
            Some(id) => Some(id.clone()),
            None => {
                match assoc_lookup(&self.path_titles, path) {
                    Some(title) => {
                        let t = title.clone();
                        match assoc_lookup(&self.title_ids, t.as_str()) {
                            Some(id) => Some(id.clone()),
                            None => None,
                        }
                    },
                    None => None,
                }
            },
        }
    }

    /// Resolution phase: the local title registered under `path`, used as
    /// the link text when the author wrote none.
    pub fn title_for_path(&self, path: &str) -> (r: Option<String>)
        requires
            wf_registry(*self),
        ensures
            match r {
                Some(t) => self@.path_titles.dom().contains(path@) && self@.path_titles[path@]
                    == t@,
                None => !self@.path_titles.dom().contains(path@),
            },
    {
        match assoc_lookup(&self.path_titles, path) {
            Some(t) => Some(t.clone()),
            None => None,
        }
    }

    /// Resolution phase: where the reference `url`, written in a document
    /// of directory `dir`, points — the target page's web address with the
    /// anchor preserved — or nothing, which the caller reports as a
    /// non-fatal unresolved-reference warning, leaving the link as it was.
    pub fn resolve_url(&self, url: &str, dir: &str) -> (r: Option<String>)
        requires
            wf_registry(*self),
        ensures
            r.deep_view() == spec_resolve_url(self@, url@, dir@),
    {
        let link = match LocalLink::from_str(url, dir) {
            Ok(l) => l,
            Err(_) => {
                return None;
            },
        };
        let id = match self.get_file_id(link.path.as_str()) {
            Some(id) => id,
            None => {
                return None;
            },
        };
        let mut out = String::new();
        out.append("https://");
        out.append(self.host.as_str());
        out.append("/wiki/spaces/");
        out.append(self.space_key.as_str());
        out.append("/pages/");
        out.append(id.as_str());
        match &link.anchor {
            Some(a) => {
                out.append("#");
                out.append(a.as_str());
                proof {
                    reveal_strlit("#");
                    assert(out@ =~= spec_resolve_url(self@, url@, dir@)->Some_0);
                }
            },
            None => {
                proof {
                    assert(out@ =~= spec_resolve_url(self@, url@, dir@)->Some_0);
                }
            },
        }
        Some(out)
    }
}

impl Default for LinkGenerator {
    /// An empty registry with no workspace address.
    fn default() -> (r: Self)
        ensures
            wf_registry(r),
            r@.path_titles == Map::<Seq<char>, Seq<char>>::empty(),
            r@.title_ids == Map::<Seq<char>, Seq<char>>::empty(),
            r@.path_ids == Map::<Seq<char>, Seq<char>>::empty(),
    {
        Self::new("", "")
    }
}

} // verus!
