//! Cross-document references and path arithmetic. A reference written in a
//! document (`./sub/b.md#s`) is normalized against the referencing
//! document's own directory, with `.` and `..` resolved, and the anchor
//! fragment preserved. The resulting normalized relative path is the
//! durable identity key the link registry is addressed by.

use crate::chars::{
    chars_of, find_char_from, find_from, join_vec, join_with, split_char, split_vec,
    string_from_chars, subvec, vec_is,
};
use vstd::prelude::*;

verus! {

/// Folds path segments over a stack of directory components: empty and `.`
/// segments vanish, `..` pops a component, anything else is pushed. Popping
/// an empty stack means the path escapes the document tree: no result.
pub open spec fn norm_stack(
    stack: Seq<Seq<char>>,
    parts: Seq<Seq<char>>,
) -> Option<Seq<Seq<char>>>
    decreases parts.len(),
{
    if parts.len() == 0 {
        Some(stack)
    } else {
        let p = parts[0];
        let rest = parts.drop_first();
        if p == Seq::<char>::empty() || p == "."@ {
            norm_stack(stack, rest)
        } else if p == ".."@ {
            if stack.len() == 0 {
                None
            } else {
                norm_stack(stack.drop_last(), rest)
            }
        } else {
            norm_stack(stack.push(p), rest)
        }
    }
}

/// The normalized path of `rel` interpreted relative to directory `dir`
/// (itself a `/`-separated relative path), or nothing when `..` segments
/// escape the tree.
pub open spec fn spec_normalize(dir: Seq<char>, rel: Seq<char>) -> Option<Seq<char>> {
    match norm_stack(Seq::empty(), split_char(dir, '/')) {
        Some(st0) => match norm_stack(st0, split_char(rel, '/')) {
            Some(st) => Some(join_with(st, '/')),
            None => None,
        },
        None => None,
    }
}

/// A reference split at its first `#`: the path part and the anchor, which
/// is present exactly when the `#` is.
pub open spec fn spec_split_anchor(url: Seq<char>) -> (Seq<char>, Option<Seq<char>>) {
    let h = find_from(url, '#', 0);
    if h < url.len() {
        (url.subrange(0, h), Some(url.subrange(h + 1, url.len() as int)))
    } else {
        (url, None)
    }
}

/// Where a reference written as `url` in a document whose directory is
/// `dir` points: the normalized path and the preserved anchor. A reference
/// that normalizes to nothing, or to an empty path, does not parse.
pub open spec fn spec_link_dest(url: Seq<char>, dir: Seq<char>) -> Option<
    (Seq<char>, Option<Seq<char>>),
> {
    let (path_part, anchor) = spec_split_anchor(url);
    match spec_normalize(dir, path_part) {
        Some(p) => if p.len() > 0 {
            Some((p, anchor))
        } else {
            None
        },
        None => None,
    }
}

/// A parsed cross-document reference: the normalized relative path of the
/// target document and the optional anchor fragment.
#[derive(Debug, Clone, PartialEq, Eq)]
pub struct LocalLink {
    pub path: String,
    pub anchor: Option<String>,
}

/// The mathematical content of a local link.
pub struct LocalLinkView {
    pub path: Seq<char>,
    pub anchor: Option<Seq<char>>,
}

impl View for LocalLink {
    type V = LocalLinkView;

    open spec fn view(&self) -> LocalLinkView {
        LocalLinkView { path: self.path@, anchor: self.anchor.deep_view() }
    }
}

impl DeepView for LocalLink {
    type V = LocalLinkView;

    open spec fn deep_view(&self) -> LocalLinkView {
        self.view()
    }
}

/// Normalizes the `/`-separated segments in `parts` on top of `stack`.
fn norm_stack_push(stack: Vec<Vec<char>>, parts: &Vec<Vec<char>>) -> (r: Option<Vec<Vec<char>>>)
    ensures
        match r {
            Some(st) => norm_stack(stack.deep_view(), parts.deep_view()) == Some(st.deep_view()),
            None => norm_stack(stack.deep_view(), parts.deep_view()) is None,
        },
{
    broadcast use crate::chars::lemma_chars_deep_view;

    let mut st = stack;
    let mut i: usize = 0;
    let n = parts.len();
    proof {
        assert(parts.deep_view().skip(0) =~~= parts.deep_view());
    }
    while i < n
        invariant
            i <= n,
            n == parts@.len(),
            norm_stack(stack.deep_view(), parts.deep_view()) == norm_stack(
                st.deep_view(),
                parts.deep_view().skip(i as int),
            ),
        decreases n - i,
    {
        let ghost pre = parts.deep_view().skip(i as int);
        proof {
            assert(pre[0] == parts.deep_view()[i as int]);
            assert(pre[0] == parts@[i as int]@);
            assert(pre.drop_first() =~~= parts.deep_view().skip(i + 1));
        }
        let p = &parts[i];
        if p.len() == 0 || vec_is(p, ".") {
            proof {
                if p@.len() == 0 {
                    assert(pre[0] =~= Seq::<char>::empty());
                }
            }
        } else if vec_is(p, "..") {
            if st.len() == 0 {
                proof {
                    assert(norm_stack(st.deep_view(), pre) is None);
                }
                return None;
            }
            let ghost st0 = st.deep_view();
            let _ = st.pop();
            proof {
                assert(st.deep_view() =~~= st0.drop_last());
            }
        } else {
            let ghost st0 = st.deep_view();
            let cp = subvec(p, 0, p.len());
            proof {
                assert(cp@ =~= p@);
            }
            st.push(cp);
            proof {
                assert(st.deep_view() =~~= st0.push(pre[0]));
            }
        }
        i = i + 1;
    }
    proof {
        assert(parts.deep_view().skip(n as int) =~~= Seq::<Seq<char>>::empty());
    }
    Some(st)
}

/// The normalized form of `rel` relative to directory `dir`, or nothing
/// when the path escapes the tree.
pub fn normalize_path(dir: &str, rel: &str) -> (r: Option<String>)
    ensures
        r.deep_view() == spec_normalize(dir@, rel@),
{
    let dirv = chars_of(dir);
    let relv = chars_of(rel);
    let dir_parts = split_vec(&dirv, '/');
    let rel_parts = split_vec(&relv, '/');
    let empty_stack: Vec<Vec<char>> = Vec::new();
    proof {
        assert(empty_stack.deep_view() =~~= Seq::<Seq<char>>::empty());
    }
    let st0 = match norm_stack_push(empty_stack, &dir_parts) {
        Some(st) => st,
        None => {
            return None;
        },
    };
    let st = match norm_stack_push(st0, &rel_parts) {
        Some(st) => st,
        None => {
            return None;
        },
    };
    let joined = join_vec(&st, '/');
    Some(string_from_chars(&joined))
}

impl LocalLink {
    /// Parses a reference written as `url` in a document whose directory is
    /// `dir`: the path part before any `#` is normalized against `dir`, the
    /// anchor after it is preserved. Fails exactly when the path escapes
    /// the tree or normalizes to nothing.
    pub fn from_str(url: &str, dir: &str) -> (r: Result<LocalLink, ()>)
        ensures
            match r {
                Ok(l) => spec_link_dest(url@, dir@) == Some((l.path@, l.anchor.deep_view())),
                Err(_) => spec_link_dest(url@, dir@) is None,
            },
    {
        let urlv = chars_of(url);
        let h = find_char_from(&urlv, '#', 0);
        let (path_part, anchor) = if h < urlv.len() {
            let pp = subvec(&urlv, 0, h);
            let av = subvec(&urlv, h + 1, urlv.len());
            (pp, Some(string_from_chars(&av)))
        } else {
            let pp = subvec(&urlv, 0, urlv.len());
            proof {
                assert(urlv@.subrange(0, urlv@.len() as int) =~= urlv@);
            }
            (pp, None)
        };
        let pps = string_from_chars(&path_part);
        match normalize_path(dir, pps.as_str()) {
            Some(p) => {
                if p.unicode_len() > 0 {
                    Ok(LocalLink { path: p, anchor })
                } else {
                    Err(())
                }
            },
            None => Err(()),
        }
    }
}

/// The path of the document that acts as parent of the document at `path`:
/// the `index.md` of its own directory, or of the directory above when the
/// document is itself an `index.md`. The root `index.md` has no parent.
pub open spec fn spec_parent_file(path: Seq<char>) -> Option<Seq<char>> {
    let parts = split_char(path, '/');
    if parts.len() <= 1 {
        if path == "index.md"@ {
            None
        } else {
            Some("index.md"@)
        }
    } else if parts.last() == "index.md"@ {
        Some(join_with(parts.drop_last().drop_last().push("index.md"@), '/'))
    } else {
        Some(join_with(parts.drop_last().push("index.md"@), '/'))
    }
}

/// The parent document of the document at `path`, per `spec_parent_file`.
pub fn get_parent_file(path: &str) -> (r: Option<String>)
    ensures
        r.deep_view() == spec_parent_file(path@),
{
    broadcast use crate::chars::lemma_chars_deep_view;

    let pv = chars_of(path);
    let mut parts = split_vec(&pv, '/');
    let ghost parts0 = parts.deep_view();
    if parts.len() <= 1 {
        if crate::chars::str_eq(path, "index.md") {
            return None;
        }
        return Some(String::from_str("index.md"));
    }
    let last_is_index = vec_is(&parts[parts.len() - 1], "index.md");
    let _ = parts.pop();
    proof {
        assert(parts.deep_view() =~~= parts0.drop_last());
    }
    if last_is_index {
        let _ = parts.pop();
        proof {
            assert(parts.deep_view() =~~= parts0.drop_last().drop_last());
        }
    }
    let tail = chars_of("index.md");
    parts.push(tail);
    proof {
        if last_is_index {
            assert(parts.deep_view() =~~= parts0.drop_last().drop_last().push("index.md"@));
        } else {
            assert(parts.deep_view() =~~= parts0.drop_last().push("index.md"@));
        }
    }
    let joined = join_vec(&parts, '/');
    Some(string_from_chars(&joined))
}

} // verus!
