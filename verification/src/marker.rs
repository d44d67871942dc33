//! The provenance-marker codec. Every managed write stamps the remote
//! node's revision message with a marker of the form
//! `updated by markedspace: source=<path>; checksum=<hex>`; a later run
//! recovers the source path and content checksum from it. A message not
//! starting with the fixed prefix belongs to an unmanaged node and yields
//! nothing.

use crate::chars::{
    chars_of, find_char_from, find_from, is_space_char, range_eq, replace_char, split_char,
    split_from, starts_with, string_from_chars, subvec, trim_bounds, trimmed,
};
use crate::chars::{
    lemma_find_from, lemma_find_from_append, lemma_find_from_is, lemma_trim_end_range,
    lemma_trim_start_range, lemma_trimmed_id, replace_chars,
};
use vstd::prelude::*;
use vstd::string::StringExecFns;

verus! {

/// The fixed prefix every provenance marker starts with. It is a persisted
/// contract: markers written by earlier runs must keep decoding.
pub open spec fn spec_version_message_prefix() -> Seq<char> {
    "updated by markedspace:"@
}

/// A message marks a managed node exactly when it starts with the prefix.
pub open spec fn is_managed_message(msg: Seq<char>) -> bool {
    starts_with(msg, spec_version_message_prefix())
}

/// The key and value of one `key=value` clause: the text before the first
/// `=` and the text after it, both trimmed. A clause without `=` has no
/// parts and is ignored by the lookup.
pub open spec fn clause_parts(cl: Seq<char>) -> Option<(Seq<char>, Seq<char>)> {
    let j = find_from(cl, '=', 0);
    if j >= cl.len() {
        None
    } else {
        Some((trimmed(cl.subrange(0, j)), trimmed(cl.subrange(j + 1, cl.len() as int))))
    }
}

/// The value of the last clause whose key is `key`, or `None`.
pub open spec fn lookup_clause(clauses: Seq<Seq<char>>, key: Seq<char>) -> Option<Seq<char>>
    decreases clauses.len(),
{
    if clauses.len() == 0 {
        None
    } else {
        match clause_parts(clauses.last()) {
            Some(kv) => if kv.0 == key {
                Some(kv.1)
            } else {
                lookup_clause(clauses.drop_last(), key)
            },
            None => lookup_clause(clauses.drop_last(), key),
        }
    }
}

/// The field named `key` in a marker message: the message must start with
/// the fixed prefix; the remainder is split on `;` into clauses and the
/// last clause keyed `key` wins.
pub open spec fn marker_field(msg: Seq<char>, key: Seq<char>) -> Option<Seq<char>> {
    if is_managed_message(msg) {
        lookup_clause(
            split_char(msg.subrange(spec_version_message_prefix().len() as int, msg.len() as int), ';'),
            key,
        )
    } else {
        None
    }
}

/// The source path recovered from a marker message.
pub open spec fn marker_source(msg: Seq<char>) -> Option<Seq<char>> {
    marker_field(msg, "source"@)
}

/// The content checksum recovered from a marker message.
pub open spec fn marker_checksum(msg: Seq<char>) -> Option<Seq<char>> {
    marker_field(msg, "checksum"@)
}

/// The marker written for a document at `source` with content checksum
/// `checksum`. Backslashes in the path are written as `/` so the marker is
/// platform independent.
pub open spec fn spec_version_message(source: Seq<char>, checksum: Seq<char>) -> Seq<char> {
    spec_version_message_prefix() + " source="@ + replace_char(source, '\\', '/') + "; checksum="@
        + checksum
}

/// The fixed prefix as a string.
pub fn version_message_prefix() -> (r: &'static str)
    ensures
        r@ == spec_version_message_prefix(),
{
    "updated by markedspace:"
}

/// Whether `v` starts with `p`.
pub fn vec_starts_with(v: &Vec<char>, p: &Vec<char>) -> (r: bool)
    ensures
        r == starts_with(v@, p@),
{
    if p.len() > v.len() {
        return false;
    }
    range_eq(v, 0, p.len(), p)
}

/// Whether `message` marks a managed node.
pub fn message_is_managed(message: &str) -> (r: bool)
    ensures
        r == is_managed_message(message@),
{
    let msg = chars_of(message);
    let pre = chars_of(version_message_prefix());
    vec_starts_with(&msg, &pre)
}

/// Lookup of `clause_parts` applied to one clause on top of an earlier
/// result `d`: the clause overrides `d` when it parses and its key matches.
pub open spec fn clause_step(
    cl: Seq<char>,
    key: Seq<char>,
    d: Option<Seq<char>>,
) -> Option<Seq<char>> {
    match clause_parts(cl) {
        Some(kv) => if kv.0 == key {
            Some(kv.1)
        } else {
            d
        },
        None => d,
    }
}

/// `lookup_clause` with a default for the case where no clause matches.
pub open spec fn lookup_with(
    clauses: Seq<Seq<char>>,
    key: Seq<char>,
    d: Option<Seq<char>>,
) -> Option<Seq<char>> {
    match lookup_clause(clauses, key) {
        Some(v) => Some(v),
        None => d,
    }
}

/// Scanning clauses front to back and letting later matches override
/// earlier ones computes the last-match lookup.
proof fn lemma_lookup_with_prepend(
    cl: Seq<char>,
    rest: Seq<Seq<char>>,
    key: Seq<char>,
    d: Option<Seq<char>>,
)
    ensures
        lookup_with(seq![cl] + rest, key, d) == lookup_with(rest, key, clause_step(cl, key, d)),
    decreases rest.len(),
{
    let all = seq![cl] + rest;
    if rest.len() == 0 {
        assert(all.len() == 1);
        assert(all.last() == cl);
        assert(all.drop_last() =~= Seq::<Seq<char>>::empty());
        assert(lookup_clause(Seq::<Seq<char>>::empty(), key) is None);
        assert(lookup_clause(all, key) == match clause_parts(cl) {
            Some(kv) => if kv.0 == key {
                Some(kv.1)
            } else {
                None
            },
            None => None,
        });
    } else {
        assert(all.last() == rest.last());
        assert(all.drop_last() =~= seq![cl] + rest.drop_last());
        lemma_lookup_with_prepend(cl, rest.drop_last(), key, d);
        match clause_parts(rest.last()) {
            Some(kv) => {
                if kv.0 == key {
                    assert(lookup_clause(all, key) == Some(kv.1));
                    assert(lookup_clause(rest, key) == Some(kv.1));
                } else {
                    assert(lookup_clause(all, key) == lookup_clause(all.drop_last(), key));
                    assert(lookup_clause(rest, key) == lookup_clause(rest.drop_last(), key));
                }
            },
            None => {
                assert(lookup_clause(all, key) == lookup_clause(all.drop_last(), key));
                assert(lookup_clause(rest, key) == lookup_clause(rest.drop_last(), key));
            },
        }
    }
}

/// The field named `key` in `message`, by the marker grammar: strip the
/// prefix, split on `;`, split each clause on its first `=`, trim, and take
/// the last clause keyed `key`.
pub fn marker_field_str(message: &str, key: &str) -> (r: Option<String>)
    ensures
        r.deep_view() == marker_field(message@, key@),
{
    let msg = chars_of(message);
    let pre = chars_of(version_message_prefix());
    if !vec_starts_with(&msg, &pre) {
        return None;
    }
    let keyv = chars_of(key);
    let rest = subvec(&msg, pre.len(), msg.len());
    let ghost segs = split_char(rest@, ';');
    let n = rest.len();
    let mut start: usize = 0;
    let mut acc: Option<String> = None;
    loop
        invariant_except_break
            start <= n,
            n == rest@.len(),
            keyv@ == key@,
            lookup_with(split_from(rest@, ';', start as int), key@, acc.deep_view()) == lookup_clause(
                segs,
                key@,
            ),
        ensures
            acc.deep_view() == lookup_clause(segs, key@),
        decreases n - start,
    {
        let j = find_char_from(&rest, ';', start);
        let clause = subvec(&rest, start, j);
        let ghost cl = clause@;
        let ghost d0 = acc.deep_view();
        let e = find_char_from(&clause, '=', 0);
        if e < clause.len() {
            let keypart = subvec(&clause, 0, e);
            let valpart = subvec(&clause, e + 1, clause.len());
            proof {
                assert(keypart@ == cl.subrange(0, e as int));
                assert(valpart@ == cl.subrange(e + 1, cl.len() as int));
            }
            let (ka, kb) = trim_bounds(&keypart);
            if range_eq(&keypart, ka, kb, &keyv) {
                let (va, vb) = trim_bounds(&valpart);
                let valv = subvec(&valpart, va, vb);
                acc = Some(string_from_chars(&valv));
                proof {
                    assert(trimmed(keypart@) == key@);
                    assert(acc.deep_view() == Some(trimmed(valpart@)));
                    assert(clause_step(cl, key@, d0) == acc.deep_view());
                }
            } else {
                proof {
                    assert(trimmed(keypart@) != key@);
                    assert(clause_step(cl, key@, d0) == d0);
                }
            }
        } else {
            proof {
                assert(clause_parts(cl) is None);
                assert(clause_step(cl, key@, d0) == d0);
            }
        }
        if j == n {
            proof {
                lemma_lookup_with_prepend(cl, Seq::<Seq<char>>::empty(), key@, d0);
                assert(split_from(rest@, ';', start as int) =~= seq![cl]);
                assert(seq![cl] =~= seq![cl] + Seq::<Seq<char>>::empty());
                assert(lookup_with(Seq::<Seq<char>>::empty(), key@, clause_step(cl, key@, d0))
                    == clause_step(cl, key@, d0));
                assert(acc.deep_view() == lookup_clause(segs, key@));
            }
            break;
        }
        proof {
            lemma_lookup_with_prepend(cl, split_from(rest@, ';', j + 1), key@, d0);
            assert(split_from(rest@, ';', start as int) =~= seq![cl] + split_from(
                rest@,
                ';',
                j + 1,
            ));
        }
        start = j + 1;
    }
    acc
}

/// The marker message for a document at `source` with checksum `checksum`.
/// Backslashes in the path are written as `/`.
pub fn build_version_message(source: &str, checksum: &str) -> (r: String)
    ensures
        r@ == spec_version_message(source@, checksum@),
{
    let srcv = chars_of(source);
    let replaced = replace_chars(&srcv, '\\', '/');
    let rs = string_from_chars(&replaced);
    let mut m = String::new();
    m.append(version_message_prefix());
    m.append(" source=");
    m.append(rs.as_str());
    m.append("; checksum=");
    m.append(checksum);
    proof {
        assert(m@ =~= spec_version_message(source@, checksum@));
    }
    m
}

/// Marker round-trip: decoding a freshly encoded marker recovers the source
/// path and the checksum, and the marker marks the node as managed. The
/// path and checksum must contain no `;` (a known limitation of the clause
/// grammar), no backslash, and no whitespace at either end.
#[verifier::rlimit(100)]
pub proof fn lemma_marker_round_trip(source: Seq<char>, checksum: Seq<char>)
    requires
        forall|j: int| 0 <= j < source.len() ==> source[j] != ';' && source[j] != '\\',
        source.len() > 0 ==> !is_space_char(source[0]) && !is_space_char(source.last()),
        forall|j: int| 0 <= j < checksum.len() ==> checksum[j] != ';',
        checksum.len() > 0 ==> !is_space_char(checksum[0]) && !is_space_char(checksum.last()),
    ensures
        marker_source(spec_version_message(source, checksum)) == Some(source),
        marker_checksum(spec_version_message(source, checksum)) == Some(checksum),
        is_managed_message(spec_version_message(source, checksum)),
{
    let pre = spec_version_message_prefix();
    let sa = " source="@;
    let sb = "; checksum="@;
    reveal_strlit(" source=");
    reveal_strlit("; checksum=");
    reveal_strlit("source");
    reveal_strlit("checksum");
    let m = spec_version_message(source, checksum);
    assert(replace_char(source, '\\', '/') =~= source);
    assert(m =~= pre + sa + source + sb + checksum);

    // the message starts with the prefix
    assert(m.subrange(0, pre.len() as int) =~= pre);
    assert(is_managed_message(m));

    // the remainder after the prefix
    let rest = m.subrange(pre.len() as int, m.len() as int);
    assert(rest =~= sa + source + sb + checksum);
    let slen = source.len() as int;
    let clen = checksum.len() as int;

    // the single `;` sits right after the source path
    let tail1 = source + sb + checksum;
    let tail2 = sb + checksum;
    assert(rest =~= sa + tail1);
    assert(tail1 =~= source + tail2);
    assert(find_from(sa, ';', 0) == 8) by {
        reveal_with_fuel(crate::chars::find_from, 10);
    }
    lemma_find_from_is(source, ';', 0, slen);
    assert(find_from(sb, ';', 0) == 0) by {
        reveal_with_fuel(crate::chars::find_from, 2);
    }
    lemma_find_from_append(sb, checksum, ';');
    lemma_find_from_append(source, tail2, ';');
    lemma_find_from_append(sa, tail1, ';');
    let q = 8 + slen;
    assert(find_from(rest, ';', 0) == q);

    // so the remainder splits into exactly two clauses
    let seg0 = rest.subrange(0, q);
    assert(seg0 =~= sa + source);
    let seg1 = rest.subrange(q + 1, rest.len() as int);
    assert(seg1 =~= sb.subrange(1, 11) + checksum);
    assert(find_from(rest, ';', q + 1) == rest.len()) by {
        assert(find_from(sb, ';', 1) == 11) by {
            reveal_with_fuel(crate::chars::find_from, 12);
        }
        lemma_find_from(sb, ';', 1);
        assert forall|j: int| q + 1 <= j < rest.len() implies rest[j] != ';' by {
            if j < q + 11 {
                assert(rest[j] == sb[j - q]);
            } else {
                assert(rest[j] == checksum[j - q - 11]);
            }
        }
        lemma_find_from_is(rest, ';', q + 1, rest.len() as int);
    }
    let clauses = split_char(rest, ';');
    assert(split_from(rest, ';', q + 1) =~= seq![seg1]);
    assert(split_from(rest, ';', 0) =~= seq![seg0] + split_from(rest, ';', q + 1));
    assert(clauses =~= seq![seg0, seg1]);

    // the second clause parses as `checksum=<checksum>`
    let sbtail = sb.subrange(1, 11);
    assert(find_from(sbtail, '=', 0) == 9) by {
        reveal_with_fuel(crate::chars::find_from, 11);
        assert(sbtail[0] == sb[1]);
        assert(sbtail[1] == sb[2]);
        assert(sbtail[2] == sb[3]);
        assert(sbtail[3] == sb[4]);
        assert(sbtail[4] == sb[5]);
        assert(sbtail[5] == sb[6]);
        assert(sbtail[6] == sb[7]);
        assert(sbtail[7] == sb[8]);
        assert(sbtail[8] == sb[9]);
        assert(sbtail[9] == sb[10]);
    }
    lemma_find_from_append(sbtail, checksum, '=');
    assert(find_from(seg1, '=', 0) == 9);
    let key1 = seg1.subrange(0, 9);
    assert(key1 =~= sbtail.subrange(0, 9));
    assert(trimmed(key1) == "checksum"@) by {
        lemma_trim_start_range(key1, 1);
        lemma_trim_end_range(key1.subrange(1, 9), 8);
        assert(key1.subrange(1, 9).subrange(0, 8) =~= "checksum"@);
    }
    assert(seg1.subrange(10, seg1.len() as int) =~= checksum);
    lemma_trimmed_id(checksum);
    assert(clause_parts(seg1) == Some(("checksum"@, checksum)));

    // the first clause parses as `source=<source>`
    assert(find_from(sa, '=', 0) == 7) by {
        reveal_with_fuel(crate::chars::find_from, 9);
    }
    lemma_find_from_append(sa, source, '=');
    assert(find_from(seg0, '=', 0) == 7);
    let key0 = seg0.subrange(0, 7);
    assert(key0 =~= sa.subrange(0, 7));
    assert(trimmed(key0) == "source"@) by {
        lemma_trim_start_range(key0, 1);
        lemma_trim_end_range(key0.subrange(1, 7), 6);
        assert(key0.subrange(1, 7).subrange(0, 6) =~= "source"@);
    }
    assert(seg0.subrange(8, seg0.len() as int) =~= source);
    lemma_trimmed_id(source);
    assert(clause_parts(seg0) == Some(("source"@, source)));

    // last-match lookup: the checksum clause answers `checksum`, the source
    // clause answers `source`
    assert("checksum"@ != "source"@) by {
        assert("checksum"@.len() == 8);
        assert("source"@.len() == 6);
    }
    assert(clauses.last() == seg1);
    assert(clauses.drop_last() =~= seq![seg0]);
    assert(seq![seg0].last() == seg0);
    assert(seq![seg0].drop_last() =~= Seq::<Seq<char>>::empty());
    assert(lookup_clause(clauses, "checksum"@) == Some(checksum));
    assert(lookup_clause(seq![seg0], "source"@) == Some(source));
    assert(lookup_clause(clauses, "source"@) == Some(source));
    assert(marker_checksum(m) == Some(checksum));
    assert(marker_source(m) == Some(source));
}

} // verus!
