//! Character-sequence utilities shared by the marker codec, the link
//! resolver and the path normalizer: searching, splitting, trimming and
//! materializing ranges of characters.

use vstd::prelude::*;
use vstd::string::StrSliceExecFns;
use vstd::string::StringExecFns;

verus! {

/// The whitespace characters the codec trims around clause keys and values.
pub open spec fn is_space_char(c: char) -> bool {
    c == ' ' || c == '\t' || c == '\n' || c == '\r'
}

/// `p` is a prefix of `s`.
pub open spec fn starts_with(s: Seq<char>, p: Seq<char>) -> bool {
    p.len() <= s.len() && s.subrange(0, p.len() as int) == p
}

/// Index of the first occurrence of `c` in `s` at or after `i`, or `s.len()`
/// when there is none.
pub open spec fn find_from(s: Seq<char>, c: char, i: int) -> int
    decreases s.len() - i,
{
    if i >= s.len() {
        s.len() as int
    } else if s[i] == c {
        i
    } else {
        find_from(s, c, i + 1)
    }
}

pub proof fn lemma_find_from_ge(s: Seq<char>, c: char, i: int)
    ensures
        find_from(s, c, i) < s.len() ==> find_from(s, c, i) >= i,
    decreases s.len() - i,
{
    if i < s.len() && s[i] != c {
        lemma_find_from_ge(s, c, i + 1);
    }
}

/// Characterization of `find_from`: the result is in range, nothing before it
/// matches, and it points at a match unless it is `s.len()`.
pub proof fn lemma_find_from(s: Seq<char>, c: char, i: int)
    requires
        0 <= i <= s.len(),
    ensures
        i <= find_from(s, c, i) <= s.len(),
        forall|j: int| i <= j < find_from(s, c, i) ==> s[j] != c,
        find_from(s, c, i) < s.len() ==> s[find_from(s, c, i)] == c,
    decreases s.len() - i,
{
    if i < s.len() && s[i] != c {
        lemma_find_from(s, c, i + 1);
    }
}

/// Converse direction: a position with no match before it and a match (or the
/// end) at it is exactly `find_from`.
pub proof fn lemma_find_from_is(s: Seq<char>, c: char, i: int, k: int)
    requires
        0 <= i <= k <= s.len(),
        forall|j: int| i <= j < k ==> s[j] != c,
        k < s.len() ==> s[k] == c,
    ensures
        find_from(s, c, i) == k,
    decreases k - i,
{
    if i < k {
        lemma_find_from_is(s, c, i + 1, k);
    }
}

/// How `find_from` distributes over concatenation: a match in `u` is found
/// there, otherwise the search continues in `v`.
pub proof fn lemma_find_from_append(u: Seq<char>, v: Seq<char>, c: char)
    ensures
        find_from(u + v, c, 0) == if find_from(u, c, 0) < u.len() {
            find_from(u, c, 0)
        } else {
            u.len() + find_from(v, c, 0)
        },
{
    lemma_find_from(u, c, 0);
    lemma_find_from(v, c, 0);
    let k = find_from(u, c, 0);
    if k < u.len() {
        assert forall|j: int| 0 <= j < k implies (u + v)[j] != c by {
            assert((u + v)[j] == u[j]);
        }
        assert((u + v)[k] == u[k]);
        lemma_find_from_is(u + v, c, 0, k);
    } else {
        let k2 = find_from(v, c, 0);
        assert forall|j: int| 0 <= j < u.len() + k2 implies (u + v)[j] != c by {
            if j < u.len() {
                assert((u + v)[j] == u[j]);
            } else {
                assert((u + v)[j] == v[j - u.len()]);
            }
        }
        if u.len() + k2 < (u + v).len() {
            assert((u + v)[u.len() + k2] == v[k2]);
        }
        lemma_find_from_is(u + v, c, 0, u.len() + k2);
    }
}

/// The segments of `s[i..]` split on separator `c`, in order. Splitting an
/// empty remainder yields one empty segment, matching `str::split`.
pub open spec fn split_from(s: Seq<char>, c: char, i: int) -> Seq<Seq<char>>
    decreases s.len() - i,
    via split_from_decreases
{
    let j = find_from(s, c, i);
    if j >= s.len() {
        seq![s.subrange(i, s.len() as int)]
    } else {
        seq![s.subrange(i, j)] + split_from(s, c, j + 1)
    }
}

#[via_fn]
proof fn split_from_decreases(s: Seq<char>, c: char, i: int) {
    lemma_find_from_ge(s, c, i);
}

/// All segments of `s` split on `c`.
pub open spec fn split_char(s: Seq<char>, c: char) -> Seq<Seq<char>> {
    split_from(s, c, 0)
}

/// `s` with the leading run of whitespace removed.
pub open spec fn trim_start(s: Seq<char>) -> Seq<char>
    decreases s.len(),
{
    if s.len() > 0 && is_space_char(s[0]) {
        trim_start(s.drop_first())
    } else {
        s
    }
}

/// `s` with the trailing run of whitespace removed.
pub open spec fn trim_end(s: Seq<char>) -> Seq<char>
    decreases s.len(),
{
    if s.len() > 0 && is_space_char(s.last()) {
        trim_end(s.drop_last())
    } else {
        s
    }
}

/// `s` with whitespace removed from both ends.
pub open spec fn trimmed(s: Seq<char>) -> Seq<char> {
    trim_end(trim_start(s))
}

/// If the first `k` characters are whitespace and the `k`-th is not,
/// `trim_start` drops exactly those `k` characters.
pub proof fn lemma_trim_start_range(s: Seq<char>, k: int)
    requires
        0 <= k <= s.len(),
        forall|j: int| 0 <= j < k ==> is_space_char(s[j]),
        k < s.len() ==> !is_space_char(s[k]),
    ensures
        trim_start(s) == s.subrange(k, s.len() as int),
    decreases k,
{
    if k == 0 {
        if s.len() == 0 || !is_space_char(s[0]) {
            assert(trim_start(s) == s);
        }
        assert(s.subrange(0, s.len() as int) =~= s);
    } else {
        let t = s.drop_first();
        lemma_trim_start_range(t, k - 1);
        assert(t.subrange(k - 1, t.len() as int) =~= s.subrange(k, s.len() as int));
    }
}

/// If everything from position `k` on is whitespace and the character before
/// `k` is not, `trim_end` keeps exactly the first `k` characters.
pub proof fn lemma_trim_end_range(s: Seq<char>, k: int)
    requires
        0 <= k <= s.len(),
        forall|j: int| k <= j < s.len() ==> is_space_char(s[j]),
        k > 0 ==> !is_space_char(s[k - 1]),
    ensures
        trim_end(s) == s.subrange(0, k),
    decreases s.len(),
{
    if k == s.len() {
        if s.len() == 0 || !is_space_char(s.last()) {
            assert(trim_end(s) == s);
        }
        assert(s.subrange(0, s.len() as int) =~= s);
    } else {
        let t = s.drop_last();
        lemma_trim_end_range(t, k);
        assert(t.subrange(0, k) =~= s.subrange(0, k));
    }
}

/// A sequence with no whitespace at either end trims to itself.
pub proof fn lemma_trimmed_id(s: Seq<char>)
    requires
        s.len() > 0 ==> !is_space_char(s[0]),
        s.len() > 0 ==> !is_space_char(s.last()),
    ensures
        trimmed(s) == s,
{
    assert(trim_start(s) == s);
    assert(trim_end(s) == s);
}

/// `s` with every occurrence of `from` replaced by `to`.
pub open spec fn replace_char(s: Seq<char>, from: char, to: char) -> Seq<char> {
    Seq::new(s.len(), |i: int| if s[i] == from { to } else { s[i] })
}

/// A vector of characters carries the same content through `deep_view` and
/// through its plain view.
pub broadcast proof fn lemma_chars_deep_view(v: Vec<char>)
    ensures
        #[trigger] v.deep_view() == v@,
{
    assert(v.deep_view() =~= v@);
}

/// The characters of `s`, in order.
pub fn chars_of(s: &str) -> (r: Vec<char>)
    ensures
        r@ == s@,
{
    let n = s.unicode_len();
    let mut r: Vec<char> = Vec::new();
    let mut i: usize = 0;
    while i < n
        invariant
            n == s@.len(),
            i <= n,
            r@ == s@.subrange(0, i as int),
        decreases n - i,
    {
        r.push(s.get_char(i));
        assert(r@ =~= s@.subrange(0, i + 1 as int));
        i = i + 1;
    }
    assert(r@ =~= s@);
    r
}

/// Relies on `core::iter::Iterator::collect`: collecting the characters of a
/// slice into a `String` yields exactly those characters, in order.
#[verifier::external_body]
pub fn string_from_chars(v: &Vec<char>) -> (r: String)
    ensures
        r@ == v@,
{
    v.iter().collect()
}

/// First occurrence of `c` in `v` at or after `from`, or `v.len()`.
pub fn find_char_from(v: &Vec<char>, c: char, from: usize) -> (r: usize)
    requires
        from <= v@.len(),
    ensures
        r == find_from(v@, c, from as int),
        from <= r <= v@.len(),
{
    proof {
        lemma_find_from(v@, c, from as int);
    }
    let n = v.len();
    let mut i: usize = from;
    while i < n
        invariant
            from <= i <= n,
            n == v@.len(),
            find_from(v@, c, from as int) == find_from(v@, c, i as int),
        decreases n - i,
    {
        if v[i] == c {
            return i;
        }
        i = i + 1;
    }
    i
}

/// A copy of `v[a..b]`.
pub fn subvec(v: &Vec<char>, a: usize, b: usize) -> (r: Vec<char>)
    requires
        a <= b <= v@.len(),
    ensures
        r@ == v@.subrange(a as int, b as int),
{
    let mut r: Vec<char> = Vec::new();
    let mut i: usize = a;
    while i < b
        invariant
            a <= i <= b <= v@.len(),
            r@ == v@.subrange(a as int, i as int),
        decreases b - i,
    {
        r.push(v[i]);
        assert(r@ =~= v@.subrange(a as int, i + 1 as int));
        i = i + 1;
    }
    r
}

/// Whether `c` is one of the whitespace characters the codec trims.
pub fn is_space(c: char) -> (r: bool)
    ensures
        r == is_space_char(c),
{
    c == ' ' || c == '\t' || c == '\n' || c == '\r'
}

/// The bounds of `v` with whitespace trimmed from both ends:
/// `v[r.0..r.1]` is `trimmed(v)`.
pub fn trim_bounds(v: &Vec<char>) -> (r: (usize, usize))
    ensures
        r.0 <= r.1 <= v@.len(),
        trimmed(v@) == v@.subrange(r.0 as int, r.1 as int),
{
    let n = v.len();
    let mut a: usize = 0;
    while a < n && is_space(v[a])
        invariant
            a <= n,
            n == v@.len(),
            forall|j: int| 0 <= j < a ==> is_space_char(v@[j]),
        decreases n - a,
    {
        a = a + 1;
    }
    proof {
        lemma_trim_start_range(v@, a as int);
    }
    if a == n {
        proof {
            lemma_trim_end_range(v@.subrange(a as int, n as int), 0);
            assert(v@.subrange(n as int, n as int).subrange(0, 0) =~= v@.subrange(
                n as int,
                n as int,
            ));
        }
        return (n, n);
    }
    let mut b: usize = n;
    while b > a && is_space(v[b - 1])
        invariant
            a <= b <= n,
            n == v@.len(),
            forall|j: int| b <= j < n ==> is_space_char(v@[j]),
        decreases b,
    {
        b = b - 1;
    }
    proof {
        let t = v@.subrange(a as int, n as int);
        assert(!is_space_char(v@[a as int]));
        assert(b > a) by {
            if b == a {
                assert(is_space_char(v@[a as int]));
            }
        }
        assert(forall|j: int| b - a <= j < t.len() ==> is_space_char(#[trigger] t[j]));
        assert(!is_space_char(t[b - a - 1]));
        lemma_trim_end_range(t, b - a);
        assert(t.subrange(0, b - a) =~= v@.subrange(a as int, b as int));
    }
    (a, b)
}

/// Whether `v[a..b]` equals `w`.
pub fn range_eq(v: &Vec<char>, a: usize, b: usize, w: &Vec<char>) -> (r: bool)
    requires
        a <= b <= v@.len(),
    ensures
        r == (v@.subrange(a as int, b as int) == w@),
{
    if b - a != w.len() {
        proof {
            assert(v@.subrange(a as int, b as int).len() == b - a);
        }
        return false;
    }
    let mut i: usize = 0;
    while i < w.len()
        invariant
            i <= w@.len(),
            a <= b <= v@.len(),
            b - a == w@.len(),
            forall|j: int| 0 <= j < i ==> v@[a + j] == w@[j],
        decreases w@.len() - i,
    {
        if v[a + i] != w[i] {
            proof {
                assert(v@.subrange(a as int, b as int)[i as int] == v@[a + i]);
            }
            return false;
        }
        i = i + 1;
    }
    proof {
        assert(v@.subrange(a as int, b as int) =~= w@);
    }
    true
}

/// `a` sorts at or before `b`: at the first differing position `a`'s
/// character has the smaller scalar value, or `a` is a prefix of `b`.
pub open spec fn lex_le(a: Seq<char>, b: Seq<char>) -> bool
    decreases a.len(),
{
    if a.len() == 0 {
        true
    } else if b.len() == 0 {
        false
    } else if (a[0] as u32) < (b[0] as u32) {
        true
    } else if (b[0] as u32) < (a[0] as u32) {
        false
    } else {
        lex_le(a.drop_first(), b.drop_first())
    }
}

/// Any two sequences are ordered one way or the other.
pub proof fn lemma_lex_total(a: Seq<char>, b: Seq<char>)
    ensures
        lex_le(a, b) || lex_le(b, a),
    decreases a.len(),
{
    if a.len() > 0 && b.len() > 0 && !((a[0] as u32) < (b[0] as u32)) && !((b[0] as u32) < (a[0]
        as u32)) {
        lemma_lex_total(a.drop_first(), b.drop_first());
    }
}

/// Whether `a` sorts at or before `b`.
pub fn string_le(a: &str, b: &str) -> (r: bool)
    ensures
        r == lex_le(a@, b@),
{
    let av = chars_of(a);
    let bv = chars_of(b);
    let mut i: usize = 0;
    proof {
        assert(a@.skip(0) =~= a@);
        assert(b@.skip(0) =~= b@);
    }
    loop
        invariant
            i <= av@.len(),
            i <= bv@.len(),
            av@ == a@,
            bv@ == b@,
            lex_le(a@, b@) == lex_le(a@.skip(i as int), b@.skip(i as int)),
        decreases av@.len() - i,
    {
        if i == av.len() {
            proof {
                assert(a@.skip(i as int) =~= Seq::<char>::empty());
            }
            return true;
        }
        if i == bv.len() {
            proof {
                assert(b@.skip(i as int) =~= Seq::<char>::empty());
                assert(a@.skip(i as int).len() > 0);
            }
            return false;
        }
        proof {
            assert(a@.skip(i as int)[0] == a@[i as int]);
            assert(b@.skip(i as int)[0] == b@[i as int]);
            assert(a@.skip(i as int).drop_first() =~= a@.skip(i + 1));
            assert(b@.skip(i as int).drop_first() =~= b@.skip(i + 1));
        }
        let ca = av[i] as u32;
        let cb = bv[i] as u32;
        if ca < cb {
            return true;
        }
        if cb < ca {
            return false;
        }
        i = i + 1;
    }
}

/// Nondecreasing in the lexicographic order, adjacent elements compared.
pub open spec fn lex_sorted(s: Seq<Seq<char>>) -> bool {
    forall|i: int| 0 <= i && i + 1 < s.len() ==> lex_le(#[trigger] s[i], s[i + 1])
}

/// Sorts the strings into nondecreasing lexicographic order; the result
/// holds exactly the same strings.
pub fn sort_strings(keys: &Vec<String>) -> (r: Vec<String>)
    ensures
        r.deep_view().to_multiset() == keys.deep_view().to_multiset(),
        lex_sorted(r.deep_view()),
{
    broadcast use vstd::seq_lib::group_to_multiset_ensures;

    let mut r: Vec<String> = Vec::new();
    let mut i: usize = 0;
    proof {
        assert(keys.deep_view().take(0) =~= Seq::<Seq<char>>::empty());
        assert(r.deep_view() =~~= Seq::<Seq<char>>::empty());
    }
    while i < keys.len()
        invariant
            i <= keys@.len(),
            r.deep_view().to_multiset() == keys.deep_view().take(i as int).to_multiset(),
            lex_sorted(r.deep_view()),
        decreases keys@.len() - i,
    {
        let key = keys[i].clone();
        let ghost kv = key@;
        let ghost r0 = r.deep_view();
        let mut p: usize = r.len();
        while p > 0 && !string_le(r[p - 1].as_str(), key.as_str())
            invariant
                p <= r@.len(),
                r.deep_view() == r0,
                kv == key@,
                forall|q: int| p <= q < r0.len() ==> !lex_le(#[trigger] r0[q], kv),
            decreases p,
        {
            proof {
                assert(r0[p - 1] == r@[p - 1]@);
            }
            p = p - 1;
        }
        proof {
            if p > 0 {
                assert(lex_le(r0[p - 1], kv));
            }
            assert forall|q: int| p <= q < r0.len() implies lex_le(kv, #[trigger] r0[q]) by {
                lemma_lex_total(r0[q], kv);
            }
        }
        r.insert(p, key);
        proof {
            let rn = r0.insert(p as int, kv);
            assert(r.deep_view() =~~= rn);
            assert forall|j: int| 0 <= j && j + 1 < rn.len() implies lex_le(
                #[trigger] rn[j],
                rn[j + 1],
            ) by {
                if j + 1 < p {
                    assert(rn[j] == r0[j]);
                    assert(rn[j + 1] == r0[j + 1]);
                } else if j + 1 == p {
                    assert(rn[j] == r0[j]);
                    assert(rn[j + 1] == kv);
                } else if j == p {
                    assert(rn[j] == kv);
                    assert(rn[j + 1] == r0[j]);
                } else {
                    assert(rn[j] == r0[j - 1]);
                    assert(rn[j + 1] == r0[j]);
                }
            }
            let sub0 = r0.subrange(0, p as int);
            let sub1 = r0.subrange(p as int, r0.len() as int);
            vstd::seq_lib::lemma_multiset_commutative(sub0.push(kv), sub1);
            vstd::seq_lib::lemma_multiset_commutative(sub0, sub1);
            sub0.to_multiset_ensures();
            keys.deep_view().take(i as int).to_multiset_ensures();
            assert(rn == sub0.push(kv) + sub1);
            assert(rn.to_multiset() == sub0.push(kv).to_multiset().add(sub1.to_multiset()));
            assert(sub0.push(kv).to_multiset() =~= sub0.to_multiset().insert(kv));
            assert(r0 =~= sub0 + sub1);
            assert(r0.to_multiset() == sub0.to_multiset().add(sub1.to_multiset()));
            assert(rn.to_multiset() =~= r0.to_multiset().insert(kv));
            assert(keys.deep_view().take(i + 1).drop_last() =~= keys.deep_view().take(i as int));
            assert(keys.deep_view().take(i + 1) =~= keys.deep_view().take(i as int).push(
                keys.deep_view()[i as int],
            ));
            assert(kv == keys.deep_view()[i as int]);
            assert(keys.deep_view().take(i + 1).to_multiset() =~= keys.deep_view().take(
                i as int,
            ).to_multiset().insert(kv));
            assert(r.deep_view().to_multiset() =~= keys.deep_view().take(i + 1).to_multiset());
        }
        i = i + 1;
    }
    proof {
        assert(keys.deep_view().take(keys@.len() as int) =~= keys.deep_view());
    }
    r
}

/// The segments joined with the separator `sep` between consecutive
/// segments.
pub open spec fn join_with_sep(parts: Seq<Seq<char>>, sep: Seq<char>) -> Seq<char>
    decreases parts.len(),
{
    if parts.len() == 0 {
        Seq::empty()
    } else if parts.len() == 1 {
        parts[0]
    } else {
        join_with_sep(parts.drop_last(), sep) + sep + parts.last()
    }
}

/// Joins string segments with the separator `sep`.
pub fn join_strings(parts: &Vec<String>, sep: &str) -> (r: String)
    ensures
        r@ == join_with_sep(parts.deep_view(), sep@),
{
    let mut r = String::new();
    let mut i: usize = 0;
    while i < parts.len()
        invariant
            i <= parts@.len(),
            r@ == join_with_sep(parts.deep_view().take(i as int), sep@),
        decreases parts@.len() - i,
    {
        if i > 0 {
            r.append(sep);
        }
        r.append(parts[i].as_str());
        proof {
            let pv = parts.deep_view();
            assert(pv[i as int] == parts@[i as int]@);
            assert(pv.take(i + 1 as int).drop_last() =~= pv.take(i as int));
            assert(pv.take(i + 1 as int).last() == pv[i as int]);
            if i == 0 {
                assert(r@ =~= join_with_sep(pv.take(1), sep@));
            } else {
                assert(r@ =~= join_with_sep(pv.take(i as int), sep@) + sep@ + pv[i as int]);
            }
        }
        i = i + 1;
    }
    proof {
        assert(parts.deep_view().take(parts@.len() as int) =~= parts.deep_view());
    }
    r
}

/// Whether `s` starts with `p`.
pub fn str_starts_with(s: &str, p: &str) -> (r: bool)
    ensures
        r == starts_with(s@, p@),
{
    let sv = chars_of(s);
    let pv = chars_of(p);
    if pv.len() > sv.len() {
        return false;
    }
    range_eq(&sv, 0, pv.len(), &pv)
}

/// Whether `v` holds exactly the characters of `s`.
pub fn vec_is(v: &Vec<char>, s: &str) -> (r: bool)
    ensures
        r == (v@ == s@),
{
    let w = chars_of(s);
    if v.len() != w.len() {
        return false;
    }
    let r = range_eq(v, 0, v.len(), &w);
    proof {
        assert(v@.subrange(0, v@.len() as int) =~= v@);
    }
    r
}

/// The segments of `v` split on `c`, as vectors.
pub fn split_vec(v: &Vec<char>, c: char) -> (r: Vec<Vec<char>>)
    ensures
        r.deep_view() == split_char(v@, c),
{
    let n = v.len();
    let mut r: Vec<Vec<char>> = Vec::new();
    let mut start: usize = 0;
    loop
        invariant_except_break
            start <= n,
            n == v@.len(),
            r.deep_view() + split_from(v@, c, start as int) == split_char(v@, c),
        ensures
            r.deep_view() == split_char(v@, c),
        decreases n - start,
    {
        let j = find_char_from(v, c, start);
        let seg = subvec(v, start, j);
        let ghost r0 = r.deep_view();
        r.push(seg);
        proof {
            assert(r.deep_view() =~~= r0.push(seg@));
        }
        if j == n {
            proof {
                assert(split_from(v@, c, start as int) =~~= seq![seg@]);
                assert(r.deep_view() =~~= r0 + seq![seg@]);
            }
            break;
        }
        proof {
            assert(split_from(v@, c, start as int) =~~= seq![seg@] + split_from(v@, c, j + 1));
            assert(r.deep_view() + split_from(v@, c, j + 1) =~~= r0 + split_from(
                v@,
                c,
                start as int,
            ));
        }
        start = j + 1;
    }
    r
}

/// The segments joined with `c` between consecutive segments.
pub open spec fn join_with(parts: Seq<Seq<char>>, c: char) -> Seq<char>
    decreases parts.len(),
{
    if parts.len() == 0 {
        Seq::empty()
    } else if parts.len() == 1 {
        parts[0]
    } else {
        join_with(parts.drop_last(), c) + seq![c] + parts.last()
    }
}

/// Joins the segments with `c` between consecutive segments.
pub fn join_vec(parts: &Vec<Vec<char>>, c: char) -> (r: Vec<char>)
    ensures
        r@ == join_with(parts.deep_view(), c),
{
    let mut r: Vec<char> = Vec::new();
    let mut i: usize = 0;
    while i < parts.len()
        invariant
            i <= parts@.len(),
            r@ == join_with(parts.deep_view().take(i as int), c),
        decreases parts@.len() - i,
    {
        if i > 0 {
            r.push(c);
        }
        let mut k: usize = 0;
        let ghost mid = r@;
        while k < parts[i].len()
            invariant
                k <= parts@[i as int]@.len(),
                i < parts@.len(),
                r@ == mid + parts@[i as int]@.subrange(0, k as int),
            decreases parts@[i as int]@.len() - k,
        {
            r.push(parts[i][k]);
            proof {
                assert(r@ =~= mid + parts@[i as int]@.subrange(0, k + 1 as int));
            }
            k = k + 1;
        }
        proof {
            let pv = parts.deep_view();
            assert(parts@[i as int]@.subrange(0, parts@[i as int]@.len() as int) =~= pv[i as int]);
            assert(pv.take(i + 1 as int).drop_last() =~= pv.take(i as int));
            assert(pv.take(i + 1 as int).last() == pv[i as int]);
            if i == 0 {
                assert(r@ =~= join_with(pv.take(1), c));
            } else {
                assert(r@ =~= join_with(pv.take(i as int), c) + seq![c] + pv[i as int]);
            }
        }
        i = i + 1;
    }
    proof {
        assert(parts.deep_view().take(parts@.len() as int) =~= parts.deep_view());
    }
    r
}

/// Whether two strings hold the same characters.
pub fn str_eq(a: &str, b: &str) -> (r: bool)
    ensures
        r == (a@ == b@),
{
    let av = chars_of(a);
    let bv = chars_of(b);
    if av.len() != bv.len() {
        return false;
    }
    let r = range_eq(&av, 0, av.len(), &bv);
    proof {
        assert(av@.subrange(0, av@.len() as int) =~= av@);
    }
    r
}

/// `v` with every occurrence of `from` replaced by `to`.
pub fn replace_chars(v: &Vec<char>, from: char, to: char) -> (r: Vec<char>)
    ensures
        r@ == replace_char(v@, from, to),
{
    let mut r: Vec<char> = Vec::new();
    let mut i: usize = 0;
    while i < v.len()
        invariant
            i <= v@.len(),
            r@ == replace_char(v@, from, to).subrange(0, i as int),
        decreases v@.len() - i,
    {
        if v[i] == from {
            r.push(to);
        } else {
            r.push(v[i]);
        }
        assert(r@ =~= replace_char(v@, from, to).subrange(0, i + 1 as int));
        i = i + 1;
    }
    assert(r@ =~= replace_char(v@, from, to));
    r
}

} // verus!
