//! Unix paths as byte strings, compared by whole components.
//!
//! A path's components are: a root marker if it starts with `/`, a current-dir
//! marker if it is `.` or starts with `./`, then every non-empty segment
//! between slashes other than `.`. Repeated slashes, trailing slashes and
//! interior `.` segments therefore do not matter, and `..` is kept as is.
//! One path starts with another when the other's components are a prefix of
//! its components, so `/run/media/me` is a prefix of `/run/media/me/STICK`
//! but not of `/run/media/meSTICK`.
use vstd::prelude::*;

use crate::split::{
    lemma_split_by_concat, lemma_split_by_no_sep, lemma_split_by_nonempty, lemma_split_by_push,
    split_by,
};

verus! {

/// `/`
pub const SLASH: u8 = 0x2F;

/// `.`
pub const DOT: u8 = 0x2E;

/// The separator between path segments.
pub open spec fn is_slash() -> spec_fn(u8) -> bool {
    |b: u8| b == SLASH
}

/// A segment that names something: not empty and not `.`.
pub open spec fn is_normal_segment() -> spec_fn(Seq<u8>) -> bool {
    |s: Seq<u8>| s.len() != 0 && s != seq![DOT]
}

/// The component that stands for the root directory.
pub open spec fn root_component() -> Seq<u8> {
    seq![SLASH]
}

/// The component that stands for a leading current directory.
pub open spec fn cur_dir_component() -> Seq<u8> {
    seq![DOT]
}

/// The path is absolute.
pub open spec fn has_root(p: Seq<u8>) -> bool {
    p.len() > 0 && p[0] == SLASH
}

/// The path is relative and is `.` or starts with `./`.
pub open spec fn leads_with_cur_dir(p: Seq<u8>) -> bool {
    &&& p.len() > 0
    &&& p[0] == DOT
    &&& (p.len() == 1 || p[1] == SLASH)
}

/// The components of a path.
pub open spec fn spec_path_components(p: Seq<u8>) -> Seq<Seq<u8>> {
    let lead: Seq<Seq<u8>> = if has_root(p) {
        seq![root_component()]
    } else if leads_with_cur_dir(p) {
        seq![cur_dir_component()]
    } else {
        Seq::empty()
    };
    lead + split_by(p, is_slash()).filter(is_normal_segment())
}

/// The components of `base` are a prefix of the components of `path`.
pub open spec fn spec_path_starts_with(path: Seq<u8>, base: Seq<u8>) -> bool {
    let cp = spec_path_components(path);
    let cb = spec_path_components(base);
    cb.len() <= cp.len() && cp.subrange(0, cb.len() as int) == cb
}

/// The path denotes the root directory itself (`/`, `//`, `/./`, ...).
pub open spec fn spec_path_is_root(p: Seq<u8>) -> bool {
    spec_path_components(p) == seq![root_component()]
}

fn is_normal(seg: &Vec<u8>) -> (r: bool)
    ensures
        r == is_normal_segment()(seg@),
{
    let r = seg.len() != 0 && !(seg.len() == 1 && seg[0] == DOT);
    proof {
        if seg@.len() == 1 && seg@[0] == DOT {
            assert(seg@ =~= seq![DOT]);
        }
    }
    r
}

/// The components of a path, each as its bytes.
pub fn path_components(p: &[u8]) -> (r: Vec<Vec<u8>>)
    ensures
        r.deep_view() == spec_path_components(p@),
{
    let mut out: Vec<Vec<u8>> = Vec::new();
    if p.len() > 0 && p[0] == SLASH {
        out.push(vec![SLASH]);
    } else if p.len() > 0 && p[0] == DOT && (p.len() == 1 || p[1] == SLASH) {
        out.push(vec![DOT]);
    }
    let ghost lead = out.deep_view();
    assert(lead =~~= (if has_root(p@) {
        seq![root_component()]
    } else if leads_with_cur_dir(p@) {
        seq![cur_dir_component()]
    } else {
        Seq::<Seq<u8>>::empty()
    }));
    let mut cur: Vec<u8> = Vec::new();
    let ghost mut done: Seq<Seq<u8>> = Seq::empty();
    assert(p@.take(0) =~= Seq::<u8>::empty());
    assert(done.filter(is_normal_segment()) =~= Seq::<Seq<u8>>::empty()) by {
        reveal(Seq::filter);
    }
    assert(out.deep_view() =~~= lead + done.filter(is_normal_segment()));
    let mut i: usize = 0;
    while i < p.len()
        invariant
            i <= p.len(),
            split_by(p@.take(i as int), is_slash()) == done.push(cur@),
            out.deep_view() == lead + done.filter(is_normal_segment()),
        decreases p.len() - i,
    {
        let b = p[i];
        proof {
            lemma_split_by_push(p@.take(i as int), is_slash(), done, cur@, b);
            assert(p@.take(i as int).push(b) =~= p@.take(i + 1));
        }
        let ghost old_cur = cur@;
        if b == SLASH {
            let ghost old_out = out.deep_view();
            if is_normal(&cur) {
                let c = cur;
                out.push(c);
                assert(out.deep_view() =~~= old_out.push(c@));
                cur = Vec::new();
            } else {
                cur = Vec::new();
            }
            proof {
                let finished = done.push(old_cur);
                done.lemma_filter_push(old_cur, is_normal_segment());
                assert(out.deep_view() =~~= lead + finished.filter(is_normal_segment()));
                done = finished;
                assert(cur@ =~= Seq::<u8>::empty());
            }
        } else {
            cur.push(b);
        }
        i += 1;
    }
    assert(p@.take(p.len() as int) =~= p@);
    let ghost old_out = out.deep_view();
    let ghost last = cur@;
    proof {
        done.lemma_filter_push(last, is_normal_segment());
    }
    if is_normal(&cur) {
        out.push(cur);
        assert(out.deep_view() =~~= old_out.push(last));
    }
    assert(out.deep_view() =~~= spec_path_components(p@));
    out
}

/// The deep view of a vector of byte strings holds each string's bytes.
pub proof fn lemma_deep_view_bytes(v: Vec<Vec<u8>>, k: int)
    requires
        0 <= k < v@.len(),
    ensures
        v.deep_view()[k] == v@[k]@,
{
    assert(v.deep_view()[k] =~= v@[k]@);
}

/// True if the two byte strings are equal.
pub fn bytes_eq(a: &[u8], b: &[u8]) -> (r: bool)
    ensures
        r == (a@ == b@),
{
    if a.len() != b.len() {
        return false;
    }
    let r = crate::detect::magic::region_eq(a, 0, b);
    assert(a@.subrange(0, b@.len() as int) =~= a@);
    r
}

/// True if `base`'s components are a prefix of `path`'s components.
pub fn path_starts_with(path: &[u8], base: &[u8]) -> (r: bool)
    ensures
        r == spec_path_starts_with(path@, base@),
{
    let cp = path_components(path);
    let cb = path_components(base);
    if cb.len() > cp.len() {
        return false;
    }
    let mut k: usize = 0;
    while k < cb.len()
        invariant
            k <= cb.len() <= cp.len(),
            cp.deep_view() == spec_path_components(path@),
            cb.deep_view() == spec_path_components(base@),
            forall|j: int| 0 <= j < k ==> cp.deep_view()[j] == cb.deep_view()[j],
        decreases cb.len() - k,
    {
        proof {
            lemma_deep_view_bytes(cp, k as int);
            lemma_deep_view_bytes(cb, k as int);
        }
        if !bytes_eq(cp[k].as_slice(), cb[k].as_slice()) {
            assert(cp.deep_view()[k as int] != cb.deep_view()[k as int]);
            assert(cp.deep_view().subrange(0, cb.len() as int)[k as int] != cb.deep_view()[k as int]);
            return false;
        }
        k += 1;
    }
    assert(cp.deep_view().subrange(0, cb.len() as int) =~= cb.deep_view());
    true
}

/// True if the path denotes the root directory itself.
pub fn path_is_root(p: &[u8]) -> (r: bool)
    ensures
        r == spec_path_is_root(p@),
{
    let c = path_components(p);
    let r = c.len() == 1 && c[0].len() == 1 && c[0][0] == SLASH;
    proof {
        if c@.len() >= 1 {
            lemma_deep_view_bytes(c, 0);
        }
        if r {
            assert(c.deep_view()[0] =~~= root_component());
            assert(c.deep_view() =~~= seq![root_component()]);
        } else if c.deep_view() == seq![root_component()] {
            assert(c.deep_view()[0] == root_component());
        }
    }
    r
}

// ---- laws -------------------------------------------------------------------------
/// Every path starts with itself.
pub proof fn lemma_path_starts_with_reflexive(p: Seq<u8>)
    ensures
        spec_path_starts_with(p, p),
{
    let c = spec_path_components(p);
    assert(c.subrange(0, c.len() as int) =~= c);
}

/// Starting with a path is transitive.
pub proof fn lemma_path_starts_with_transitive(a: Seq<u8>, b: Seq<u8>, c: Seq<u8>)
    requires
        spec_path_starts_with(a, b),
        spec_path_starts_with(b, c),
    ensures
        spec_path_starts_with(a, c),
{
    let ca = spec_path_components(a);
    let cb = spec_path_components(b);
    let cc = spec_path_components(c);
    assert(ca.subrange(0, cc.len() as int) =~= cb.subrange(0, cc.len() as int));
}

/// A trailing slash does not change a (non-empty) path's components.
pub proof fn lemma_trailing_slash_is_ignored(p: Seq<u8>)
    requires
        p.len() > 0,
    ensures
        spec_path_components(p.push(SLASH)) == spec_path_components(p),
{
    lemma_split_by_nonempty(p, is_slash());
    let s = split_by(p, is_slash());
    assert(p.push(SLASH).drop_last() =~= p);
    assert(split_by(p.push(SLASH), is_slash()) == s.push(Seq::empty()));
    s.lemma_filter_push(Seq::empty(), is_normal_segment());
    assert(p.push(SLASH)[0] == p[0]);
    if p.len() > 1 {
        assert(p.push(SLASH)[1] == p[1]);
    }
}

/// Splitting `a`, a slash, then `b` into components: the pieces of `a`, then
/// those of `b`, keeping only the named ones.
proof fn lemma_normal_pieces_concat(a: Seq<u8>, b: Seq<u8>)
    ensures
        split_by(a + seq![SLASH] + b, is_slash()).filter(is_normal_segment()) == split_by(
            a,
            is_slash(),
        ).filter(is_normal_segment()) + split_by(b, is_slash()).filter(is_normal_segment()),
{
    lemma_split_by_concat(a, SLASH, b, is_slash());
    Seq::filter_distributes_over_add(split_by(a, is_slash()), split_by(b, is_slash()), is_normal_segment());
}

/// Joining at a slash keeps the leading root or current-directory marker of
/// the first part (or gives the root marker when the first part is empty).
proof fn lemma_lead_of_join(a: Seq<u8>, x: Seq<u8>, y: Seq<u8>)
    requires
        x.len() > 0,
        x[0] == SLASH,
        y.len() > 0,
        y[0] == SLASH,
    ensures
        has_root(a + x) == has_root(a + y),
        leads_with_cur_dir(a + x) == leads_with_cur_dir(a + y),
{
    if a.len() > 0 {
        assert((a + x)[0] == a[0] && (a + y)[0] == a[0]);
        if a.len() > 1 {
            assert((a + x)[1] == a[1] && (a + y)[1] == a[1]);
        } else {
            assert((a + x)[1] == SLASH && (a + y)[1] == SLASH);
        }
    } else {
        assert((a + x)[0] == SLASH && (a + y)[0] == SLASH);
    }
}

/// Repeated slashes and interior `.` segments do not change a path's
/// components: `a//b` and `a/./b` are both `a/b`.
pub proof fn lemma_extra_slash_and_dot_are_ignored(a: Seq<u8>, b: Seq<u8>)
    ensures
        spec_path_components(a + seq![SLASH, SLASH] + b) == spec_path_components(
            a + seq![SLASH] + b,
        ),
        spec_path_components(a + seq![SLASH, DOT, SLASH] + b) == spec_path_components(
            a + seq![SLASH] + b,
        ),
{
    let one = a + seq![SLASH] + b;
    lemma_normal_pieces_concat(a, b);
    // a//b == a + / + (/ + b)
    let sb = seq![SLASH] + b;
    assert(a + seq![SLASH, SLASH] + b =~= a + seq![SLASH] + sb);
    lemma_normal_pieces_concat(a, sb);
    assert(Seq::<u8>::empty() + seq![SLASH] + b =~= sb);
    lemma_normal_pieces_concat(Seq::empty(), b);
    lemma_split_by_no_sep(Seq::<u8>::empty(), is_slash());
    assert(seq![Seq::<u8>::empty()].filter(is_normal_segment()) =~= Seq::<Seq<u8>>::empty()) by {
        reveal(Seq::filter);
        assert(seq![Seq::<u8>::empty()].drop_last() =~= Seq::<Seq<u8>>::empty());
    }
    lemma_lead_of_join(a, seq![SLASH, SLASH] + b, seq![SLASH] + b);
    assert(a + (seq![SLASH, SLASH] + b) =~= a + seq![SLASH, SLASH] + b);
    assert(a + (seq![SLASH] + b) =~= one);
    // a/./b == a + / + (. + / + b)
    let db = seq![DOT, SLASH] + b;
    assert(a + seq![SLASH, DOT, SLASH] + b =~= a + seq![SLASH] + db);
    lemma_normal_pieces_concat(a, db);
    assert(seq![DOT] + seq![SLASH] + b =~= db);
    lemma_normal_pieces_concat(seq![DOT], b);
    assert forall|i: int| 0 <= i < seq![DOT].len() implies !is_slash()(#[trigger] seq![DOT][i]) by {}
    lemma_split_by_no_sep(seq![DOT], is_slash());
    assert(seq![seq![DOT]].filter(is_normal_segment()) =~= Seq::<Seq<u8>>::empty()) by {
        reveal(Seq::filter);
        assert(seq![seq![DOT]].drop_last() =~= Seq::<Seq<u8>>::empty());
    }
    lemma_lead_of_join(a, seq![SLASH, DOT, SLASH] + b, seq![SLASH] + b);
    assert(a + (seq![SLASH, DOT, SLASH] + b) =~= a + seq![SLASH, DOT, SLASH] + b);
}

/// A path starts with each of its parents: `a/b` starts with `a`.
pub proof fn lemma_path_starts_with_parent(a: Seq<u8>, b: Seq<u8>)
    requires
        a.len() > 0,
    ensures
        spec_path_starts_with(a + seq![SLASH] + b, a),
{
    let p = a + seq![SLASH] + b;
    lemma_normal_pieces_concat(a, b);
    assert(p[0] == a[0]);
    if a.len() > 1 {
        assert(p[1] == a[1]);
    } else {
        assert(p[1] == SLASH);
    }
    let ca = spec_path_components(a);
    let cp = spec_path_components(p);
    assert(cp.subrange(0, ca.len() as int) =~= ca);
}

} // verus!
