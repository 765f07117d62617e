//! Splitting a sequence at separator elements, the model behind path
//! components, `/proc/mounts` lines and whitespace-separated fields.
use vstd::prelude::*;

verus! {

/// The pieces of `s` between separators, in order, empty pieces included
/// (so there is always one more piece than there are separators).
pub open spec fn split_by<T>(s: Seq<T>, sep: spec_fn(T) -> bool) -> Seq<Seq<T>>
    decreases s.len(),
{
    if s.len() == 0 {
        seq![Seq::empty()]
    } else {
        let prev = split_by(s.drop_last(), sep);
        if sep(s.last()) {
            prev.push(Seq::empty())
        } else {
            prev.update(prev.len() - 1, prev.last().push(s.last()))
        }
    }
}

/// Pieces that are not empty.
pub open spec fn is_nonempty<T>() -> spec_fn(Seq<T>) -> bool {
    |piece: Seq<T>| piece.len() != 0
}

/// The non-empty pieces of `s` between separators.
pub open spec fn fields_by<T>(s: Seq<T>, sep: spec_fn(T) -> bool) -> Seq<Seq<T>> {
    split_by(s, sep).filter(is_nonempty())
}

/// There is always at least one piece.
pub proof fn lemma_split_by_nonempty<T>(s: Seq<T>, sep: spec_fn(T) -> bool)
    ensures
        split_by(s, sep).len() >= 1,
    decreases s.len(),
{
    if s.len() > 0 {
        lemma_split_by_nonempty(s.drop_last(), sep);
    }
}

/// Extending the input by one element: a separator closes the last piece and
/// opens an empty one; any other element is appended to the last piece.
pub proof fn lemma_split_by_push<T>(s: Seq<T>, sep: spec_fn(T) -> bool, done: Seq<Seq<T>>, cur: Seq<T>, x: T)
    requires
        split_by(s, sep) == done.push(cur),
    ensures
        split_by(s.push(x), sep) == (if sep(x) {
            done.push(cur).push(Seq::empty())
        } else {
            done.push(cur.push(x))
        }),
{
    assert(s.push(x).drop_last() =~= s);
    if !sep(x) {
        assert(done.push(cur).update(done.len() as int, cur.push(x)) =~= done.push(cur.push(x)));
    }
}

/// Without separators there is a single piece, the whole input.
pub proof fn lemma_split_by_no_sep<T>(a: Seq<T>, sep: spec_fn(T) -> bool)
    requires
        forall|i: int| 0 <= i < a.len() ==> !sep(#[trigger] a[i]),
    ensures
        split_by(a, sep) == seq![a],
    decreases a.len(),
{
    if a.len() > 0 {
        lemma_split_by_no_sep(a.drop_last(), sep);
        assert(a.drop_last().push(a.last()) =~= a);
        assert(seq![a.drop_last()].update(0, a.drop_last().push(a.last())) =~= seq![a]);
    } else {
        assert(a =~= Seq::<T>::empty());
    }
}

/// Splitting `a`, a separator, then `b`: the pieces of `a` followed by the
/// pieces of `b`.
pub proof fn lemma_split_by_concat<T>(a: Seq<T>, x: T, b: Seq<T>, sep: spec_fn(T) -> bool)
    requires
        sep(x),
    ensures
        split_by(a + seq![x] + b, sep) == split_by(a, sep) + split_by(b, sep),
    decreases b.len(),
{
    lemma_split_by_nonempty(a, sep);
    if b.len() == 0 {
        assert(a + seq![x] + b =~= a.push(x));
        assert((a + seq![x] + b).drop_last() =~= a);
        assert(split_by(a, sep).push(Seq::empty()) =~= split_by(a, sep) + seq![Seq::<T>::empty()]);
    } else {
        let b0 = b.drop_last();
        let y = b.last();
        lemma_split_by_concat(a, x, b0, sep);
        lemma_split_by_nonempty(b0, sep);
        assert((a + seq![x] + b).drop_last() =~= a + seq![x] + b0);
        let pa = split_by(a, sep);
        let pb = split_by(b0, sep);
        if sep(y) {
            assert((pa + pb).push(Seq::empty()) =~= pa + pb.push(Seq::empty()));
        } else {
            let joined = pa + pb;
            assert(joined.update(joined.len() - 1, joined.last().push(y)) =~= pa + pb.update(
                pb.len() - 1,
                pb.last().push(y),
            ));
        }
    }
}

} // verus!
