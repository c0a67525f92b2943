//! Hierarchical tensor names: path prefixes are flattened to a single
//! '.'-joined string key, which must agree exactly with the keys recorded
//! in the container's header index.

use vstd::prelude::*;

verus! {

/// The separator placed between path segments in a fully-qualified name.
pub open spec fn dot() -> Seq<char> {
    seq!['.']
}

/// The '.'-joined concatenation of a sequence of path segments.
pub open spec fn join_dot(segs: Seq<Seq<char>>) -> Seq<char>
    decreases segs.len(),
{
    if segs.len() == 0 {
        Seq::empty()
    } else if segs.len() == 1 {
        segs[0]
    } else {
        join_dot(segs.drop_last()) + dot() + segs.last()
    }
}

/// The fully-qualified name composed from a scope's path prefix and a leaf
/// tensor name: the leaf alone when the prefix is empty, otherwise the
/// segments joined by '.', then '.', then the leaf.
pub open spec fn spec_full_name(prefix: Seq<Seq<char>>, leaf: Seq<char>) -> Seq<char> {
    if prefix.len() == 0 {
        leaf
    } else {
        join_dot(prefix) + dot() + leaf
    }
}

/// Composing a leaf under a scope extended by one segment names the same
/// tensor as composing "segment.leaf" under the parent scope.
pub proof fn lemma_descend_compose(prefix: Seq<Seq<char>>, seg: Seq<char>, leaf: Seq<char>)
    ensures
        spec_full_name(prefix.push(seg), leaf) == spec_full_name(prefix, seg + dot() + leaf),
{
    let p = prefix.push(seg);
    if prefix.len() == 0 {
        assert(p.len() == 1);
        assert(p[0] == seg);
        assert(join_dot(p) == seg);
    } else {
        assert(p.drop_last() =~= prefix);
        assert(p.last() == seg);
        assert(join_dot(p) == join_dot(prefix) + dot() + seg);
        assert((join_dot(prefix) + dot() + seg) + dot() + leaf =~= join_dot(prefix) + dot() + (
        seg + dot() + leaf));
    }
}

/// Name composition is associative under descent: descending through `a`
/// then `b` and composing leaf `c` yields the same fully-qualified name as
/// descending through `a` alone and composing leaf "b.c", and the same as
/// composing leaf "a.b.c" without descending at all.
pub proof fn lemma_compose_associative(prefix: Seq<Seq<char>>, a: Seq<char>, b: Seq<char>, c: Seq<char>)
    ensures
        spec_full_name(prefix.push(a).push(b), c) == spec_full_name(
            prefix.push(a),
            b + dot() + c,
        ),
        spec_full_name(prefix.push(a).push(b), c) == spec_full_name(
            prefix,
            a + dot() + b + dot() + c,
        ),
{
    lemma_descend_compose(prefix.push(a), b, c);
    lemma_descend_compose(prefix, a, b + dot() + c);
    assert(a + dot() + (b + dot() + c) =~= a + dot() + b + dot() + c);
}

} // verus!
