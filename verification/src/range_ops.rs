//! Operations on a range of a vector's elements, shared by linear memories and tables.
use vstd::prelude::*;

verus! {

/// Whether `[idx, idx + num)` lies within a sequence of length `len`.
pub open spec fn range_in_bounds(len: int, idx: int, num: int) -> bool {
    0 <= idx && 0 <= num && idx + num <= len
}

/// `s` with the elements in `[idx, idx + num)` replaced by `val`.
pub open spec fn spec_fill<T>(s: Seq<T>, idx: int, val: T, num: int) -> Seq<T> {
    Seq::new(s.len(), |k: int| if idx <= k < idx + num { val } else { s[k] })
}

/// `s` with the elements in `[dst, dst + num)` replaced by those of `src` in
/// `[src_idx, src_idx + num)`.
pub open spec fn spec_copy_from<T>(s: Seq<T>, dst: int, src: Seq<T>, src_idx: int, num: int) -> Seq<T> {
    Seq::new(s.len(), |k: int| if dst <= k < dst + num { src[src_idx + k - dst] } else { s[k] })
}

/// `s` with the elements in `[dst, dst + num)` replaced by those that were in
/// `[src, src + num)`, as if the source range were copied out first.
pub open spec fn spec_copy_within<T>(s: Seq<T>, dst: int, src: int, num: int) -> Seq<T> {
    spec_copy_from(s, dst, s, src, num)
}

/// Sets each element of `v` in `[idx, idx + num)` to `val`.
pub fn fill_range<T: Copy>(v: &mut Vec<T>, idx: usize, val: T, num: usize)
    requires
        range_in_bounds(old(v)@.len() as int, idx as int, num as int),
    ensures
        final(v)@ == spec_fill(old(v)@, idx as int, val, num as int),
{
    let ghost orig = v@;
    let mut i: usize = 0;
    while i < num
        invariant
            i <= num,
            v.len() == orig.len(),
            idx + num <= orig.len(),
            v@ == spec_fill(orig, idx as int, val, i as int),
        decreases num - i,
    {
        v[idx + i] = val;
        i = i + 1;
        assert(v@ =~= spec_fill(orig, idx as int, val, i as int));
    }
}

/// Copies the elements of `src` in `[src_idx, src_idx + num)` over those of `v`
/// in `[dst, dst + num)`.
pub fn copy_range_from<T: Copy>(v: &mut Vec<T>, dst: usize, src: &[T], src_idx: usize, num: usize)
    requires
        range_in_bounds(old(v)@.len() as int, dst as int, num as int),
        range_in_bounds(src@.len() as int, src_idx as int, num as int),
    ensures
        final(v)@ == spec_copy_from(old(v)@, dst as int, src@, src_idx as int, num as int),
{
    let ghost orig = v@;
    let mut i: usize = 0;
    while i < num
        invariant
            i <= num,
            v.len() == orig.len(),
            dst + num <= orig.len(),
            src_idx + num <= src.len(),
            v@ == spec_copy_from(orig, dst as int, src@, src_idx as int, i as int),
        decreases num - i,
    {
        v[dst + i] = src[src_idx + i];
        i = i + 1;
        assert(v@ =~= spec_copy_from(orig, dst as int, src@, src_idx as int, i as int));
    }
}

/// Copies the elements of `v` in `[src, src + num)` over those in `[dst, dst + num)`;
/// the two ranges may overlap.
pub fn copy_range_within<T: Copy>(v: &mut Vec<T>, dst: usize, src: usize, num: usize)
    requires
        range_in_bounds(old(v)@.len() as int, dst as int, num as int),
        range_in_bounds(old(v)@.len() as int, src as int, num as int),
    ensures
        final(v)@ == spec_copy_within(old(v)@, dst as int, src as int, num as int),
{
    let ghost orig = v@;
    if dst <= src {
        let mut i: usize = 0;
        while i < num
            invariant
                i <= num,
                v.len() == orig.len(),
                dst <= src,
                dst + num <= orig.len(),
                src + num <= orig.len(),
                v@ == spec_copy_from(orig, dst as int, orig, src as int, i as int),
            decreases num - i,
        {
            let x = v[src + i];
            v[dst + i] = x;
            i = i + 1;
            assert(v@ =~= spec_copy_from(orig, dst as int, orig, src as int, i as int));
        }
    } else {
        let mut i: usize = num;
        while i > 0
            invariant
                i <= num,
                v.len() == orig.len(),
                dst > src,
                dst + num <= orig.len(),
                src + num <= orig.len(),
                v@ == Seq::new(orig.len(), |k: int|
                    if dst + i <= k < dst + num { orig[src + k - dst] } else { orig[k] }),
            decreases i,
        {
            i = i - 1;
            let x = v[src + i];
            v[dst + i] = x;
            assert(v@ =~= Seq::new(orig.len(), |k: int|
                if dst + i <= k < dst + num { orig[src + k - dst] } else { orig[k] }));
        }
        assert(v@ =~= spec_copy_from(orig, dst as int, orig, src as int, num as int));
    }
}

/// After filling a range with `val`, each element of the range is `val`, and each
/// element outside it is unchanged.
pub proof fn law_fill<T>(s: Seq<T>, idx: int, val: T, num: int)
    ensures
        spec_fill(s, idx, val, num).len() == s.len(),
        forall|k: int| idx <= k < idx + num && 0 <= k < s.len() ==> #[trigger] spec_fill(s, idx, val, num)[k] == val,
        forall|k: int|
            0 <= k < s.len() && !(idx <= k < idx + num) ==> #[trigger] spec_fill(s, idx, val, num)[k] == s[k],
{
}

/// Copying a range onto itself changes nothing.
pub proof fn law_copy_within_same_range<T>(s: Seq<T>, idx: int, num: int)
    requires
        range_in_bounds(s.len() as int, idx, num),
    ensures
        spec_copy_within(s, idx, idx, num) == s,
{
    assert(spec_copy_within(s, idx, idx, num) =~= s);
}

/// Copying no elements changes nothing.
pub proof fn law_copy_nothing<T>(s: Seq<T>, dst: int, src: Seq<T>, src_idx: int)
    ensures
        spec_copy_from(s, dst, src, src_idx, 0) == s,
{
    assert(spec_copy_from(s, dst, src, src_idx, 0) =~= s);
}

/// After a copy, the destination range holds what the source range held, and the rest
/// is unchanged, even when the ranges overlap.
pub proof fn law_copy_within<T>(s: Seq<T>, dst: int, src: int, num: int)
    requires
        range_in_bounds(s.len() as int, dst, num),
        range_in_bounds(s.len() as int, src, num),
    ensures
        spec_copy_within(s, dst, src, num).subrange(dst, dst + num) == s.subrange(src, src + num),
        forall|k: int|
            0 <= k < s.len() && !(dst <= k < dst + num) ==> #[trigger] spec_copy_within(s, dst, src, num)[k] == s[k],
{
    assert(spec_copy_within(s, dst, src, num).subrange(dst, dst + num) =~= s.subrange(src, src + num));
}

/// After copying from a separate source, the sequence keeps its length, every element of
/// the destination range equals the source element at the same offset, and every other
/// element is unchanged.
pub proof fn law_copy_from<T>(s: Seq<T>, dst: int, src: Seq<T>, src_idx: int, num: int)
    requires
        range_in_bounds(s.len() as int, dst, num),
        range_in_bounds(src.len() as int, src_idx, num),
    ensures
        spec_copy_from(s, dst, src, src_idx, num).len() == s.len(),
        spec_copy_from(s, dst, src, src_idx, num).subrange(dst, dst + num) == src.subrange(
            src_idx,
            src_idx + num,
        ),
        forall|j: int|
            0 <= j < num ==> #[trigger] spec_copy_from(s, dst, src, src_idx, num)[dst + j] == src[src_idx
                + j],
        forall|k: int|
            0 <= k < s.len() && !(dst <= k < dst + num) ==> #[trigger] spec_copy_from(
                s,
                dst,
                src,
                src_idx,
                num,
            )[k] == s[k],
{
    assert(spec_copy_from(s, dst, src, src_idx, num).subrange(dst, dst + num) =~= src.subrange(
        src_idx,
        src_idx + num,
    ));
}

/// A range `[idx, idx + num)` is in bounds of a sequence of length `len` exactly when it
/// starts at or after 0, is not negative in length, and ends at or before `len`; an empty
/// range at `len` is in bounds, one past it is not.
pub proof fn law_range_in_bounds(len: int, idx: int, num: int)
    ensures
        range_in_bounds(len, idx, num) <==> (0 <= idx && 0 <= num && idx + num <= len),
        0 <= len ==> range_in_bounds(len, len, 0),
        !range_in_bounds(len, len + 1, 0),
{
}

} // verus!
