//! Zero-copy reinterpretation of slices as fixed-size array references.
//!
//! Every operation here produces a view over caller-owned memory: a borrowed
//! array reference whose length `N` is part of its type. Nothing is copied
//! and nothing is allocated. The checked entry points return `None` when the
//! source slice is too short; the unchecked ones demand a proof of length
//! from the caller instead.

use vstd::prelude::*;

verus! {

/// Relies on `<[T]>::first_chunk`: it returns `Some` of a reference to the
/// slice's first `N` elements when the slice holds at least `N` of them, and
/// `None` otherwise.
#[verifier::external_body]
fn first_chunk_of<T, const N: usize>(slice: &[T]) -> (r: Option<&[T; N]>)
    ensures
        slice@.len() < N ==> r.is_none(),
        N <= slice@.len() ==> r.is_some() && r.unwrap()@ == slice@.subrange(0, N as int),
{
    slice.first_chunk::<N>()
}

/// Turns a slice into a reference to an array over its first `N` elements,
/// with the length bound established by proof rather than by a runtime check.
pub fn slice_to_array_unchecked<T, const N: usize>(source: &[T]) -> (r: &[T; N])
    requires
        N <= source@.len(),
    ensures
        r@ == source@.subrange(0, N as int),
{
    first_chunk_of::<T, N>(source).unwrap()
}

/// Turns a slice into a reference to an array
///
/// Returns `None` if the input slice is shorter than `N`
pub fn slice_to_array<T, const N: usize>(source: &[T]) -> (r: Option<&[T; N]>)
    ensures
        r.is_some() <==> N <= source@.len(),
        r.is_some() ==> r.unwrap()@ == source@.subrange(0, N as int),
{
    if source.len() < N {
        None
    } else {
        Some(slice_to_array_unchecked(source))
    }
}

/// Relies on `<[T]>::first_chunk_mut`: it returns `Some` of a mutable
/// reference to the slice's first `N` elements when the slice holds at least
/// `N` of them, and `None` otherwise. The returned array is a view of the
/// slice's own memory: the slice ends up holding whatever is written through
/// the array, followed by its unchanged tail.
#[verifier::external_body]
fn first_chunk_of_mut<T, const N: usize>(slice: &mut [T]) -> (r: Option<&mut [T; N]>)
    ensures
        old(slice)@.len() < N ==> r.is_none() && final(slice)@ == old(slice)@,
        N <= old(slice)@.len() ==> r.is_some() && r.unwrap()@ == old(slice)@.subrange(
            0,
            N as int,
        ) && final(slice)@ == final(r.unwrap())@ + old(slice)@.subrange(
            N as int,
            old(slice)@.len() as int,
        ),
{
    slice.first_chunk_mut::<N>()
}

/// Turns a mutable slice into a mutable reference to an array over its first
/// `N` elements, with the length bound established by proof rather than by a
/// runtime check.
pub fn slice_to_array_mut_unchecked<T, const N: usize>(source: &mut [T]) -> (r: &mut [T; N])
    requires
        N <= old(source)@.len(),
    ensures
        r@ == old(source)@.subrange(0, N as int),
        final(source)@ == final(r)@ + old(source)@.subrange(N as int, old(source)@.len() as int),
{
    first_chunk_of_mut::<T, N>(source).unwrap()
}

/// Turns a mutable slice into a mutable reference to an array
///
/// Returns `None` if the input slice is shorter than `N`
pub fn slice_to_array_mut<T, const N: usize>(source: &mut [T]) -> (r: Option<&mut [T; N]>)
    ensures
        r.is_some() <==> N <= old(source)@.len(),
        r.is_none() ==> final(source)@ == old(source)@,
        r.is_some() ==> r.unwrap()@ == old(source)@.subrange(0, N as int),
        r.is_some() ==> final(source)@ == final(r.unwrap())@ + old(source)@.subrange(
            N as int,
            old(source)@.len() as int,
        ),
{
    if source.len() < N {
        None
    } else {
        Some(slice_to_array_mut_unchecked(source))
    }
}

/// Turns a slice into a reference to an array and a slice starting from the end of the array
///
/// Returns `None` if the input slice is shorter than `N`
pub fn split_to_array<T, const N: usize>(source: &[T]) -> (r: Option<(&[T; N], &[T])>)
    ensures
        r.is_some() <==> N <= source@.len(),
        r.is_some() ==> r.unwrap().0@ == source@.subrange(0, N as int),
        r.is_some() ==> r.unwrap().1@ == source@.subrange(N as int, source@.len() as int),
        r.is_some() ==> r.unwrap().0@ + r.unwrap().1@ == source@,
{
    if source.len() < N {
        None
    } else {
        let (head, tail) = source.split_at(N);
        proof {
            assert(source@.subrange(0, N as int)
                + source@.subrange(N as int, source@.len() as int) =~= source@);
        }
        Some((slice_to_array_unchecked(head), tail))
    }
}

/// Turns a mutable slice into a mutable reference to an array and a mutable
/// slice starting from the end of the array; the two views never overlap
///
/// Returns `None` if the input slice is shorter than `N`
pub fn split_to_array_mut<T, const N: usize>(source: &mut [T]) -> (r: Option<
    (&mut [T; N], &mut [T]),
>)
    ensures
        r.is_some() <==> N <= old(source)@.len(),
        r.is_none() ==> final(source)@ == old(source)@,
        r.is_some() ==> r.unwrap().0@ == old(source)@.subrange(0, N as int),
        r.is_some() ==> r.unwrap().1@ == old(source)@.subrange(
            N as int,
            old(source)@.len() as int,
        ),
        r.is_some() ==> final(source)@ == final(r.unwrap().0)@ + final(r.unwrap().1)@,
{
    if source.len() < N {
        None
    } else {
        let (head, tail) = source.split_at_mut(N);
        let ghost head_at_split = head@;
        let arr = slice_to_array_mut_unchecked(head);
        proof {
            assert(final(arr)@ + head_at_split.subrange(N as int, N as int) =~= final(arr)@);
        }
        Some((arr, tail))
    }
}

/// Turns a slice into a reference to an array and advances the original slice
/// past the consumed elements
///
/// Returns `None`, leaving the slice untouched, if it is shorter than `N`
pub fn split_to_array_scan<'a, T, const N: usize>(source: &mut &'a [T]) -> (r: Option<
    &'a [T; N],
>)
    ensures
        r.is_some() <==> N <= old(source)@.len(),
        r.is_some() ==> r.unwrap()@ == old(source)@.subrange(0, N as int),
        r.is_some() ==> final(source)@ == old(source)@.subrange(
            N as int,
            old(source)@.len() as int,
        ),
        r.is_some() ==> final(source)@.len() == old(source)@.len() - N,
        r.is_some() ==> r.unwrap()@ + final(source)@ == old(source)@,
        r.is_none() ==> *final(source) == *old(source),
{
    match split_to_array::<T, N>(*source) {
        Some((head, tail)) => {
            *source = tail;
            Some(head)
        },
        None => None,
    }
}

/// Partition law: a successful split's two views cover the source exactly.
/// The fixed view holds `n` elements, the remainder holds the rest, and the
/// two laid end to end reproduce the source, with no gap and no overlap.
pub proof fn lemma_split_partition<T>(source: Seq<T>, n: int, fixed: Seq<T>, remainder: Seq<T>)
    requires
        0 <= n <= source.len(),
        fixed == source.subrange(0, n),
        remainder == source.subrange(n, source.len() as int),
    ensures
        fixed.len() == n,
        remainder.len() == source.len() - n,
        fixed + remainder == source,
{
    assert(fixed + remainder =~= source);
}

/// Prefix identity law: each element of a successful conversion's fixed view
/// is identical to the source element at the same position, in order.
pub proof fn lemma_prefix_identity<T>(source: Seq<T>, fixed: Seq<T>)
    requires
        fixed.len() <= source.len(),
        fixed == source.subrange(0, fixed.len() as int),
    ensures
        forall|i: int| 0 <= i < fixed.len() ==> fixed[i] == source[i],
{
}

/// Mutation visibility law: after a mutable split, writing `v` at index `i`
/// of the fixed view and recombining with the remainder gives the same buffer
/// as writing `v` at index `i` of the whole; the views share the memory, so a
/// write is seen on both sides at the corresponding offset.
pub proof fn lemma_mutation_visible<T>(fixed: Seq<T>, remainder: Seq<T>, i: int, v: T)
    requires
        0 <= i < fixed.len(),
    ensures
        fixed.update(i, v) + remainder == (fixed + remainder).update(i, v),
{
    assert(fixed.update(i, v) + remainder =~= (fixed + remainder).update(i, v));
}

} // verus!
