//! Small helpers on byte slices.

use vstd::prelude::*;

verus! {

/// Whether two slices hold the same bytes.
pub fn same_bytes(first: &[u8], second: &[u8]) -> (r: bool)
    ensures
        r == (first@ == second@),
{
    if first.len() != second.len() {
        return false;
    }
    let mut i: usize = 0;
    while i < first.len()
        invariant
            i <= first.len(),
            first.len() == second.len(),
            forall|j: int| 0 <= j < i ==> first@[j] == second@[j],
        decreases first.len() - i,
    {
        if first[i] != second[i] {
            return false;
        }
        i += 1;
    }
    assert(first@ =~= second@);
    true
}

/// Whether `value` occurs in `list`.
pub fn contains_byte(list: &[u8], value: u8) -> (r: bool)
    ensures
        r == list@.contains(value),
{
    let mut i: usize = 0;
    while i < list.len()
        invariant
            i <= list.len(),
            forall|j: int| 0 <= j < i ==> list@[j] != value,
        decreases list.len() - i,
    {
        if list[i] == value {
            return true;
        }
        i += 1;
    }
    false
}

/// Copies `N` bytes of `source`, starting at `start`, into an array.
pub fn array_from<const N: usize>(source: &[u8], start: usize) -> (r: [u8; N])
    requires
        start + N <= source@.len(),
    ensures
        r@ == source@.subrange(start as int, start + N),
{
    let mut out = [0u8; N];
    let mut i: usize = 0;
    while i < N
        invariant
            i <= N,
            start + N <= source.len(),
            forall|j: int| 0 <= j < i ==> out@[j] == source@[start + j],
        decreases N - i,
    {
        out[i] = source[start + i];
        i += 1;
    }
    assert(out@ =~= source@.subrange(start as int, start + N));
    out
}

/// Appends all of `source` to `out`.
pub fn append(out: &mut Vec<u8>, source: &[u8])
    ensures
        final(out)@ == old(out)@ + source@,
{
    let mut i: usize = 0;
    while i < source.len()
        invariant
            i <= source.len(),
            out@ == old(out)@ + source@.take(i as int),
        decreases source.len() - i,
    {
        out.push(source[i]);
        i += 1;
        assert(out@ =~= old(out)@ + source@.take(i as int));
    }
    assert(source@.take(i as int) =~= source@);
}

} // verus!

verus! {

/// The array whose first `upto` elements are those of `content` and whose
/// other elements are zero.
pub open spec fn array_prefix<const N: usize>(content: Seq<u8>, upto: nat) -> [u8; N]
    decreases upto,
{
    if upto == 0 {
        vstd::array::spec_array_fill_for_copy_type::<u8, N>(0)
    } else {
        vstd::array::spec_array_update(
            array_prefix::<N>(content, (upto - 1) as nat),
            upto - 1,
            content[upto - 1],
        )
    }
}

/// The array that holds `content`, cut or filled with zeros to `N` bytes.
pub open spec fn array_of<const N: usize>(content: Seq<u8>) -> [u8; N] {
    array_prefix::<N>(
        content,
        if content.len() <= N {
            content.len()
        } else {
            N as nat
        },
    )
}

proof fn lemma_array_prefix<const N: usize>(content: Seq<u8>, upto: nat)
    requires
        upto <= N,
        upto <= content.len(),
    ensures
        forall|i: int|
            0 <= i < N ==> #[trigger] array_prefix::<N>(content, upto)@[i] == (if i < upto {
                content[i]
            } else {
                0
            }),
    decreases upto,
{
    let built = array_prefix::<N>(content, upto);
    if upto > 0 {
        let before = array_prefix::<N>(content, (upto - 1) as nat);
        lemma_array_prefix::<N>(content, (upto - 1) as nat);
        assert(built@ == before@.update(upto - 1, content[upto - 1]));
        assert forall|i: int| 0 <= i < N implies #[trigger] built@[i] == (if i < upto {
            content[i]
        } else {
            0
        }) by {
            if i != upto - 1 {
                assert(built@[i] == before@[i]);
            }
        }
    } else {
        assert forall|i: int| 0 <= i < N implies #[trigger] built@[i] == 0 by {}
    }
}

/// The elements of `array_of(content)`.
pub proof fn lemma_array_of<const N: usize>(content: Seq<u8>)
    ensures
        forall|i: int|
            0 <= i < N ==> #[trigger] array_of::<N>(content)@[i] == (if i < content.len() {
                content[i]
            } else {
                0
            }),
        content.len() == N ==> array_of::<N>(content)@ == content,
{
    let upto = if content.len() <= N {
        content.len()
    } else {
        N as nat
    };
    lemma_array_prefix::<N>(content, upto);
    if content.len() == N {
        assert(array_of::<N>(content)@ =~= content);
    }
}

} // verus!

verus! {

/// The array that holds `source`, filled up with zeros.
pub fn padded_array<const N: usize>(source: &[u8]) -> (r: [u8; N])
    requires
        source@.len() <= N,
    ensures
        r == array_of::<N>(source@),
{
    let mut out = [0u8; N];
    let mut i: usize = 0;
    while i < source.len()
        invariant
            i <= source.len() <= N,
            forall|j: int| 0 <= j < i ==> out@[j] == source@[j],
            forall|j: int| i <= j < N ==> out@[j] == 0,
        decreases source.len() - i,
    {
        out[i] = source[i];
        i += 1;
    }
    proof {
        lemma_array_of::<N>(source@);
        assert(out =~= array_of::<N>(source@));
    }
    out
}

} // verus!
