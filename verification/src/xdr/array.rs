//! Arrays of variable length: a count, bounded by the shape, and that many items.

use crate::error::XdrError;
use crate::xdr::codec::{holds_at, lemma_holds_at_concat, lemma_subrange_join, u32_xdr, XdrCodec};
use vstd::prelude::*;

verus! {

/// Whether every item is well formed.
pub open spec fn all_wf<T: XdrCodec>(items: Seq<T>) -> bool {
    forall|i: int| 0 <= i < items.len() ==> (#[trigger] items[i]).wf()
}

/// The encodings of the items, one after the other.
pub open spec fn list_xdr<T: XdrCodec>(items: Seq<T>) -> Seq<u8>
    decreases items.len(),
{
    if items.len() == 0 {
        Seq::empty()
    } else {
        list_xdr(items.drop_last()) + items.last().xdr()
    }
}

/// The encoding of an array: the number of items, then the items.
pub open spec fn array_xdr<T: XdrCodec>(items: Seq<T>) -> Seq<u8> {
    u32_xdr(items.len() as u32) + list_xdr(items)
}

/// Reading `count` items one after the other.
pub open spec fn parse_list<T: XdrCodec>(input: Seq<u8>, start: usize, count: nat) -> Result<
    (Seq<T>, usize),
    XdrError,
>
    decreases count,
{
    if count == 0 {
        Ok((Seq::empty(), start))
    } else {
        match parse_list::<T>(input, start, (count - 1) as nat) {
            Err(e) => Err(e),
            Ok((front, next)) => match T::parse(input, next) {
                Err(e) => Err(e),
                Ok((item, end)) => Ok((front.push(item), end)),
            },
        }
    }
}

/// Reading an array of at most `bound` items.
pub open spec fn parse_array<T: XdrCodec>(input: Seq<u8>, start: usize, bound: u32) -> Result<
    (Seq<T>, usize),
    XdrError,
> {
    match u32::parse(input, start) {
        Err(e) => Err(e),
        Ok((count, next)) => if count > bound {
            Err(
                XdrError::ExceedsMaxLength {
                    at_position: start,
                    max_length: bound,
                    actual_length: count,
                },
            )
        } else {
            parse_list::<T>(input, next, count as nat)
        },
    }
}

/// Items that were written one after the other are read back.
pub proof fn lemma_parse_list_of_xdr<T: XdrCodec>(items: Seq<T>, input: Seq<u8>, start: usize)
    requires
        all_wf(items),
        input.len() <= usize::MAX,
        holds_at(input, start as int, list_xdr(items)),
    ensures
        parse_list::<T>(input, start, items.len()) == Ok::<(Seq<T>, usize), XdrError>(
            (items, (start + list_xdr(items).len()) as usize),
        ),
    decreases items.len(),
{
    if items.len() > 0 {
        let front = items.drop_last();
        let last = items.last();
        lemma_holds_at_concat(input, start as int, list_xdr(front), last.xdr());
        lemma_parse_list_of_xdr(front, input, start);
        assert(last.wf());
        T::lemma_parse_of_xdr(last, input, (start + list_xdr(front).len()) as usize);
        assert(front.push(last) =~= items);
    } else {
        assert(items =~= Seq::<T>::empty());
    }
}

/// Whatever is read as a list of items was written exactly so.
pub proof fn lemma_parse_list_sound<T: XdrCodec>(input: Seq<u8>, start: usize, count: nat)
    requires
        start <= input.len() <= usize::MAX,
    ensures
        parse_list::<T>(input, start, count) matches Ok((items, end)) ==> {
            &&& items.len() == count
            &&& all_wf(items)
            &&& start <= end <= input.len()
            &&& input.subrange(start as int, end as int) == list_xdr(items)
        },
    decreases count,
{
    if count == 0 {
        assert(input.subrange(start as int, start as int) =~= Seq::<u8>::empty());
    } else {
        lemma_parse_list_sound::<T>(input, start, (count - 1) as nat);
        if let Ok((front, next)) = parse_list::<T>(input, start, (count - 1) as nat) {
            T::lemma_parse_sound(input, next);
            if let Ok((item, end)) = T::parse(input, next) {
                let items = front.push(item);
                assert(items.drop_last() =~= front);
                lemma_subrange_join(input, start as int, next as int, end as int);
            }
        }
    }
}

/// Once an item fails to read, the list fails however many items are asked for.
pub proof fn lemma_parse_list_fails_on<T: XdrCodec>(
    input: Seq<u8>,
    start: usize,
    fewer: nat,
    count: nat,
)
    requires
        fewer <= count,
        parse_list::<T>(input, start, fewer) is Err,
    ensures
        parse_list::<T>(input, start, count) == parse_list::<T>(input, start, fewer),
    decreases count - fewer,
{
    if fewer < count {
        lemma_parse_list_fails_on::<T>(input, start, fewer, (count - 1) as nat);
    }
}

/// An array that was written is read back.
pub proof fn lemma_parse_array_of_xdr<T: XdrCodec>(
    items: Seq<T>,
    input: Seq<u8>,
    start: usize,
    bound: u32,
)
    requires
        all_wf(items),
        items.len() <= bound,
        input.len() <= usize::MAX,
        holds_at(input, start as int, array_xdr(items)),
    ensures
        parse_array::<T>(input, start, bound) == Ok::<(Seq<T>, usize), XdrError>(
            (items, (start + array_xdr(items).len()) as usize),
        ),
{
    lemma_holds_at_concat(input, start as int, u32_xdr(items.len() as u32), list_xdr(items));
    u32::lemma_parse_of_xdr(items.len() as u32, input, start);
    lemma_parse_list_of_xdr(items, input, (start + 4) as usize);
}

/// Whatever is read as an array was written exactly so.
pub proof fn lemma_parse_array_sound<T: XdrCodec>(input: Seq<u8>, start: usize, bound: u32)
    requires
        start <= input.len() <= usize::MAX,
    ensures
        parse_array::<T>(input, start, bound) matches Ok((items, end)) ==> {
            &&& items.len() <= bound
            &&& all_wf(items)
            &&& start <= end <= input.len()
            &&& input.subrange(start as int, end as int) == array_xdr(items)
        },
{
    u32::lemma_parse_sound(input, start);
    if let Ok((count, next)) = u32::parse(input, start) {
        if count <= bound {
            lemma_parse_list_sound::<T>(input, next, count as nat);
            if let Ok((items, end)) = parse_list::<T>(input, next, count as nat) {
                lemma_subrange_join(input, start as int, next as int, end as int);
            }
        }
    }
}

/// The result of reading an array, with the items taken as a sequence.
pub open spec fn items_view<T>(r: Result<(Vec<T>, usize), XdrError>) -> Result<
    (Seq<T>, usize),
    XdrError,
> {
    match r {
        Ok((items, end)) => Ok((items@, end)),
        Err(e) => Err(e),
    }
}

/// Appends the encoding of an array to `out`.
pub fn write_array<T: XdrCodec>(items: &Vec<T>, out: &mut Vec<u8>)
    requires
        all_wf(items@),
        items@.len() <= u32::MAX,
    ensures
        final(out)@ == old(out)@ + array_xdr(items@),
{
    (items.len() as u32).write_xdr(out);
    let ghost before = out@;
    let mut i: usize = 0;
    while i < items.len()
        invariant
            i <= items.len(),
            all_wf(items@),
            out@ == before + list_xdr(items@.take(i as int)),
        decreases items.len() - i,
    {
        let ghost so_far = out@;
        items[i].write_xdr(out);
        i += 1;
        proof {
            let taken = items@.take(i as int);
            assert(taken.drop_last() =~= items@.take(i - 1));
            assert(out@ =~= before + list_xdr(taken));
        }
    }
    proof {
        assert(items@.take(i as int) =~= items@);
        assert(out@ =~= old(out)@ + array_xdr(items@));
    }
}

/// Reads an array of at most `bound` items at `start`.
pub fn read_array<T: XdrCodec>(input: &[u8], start: usize, bound: u32) -> (r: Result<
    (Vec<T>, usize),
    XdrError,
>)
    requires
        start <= input@.len(),
    ensures
        items_view(r) == parse_array::<T>(input@, start, bound),
{
    let total = input.len();
    let (count, next) = match u32::read_xdr(input, start) {
        Ok(read) => read,
        Err(e) => {
            return Err(e);
        },
    };
    if count > bound {
        return Err(
            XdrError::ExceedsMaxLength {
                at_position: start,
                max_length: bound,
                actual_length: count,
            },
        );
    }
    let mut items: Vec<T> = Vec::new();
    let mut position = next;
    let mut i: u32 = 0;
    while i < count
        invariant
            i <= count <= bound,
            total == input@.len(),
            u32::parse(input@, start) == Ok::<(u32, usize), XdrError>((count, next)),
            next <= position <= total,
            parse_list::<T>(input@, next, i as nat) == Ok::<(Seq<T>, usize), XdrError>(
                (items@, position),
            ),
        decreases count - i,
    {
        match T::read_xdr(input, position) {
            Ok((item, end)) => {
                proof {
                    T::lemma_parse_sound(input@, position);
                }
                items.push(item);
                position = end;
            },
            Err(e) => {
                proof {
                    let reached = (i + 1) as nat;
                    assert((reached - 1) as nat == i as nat);
                    assert(parse_list::<T>(input@, next, reached) == Err::<
                        (Seq<T>, usize),
                        XdrError,
                    >(e));
                    lemma_parse_list_fails_on::<T>(input@, next, reached, count as nat);
                }
                return Err(e);
            },
        }
        i += 1;
    }
    Ok((items, position))
}

} // verus!
