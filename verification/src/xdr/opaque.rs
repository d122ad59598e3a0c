//! Opaque data: byte strings of fixed length, and byte strings whose length
//! is written in front of them and bounded by the shape.

use crate::bytes::{array_from, array_of, lemma_array_of};
use crate::error::{StellarSdkError, XdrError};
use crate::xdr::codec::{
    holds_at, lemma_holds_at_concat, lemma_subrange_join, u32_xdr, XdrCodec,
};
use vstd::prelude::*;

verus! {

/// The number of zero bytes that follow `length` bytes of data, so that the
/// next item starts at a multiple of four.
pub open spec fn padding_length(length: int) -> int {
    (4 - length % 4) % 4
}

/// `count` zero bytes.
pub open spec fn zeros(count: int) -> Seq<u8> {
    Seq::new(count as nat, |i: int| 0u8)
}

/// Data followed by its padding.
pub open spec fn opaque_xdr(content: Seq<u8>) -> Seq<u8> {
    content + zeros(padding_length(content.len() as int))
}

/// The position of the first byte among the `count` bytes from `from` on that
/// is not zero. There are never more than three padding bytes.
pub open spec fn nonzero_padding(input: Seq<u8>, from: int, count: int) -> Option<int> {
    if count >= 1 && input[from] != 0 {
        Some(from)
    } else if count >= 2 && input[from + 1] != 0 {
        Some(from + 1)
    } else if count >= 3 && input[from + 2] != 0 {
        Some(from + 2)
    } else {
        None
    }
}

/// Reading `length` bytes of data and their padding at `start`: the data and
/// the position behind the padding.
pub open spec fn parse_opaque(input: Seq<u8>, start: usize, length: usize) -> Result<
    (Seq<u8>, usize),
    XdrError,
> {
    let padding = padding_length(length as int);
    if start + length + padding > input.len() {
        Err(XdrError::SuddenEnd { at_position: start, expected_length: length })
    } else {
        match nonzero_padding(input, start + length, padding) {
            Some(at) => Err(XdrError::NonZeroPadding { at_position: at as usize }),
            None => Ok(
                (input.subrange(start as int, start + length), (start + length + padding) as usize),
            ),
        }
    }
}

/// Data that was written with its padding is read back.
pub proof fn lemma_parse_opaque_of_xdr(content: Seq<u8>, input: Seq<u8>, start: usize)
    requires
        input.len() <= usize::MAX,
        holds_at(input, start as int, opaque_xdr(content)),
    ensures
        parse_opaque(input, start, content.len() as usize) == Ok::<(Seq<u8>, usize), XdrError>(
            (content, (start + opaque_xdr(content).len()) as usize),
        ),
{
    let length = content.len() as int;
    let padding = padding_length(length);
    lemma_holds_at_concat(input, start as int, content, zeros(padding));
    let tail = input.subrange(start + length, start + length + padding);
    assert(tail == zeros(padding));
    if padding >= 1 {
        assert(tail[0] == zeros(padding)[0]);
    }
    if padding >= 2 {
        assert(tail[1] == zeros(padding)[1]);
    }
    if padding >= 3 {
        assert(tail[2] == zeros(padding)[2]);
    }
}

/// Whatever is read as data with padding was written exactly so.
pub proof fn lemma_parse_opaque_sound(input: Seq<u8>, start: usize, length: usize)
    requires
        start <= input.len() <= usize::MAX,
    ensures
        parse_opaque(input, start, length) matches Ok((content, end)) ==> {
            &&& content.len() == length
            &&& end == start + length + padding_length(length as int)
            &&& end <= input.len()
            &&& input.subrange(start as int, end as int) == opaque_xdr(content)
        },
{
    if let Ok((content, end)) = parse_opaque(input, start, length) {
        let padding = padding_length(length as int);
        lemma_subrange_join(input, start as int, start + length, end as int);
        assert(input.subrange(start + length, end as int) =~= zeros(padding));
    }
}

/// Appends `content` and its padding to `out`.
pub fn write_opaque(out: &mut Vec<u8>, content: &[u8])
    ensures
        final(out)@ == old(out)@ + opaque_xdr(content@),
{
    crate::bytes::append(out, content);
    let rest = content.len() % 4;
    if rest == 1 {
        out.push(0);
        out.push(0);
        out.push(0);
    } else if rest == 2 {
        out.push(0);
        out.push(0);
    } else if rest == 3 {
        out.push(0);
    }
    assert(out@ =~= old(out)@ + opaque_xdr(content@));
}

/// Checks that `length` bytes of data and their padding stand at `start`, and
/// returns the position behind them.
pub fn read_opaque(input: &[u8], start: usize, length: usize) -> (r: Result<usize, XdrError>)
    requires
        start <= input@.len(),
    ensures
        match parse_opaque(input@, start, length) {
            Ok((_, end)) => r == Ok::<usize, XdrError>(end),
            Err(e) => r == Err::<usize, XdrError>(e),
        },
{
    let available = input.len() - start;
    if available < length {
        return Err(XdrError::SuddenEnd { at_position: start, expected_length: length });
    }
    let padding = (4 - length % 4) % 4;
    if available - length < padding {
        return Err(XdrError::SuddenEnd { at_position: start, expected_length: length });
    }
    let from = start + length;
    if padding >= 1 && input[from] != 0 {
        return Err(XdrError::NonZeroPadding { at_position: from });
    }
    if padding >= 2 && input[from + 1] != 0 {
        return Err(XdrError::NonZeroPadding { at_position: from + 1 });
    }
    if padding >= 3 && input[from + 2] != 0 {
        return Err(XdrError::NonZeroPadding { at_position: from + 2 });
    }
    Ok(from + padding)
}

impl<const N: usize> XdrCodec for [u8; N] {
    open spec fn wf(&self) -> bool {
        true
    }

    open spec fn xdr(&self) -> Seq<u8> {
        opaque_xdr(self@)
    }

    open spec fn parse(input: Seq<u8>, start: usize) -> Result<(Self, usize), XdrError> {
        match parse_opaque(input, start, N) {
            Ok((content, end)) => Ok((array_of::<N>(content), end)),
            Err(e) => Err(e),
        }
    }

    proof fn lemma_parse_of_xdr(value: Self, input: Seq<u8>, start: usize) {
        lemma_parse_opaque_of_xdr(value@, input, start);
        lemma_array_of::<N>(value@);
        assert(array_of::<N>(value@) =~= value);
    }

    proof fn lemma_parse_sound(input: Seq<u8>, start: usize) {
        lemma_parse_opaque_sound(input, start, N);
        if let Ok((content, end)) = parse_opaque(input, start, N) {
            lemma_array_of::<N>(content);
        }
    }

    fn write_xdr(&self, out: &mut Vec<u8>) {
        write_opaque(out, self.as_slice());
    }

    fn read_xdr(input: &[u8], start: usize) -> (r: Result<(Self, usize), XdrError>) {
        match read_opaque(input, start, N) {
            Ok(end) => {
                let value: [u8; N] = array_from(input, start);
                proof {
                    lemma_array_of::<N>(input@.subrange(start as int, start + N));
                    assert(value =~= array_of::<N>(input@.subrange(start as int, start + N)));
                }
                Ok((value, end))
            },
            Err(e) => Err(e),
        }
    }
}

/// A byte string of at most `N` bytes. The bytes are held in place; those
/// behind the end of the string are zero.
#[derive(Debug, Clone, Copy, PartialEq, Eq)]
pub struct LimitedString<const N: usize> {
    /// The number of bytes in the string.
    pub length: usize,
    /// The bytes of the string, followed by zeros.
    pub bytes: [u8; N],
}

/// A byte string of at most `N` bytes that is not meant as text.
pub type LimitedVarOpaque<const N: usize> = LimitedString<N>;

/// The largest length that a string bounded by `bound` can have on the wire.
pub open spec fn max_length(bound: usize) -> i32 {
    if bound <= i32::MAX {
        bound as i32
    } else {
        i32::MAX
    }
}

impl<const N: usize> LimitedString<N> {
    /// The bytes of the string.
    pub open spec fn content(&self) -> Seq<u8> {
        self.bytes@.take(self.length as int)
    }

    /// The string with the bytes `content`.
    pub open spec fn holding(content: Seq<u8>) -> Self {
        LimitedString { length: content.len() as usize, bytes: array_of::<N>(content) }
    }

    /// A string is determined by its bytes.
    pub proof fn lemma_holding_content(self)
        requires
            self.wf(),
        ensures
            Self::holding(self.content()) == self,
    {
        lemma_array_of::<N>(self.content());
        assert(array_of::<N>(self.content()) =~= self.bytes);
    }

    /// The bytes of `holding(content)` are `content`.
    pub proof fn lemma_content_holding(content: Seq<u8>)
        requires
            content.len() <= max_length(N),
        ensures
            Self::holding(content).wf(),
            Self::holding(content).content() == content,
    {
        lemma_array_of::<N>(content);
        assert(Self::holding(content).content() =~= content);
    }

    fn limit() -> (r: i32)
        ensures
            r == max_length(N),
    {
        if N <= i32::MAX as usize {
            N as i32
        } else {
            i32::MAX
        }
    }

    /// Makes a bounded string of `data`, if it is short enough.
    pub fn new(data: &[u8]) -> (r: Result<Self, StellarSdkError>)
        ensures
            match r {
                Ok(string) => data@.len() <= max_length(N) && string == Self::holding(data@)
                    && string.wf() && string.content() == data@,
                Err(e) => data@.len() > max_length(N) && e
                    == (StellarSdkError::ExceedsMaximumLength {
                    requested_length: data@.len() as usize,
                    allowed_length: max_length(N),
                }),
            },
    {
        let limit = Self::limit();
        if data.len() > limit as usize {
            return Err(
                StellarSdkError::ExceedsMaximumLength {
                    requested_length: data.len(),
                    allowed_length: limit,
                },
            );
        }
        let mut bytes = [0u8; N];
        let mut i: usize = 0;
        while i < data.len()
            invariant
                i <= data.len() <= N,
                forall|j: int| 0 <= j < i ==> bytes@[j] == data@[j],
                forall|j: int| i <= j < N ==> bytes@[j] == 0,
            decreases data.len() - i,
        {
            bytes[i] = data[i];
            i += 1;
        }
        proof {
            lemma_array_of::<N>(data@);
            assert(bytes =~= array_of::<N>(data@));
            Self::lemma_content_holding(data@);
        }
        Ok(LimitedString { length: data.len(), bytes })
    }

    /// The number of bytes in the string.
    pub fn len(&self) -> (r: usize)
        ensures
            r == self.length,
    {
        self.length
    }

    /// A copy of the bytes of the string.
    pub fn to_vec(&self) -> (r: Vec<u8>)
        requires
            self.wf(),
        ensures
            r@ == self.content(),
    {
        let mut out: Vec<u8> = Vec::new();
        let mut i: usize = 0;
        while i < self.length
            invariant
                i <= self.length <= N,
                out@ == self.bytes@.take(i as int),
            decreases self.length - i,
        {
            out.push(self.bytes[i]);
            i += 1;
            assert(out@ =~= self.bytes@.take(i as int));
        }
        out
    }
}

impl<const N: usize> XdrCodec for LimitedString<N> {
    open spec fn wf(&self) -> bool {
        &&& self.length <= max_length(N)
        &&& forall|i: int| self.length <= i < N ==> self.bytes@[i] == 0
    }

    open spec fn xdr(&self) -> Seq<u8> {
        u32_xdr(self.length as u32) + opaque_xdr(self.content())
    }

    open spec fn parse(input: Seq<u8>, start: usize) -> Result<(Self, usize), XdrError> {
        match u32::parse(input, start) {
            Err(e) => Err(e),
            Ok((length, next)) => if length > max_length(N) {
                Err(
                    XdrError::ExceedsMaxLength {
                        at_position: start,
                        max_length: max_length(N) as u32,
                        actual_length: length,
                    },
                )
            } else {
                match parse_opaque(input, next, length as usize) {
                    Ok((content, end)) => Ok((Self::holding(content), end)),
                    Err(e) => Err(e),
                }
            },
        }
    }

    proof fn lemma_parse_of_xdr(value: Self, input: Seq<u8>, start: usize) {
        let content = value.content();
        lemma_holds_at_concat(
            input,
            start as int,
            u32_xdr(value.length as u32),
            opaque_xdr(content),
        );
        u32::lemma_parse_of_xdr(value.length as u32, input, start);
        lemma_parse_opaque_of_xdr(content, input, (start + 4) as usize);
        value.lemma_holding_content();
    }

    proof fn lemma_parse_sound(input: Seq<u8>, start: usize) {
        u32::lemma_parse_sound(input, start);
        if let Ok((length, next)) = u32::parse(input, start) {
            if length <= max_length(N) {
                lemma_parse_opaque_sound(input, next, length as usize);
                if let Ok((content, end)) = parse_opaque(input, next, length as usize) {
                    Self::lemma_content_holding(content);
                    lemma_subrange_join(input, start as int, next as int, end as int);
                }
            }
        }
    }

    fn write_xdr(&self, out: &mut Vec<u8>) {
        (self.length as u32).write_xdr(out);
        let content = vstd::slice::slice_subrange(self.bytes.as_slice(), 0, self.length);
        assert(content@ =~= self.content());
        write_opaque(out, content);
        assert(out@ =~= old(out)@ + self.xdr());
    }

    fn read_xdr(input: &[u8], start: usize) -> (r: Result<(Self, usize), XdrError>) {
        let (length, next) = match u32::read_xdr(input, start) {
            Ok(read) => read,
            Err(e) => {
                return Err(e);
            },
        };
        let limit = Self::limit();
        if length > limit as u32 {
            return Err(
                XdrError::ExceedsMaxLength {
                    at_position: start,
                    max_length: limit as u32,
                    actual_length: length,
                },
            );
        }
        let end = match read_opaque(input, next, length as usize) {
            Ok(end) => end,
            Err(e) => {
                return Err(e);
            },
        };
        let total = input.len();
        proof {
            assert(input@.len() == total);
            lemma_parse_opaque_sound(input@, next, length as usize);
        }
        let content = vstd::slice::slice_subrange(input, next, next + length as usize);
        match Self::new(content) {
            Ok(string) => Ok((string, end)),
            Err(_) => Err(
                XdrError::ExceedsMaxLength {
                    at_position: start,
                    max_length: limit as u32,
                    actual_length: length,
                },
            ),
        }
    }
}

} // verus!
