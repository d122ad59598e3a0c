//! The codec interface and its instances for the primitive shapes.

use crate::error::XdrError;
use vstd::prelude::*;

verus! {

/// Whether `encoding` stands in `input` from position `start` on.
pub open spec fn holds_at(input: Seq<u8>, start: int, encoding: Seq<u8>) -> bool {
    &&& 0 <= start
    &&& start + encoding.len() <= input.len()
    &&& input.subrange(start, start + encoding.len()) == encoding
}

/// Two encodings stand one after the other exactly when their concatenation stands.
pub proof fn lemma_holds_at_concat(input: Seq<u8>, start: int, first: Seq<u8>, second: Seq<u8>)
    ensures
        holds_at(input, start, first + second) <==> holds_at(input, start, first) && holds_at(
            input,
            start + first.len(),
            second,
        ),
{
    let both = first + second;
    let middle = start + first.len();
    if holds_at(input, start, both) {
        let part = input.subrange(start, start + both.len());
        assert(input.subrange(start, middle) =~= first) by {
            assert forall|i: int| 0 <= i < first.len() implies input[start + i] == first[i] by {
                assert(part[i] == both[i]);
            }
        }
        assert(input.subrange(middle, middle + second.len()) =~= second) by {
            assert forall|i: int| 0 <= i < second.len() implies input[middle + i] == second[i] by {
                assert(part[first.len() + i] == both[first.len() + i]);
            }
        }
    }
    if holds_at(input, start, first) && holds_at(input, middle, second) {
        let head = input.subrange(start, middle);
        let tail = input.subrange(middle, middle + second.len());
        assert(input.subrange(start, start + both.len()) =~= both) by {
            assert forall|i: int| 0 <= i < both.len() implies input[start + i] == both[i] by {
                if i < first.len() {
                    assert(head[i] == first[i]);
                } else {
                    assert(tail[i - first.len()] == second[i - first.len()]);
                }
            }
        }
    }
}

/// A stretch of the input is the concatenation of its two parts.
pub proof fn lemma_subrange_join(input: Seq<u8>, start: int, middle: int, end: int)
    requires
        0 <= start <= middle <= end <= input.len(),
    ensures
        input.subrange(start, end) == input.subrange(start, middle) + input.subrange(middle, end),
{
    assert(input.subrange(start, end) =~= input.subrange(start, middle) + input.subrange(
        middle,
        end,
    ));
}

/// A type with a binary encoding.
///
/// `xdr` says what a value is written as, `parse` what reading at a position
/// of an input gives. The two proof functions tie them together: a written
/// value is read back, and whatever is read was written exactly so.
pub trait XdrCodec: Sized {
    /// Whether the value respects the bounds of its shape.
    spec fn wf(&self) -> bool;

    /// The encoding of the value.
    spec fn xdr(&self) -> Seq<u8>;

    /// The value that stands at `start` in `input` and the position behind
    /// it, or the reason why none stands there.
    spec fn parse(input: Seq<u8>, start: usize) -> Result<(Self, usize), XdrError>;

    /// Reading where a value was written gives that value.
    proof fn lemma_parse_of_xdr(value: Self, input: Seq<u8>, start: usize)
        requires
            value.wf(),
            input.len() <= usize::MAX,
            holds_at(input, start as int, value.xdr()),
        ensures
            Self::parse(input, start) == Ok::<(Self, usize), XdrError>(
                (value, (start + value.xdr().len()) as usize),
            ),
    ;

    /// What is read is well formed, and the bytes it was read from are its encoding.
    proof fn lemma_parse_sound(input: Seq<u8>, start: usize)
        requires
            start <= input.len() <= usize::MAX,
        ensures
            Self::parse(input, start) matches Ok((value, end)) ==> value.wf() && start <= end
                <= input.len() && input.subrange(start as int, end as int) == value.xdr(),
    ;

    /// Appends the encoding of the value to `out`.
    fn write_xdr(&self, out: &mut Vec<u8>)
        requires
            self.wf(),
        ensures
            final(out)@ == old(out)@ + self.xdr(),
    ;

    /// Reads a value at `start`.
    fn read_xdr(input: &[u8], start: usize) -> (r: Result<(Self, usize), XdrError>)
        requires
            start <= input@.len(),
        ensures
            r == Self::parse(input@, start),
    ;

    /// The encoding of the value.
    fn to_xdr(&self) -> (r: Vec<u8>)
        requires
            self.wf(),
        ensures
            r@ == self.xdr(),
    {
        let mut out: Vec<u8> = Vec::new();
        self.write_xdr(&mut out);
        assert(out@ =~= self.xdr());
        out
    }

    /// Reads `input` as exactly one value. The input is accepted if and only
    /// if it is the encoding of a well-formed value, and that value is
    /// returned. Bytes that follow a complete value are an error.
    fn from_xdr(input: &[u8]) -> (r: Result<Self, XdrError>)
        ensures
            r == (match Self::parse(input@, 0) {
                Err(e) => Err::<Self, XdrError>(e),
                Ok((value, end)) => if end == input@.len() {
                    Ok::<Self, XdrError>(value)
                } else {
                    Err::<Self, XdrError>(
                        XdrError::TypeEndsTooEarly {
                            remaining_no_of_bytes: (input@.len() - end) as usize,
                        },
                    )
                },
            }),
            r matches Ok(value) ==> value.wf() && value.xdr() == input@,
            r is Err ==> forall|value: Self| value.wf() ==> #[trigger] value.xdr() != input@,
    {
        let total = input.len();
        proof {
            Self::lemma_parse_sound(input@, 0);
            assert(input@.subrange(0, total as int) =~= input@);
            assert forall|value: Self| value.wf() && #[trigger] value.xdr() == input@ implies (
            Self::parse(input@, 0) matches Ok((read, end)) && end == total) by {
                Self::lemma_parse_of_xdr(value, input@, 0);
            }
        }
        match Self::read_xdr(input, 0) {
            Err(e) => Err(e),
            Ok((value, end)) => {
                if end == total {
                    Ok(value)
                } else {
                    Err(XdrError::TypeEndsTooEarly { remaining_no_of_bytes: total - end })
                }
            },
        }
    }
}

/// The four bytes of a 32-bit number, most significant first.
pub open spec fn u32_xdr(value: u32) -> Seq<u8> {
    seq![
        (value / 0x100_0000) as u8,
        ((value / 0x1_0000) % 256) as u8,
        ((value / 0x100) % 256) as u8,
        (value % 256) as u8,
    ]
}

/// The number whose four bytes stand at `start`.
pub open spec fn u32_at(input: Seq<u8>, start: int) -> u32 {
    (input[start] * 0x100_0000 + input[start + 1] * 0x1_0000 + input[start + 2] * 0x100
        + input[start + 3]) as u32
}

proof fn lemma_u32_digits(first: u8, second: u8, third: u8, fourth: u8)
    ensures
        ({
            let value = first * 0x100_0000 + second * 0x1_0000 + third * 0x100 + fourth;
            &&& value <= u32::MAX
            &&& value / 0x100_0000 == first
            &&& (value / 0x1_0000) % 256 == second
            &&& (value / 0x100) % 256 == third
            &&& value % 256 == fourth
        }),
{
    let low = third * 0x100 + fourth;
    let middle = second * 0x1_0000 + low;
    let value = first * 0x100_0000 + middle;
    assert(value / 0x100 == first * 0x1_0000 + second * 0x100 + third);
    assert(value / 0x1_0000 == first * 0x100 + second);
}

impl XdrCodec for u32 {
    open spec fn wf(&self) -> bool {
        true
    }

    open spec fn xdr(&self) -> Seq<u8> {
        u32_xdr(*self)
    }

    open spec fn parse(input: Seq<u8>, start: usize) -> Result<(Self, usize), XdrError> {
        if start + 4 > input.len() {
            Err(XdrError::SuddenEnd { at_position: start, expected_length: 4 })
        } else {
            Ok((u32_at(input, start as int), (start + 4) as usize))
        }
    }

    proof fn lemma_parse_of_xdr(value: Self, input: Seq<u8>, start: usize) {
        let part = input.subrange(start as int, start + 4);
        assert(part[0] == input[start as int]);
        assert(part[1] == input[start + 1]);
        assert(part[2] == input[start + 2]);
        assert(part[3] == input[start + 3]);
    }

    proof fn lemma_parse_sound(input: Seq<u8>, start: usize) {
        if start + 4 <= input.len() {
            let first = input[start as int];
            let second = input[start + 1];
            let third = input[start + 2];
            let fourth = input[start + 3];
            lemma_u32_digits(first, second, third, fourth);
            assert(input.subrange(start as int, start + 4) =~= u32_xdr(
                u32_at(input, start as int),
            ));
        }
    }

    fn write_xdr(&self, out: &mut Vec<u8>) {
        let value = *self;
        out.push((value / 0x100_0000) as u8);
        out.push(((value / 0x1_0000) % 256) as u8);
        out.push(((value / 0x100) % 256) as u8);
        out.push((value % 256) as u8);
        assert(out@ =~= old(out)@ + u32_xdr(value));
    }

    fn read_xdr(input: &[u8], start: usize) -> (r: Result<(Self, usize), XdrError>) {
        if input.len() - start < 4 {
            return Err(XdrError::SuddenEnd { at_position: start, expected_length: 4 });
        }
        let value: u32 = (input[start] as u32) * 0x100_0000 + (input[start + 1] as u32) * 0x1_0000
            + (input[start + 2] as u32) * 0x100 + (input[start + 3] as u32);
        Ok((value, start + 4))
    }
}

/// The 32-bit pattern that stands for a signed number (two's complement).
pub open spec fn i32_pattern(value: i32) -> u32 {
    if value >= 0 {
        value as u32
    } else {
        (value + 0x1_0000_0000) as u32
    }
}

/// The signed number that a 32-bit pattern stands for.
pub open spec fn pattern_i32(pattern: u32) -> i32 {
    if pattern < 0x8000_0000 {
        pattern as i32
    } else {
        (pattern - 0x1_0000_0000) as i32
    }
}

impl XdrCodec for i32 {
    open spec fn wf(&self) -> bool {
        true
    }

    open spec fn xdr(&self) -> Seq<u8> {
        u32_xdr(i32_pattern(*self))
    }

    open spec fn parse(input: Seq<u8>, start: usize) -> Result<(Self, usize), XdrError> {
        match u32::parse(input, start) {
            Ok((pattern, end)) => Ok((pattern_i32(pattern), end)),
            Err(e) => Err(e),
        }
    }

    proof fn lemma_parse_of_xdr(value: Self, input: Seq<u8>, start: usize) {
        u32::lemma_parse_of_xdr(i32_pattern(value), input, start);
    }

    proof fn lemma_parse_sound(input: Seq<u8>, start: usize) {
        u32::lemma_parse_sound(input, start);
    }

    fn write_xdr(&self, out: &mut Vec<u8>) {
        let value = *self;
        let pattern: u32 = if value >= 0 {
            value as u32
        } else {
            (value as i64 + 0x1_0000_0000) as u32
        };
        pattern.write_xdr(out);
    }

    fn read_xdr(input: &[u8], start: usize) -> (r: Result<(Self, usize), XdrError>) {
        match u32::read_xdr(input, start) {
            Ok((pattern, end)) => {
                let value: i32 = if pattern < 0x8000_0000 {
                    pattern as i32
                } else {
                    (pattern as i64 - 0x1_0000_0000) as i32
                };
                Ok((value, end))
            },
            Err(e) => Err(e),
        }
    }
}

/// The eight bytes of a 64-bit number, most significant first.
pub open spec fn u64_xdr(value: u64) -> Seq<u8> {
    u32_xdr((value / 0x1_0000_0000) as u32) + u32_xdr((value % 0x1_0000_0000) as u32)
}

/// The number whose eight bytes stand at `start`.
pub open spec fn u64_at(input: Seq<u8>, start: int) -> u64 {
    (u32_at(input, start) * 0x1_0000_0000 + u32_at(input, start + 4)) as u64
}

impl XdrCodec for u64 {
    open spec fn wf(&self) -> bool {
        true
    }

    open spec fn xdr(&self) -> Seq<u8> {
        u64_xdr(*self)
    }

    open spec fn parse(input: Seq<u8>, start: usize) -> Result<(Self, usize), XdrError> {
        if start + 8 > input.len() {
            Err(XdrError::SuddenEnd { at_position: start, expected_length: 8 })
        } else {
            Ok((u64_at(input, start as int), (start + 8) as usize))
        }
    }

    proof fn lemma_parse_of_xdr(value: Self, input: Seq<u8>, start: usize) {
        let high = (value / 0x1_0000_0000) as u32;
        let low = (value % 0x1_0000_0000) as u32;
        lemma_holds_at_concat(input, start as int, u32_xdr(high), u32_xdr(low));
        u32::lemma_parse_of_xdr(high, input, start);
        u32::lemma_parse_of_xdr(low, input, (start + 4) as usize);
    }

    proof fn lemma_parse_sound(input: Seq<u8>, start: usize) {
        if start + 8 <= input.len() {
            u32::lemma_parse_sound(input, start);
            u32::lemma_parse_sound(input, (start + 4) as usize);
            lemma_subrange_join(input, start as int, start + 4, start + 8);
            let value = u64_at(input, start as int);
            assert(value / 0x1_0000_0000 == u32_at(input, start as int));
            assert(value % 0x1_0000_0000 == u32_at(input, start + 4));
        }
    }

    fn write_xdr(&self, out: &mut Vec<u8>) {
        let value = *self;
        let high: u32 = (value / 0x1_0000_0000) as u32;
        let low: u32 = (value % 0x1_0000_0000) as u32;
        high.write_xdr(out);
        low.write_xdr(out);
        assert(out@ =~= old(out)@ + u64_xdr(value));
    }

    fn read_xdr(input: &[u8], start: usize) -> (r: Result<(Self, usize), XdrError>) {
        if input.len() - start < 8 {
            return Err(XdrError::SuddenEnd { at_position: start, expected_length: 8 });
        }
        let high = match u32::read_xdr(input, start) {
            Ok((high, _)) => high,
            Err(e) => {
                return Err(e);
            },
        };
        let low = match u32::read_xdr(input, start + 4) {
            Ok((low, _)) => low,
            Err(e) => {
                return Err(e);
            },
        };
        Ok(((high as u64) * 0x1_0000_0000 + low as u64, start + 8))
    }
}

/// The 64-bit pattern that stands for a signed number (two's complement).
pub open spec fn i64_pattern(value: i64) -> u64 {
    if value >= 0 {
        value as u64
    } else {
        (value + 0x1_0000_0000_0000_0000) as u64
    }
}

/// The signed number that a 64-bit pattern stands for.
pub open spec fn pattern_i64(pattern: u64) -> i64 {
    if pattern < 0x8000_0000_0000_0000 {
        pattern as i64
    } else {
        (pattern - 0x1_0000_0000_0000_0000) as i64
    }
}

impl XdrCodec for i64 {
    open spec fn wf(&self) -> bool {
        true
    }

    open spec fn xdr(&self) -> Seq<u8> {
        u64_xdr(i64_pattern(*self))
    }

    open spec fn parse(input: Seq<u8>, start: usize) -> Result<(Self, usize), XdrError> {
        match u64::parse(input, start) {
            Ok((pattern, end)) => Ok((pattern_i64(pattern), end)),
            Err(e) => Err(e),
        }
    }

    proof fn lemma_parse_of_xdr(value: Self, input: Seq<u8>, start: usize) {
        u64::lemma_parse_of_xdr(i64_pattern(value), input, start);
    }

    proof fn lemma_parse_sound(input: Seq<u8>, start: usize) {
        u64::lemma_parse_sound(input, start);
    }

    fn write_xdr(&self, out: &mut Vec<u8>) {
        let value = *self;
        let pattern: u64 = if value >= 0 {
            value as u64
        } else {
            (value as i128 + 0x1_0000_0000_0000_0000) as u64
        };
        pattern.write_xdr(out);
    }

    fn read_xdr(input: &[u8], start: usize) -> (r: Result<(Self, usize), XdrError>) {
        match u64::read_xdr(input, start) {
            Ok((pattern, end)) => {
                let value: i64 = if pattern < 0x8000_0000_0000_0000 {
                    pattern as i64
                } else {
                    (pattern as i128 - 0x1_0000_0000_0000_0000) as i64
                };
                Ok((value, end))
            },
            Err(e) => Err(e),
        }
    }
}

/// The encoding of an optional value: a flag, and the value if there is one.
#[verifier::opaque]
pub open spec fn option_xdr<T: XdrCodec>(value: Option<T>) -> Seq<u8> {
    match value {
        Some(inner) => u32_xdr(1) + inner.xdr(),
        None => u32_xdr(0),
    }
}

/// Reading an optional value: the flag decides whether a value follows.
#[verifier::opaque]
pub open spec fn parse_option<T: XdrCodec>(input: Seq<u8>, start: usize) -> Result<
    (Option<T>, usize),
    XdrError,
> {
    match u32::parse(input, start) {
        Err(e) => Err(e),
        Ok((flag, next)) => if flag == 0 {
            Ok((None, next))
        } else if flag == 1 {
            match T::parse(input, next) {
                Ok((inner, end)) => Ok((Some(inner), end)),
                Err(e) => Err(e),
            }
        } else {
            Err(XdrError::InvalidOptional { at_position: start, has_code: flag })
        },
    }
}

impl<T: XdrCodec> XdrCodec for Option<T> {
    open spec fn wf(&self) -> bool {
        match self {
            Some(inner) => inner.wf(),
            None => true,
        }
    }

    open spec fn xdr(&self) -> Seq<u8> {
        option_xdr(*self)
    }

    open spec fn parse(input: Seq<u8>, start: usize) -> Result<(Self, usize), XdrError> {
        parse_option::<T>(input, start)
    }

    proof fn lemma_parse_of_xdr(value: Self, input: Seq<u8>, start: usize) {
        reveal(option_xdr);
        reveal(parse_option);
        match value {
            Some(inner) => {
                lemma_holds_at_concat(input, start as int, u32_xdr(1), inner.xdr());
                u32::lemma_parse_of_xdr(1, input, start);
                T::lemma_parse_of_xdr(inner, input, (start + 4) as usize);
            },
            None => {
                u32::lemma_parse_of_xdr(0, input, start);
            },
        }
    }

    proof fn lemma_parse_sound(input: Seq<u8>, start: usize) {
        reveal(option_xdr);
        reveal(parse_option);
        u32::lemma_parse_sound(input, start);
        if let Ok((flag, next)) = u32::parse(input, start) {
            if flag == 1 {
                T::lemma_parse_sound(input, next);
                if let Ok((inner, end)) = T::parse(input, next) {
                    lemma_subrange_join(input, start as int, next as int, end as int);
                }
            }
        }
    }

    fn write_xdr(&self, out: &mut Vec<u8>) {
        proof {
            reveal(option_xdr);
        }
        match self {
            Some(inner) => {
                1u32.write_xdr(out);
                inner.write_xdr(out);
                assert(out@ =~= old(out)@ + (u32_xdr(1) + inner.xdr()));
            },
            None => {
                0u32.write_xdr(out);
            },
        }
    }

    fn read_xdr(input: &[u8], start: usize) -> (r: Result<(Self, usize), XdrError>) {
        proof {
            reveal(parse_option);
        }
        let (flag, next) = match u32::read_xdr(input, start) {
            Ok(read) => read,
            Err(e) => {
                return Err(e);
            },
        };
        if flag == 0 {
            Ok((None, next))
        } else if flag == 1 {
            match T::read_xdr(input, next) {
                Ok((inner, end)) => Ok((Some(inner), end)),
                Err(e) => Err(e),
            }
        } else {
            Err(XdrError::InvalidOptional { at_position: start, has_code: flag })
        }
    }
}

/// Reading two values one after the other.
#[verifier::opaque]
pub open spec fn parse_pair<A: XdrCodec, B: XdrCodec>(input: Seq<u8>, start: usize) -> Result<
    ((A, B), usize),
    XdrError,
> {
    match A::parse(input, start) {
        Err(e) => Err(e),
        Ok((first, next)) => match B::parse(input, next) {
            Err(e) => Err(e),
            Ok((second, end)) => Ok(((first, second), end)),
        },
    }
}

impl<A: XdrCodec, B: XdrCodec> XdrCodec for (A, B) {
    open spec fn wf(&self) -> bool {
        self.0.wf() && self.1.wf()
    }

    open spec fn xdr(&self) -> Seq<u8> {
        self.0.xdr() + self.1.xdr()
    }

    open spec fn parse(input: Seq<u8>, start: usize) -> Result<(Self, usize), XdrError> {
        parse_pair::<A, B>(input, start)
    }

    proof fn lemma_parse_of_xdr(value: Self, input: Seq<u8>, start: usize) {
        reveal(parse_pair);
        lemma_holds_at_concat(input, start as int, value.0.xdr(), value.1.xdr());
        A::lemma_parse_of_xdr(value.0, input, start);
        B::lemma_parse_of_xdr(value.1, input, (start + value.0.xdr().len()) as usize);
    }

    proof fn lemma_parse_sound(input: Seq<u8>, start: usize) {
        reveal(parse_pair);
        A::lemma_parse_sound(input, start);
        if let Ok((first, next)) = A::parse(input, start) {
            B::lemma_parse_sound(input, next);
            if let Ok((second, end)) = B::parse(input, next) {
                lemma_subrange_join(input, start as int, next as int, end as int);
            }
        }
    }

    fn write_xdr(&self, out: &mut Vec<u8>) {
        self.0.write_xdr(out);
        self.1.write_xdr(out);
        assert(out@ =~= old(out)@ + (self.0.xdr() + self.1.xdr()));
    }

    fn read_xdr(input: &[u8], start: usize) -> (r: Result<(Self, usize), XdrError>) {
        let total = input.len();
        let (first, next) = match A::read_xdr(input, start) {
            Ok(read) => read,
            Err(e) => {
                proof {
                    reveal(parse_pair);
                }
                return Err(e);
            },
        };
        proof {
            reveal(parse_pair);
            A::lemma_parse_sound(input@, start);
        }
        match B::read_xdr(input, next) {
            Ok((second, end)) => Ok(((first, second), end)),
            Err(e) => Err(e),
        }
    }
}

/// What reading a whole input as one value gives: the value, if it fills
/// the input exactly.
pub open spec fn parse_all<T: XdrCodec>(input: Seq<u8>) -> Result<T, XdrError> {
    match T::parse(input, 0) {
        Err(e) => Err(e),
        Ok((value, end)) => if end == input.len() {
            Ok(value)
        } else {
            Err(XdrError::TypeEndsTooEarly { remaining_no_of_bytes: (input.len() - end) as usize })
        },
    }
}

/// Reading the encoding of a value gives the value back.
pub proof fn lemma_decode_of_encode<T: XdrCodec>(value: T)
    requires
        value.wf(),
        value.xdr().len() <= usize::MAX,
    ensures
        T::parse(value.xdr(), 0) == Ok::<(T, usize), XdrError>((value, value.xdr().len() as usize)),
        parse_all::<T>(value.xdr()) == Ok::<T, XdrError>(value),
{
    let input = value.xdr();
    assert(input.subrange(0, input.len() as int) =~= input);
    T::lemma_parse_of_xdr(value, input, 0);
}

/// An input is accepted only if it is the encoding of the value read from
/// it: no other byte sequence stands for that value.
pub proof fn lemma_decoded_is_canonical<T: XdrCodec>(input: Seq<u8>)
    requires
        input.len() <= usize::MAX,
    ensures
        parse_all::<T>(input) matches Ok(value) ==> value.wf() && value.xdr() == input,
        parse_all::<T>(input) is Err ==> forall|value: T|
            value.wf() ==> #[trigger] value.xdr() != input,
{
    T::lemma_parse_sound(input, 0);
    assert(input.subrange(0, input.len() as int) =~= input);
    if parse_all::<T>(input) is Err {
        assert forall|value: T| value.wf() implies #[trigger] value.xdr() != input by {
            if value.xdr() == input {
                lemma_decode_of_encode(value);
            }
        }
    }
}

/// Two well-formed values with the same encoding are equal.
pub proof fn lemma_encoding_is_injective<T: XdrCodec>(first: T, second: T)
    requires
        first.wf(),
        second.wf(),
        first.xdr() == second.xdr(),
        first.xdr().len() <= usize::MAX,
    ensures
        first == second,
{
    lemma_decode_of_encode(first);
    lemma_decode_of_encode(second);
}

/// The encoding of `value`.
pub fn encode<T: XdrCodec>(value: &T) -> (r: Vec<u8>)
    requires
        value.wf(),
    ensures
        r@ == value.xdr(),
{
    let mut out: Vec<u8> = Vec::new();
    value.write_xdr(&mut out);
    assert(out@ =~= value.xdr());
    out
}

/// Reads one value from the start of `input` and says how many bytes it took.
pub fn decode<T: XdrCodec>(input: &[u8]) -> (r: Result<(T, usize), XdrError>)
    ensures
        r == T::parse(input@, 0),
        r matches Ok((value, consumed)) ==> value.wf() && consumed <= input@.len()
            && input@.take(consumed as int) == value.xdr(),
{
    let total = input.len();
    proof {
        T::lemma_parse_sound(input@, 0);
        if let Ok((value, consumed)) = T::parse(input@, 0) {
            assert(input@.take(consumed as int) =~= input@.subrange(0, consumed as int));
        }
    }
    T::read_xdr(input, 0)
}

} // verus!
