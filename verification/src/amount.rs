//! Amounts: 64-bit numbers of stroops, one stroop being a ten-millionth of a
//! unit, and their decimal notation.

use crate::error::StellarSdkError;
use vstd::prelude::*;
use vstd::slice::slice_subrange;

verus! {

/// The number of stroops in one unit.
pub const STROOPS_PER_LUMEN: i64 = 10_000_000;

/// The largest number of digits behind the decimal point.
pub const MAX_FRACTION_DIGITS: usize = 7;

/// Whether `character` is a decimal digit.
pub open spec fn is_digit(character: u8) -> bool {
    48 <= character <= 57
}

/// Whether `text` consists of decimal digits only.
pub open spec fn all_digits(text: Seq<u8>) -> bool {
    forall|i: int| 0 <= i < text.len() ==> is_digit(#[trigger] text[i])
}

/// The number that a text of decimal digits denotes.
pub open spec fn decimal_value(text: Seq<u8>) -> nat
    decreases text.len(),
{
    if text.len() == 0 {
        0
    } else {
        decimal_value(text.drop_last()) * 10 + (text.last() - 48) as nat
    }
}

/// Ten to the power of `exponent`.
pub open spec fn pow10(exponent: nat) -> nat
    decreases exponent,
{
    if exponent == 0 {
        1
    } else {
        10 * pow10((exponent - 1) as nat)
    }
}

/// Whether `text` starts with a minus sign.
pub open spec fn has_sign(text: Seq<u8>) -> bool {
    text.len() > 0 && text[0] == 45
}

/// `text` without its minus sign, if it has one.
pub open spec fn unsigned_part(text: Seq<u8>) -> Seq<u8> {
    if has_sign(text) {
        text.skip(1)
    } else {
        text
    }
}

/// The position of the first decimal point in `text`, or the length of
/// `text` if it has none.
pub open spec fn point_position(text: Seq<u8>) -> int
    decreases text.len(),
{
    if text.len() == 0 || text[0] == 46 {
        0
    } else {
        1 + point_position(text.drop_first())
    }
}

/// The digits before the decimal point.
pub open spec fn whole_part(text: Seq<u8>) -> Seq<u8> {
    let body = unsigned_part(text);
    body.take(point_position(body))
}

/// Whether the text has a decimal point.
pub open spec fn has_point(text: Seq<u8>) -> bool {
    let body = unsigned_part(text);
    point_position(body) < body.len()
}

/// The digits behind the decimal point; empty if there is no point.
pub open spec fn fraction_part(text: Seq<u8>) -> Seq<u8> {
    let body = unsigned_part(text);
    if has_point(text) {
        body.skip(point_position(body) + 1)
    } else {
        Seq::empty()
    }
}

/// Whether `text` is the decimal notation of an amount: an optional minus
/// sign, at least one digit and, optionally, a point followed by one to
/// seven digits.
pub open spec fn is_amount_text(text: Seq<u8>) -> bool {
    &&& whole_part(text).len() >= 1
    &&& all_digits(whole_part(text))
    &&& has_point(text) ==> 1 <= fraction_part(text).len() <= MAX_FRACTION_DIGITS
    &&& all_digits(fraction_part(text))
}

/// The number of stroops that the digits of an amount text denote, the sign
/// left aside.
pub open spec fn amount_magnitude(text: Seq<u8>) -> nat {
    let fraction = fraction_part(text);
    decimal_value(whole_part(text)) * 10_000_000 + decimal_value(fraction) * pow10(
        (MAX_FRACTION_DIGITS - fraction.len()) as nat,
    )
}

/// What a number of stroops is accepted as: itself, unless it is negative
/// or, where zero is not allowed, not positive.
pub open spec fn checked_stroops(stroops: i64, allow_zero: bool) -> Result<i64, StellarSdkError> {
    if allow_zero {
        if stroops < 0 {
            Err(StellarSdkError::AmountNegative)
        } else {
            Ok(stroops)
        }
    } else {
        if stroops <= 0 {
            Err(StellarSdkError::AmountNonPositive)
        } else {
            Ok(stroops)
        }
    }
}

/// What an amount text is accepted as.
pub open spec fn amount_of_text(text: Seq<u8>, allow_zero: bool) -> Result<i64, StellarSdkError> {
    if !is_amount_text(text) {
        Err(StellarSdkError::InvalidAmountString)
    } else if amount_magnitude(text) > i64::MAX {
        Err(StellarSdkError::AmountOverflow)
    } else if has_sign(text) {
        checked_stroops((-(amount_magnitude(text) as int)) as i64, allow_zero)
    } else {
        checked_stroops(amount_magnitude(text) as i64, allow_zero)
    }
}

/// Accepts a number of stroops as an amount, or says why it is none.
pub fn check_stroops(stroops: i64, allow_zero: bool) -> (r: Result<i64, StellarSdkError>)
    ensures
        r == checked_stroops(stroops, allow_zero),
{
    if allow_zero {
        if stroops < 0 {
            Err(StellarSdkError::AmountNegative)
        } else {
            Ok(stroops)
        }
    } else {
        if stroops <= 0 {
            Err(StellarSdkError::AmountNonPositive)
        } else {
            Ok(stroops)
        }
    }
}

proof fn lemma_point_position(text: Seq<u8>, position: int)
    requires
        0 <= position <= text.len(),
        forall|i: int| 0 <= i < position ==> text[i] != 46,
        position < text.len() ==> text[position] == 46,
    ensures
        point_position(text) == position,
    decreases position,
{
    if position > 0 {
        let rest = text.drop_first();
        assert forall|i: int| 0 <= i < position - 1 implies rest[i] != 46 by {
            assert(rest[i] == text[i + 1]);
        }
        lemma_point_position(rest, position - 1);
    }
}

proof fn lemma_decimal_value_grows(text: Seq<u8>, upto: int)
    requires
        all_digits(text),
        0 <= upto <= text.len(),
    ensures
        decimal_value(text.take(upto)) <= decimal_value(text),
    decreases text.len() - upto,
{
    if upto < text.len() {
        lemma_decimal_value_grows(text, upto + 1);
        assert(text.take(upto + 1).drop_last() =~= text.take(upto));
        assert(is_digit(text[upto]));
    } else {
        assert(text.take(upto) =~= text);
    }
}

/// The position of the first decimal point in `text`.
fn find_point(text: &[u8]) -> (r: usize)
    ensures
        r == point_position(text@),
        r <= text@.len(),
{
    let mut i: usize = 0;
    while i < text.len() && text[i] != 46
        invariant
            i <= text.len(),
            forall|j: int| 0 <= j < i ==> text@[j] != 46,
        decreases text.len() - i,
    {
        i += 1;
    }
    proof {
        lemma_point_position(text@, i as int);
    }
    i
}

/// Reads a text of decimal digits. Gives `None` if a character is no digit,
/// else the value, capped at `cap + 1` if it is larger than `cap`.
fn read_digits(text: &[u8], cap: u64) -> (r: Option<u64>)
    requires
        cap <= 1_000_000_000_000_000,
    ensures
        match r {
            None => !all_digits(text@),
            Some(value) => all_digits(text@) && if decimal_value(text@) <= cap {
                value == decimal_value(text@)
            } else {
                value == cap + 1
            },
        },
{
    let mut value: u64 = 0;
    let mut i: usize = 0;
    while i < text.len()
        invariant
            i <= text.len(),
            cap <= 1_000_000_000_000_000,
            all_digits(text@.take(i as int)),
            if decimal_value(text@.take(i as int)) <= cap {
                value == decimal_value(text@.take(i as int))
            } else {
                value == cap + 1
            },
        decreases text.len() - i,
    {
        let character = text[i];
        if character < 48 || character > 57 {
            return None;
        }
        proof {
            assert(text@.take(i + 1).drop_last() =~= text@.take(i as int));
            assert(all_digits(text@.take(i + 1))) by {
                assert forall|j: int| 0 <= j < i + 1 implies is_digit(
                    #[trigger] text@.take(i + 1)[j],
                ) by {
                    if j < i {
                        assert(text@.take(i as int)[j] == text@[j]);
                    }
                }
            }
        }
        if value <= cap {
            value = value * 10 + (character - 48) as u64;
            if value > cap {
                value = cap + 1;
            }
        }
        i += 1;
    }
    proof {
        assert(text@.take(i as int) =~= text@);
    }
    Some(value)
}

/// Reads an amount from its decimal notation.
///
/// The text is an optional minus sign, at least one digit and, optionally,
/// a point followed by one to seven digits. The result is the number of
/// stroops. A text of another form is refused as `InvalidAmountString`, a
/// number beyond the 64-bit range as `AmountOverflow`, a negative one as
/// `AmountNegative` and, where zero is not allowed, one that is not positive
/// as `AmountNonPositive`.
pub fn parse_amount(text: &[u8], allow_zero: bool) -> (r: Result<i64, StellarSdkError>)
    ensures
        r == amount_of_text(text@, allow_zero),
{
    let negative = text.len() > 0 && text[0] == 45;
    let body = if negative {
        slice_subrange(text, 1, text.len())
    } else {
        text
    };
    assert(body@ =~= unsigned_part(text@));
    let point = find_point(body);
    let whole = slice_subrange(body, 0, point);
    assert(whole@ =~= whole_part(text@));
    let fraction = if point < body.len() {
        slice_subrange(body, point + 1, body.len())
    } else {
        slice_subrange(body, point, point)
    };
    assert(fraction@ =~= fraction_part(text@));
    if whole.len() == 0 {
        return Err(StellarSdkError::InvalidAmountString);
    }
    if point < body.len() && (fraction.len() == 0 || fraction.len() > MAX_FRACTION_DIGITS) {
        return Err(StellarSdkError::InvalidAmountString);
    }
    let units = match read_digits(whole, 922_337_203_685) {
        Some(units) => units,
        None => {
            return Err(StellarSdkError::InvalidAmountString);
        },
    };
    let mut part = match read_digits(fraction, 9_999_999) {
        Some(part) => part,
        None => {
            return Err(StellarSdkError::InvalidAmountString);
        },
    };
    proof {
        lemma_fraction_bound(fraction@);
        let spare = (MAX_FRACTION_DIGITS - fraction@.len()) as nat;
        lemma_scaled_bound(decimal_value(fraction@), fraction@.len(), spare);
        lemma_pow10_positive(spare);
        assert(decimal_value(fraction@) <= decimal_value(fraction@) * pow10(spare))
            by (nonlinear_arith)
            requires
                pow10(spare) >= 1,
        ;
    }
    let mut missing: usize = MAX_FRACTION_DIGITS - fraction.len();
    let ghost digits = decimal_value(fraction@);
    while missing > 0
        invariant
            missing <= MAX_FRACTION_DIGITS - fraction@.len(),
            fraction@.len() <= MAX_FRACTION_DIGITS,
            digits < pow10(fraction@.len()),
            part * pow10(missing as nat) == digits * pow10(
                (MAX_FRACTION_DIGITS - fraction@.len()) as nat,
            ),
        decreases missing,
    {
        proof {
            lemma_scaled_bound(
                digits,
                fraction@.len(),
                (MAX_FRACTION_DIGITS - fraction@.len()) as nat,
            );
            lemma_pow10_values();
            assert(part * 10 * pow10((missing - 1) as nat) == part * pow10(missing as nat))
                by (nonlinear_arith)
                requires
                    pow10(missing as nat) == 10 * pow10((missing - 1) as nat),
            ;
            assert(part <= part * pow10(missing as nat)) by (nonlinear_arith)
                requires
                    pow10(missing as nat) >= 1,
            ;
        }
        part = part * 10;
        missing -= 1;
    }
    proof {
        lemma_scaled_bound(digits, fraction@.len(), (MAX_FRACTION_DIGITS - fraction@.len()) as nat);
        assert(part * pow10(0) == part) by (nonlinear_arith)
            requires
                pow10(0) == 1,
        ;
    }
    if units > 922_337_203_685 {
        return Err(StellarSdkError::AmountOverflow);
    }
    let magnitude: u64 = units * 10_000_000 + part;
    if magnitude > i64::MAX as u64 {
        return Err(StellarSdkError::AmountOverflow);
    }
    if negative {
        check_stroops(-(magnitude as i64), allow_zero)
    } else {
        check_stroops(magnitude as i64, allow_zero)
    }
}

proof fn lemma_pow10_values()
    ensures
        pow10(0) == 1,
        pow10(1) == 10,
        pow10(2) == 100,
        pow10(3) == 1_000,
        pow10(4) == 10_000,
        pow10(5) == 100_000,
        pow10(6) == 1_000_000,
        pow10(7) == 10_000_000,
        forall|n: nat| pow10(n) >= 1,
{
    reveal_with_fuel(pow10, 8);
    assert forall|n: nat| pow10(n) >= 1 by {
        lemma_pow10_positive(n);
    }
}

proof fn lemma_pow10_positive(n: nat)
    ensures
        pow10(n) >= 1,
    decreases n,
{
    if n > 0 {
        lemma_pow10_positive((n - 1) as nat);
    }
}

proof fn lemma_fraction_bound(text: Seq<u8>)
    requires
        all_digits(text),
    ensures
        decimal_value(text) < pow10(text.len()),
    decreases text.len(),
{
    if text.len() > 0 {
        lemma_fraction_bound(text.drop_last());
        assert(is_digit(text.last()));
    }
}

proof fn lemma_pow10_adds(first: nat, second: nat)
    ensures
        pow10(first) * pow10(second) == pow10(first + second),
    decreases first,
{
    if first > 0 {
        let less = (first - 1) as nat;
        lemma_pow10_adds(less, second);
        assert(pow10(first) == 10 * pow10(less));
        assert((first + second - 1) as nat == less + second);
        assert(pow10(first + second) == 10 * pow10(less + second));
        assert((10 * pow10(less)) * pow10(second) == 10 * (pow10(less) * pow10(second)))
            by (nonlinear_arith);
    } else {
        assert(pow10(0) == 1);
        assert(1 * pow10(second) == pow10(second));
    }
}

proof fn lemma_scaled_bound(digits: nat, length: nat, missing: nat)
    requires
        digits < pow10(length),
        length + missing == 7,
    ensures
        digits * pow10(missing) <= 9_999_999,
{
    lemma_pow10_adds(length, missing);
    lemma_pow10_values();
    lemma_pow10_positive(missing);
    assert(digits * pow10(missing) < pow10(length) * pow10(missing)) by (nonlinear_arith)
        requires
            digits < pow10(length),
            pow10(missing) >= 1,
    ;
}

} // verus!

verus! {

/// An amount given as a number of stroops.
#[derive(Debug, Clone, Copy, PartialEq, Eq)]
pub struct StroopAmount(pub i64);

/// Anything that states an amount.
pub trait IntoAmount: Sized {
    /// The number of stroops that the value states, or why it states none.
    spec fn stroops(&self, allow_zero: bool) -> Result<i64, StellarSdkError>;

    /// Converts the value into a number of stroops.
    fn into_stroop_amount(self, allow_zero: bool) -> (r: Result<i64, StellarSdkError>)
        ensures
            r == self.stroops(allow_zero),
    ;
}

impl IntoAmount for StroopAmount {
    open spec fn stroops(&self, allow_zero: bool) -> Result<i64, StellarSdkError> {
        checked_stroops(self.0, allow_zero)
    }

    fn into_stroop_amount(self, allow_zero: bool) -> (r: Result<i64, StellarSdkError>) {
        check_stroops(self.0, allow_zero)
    }
}

impl<'a> IntoAmount for &'a [u8] {
    open spec fn stroops(&self, allow_zero: bool) -> Result<i64, StellarSdkError> {
        amount_of_text(self@, allow_zero)
    }

    fn into_stroop_amount(self, allow_zero: bool) -> (r: Result<i64, StellarSdkError>) {
        parse_amount(self, allow_zero)
    }
}

} // verus!

verus! {

/// The amount that a value states, checked once more against the sign rule
/// whatever the conversion gave.
pub open spec fn stated_amount<A: IntoAmount>(amount: A, allow_zero: bool) -> Result<
    i64,
    StellarSdkError,
> {
    match amount.stroops(allow_zero) {
        Err(e) => Err(e),
        Ok(stroops) => checked_stroops(stroops, allow_zero),
    }
}

/// Converts a value into an amount and checks its sign.
pub fn convert_amount<A: IntoAmount>(amount: A, allow_zero: bool) -> (r: Result<
    i64,
    StellarSdkError,
>)
    ensures
        r == stated_amount(amount, allow_zero),
        r matches Ok(stroops) ==> stroops >= 0 && (allow_zero || stroops > 0),
{
    match amount.into_stroop_amount(allow_zero) {
        Ok(stroops) => check_stroops(stroops, allow_zero),
        Err(e) => Err(e),
    }
}

} // verus!
