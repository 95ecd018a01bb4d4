use vstd::prelude::*;
use vstd::string::StringSliceAdditionalSpecFns;
use crate::text::tenfold;

verus! {

// Amounts of money are read from text as decimal numbers: an optional sign, digits, and
// optionally a point and more digits, with at least one digit in all. Currency signs and
// thousands separators are passed over. The amount is given in millionths; decimals beyond
// the sixth are dropped.

/// The byte of the dollar sign.
pub const DOLLAR: u8 = 36;

/// The byte of the comma.
pub const COMMA: u8 = 44;

/// The byte of the plus sign.
pub const PLUS: u8 = 43;

/// The byte of the minus sign.
pub const MINUS: u8 = 45;

/// The byte of the decimal point.
pub const POINT: u8 = 46;

/// The byte of the digit 0.
pub const ZERO: u8 = 48;

/// The byte of the digit 9.
pub const NINE: u8 = 57;

/// The largest number of whole units whose millionths an `i64` holds.
pub const MAX_WHOLE_UNITS: u128 = 9_223_372_036_854;

/// The bytes without currency signs and thousands separators.
pub open spec fn without_marks(bytes: Seq<u8>) -> Seq<u8>
    decreases bytes.len(),
{
    if bytes.len() == 0 {
        bytes
    } else if bytes.last() == DOLLAR || bytes.last() == COMMA {
        without_marks(bytes.drop_last())
    } else {
        without_marks(bytes.drop_last()).push(bytes.last())
    }
}

/// What has been read of a number without sign.
pub struct Scan {
    /// The digits before the point, as a number.
    pub whole: nat,
    /// The first six digits after the point, as a number.
    pub fraction: nat,
    /// How many digits after the point are counted in `fraction`.
    pub fraction_digits: nat,
    /// How many digits have been read in all.
    pub digits: nat,
    pub seen_point: bool,
    /// Nothing but digits and at most one point has been read.
    pub valid: bool,
}

/// Nothing has been read yet.
pub open spec fn scan_start() -> Scan {
    Scan { whole: 0, fraction: 0, fraction_digits: 0, digits: 0, seen_point: false, valid: true }
}

/// The byte is a decimal digit.
pub open spec fn is_digit(b: u8) -> bool {
    ZERO <= b <= NINE
}

/// Reads one more byte.
pub open spec fn scan_byte(s: Scan, b: u8) -> Scan {
    if !s.valid {
        s
    } else if is_digit(b) {
        let d = (b - ZERO) as nat;
        if !s.seen_point {
            Scan { whole: s.whole * 10 + d, digits: s.digits + 1, ..s }
        } else if s.fraction_digits < 6 {
            Scan {
                fraction: s.fraction * 10 + d,
                fraction_digits: s.fraction_digits + 1,
                digits: s.digits + 1,
                ..s
            }
        } else {
            Scan { digits: s.digits + 1, ..s }
        }
    } else if b == POINT && !s.seen_point {
        Scan { seen_point: true, ..s }
    } else {
        Scan { valid: false, ..s }
    }
}

/// Reads the bytes from first to last.
pub open spec fn scan(bytes: Seq<u8>) -> Scan
    decreases bytes.len(),
{
    if bytes.len() == 0 {
        scan_start()
    } else {
        scan_byte(scan(bytes.drop_last()), bytes.last())
    }
}

/// The millionths that a number without sign comes to, if it is well written.
pub open spec fn unsigned_micros(s: Scan) -> Option<nat> {
    if s.valid && s.digits > 0 && s.fraction_digits <= 6 {
        Some(s.whole * 1_000_000 + s.fraction * tenfold((6 - s.fraction_digits) as nat))
    } else {
        None
    }
}

/// The number without its sign, and whether the sign was a minus.
pub open spec fn split_sign(bytes: Seq<u8>) -> (bool, Seq<u8>) {
    if bytes.len() > 0 && bytes[0] == MINUS {
        (true, bytes.drop_first())
    } else if bytes.len() > 0 && bytes[0] == PLUS {
        (false, bytes.drop_first())
    } else {
        (false, bytes)
    }
}

/// The amount in millionths that a decimal number comes to, if it is well written and an
/// `i64` holds it.
pub open spec fn decimal_micros(bytes: Seq<u8>) -> Option<int> {
    let (negative, body) = split_sign(bytes);
    match unsigned_micros(scan(body)) {
        Some(m) => {
            let value = if negative {
                -(m as int)
            } else {
                m as int
            };
            if i64::MIN <= value <= i64::MAX {
                Some(value)
            } else {
                None
            }
        },
        None => None,
    }
}

/// The amount in millionths that a text names, currency signs and thousands separators
/// passed over.
pub open spec fn amount_micros(bytes: Seq<u8>) -> Option<int> {
    decimal_micros(without_marks(bytes))
}

/// Takes the currency signs and thousands separators out of a text.
fn clean_amount(text: &str) -> (cleaned: Vec<u8>)
    ensures
        cleaned@ == without_marks(text.spec_bytes()),
{
    let bytes = text.as_bytes();
    let mut cleaned: Vec<u8> = Vec::new();
    let mut i: usize = 0;
    proof {
        assert(bytes@.take(0) =~= Seq::<u8>::empty());
    }
    while i < bytes.len()
        invariant
            i <= bytes.len(),
            cleaned@ == without_marks(bytes@.take(i as int)),
        decreases bytes.len() - i,
    {
        proof {
            assert(bytes@.take(i as int + 1).drop_last() =~= bytes@.take(i as int));
            assert(bytes@.take(i as int + 1).last() == bytes@[i as int]);
        }
        if bytes[i] != DOLLAR && bytes[i] != COMMA {
            cleaned.push(bytes[i]);
        }
        i += 1;
    }
    proof {
        assert(bytes@.take(bytes.len() as int) =~= bytes@);
    }
    cleaned
}

/// While what is read is valid, the number before the point only grows.
proof fn lemma_scan_byte_grows(s: Scan, b: u8)
    ensures
        scan_byte(s, b).valid ==> s.valid && scan_byte(s, b).whole >= s.whole,
        scan_byte(s, b).fraction_digits <= 6 || s.fraction_digits > 6,
{
}

/// Reads an amount of money from a text: the amount in millionths, or none if the text
/// is no decimal number or the amount is beyond what can be held.
pub fn parse_amount(text: &str) -> (amount: Option<i64>)
    ensures
        match amount {
            Some(a) => amount_micros(text.spec_bytes()) == Some(a as int),
            None => amount_micros(text.spec_bytes()) is None,
        },
{
    // Clean amount string (remove $ and commas)
    let cleaned = clean_amount(text);
    let n = cleaned.len();
    let negative = n > 0 && cleaned[0] == MINUS;
    let start: usize = if n > 0 && (cleaned[0] == MINUS || cleaned[0] == PLUS) {
        1
    } else {
        0
    };
    let ghost body = split_sign(cleaned@).1;
    proof {
        assert(body =~= cleaned@.subrange(start as int, n as int));
        assert(body.take(0) =~= Seq::<u8>::empty());
    }
    let mut whole: u128 = 0;
    let mut too_big = false;
    let mut fraction: u64 = 0;
    let mut fraction_digits: u8 = 0;
    let mut any_digit = false;
    let mut seen_point = false;
    let mut i: usize = start;
    while i < n
        invariant
            start <= i <= n,
            n == cleaned.len(),
            cleaned@ == without_marks(text.spec_bytes()),
            body == split_sign(cleaned@).1,
            body == cleaned@.subrange(start as int, n as int),
            scan(body.take(i - start)).valid,
            scan(body.take(i - start)).seen_point == seen_point,
            scan(body.take(i - start)).fraction == fraction,
            scan(body.take(i - start)).fraction_digits == fraction_digits,
            fraction_digits <= 6,
            fraction < tenfold(fraction_digits as nat),
            any_digit == (scan(body.take(i - start)).digits > 0),
            !too_big ==> scan(body.take(i - start)).whole == whole && whole <= MAX_WHOLE_UNITS,
            too_big ==> scan(body.take(i - start)).whole > MAX_WHOLE_UNITS,
        decreases n - i,
    {
        let b = cleaned[i];
        proof {
            reveal_with_fuel(tenfold, 8);
            assert(body.take(i - start + 1).drop_last() =~= body.take(i - start));
            assert(body.take(i - start + 1).last() == b);
            lemma_scan_byte_grows(scan(body.take(i - start)), b);
        }
        if ZERO <= b && b <= NINE {
            let digit = b - ZERO;
            if !seen_point {
                if !too_big {
                    whole = whole * 10 + digit as u128;
                    if whole > MAX_WHOLE_UNITS {
                        too_big = true;
                    }
                }
            } else if fraction_digits < 6 {
                fraction = fraction * 10 + digit as u64;
                fraction_digits += 1;
            }
            any_digit = true;
        } else if b == POINT && !seen_point {
            seen_point = true;
        } else {
            proof {
                assert(scan(body.take(i - start + 1)) == scan_byte(scan(body.take(i - start)), b));
                assert(!scan(body.take(i - start + 1)).valid);
                lemma_invalid_stays(body, i - start + 1);
            }
            return None;
        }
        i += 1;
    }
    proof {
        assert(body.take(n - start) =~= body);
        reveal_with_fuel(tenfold, 8);
    }
    if !any_digit || too_big {
        return None;
    }
    let mut scale: u64 = 1;
    let mut k: u8 = fraction_digits;
    while k < 6
        invariant
            fraction_digits <= k <= 6,
            scale == tenfold((k - fraction_digits) as nat),
            scale <= 1_000_000,
        decreases 6 - k,
    {
        proof {
            reveal_with_fuel(tenfold, 8);
        }
        scale = scale * 10;
        k += 1;
    }
    proof {
        reveal_with_fuel(tenfold, 8);
        assert(fraction * scale < 1_000_000 * 1_000_000) by (nonlinear_arith)
            requires
                fraction < 1_000_000,
                scale <= 1_000_000,
        ;
    }
    let micros: u128 = whole * 1_000_000 + (fraction * scale) as u128;
    if negative {
        if micros > 9_223_372_036_854_775_808 {
            None
        } else if micros == 9_223_372_036_854_775_808 {
            Some(i64::MIN)
        } else {
            Some(-(micros as i64))
        }
    } else if micros > 9_223_372_036_854_775_807 {
        None
    } else {
        Some(micros as i64)
    }
}

/// What has become invalid stays so, whatever follows.
proof fn lemma_invalid_stays(bytes: Seq<u8>, upto: int)
    requires
        0 <= upto <= bytes.len(),
        !scan(bytes.take(upto)).valid,
    ensures
        !scan(bytes).valid,
    decreases bytes.len() - upto,
{
    if upto == bytes.len() {
        assert(bytes.take(upto) =~= bytes);
    } else {
        assert(bytes.take(upto + 1).drop_last() =~= bytes.take(upto));
        lemma_invalid_stays(bytes, upto + 1);
    }
}

} // verus!
