use vstd::prelude::*;
use vstd::string::{StringExecFns, StringSliceAdditionalSpecFns};

verus! {

/// The character of a decimal digit.
pub open spec fn digit_char(d: int) -> char {
    if d == 0 {
        '0'
    } else if d == 1 {
        '1'
    } else if d == 2 {
        '2'
    } else if d == 3 {
        '3'
    } else if d == 4 {
        '4'
    } else if d == 5 {
        '5'
    } else if d == 6 {
        '6'
    } else if d == 7 {
        '7'
    } else if d == 8 {
        '8'
    } else {
        '9'
    }
}

/// A natural number in decimal digits, without leading zeros.
pub open spec fn natural_text(n: nat) -> Seq<char>
    decreases n,
{
    if n < 10 {
        seq![digit_char(n as int)]
    } else {
        natural_text(n / 10).push(digit_char((n % 10) as int))
    }
}

/// An integer in decimal digits, with a minus sign if it is negative.
pub open spec fn decimal_text(n: int) -> Seq<char> {
    if n < 0 {
        seq!['-'] + natural_text((-n) as nat)
    } else {
        natural_text(n as nat)
    }
}

/// A text in lower case, as Unicode defines it.
pub uninterp spec fn lowercase_text(text: Seq<char>) -> Seq<char>;

/// A text without the white space at its start and at its end.
pub uninterp spec fn trimmed_text(text: Seq<char>) -> Seq<char>;

/// `part` occurs in `whole`: at some place the elements of `part` follow each other.
pub open spec fn occurs_in<A>(part: Seq<A>, whole: Seq<A>) -> bool {
    exists|at: int| 0 <= at && at + part.len() <= whole.len() && #[trigger] whole.subrange(at, at + part.len()) == part
}

/// A text occurs in another: at some place of the other's bytes the bytes of the text follow
/// each other.
pub open spec fn text_occurs_in(part: Seq<char>, whole: Seq<char>) -> bool {
    occurs_in(vstd::utf8::encode_utf8(part), vstd::utf8::encode_utf8(whole))
}

/// Tells whether `part` occurs in `whole`.
pub fn contains(whole: &str, part: &str) -> (found: bool)
    ensures
        found == text_occurs_in(part@, whole@),
{
    let w = whole.as_bytes();
    let p = part.as_bytes();
    let n = w.len();
    let m = p.len();
    if m > n {
        return false;
    }
    let mut at: usize = 0;
    while at <= n - m
        invariant
            m <= n,
            n == w.len(),
            m == p.len(),
            w@ == vstd::utf8::encode_utf8(whole@),
            p@ == vstd::utf8::encode_utf8(part@),
            at <= n - m + 1,
            forall|k: int| 0 <= k < at ==> #[trigger] w@.subrange(k, k + m) != p@,
        decreases n - m + 1 - at,
    {
        let mut j: usize = 0;
        while j < m && w[at + j] == p[j]
            invariant
                j <= m,
                at + m <= n,
                n == w.len(),
                m == p.len(),
                forall|i: int| 0 <= i < j ==> w@[at + i] == p@[i],
            decreases m - j,
        {
            j += 1;
        }
        if j == m {
            proof {
                assert(w@.subrange(at as int, at + m) =~= p@);
                assert(w@.subrange(at as int, at + p@.len()) == p@);
            }
            return true;
        }
        proof {
            assert(w@.subrange(at as int, at + m)[j as int] != p@[j as int]);
        }
        at += 1;
    }
    proof {
        assert forall|k: int| 0 <= k && k + m <= n implies #[trigger] w@.subrange(k, k + m) != p@ by {}
    }
    false
}

/// Calls std's `str::to_lowercase`. Believed without proof: the result is a function of the
/// text alone.
#[verifier::external_body]
pub(crate) fn lowercase(text: &str) -> (lower: String)
    ensures
        lower@ == lowercase_text(text@),
{
    text.to_lowercase()
}

/// Calls std's `str::trim`. Believed without proof: the result is a function of the text
/// alone.
#[verifier::external_body]
pub(crate) fn trimmed(text: &str) -> (inner: &str)
    ensures
        inner@ == trimmed_text(text@),
{
    text.trim()
}

/// The two texts, one after the other.
pub fn join(first: &str, second: &str) -> (text: String)
    ensures
        text@ == first@ + second@,
{
    first.to_owned().concat(second)
}

/// The three texts, one after the other.
pub fn join3(first: &str, second: &str, third: &str) -> (text: String)
    ensures
        text@ == first@ + second@ + third@,
{
    first.to_owned().concat(second).concat(third)
}

/// The size of a number without its sign.
pub open spec fn magnitude(n: int) -> nat {
    if n < 0 {
        (-n) as nat
    } else {
        n as nat
    }
}

/// The number of hundredths of a unit nearest to an amount in millionths, a half counting
/// as a whole hundredth.
pub open spec fn hundredths(micros: nat) -> nat {
    (micros + 5_000) / 10_000
}

/// An amount in millionths of a unit, written in units with two decimals: the sign if the
/// amount is negative, the whole units, a point and two digits. The amount is rounded to the
/// nearest hundredth, a half away from zero.
pub open spec fn money_text(micros: int) -> Seq<char> {
    let cents = hundredths(magnitude(micros));
    (if micros < 0 {
        seq!['-']
    } else {
        Seq::<char>::empty()
    }) + natural_text(cents / 100) + seq!['.', digit_char(((cents % 100) / 10) as int), digit_char((cents % 10) as int)]
}

/// The decimals of `fraction`, a number below ten to the power `width`, written in `width`
/// digits without the zeros at the end.
pub open spec fn fraction_text(fraction: nat, width: nat) -> Seq<char>
    decreases width,
{
    if width == 0 || fraction == 0 {
        Seq::<char>::empty()
    } else {
        seq![digit_char((fraction / tenfold((width - 1) as nat)) as int)] + fraction_text(
            fraction % tenfold((width - 1) as nat),
            (width - 1) as nat,
        )
    }
}

/// Ten to the power `n`.
pub open spec fn tenfold(n: nat) -> nat
    decreases n,
{
    if n == 0 {
        1
    } else {
        10 * tenfold((n - 1) as nat)
    }
}

/// An amount in millionths of a unit, written in units with as many decimals as it needs:
/// the sign if the amount is negative, the whole units and, unless the amount is whole, a
/// point and up to six decimals.
pub open spec fn amount_text(micros: int) -> Seq<char> {
    let size = magnitude(micros);
    (if micros < 0 {
        seq!['-']
    } else {
        Seq::<char>::empty()
    }) + natural_text(size / 1_000_000) + (if size % 1_000_000 == 0 {
        Seq::<char>::empty()
    } else {
        seq!['.'] + fraction_text(size % 1_000_000, 6)
    })
}

/// The size of a number without its sign.
pub fn magnitude_of(n: i128) -> (size: u128)
    ensures
        size == magnitude(n as int),
{
    if n < 0 {
        ((-(n + 1)) as u128) + 1
    } else {
        n as u128
    }
}

/// The text of one decimal digit.
pub fn digit_text(d: u8) -> (text: &'static str)
    requires
        d < 10,
    ensures
        text@ == seq![digit_char(d as int)],
{
    proof {
        reveal_strlit("0");
        reveal_strlit("1");
        reveal_strlit("2");
        reveal_strlit("3");
        reveal_strlit("4");
        reveal_strlit("5");
        reveal_strlit("6");
        reveal_strlit("7");
        reveal_strlit("8");
        reveal_strlit("9");
    }
    let text = if d == 0 {
        "0"
    } else if d == 1 {
        "1"
    } else if d == 2 {
        "2"
    } else if d == 3 {
        "3"
    } else if d == 4 {
        "4"
    } else if d == 5 {
        "5"
    } else if d == 6 {
        "6"
    } else if d == 7 {
        "7"
    } else if d == 8 {
        "8"
    } else {
        "9"
    };
    assert(text@ =~= seq![digit_char(d as int)]);
    text
}

/// Writes a natural number in decimal digits.
pub fn format_natural(n: u128) -> (text: String)
    ensures
        text@ == natural_text(n as nat),
    decreases n,
{
    if n < 10 {
        digit_text(n as u8).to_owned()
    } else {
        let mut text = format_natural(n / 10);
        text.append(digit_text((n % 10) as u8));
        text
    }
}

/// Writes an integer in decimal digits, with a minus sign if it is negative.
pub fn decimal(n: i128) -> (text: String)
    ensures
        text@ == decimal_text(n as int),
{
    if n < 0 {
        proof {
            reveal_strlit("-");
        }
        let mut text = "-".to_owned();
        text.append(format_natural(magnitude_of(n)).as_str());
        text
    } else {
        format_natural(n as u128)
    }
}

/// The number that a text given in bytes names: an optional plus sign and decimal digits,
/// one at least, that come to no more than a `u64` holds.
pub open spec fn decimal_u64(bytes: Seq<u8>) -> Option<int> {
    let digits = if bytes.len() > 0 && bytes[0] == 43 {
        bytes.drop_first()
    } else {
        bytes
    };
    if digits.len() > 0 && all_digits(digits) && digits_value(digits) <= u64::MAX {
        Some(digits_value(digits))
    } else {
        None
    }
}

/// All bytes are decimal digits.
pub open spec fn all_digits(bytes: Seq<u8>) -> bool {
    forall|k: int| 0 <= k < bytes.len() ==> 48 <= #[trigger] bytes[k] <= 57
}

/// The number that decimal digits come to.
pub open spec fn digits_value(bytes: Seq<u8>) -> int
    decreases bytes.len(),
{
    if bytes.len() == 0 {
        0
    } else {
        digits_value(bytes.drop_last()) * 10 + (bytes.last() - 48)
    }
}

/// The number that digits come to does not shrink as digits follow.
proof fn lemma_digits_value_grows(bytes: Seq<u8>, upto: int)
    requires
        0 <= upto <= bytes.len(),
        all_digits(bytes),
    ensures
        0 <= digits_value(bytes.take(upto)) <= digits_value(bytes),
    decreases bytes.len() - upto,
{
    if upto == bytes.len() {
        assert(bytes.take(upto) =~= bytes);
        lemma_digits_value_nonnegative(bytes);
    } else {
        assert(bytes.take(upto + 1).drop_last() =~= bytes.take(upto));
        assert(bytes.take(upto + 1).last() == bytes[upto]);
        lemma_digits_value_grows(bytes, upto + 1);
        lemma_digits_value_nonnegative(bytes.take(upto));
    }
}

/// Decimal digits come to no negative number.
proof fn lemma_digits_value_nonnegative(bytes: Seq<u8>)
    requires
        all_digits(bytes),
    ensures
        digits_value(bytes) >= 0,
    decreases bytes.len(),
{
    if bytes.len() > 0 {
        assert forall|k: int| 0 <= k < bytes.drop_last().len() implies 48 <= #[trigger] bytes.drop_last()[k] <= 57 by {
            assert(bytes.drop_last()[k] == bytes[k]);
        }
        lemma_digits_value_nonnegative(bytes.drop_last());
    }
}

/// Reads a number from a text: an optional plus sign and decimal digits.
pub fn parse_u64(text: &str) -> (number: Option<u64>)
    ensures
        match number {
            Some(n) => decimal_u64(text.spec_bytes()) == Some(n as int),
            None => decimal_u64(text.spec_bytes()) is None,
        },
{
    let bytes = text.as_bytes();
    let n = bytes.len();
    let start: usize = if n > 0 && bytes[0] == 43 {
        1
    } else {
        0
    };
    let ghost digits = bytes@.subrange(start as int, n as int);
    proof {
        assert(digits =~= if bytes@.len() > 0 && bytes@[0] == 43 {
            bytes@.drop_first()
        } else {
            bytes@
        });
        assert(digits.take(0) =~= Seq::<u8>::empty());
    }
    if start == n {
        return None;
    }
    let mut value: u64 = 0;
    let mut i: usize = start;
    while i < n
        invariant
            start <= i <= n,
            start < n,
            n == bytes.len(),
            bytes@ == text.spec_bytes(),
            digits == bytes@.subrange(start as int, n as int),
            digits == (if bytes@.len() > 0 && bytes@[0] == 43 {
                bytes@.drop_first()
            } else {
                bytes@
            }),
            all_digits(digits.take(i - start)),
            value == digits_value(digits.take(i - start)),
        decreases n - i,
    {
        let b = bytes[i];
        proof {
            assert(digits.take(i - start + 1).drop_last() =~= digits.take(i - start));
            assert(digits.take(i - start + 1).last() == b);
        }
        if b < 48 || b > 57 {
            proof {
                assert(digits[i - start] == b);
            }
            return None;
        }
        let digit = (b - 48) as u64;
        if value > (u64::MAX - digit) / 10 {
            proof {
                // the digits so far come to more than can be held, and so do all of them
                assert(all_digits(digits.take(i - start + 1))) by {
                    assert forall|k: int| 0 <= k < i - start + 1 implies 48 <= #[trigger] digits.take(
                        i - start + 1,
                    )[k] <= 57 by {
                        if k < i - start {
                            assert(digits.take(i - start)[k] == digits[k]);
                        }
                    }
                }
                assert(digits_value(digits.take(i - start + 1)) == value * 10 + digit);
                if all_digits(digits) {
                    lemma_digits_value_grows(digits, i - start + 1);
                }
            }
            return None;
        }
        value = value * 10 + digit;
        proof {
            assert forall|k: int| 0 <= k < i - start + 1 implies 48 <= #[trigger] digits.take(i - start + 1)[k]
                <= 57 by {
                if k < i - start {
                    assert(digits.take(i - start)[k] == digits[k]);
                }
            }
        }
        i += 1;
    }
    proof {
        assert(digits.take(n - start) =~= digits);
    }
    Some(value)
}

/// Writes an amount in millionths of a unit in units with two decimals.
pub fn format_money(micros: i128) -> (text: String)
    ensures
        text@ == money_text(micros as int),
{
    let size = magnitude_of(micros);
    let cents: u128 = (size + 5_000) / 10_000;
    let mut text = String::new();
    if micros < 0 {
        proof {
            reveal_strlit("-");
        }
        text.append("-");
    }
    let ghost sign = text@;
    assert(sign =~= if micros < 0 {
        seq!['-']
    } else {
        Seq::<char>::empty()
    });
    text.append(decimal((cents / 100) as i128).as_str());
    proof {
        reveal_strlit(".");
    }
    text.append(".");
    text.append(digit_text(((cents % 100) / 10) as u8));
    text.append(digit_text((cents % 10) as u8));
    proof {
        let c = hundredths(magnitude(micros as int));
        assert(text@ =~= sign + natural_text(c / 100) + seq![
            '.',
            digit_char(((c % 100) / 10) as int),
            digit_char((c % 10) as int),
        ]);
    }
    text
}

/// Writes the decimals of `fraction` in `width` digits, without the zeros at the end.
fn format_fraction(fraction: u32, width: u8) -> (text: String)
    requires
        width <= 6,
        fraction < tenfold(width as nat),
    ensures
        text@ == fraction_text(fraction as nat, width as nat),
    decreases width,
{
    if width == 0 || fraction == 0 {
        return String::new();
    }
    let unit = power_of_ten(width - 1);
    proof {
        reveal_with_fuel(tenfold, 8);
        assert(fraction / unit < 10) by (nonlinear_arith)
            requires
                fraction < 10 * unit,
                unit > 0,
        ;
    }
    let mut text = digit_text((fraction / unit) as u8).to_owned();
    let rest = format_fraction(fraction % unit, width - 1);
    text.append(rest.as_str());
    text
}

/// Ten to the power `n`, for the powers that fit the decimals of an amount.
fn power_of_ten(n: u8) -> (power: u32)
    requires
        n <= 6,
    ensures
        power == tenfold(n as nat),
        power > 0,
{
    proof {
        reveal_with_fuel(tenfold, 8);
    }
    if n == 0 {
        1
    } else if n == 1 {
        10
    } else if n == 2 {
        100
    } else if n == 3 {
        1_000
    } else if n == 4 {
        10_000
    } else if n == 5 {
        100_000
    } else {
        1_000_000
    }
}

/// Writes an amount in millionths of a unit in units, with as many decimals as it needs.
pub fn format_amount(micros: i128) -> (text: String)
    ensures
        text@ == amount_text(micros as int),
{
    let size = magnitude_of(micros);
    let mut text = String::new();
    if micros < 0 {
        proof {
            reveal_strlit("-");
        }
        text.append("-");
    }
    let ghost sign = text@;
    assert(sign =~= if micros < 0 {
        seq!['-']
    } else {
        Seq::<char>::empty()
    });
    text.append(decimal((size / 1_000_000) as i128).as_str());
    let fraction = (size % 1_000_000) as u32;
    if fraction != 0 {
        proof {
            reveal_strlit(".");
            reveal_with_fuel(tenfold, 8);
        }
        text.append(".");
        text.append(format_fraction(fraction, 6).as_str());
    }
    proof {
        let size = magnitude(micros as int);
        assert(text@ =~= sign + natural_text(size / 1_000_000) + (if size % 1_000_000 == 0 {
            Seq::<char>::empty()
        } else {
            seq!['.'] + fraction_text(size % 1_000_000, 6)
        }));
    }
    text
}

/// A time in nanoseconds, written in seconds with one decimal, rounded to the nearest tenth.
pub open spec fn seconds_text(nanos: nat) -> Seq<char> {
    let tenths = (nanos + 50_000_000) / 100_000_000;
    natural_text(tenths / 10) + seq!['.', digit_char((tenths % 10) as int)]
}

/// Writes a time in nanoseconds in seconds with one decimal.
pub fn format_seconds(nanos: u128) -> (text: String)
    ensures
        text@ == seconds_text(nanos as nat),
{
    let tenths: u128 = if nanos % 100_000_000 >= 50_000_000 {
        nanos / 100_000_000 + 1
    } else {
        nanos / 100_000_000
    };
    let mut text = decimal((tenths / 10) as i128);
    proof {
        reveal_strlit(".");
    }
    text.append(".");
    text.append(digit_text((tenths % 10) as u8));
    proof {
        let t = (nanos as nat + 50_000_000) / 100_000_000;
        assert(text@ =~= natural_text(t / 10) + seq!['.', digit_char((t % 10) as int)]);
    }
    text
}

/// The texts one after the other, with `separator` between each two.
pub open spec fn joined(parts: Seq<Seq<char>>, separator: Seq<char>) -> Seq<char>
    decreases parts.len(),
{
    if parts.len() == 0 {
        Seq::<char>::empty()
    } else if parts.len() == 1 {
        parts[0]
    } else {
        joined(parts.drop_last(), separator) + separator + parts.last()
    }
}

/// The views of the strings.
pub open spec fn texts(parts: Seq<String>) -> Seq<Seq<char>> {
    parts.map_values(|s: String| s@)
}

/// Writes the texts one after the other, with `separator` between each two.
pub fn join_all(parts: &Vec<String>, separator: &str) -> (text: String)
    ensures
        text@ == joined(texts(parts@), separator@),
{
    let mut text = String::new();
    let mut i: usize = 0;
    proof {
        assert(texts(parts@).take(0) =~= Seq::<Seq<char>>::empty());
    }
    while i < parts.len()
        invariant
            i <= parts.len(),
            text@ == joined(texts(parts@).take(i as int), separator@),
        decreases parts.len() - i,
    {
        proof {
            assert(texts(parts@).take(i as int + 1).drop_last() =~= texts(parts@).take(i as int));
            assert(texts(parts@).take(i as int + 1).last() == parts@[i as int]@);
        }
        if i > 0 {
            text.append(separator);
        } else {
            assert(text@ =~= Seq::<char>::empty());
            assert(Seq::<char>::empty() + parts@[0]@ =~= parts@[0]@);
        }
        text.append(parts[i].as_str());
        i += 1;
    }
    proof {
        assert(texts(parts@).take(parts.len() as int) =~= texts(parts@));
    }
    text
}

/// The byte that ends a line.
pub const NEWLINE: u8 = 10;

/// The number of line ends among the bytes.
pub open spec fn newline_count(bytes: Seq<u8>) -> nat
    decreases bytes.len(),
{
    if bytes.len() == 0 {
        0
    } else {
        newline_count(bytes.drop_last()) + if bytes.last() == NEWLINE {
            1nat
        } else {
            0nat
        }
    }
}

/// The number of lines of a text given in bytes: one for each line end, and one more for
/// what follows the last line end, if anything does.
pub open spec fn line_count(bytes: Seq<u8>) -> nat {
    newline_count(bytes) + if bytes.len() > 0 && bytes.last() != NEWLINE {
        1nat
    } else {
        0nat
    }
}

/// There are no more line ends than bytes.
pub proof fn lemma_newline_count_bound(bytes: Seq<u8>)
    ensures
        newline_count(bytes) <= bytes.len(),
    decreases bytes.len(),
{
    if bytes.len() > 0 {
        lemma_newline_count_bound(bytes.drop_last());
    }
}

/// Counts the lines of a text.
pub fn count_lines(text: &str) -> (count: usize)
    ensures
        count == line_count(text.spec_bytes()),
{
    let bytes = text.as_bytes();
    let n = bytes.len();
    let mut newlines: usize = 0;
    let mut i: usize = 0;
    proof {
        assert(bytes@.take(0) =~= Seq::<u8>::empty());
    }
    while i < n
        invariant
            i <= n,
            n == bytes.len(),
            newlines == newline_count(bytes@.take(i as int)),
            newlines <= i,
        decreases n - i,
    {
        proof {
            assert(bytes@.take(i as int + 1).drop_last() =~= bytes@.take(i as int));
            assert(bytes@.take(i as int + 1).last() == bytes@[i as int]);
        }
        if bytes[i] == NEWLINE {
            newlines += 1;
        }
        i += 1;
    }
    proof {
        assert(bytes@.take(n as int) =~= bytes@);
        if n > 0 {
            lemma_newline_count_bound(bytes@.drop_last());
        }
    }
    if n > 0 && bytes[n - 1] != NEWLINE {
        newlines + 1
    } else {
        newlines
    }
}

/// A natural number in decimal digits, with zeros in front to fill `width` digits.
pub open spec fn zero_padded(n: nat, width: nat) -> Seq<char>
    decreases width,
{
    if width <= 1 || n >= tenfold((width - 1) as nat) {
        natural_text(n)
    } else {
        seq!['0'] + zero_padded(n, (width - 1) as nat)
    }
}

/// An integer in decimal digits, with zeros to fill `width` characters; the sign of a
/// negative number stands first and counts as one of them.
pub open spec fn padded_text(n: int, width: nat) -> Seq<char> {
    if n < 0 {
        seq!['-'] + zero_padded((-n) as nat, if width >= 1 {
            (width - 1) as nat
        } else {
            0
        })
    } else {
        zero_padded(n as nat, width)
    }
}

/// Writes a natural number with zeros in front to fill `width` digits.
fn format_zero_padded(n: u64, width: u8) -> (text: String)
    requires
        width <= 7,
    ensures
        text@ == zero_padded(n as nat, width as nat),
    decreases width,
{
    if width <= 1 {
        return decimal(n as i128);
    }
    let unit = power_of_ten(width - 1);
    if n >= unit as u64 {
        decimal(n as i128)
    } else {
        proof {
            reveal_strlit("0");
        }
        let mut text = "0".to_owned();
        text.append(format_zero_padded(n, width - 1).as_str());
        text
    }
}

/// Writes an integer with zeros to fill `width` characters.
pub fn format_padded(n: i64, width: u8) -> (text: String)
    requires
        width <= 7,
    ensures
        text@ == padded_text(n as int, width as nat),
{
    if n < 0 {
        proof {
            reveal_strlit("-");
        }
        let mut text = "-".to_owned();
        let size = magnitude_of(n as i128);
        text.append(format_zero_padded(size as u64, if width >= 1 {
            width - 1
        } else {
            0
        }).as_str());
        text
    } else {
        format_zero_padded(n as u64, width)
    }
}

/// A percentage in millionths of a percentage point, written in percentage points with one
/// decimal: the sign if it is negative, the whole points, a point and one digit. The
/// percentage is rounded to the nearest tenth, a half away from zero.
pub open spec fn percent_text(micros: int) -> Seq<char> {
    let tenths = (magnitude(micros) + 50_000) / 100_000;
    (if micros < 0 {
        seq!['-']
    } else {
        Seq::<char>::empty()
    }) + natural_text(tenths / 10) + seq!['.', digit_char((tenths % 10) as int)]
}

/// Writes a percentage in millionths of a percentage point in percentage points with one
/// decimal.
pub fn format_percent(micros: i128) -> (text: String)
    ensures
        text@ == percent_text(micros as int),
{
    let size = magnitude_of(micros);
    let tenths: u128 = (size + 50_000) / 100_000;
    let mut text = String::new();
    if micros < 0 {
        proof {
            reveal_strlit("-");
        }
        text.append("-");
    }
    let ghost sign = text@;
    assert(sign =~= if micros < 0 {
        seq!['-']
    } else {
        Seq::<char>::empty()
    });
    text.append(decimal((tenths / 10) as i128).as_str());
    proof {
        reveal_strlit(".");
    }
    text.append(".");
    text.append(digit_text((tenths % 10) as u8));
    proof {
        let t = (magnitude(micros as int) + 50_000) / 100_000;
        assert(text@ =~= sign + natural_text(t / 10) + seq!['.', digit_char((t % 10) as int)]);
    }
    text
}

} // verus!
