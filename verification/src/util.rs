//! Small shared utilities: pixel dimensions, decimal formatting of numbers,
//! and display-width-aware string truncation.

use vstd::prelude::*;

verus! {

/// A width and a height, in pixels.
#[derive(Clone, Copy, Debug, PartialEq, Eq, Structural)]
pub struct Dimensions(pub u32, pub u32);

impl Dimensions {
    pub fn new(width: u32, height: u32) -> (r: Self)
        ensures
            r.0 == width,
            r.1 == height,
    {
        Self(width, height)
    }

    pub fn width(&self) -> (r: u32)
        ensures
            r == self.0,
    {
        self.0
    }

    pub fn height(&self) -> (r: u32)
        ensures
            r == self.1,
    {
        self.1
    }

    pub fn area(&self) -> (r: u32)
        requires
            self.0 * self.1 <= u32::MAX,
        ensures
            r == self.0 * self.1,
    {
        proof {
            assert(self.1 * self.0 == self.0 * self.1) by (nonlinear_arith);
        }
        self.1 * self.0
    }

    pub fn as_tuple(&self) -> (r: (u32, u32))
        ensures
            r.0 == self.0,
            r.1 == self.1,
    {
        (self.0, self.1)
    }
}

/// Anything that has pixel dimensions.
pub trait HasDimensions {
    fn dimensions(&self) -> Dimensions;
}

/// Anything that exposes a pixel width and height separately.
pub trait HasWidthAndHeight: HasDimensions {
    fn width(&self) -> u32;

    fn height(&self) -> u32;
}

/// A stream whose decoder emits frames of a coded size, which may exceed the
/// display size.
pub trait HasCodedDimensions {
    fn coded_width(&self) -> u32;

    fn coded_height(&self) -> u32;

    fn coded_dimensions(&self) -> Dimensions;
}

/// The decimal digit for a value below ten.
pub open spec fn spec_digit_char(d: int) -> char {
    if d == 0 {
        '0'
    } else if d == 1 {
        '1'
    } else if d == 2 {
        '2'
    } else if d == 3 {
        '3'
    } else if d == 4 {
        '4'
    } else if d == 5 {
        '5'
    } else if d == 6 {
        '6'
    } else if d == 7 {
        '7'
    } else if d == 8 {
        '8'
    } else {
        '9'
    }
}

/// The decimal numeral of a non-negative number, most significant digit first.
pub open spec fn spec_decimal(n: int) -> Seq<char>
    decreases n,
{
    if n < 10 {
        seq![spec_digit_char(n)]
    } else {
        spec_decimal(n / 10).push(spec_digit_char(n % 10))
    }
}

/// The decimal numeral of a signed number: a minus sign, if negative, followed
/// by the numeral of its magnitude.
pub open spec fn spec_decimal_signed(n: int) -> Seq<char> {
    if n < 0 {
        seq!['-'] + spec_decimal(-n)
    } else {
        spec_decimal(n)
    }
}

fn digit_str(d: u32) -> (r: &'static str)
    requires
        d < 10,
    ensures
        r@ =~= seq![spec_digit_char(d as int)],
{
    proof {
        reveal_strlit("0");
        reveal_strlit("1");
        reveal_strlit("2");
        reveal_strlit("3");
        reveal_strlit("4");
        reveal_strlit("5");
        reveal_strlit("6");
        reveal_strlit("7");
        reveal_strlit("8");
        reveal_strlit("9");
    }
    match d {
        0 => "0",
        1 => "1",
        2 => "2",
        3 => "3",
        4 => "4",
        5 => "5",
        6 => "6",
        7 => "7",
        8 => "8",
        _ => "9",
    }
}

/// Renders a number as its decimal numeral.
pub fn u32_to_string(n: u32) -> (r: String)
    ensures
        r@ == spec_decimal(n as int),
    decreases n,
{
    if n < 10 {
        digit_str(n).to_owned()
    } else {
        let mut s = u32_to_string(n / 10);
        s.append(digit_str(n % 10));
        s
    }
}

/// Renders a signed number as its decimal numeral.
pub fn i32_to_string(n: i32) -> (r: String)
    ensures
        r@ == spec_decimal_signed(n as int),
{
    if n < 0 {
        let magnitude: u32 = (-(n as i64)) as u32;
        let mut s = String::from_str("-");
        proof {
            reveal_strlit("-");
        }
        s.append(u32_to_string(magnitude).as_str());
        s
    } else {
        u32_to_string(n as u32)
    }
}

/// Whether every character is a decimal digit.
pub open spec fn spec_all_digits(s: Seq<char>) -> bool {
    forall|i: int| 0 <= i < s.len() ==> '0' <= #[trigger] s[i] <= '9'
}

/// The number a digit string denotes.
pub open spec fn spec_digits_value(s: Seq<char>) -> int
    decreases s.len(),
{
    if s.len() == 0 {
        0
    } else {
        spec_digits_value(s.drop_last()) * 10 + (s.last() as int - '0' as int)
    }
}

proof fn lemma_digits_value_nonneg(s: Seq<char>)
    requires
        spec_all_digits(s),
    ensures
        spec_digits_value(s) >= 0,
    decreases s.len(),
{
    if s.len() > 0 {
        assert(spec_all_digits(s.drop_last()));
        lemma_digits_value_nonneg(s.drop_last());
    }
}

proof fn lemma_digits_value_prefix(s: Seq<char>, i: int)
    requires
        spec_all_digits(s),
        0 <= i <= s.len(),
    ensures
        spec_digits_value(s) >= spec_digits_value(s.subrange(0, i)),
    decreases s.len() - i,
{
    if i < s.len() {
        lemma_digits_value_prefix(s, i + 1);
        let t = s.subrange(0, i);
        let u = s.subrange(0, i + 1);
        assert(u.drop_last() =~= t);
        assert(spec_all_digits(t));
        lemma_digits_value_nonneg(t);
        assert(spec_digits_value(u) == spec_digits_value(t) * 10 + (u.last() as int - '0' as int));
        assert(spec_digits_value(t) * 10 >= spec_digits_value(t)) by (nonlinear_arith)
            requires
                spec_digits_value(t) >= 0,
        ;
    } else {
        assert(s.subrange(0, i) =~= s);
    }
}

/// The digits of a numeral: the value with one optional leading plus sign
/// removed.
pub open spec fn spec_numeral_digits(s: Seq<char>) -> Seq<char> {
    if s.len() > 0 && s[0] == '+' {
        s.drop_first()
    } else {
        s
    }
}

/// Reads an environment variable's value as a switch: it is on exactly when
/// the value is a number — digits after one optional leading plus sign —
/// in range for the machine, and not zero.
pub fn envvar_to_bool(value: &Option<String>) -> (r: bool)
    ensures
        r == (value matches Some(v) && ({
            let d = spec_numeral_digits(v@);
            &&& d.len() > 0
            &&& spec_all_digits(d)
            &&& spec_digits_value(d) <= usize::MAX
            &&& spec_digits_value(d) != 0
        })),
{
    let v = match value {
        None => {
            return false;
        },
        Some(v) => v,
    };
    let len = v.as_str().unicode_len();
    if len == 0 {
        return false;
    }
    let start: usize = if v.as_str().get_char(0) == '+' {
        1
    } else {
        0
    };
    if start == len {
        return false;
    }
    let ghost digits = spec_numeral_digits(v@);
    proof {
        assert(digits =~= v@.skip(start as int));
    }
    let mut acc: usize = 0;
    let mut i: usize = start;
    while i < len
        invariant
            start <= i <= len,
            start <= 1,
            len == v@.len(),
            start < len,
            value matches Some(vv) && vv == *v,
            digits == spec_numeral_digits(v@),
            digits =~= v@.skip(start as int),
            spec_all_digits(digits.subrange(0, i - start)),
            acc == spec_digits_value(digits.subrange(0, i - start)),
        decreases len - i,
    {
        let c = v.as_str().get_char(i);
        let d = c as u32;
        proof {
            assert(digits[i - start] == v@[i as int]);
        }
        if d < 48 || d > 57 {
            proof {
                assert(('0' as int) == 48 && ('9' as int) == 57);
                assert(!('0' <= digits[i - start] <= '9'));
                assert(!spec_all_digits(digits));
            }
            return false;
        }
        let digit = (d - 48) as usize;
        if acc > (usize::MAX - digit) / 10 {
            proof {
                let t = digits.subrange(0, i - start);
                let u = digits.subrange(0, i - start + 1);
                assert(u.drop_last() =~= t);
                assert(u.last() == digits[i - start]);
                assert(spec_all_digits(u));
                assert(spec_digits_value(u) == acc * 10 + digit);
                assert(acc * 10 + digit > usize::MAX) by (nonlinear_arith)
                    requires
                        acc > (usize::MAX - digit) / 10,
                        0 <= digit <= 9,
                        acc >= 0,
                        usize::MAX >= 9,
                ;
                if spec_all_digits(digits) {
                    lemma_digits_value_prefix(digits, i - start + 1);
                }
            }
            return false;
        }
        proof {
            assert(acc * 10 + digit <= usize::MAX) by (nonlinear_arith)
                requires
                    acc <= (usize::MAX - digit) / 10,
                    0 <= digit <= 9,
                    acc >= 0,
            ;
            let t = digits.subrange(0, i - start);
            let u = digits.subrange(0, i - start + 1);
            assert(u.drop_last() =~= t);
        }
        acc = acc * 10 + digit;
        i = i + 1;
    }
    proof {
        assert(digits.subrange(0, len - start) =~= digits);
    }
    acc != 0
}

/// The terminal column width of a sequence of characters, as the display-width
/// tables give it.
pub uninterp spec fn display_width_of(s: Seq<char>) -> nat;

/// Relies on unicode_width's `UnicodeWidthStr::width`: the column width of a
/// string is a pure, table-driven function of its characters alone, and an
/// empty string occupies no columns.
#[verifier::external_body]
pub(crate) fn display_width(s: &str) -> (r: usize)
    ensures
        r as nat == display_width_of(s@),
        s@.len() == 0 ==> r == 0,
{
    unicode_width::UnicodeWidthStr::width(s)
}

/// Shortens a string, dropping characters from its end until its display
/// width fits the target.  The result is the longest prefix of the input
/// that fits: every longer prefix renders too wide — in particular, an
/// input that already fits comes back whole.
pub fn safe_string_truncate(s: &str, target_size: usize) -> (r: String)
    ensures
        r@.len() <= s@.len(),
        r@ =~= s@.subrange(0, r@.len() as int),
        display_width_of(r@) <= target_size || r@.len() == 0,
        forall|k: int|
            r@.len() < k <= s@.len() ==> display_width_of(#[trigger] s@.subrange(0, k))
                > target_size,
        display_width_of(s@) <= target_size ==> r@ == s@,
{
    let full_len = s.unicode_len();
    let mut len = full_len;
    loop
        invariant
            len <= s@.len(),
            forall|k: int|
                len < k <= s@.len() ==> display_width_of(#[trigger] s@.subrange(0, k))
                    > target_size,
        decreases len,
    {
        let t = s.substring_char(0, len);
        let w = display_width(t);
        if w <= target_size || len == 0 {
            proof {
                if display_width_of(s@) <= target_size {
                    assert(s@.subrange(0, s@.len() as int) =~= s@);
                    assert(len == s@.len());
                }
            }
            return t.to_owned();
        }
        len = len - 1;
    }
}

} // verus!
